//! Writing messages as value trees.
use vstd::prelude::*;
use crate::messages::{
    table_view, Message, MessageView, NodeToNodeVersionData, ProposeVersion, ProposeVersionView,
    VersionTableView,
};
use crate::value::{lemma_array_view, lemma_pairs_view, trees_of, CborValue, ValueTree};

verus! {

/// The tree of a capability list: the array of the capabilities' trees.
pub open spec fn capabilities_tree(data: Seq<NodeToNodeVersionData>) -> ValueTree {
    ValueTree::Array(Seq::new(data.len(), |i: int| data[i].tree()))
}

/// The tree of a version table: one pair for each entry, in the table's
/// order, of the version number and the capability list.
pub open spec fn table_tree(table: VersionTableView) -> ValueTree {
    ValueTree::Pairs(
        Seq::new(
            table.len(),
            |i: int| (ValueTree::Integer(table[i].0), capabilities_tree(table[i].1)),
        ),
    )
}

impl NodeToNodeVersionData {
    /// The tree of a capability: the magic as an integer, the mode as a boolean.
    pub open spec fn tree(self) -> ValueTree {
        match self {
            NodeToNodeVersionData::NetworkMagic(magic) => ValueTree::Integer(magic as i128),
            NodeToNodeVersionData::InitiatorAndResponderDiffusionMode(mode) => ValueTree::Bool(
                mode,
            ),
        }
    }

    /// Writes a capability as a value.
    pub fn to_value(&self) -> (value: CborValue)
        ensures
            value@ == self.tree(),
    {
        match self {
            NodeToNodeVersionData::NetworkMagic(network_magic) => CborValue::Integer(
                *network_magic as i128,
            ),
            NodeToNodeVersionData::InitiatorAndResponderDiffusionMode(mode) => CborValue::Bool(
                *mode,
            ),
        }
    }
}

/// Writes a capability list as an array value.
fn capabilities_to_value(data: &Vec<NodeToNodeVersionData>) -> (value: CborValue)
    ensures
        value@ == capabilities_tree(data@),
{
    let mut version_data: Vec<CborValue> = Vec::new();
    let mut at: usize = 0;
    while at < data.len()
        invariant
            at <= data.len(),
            version_data@.len() == at,
            forall|i: int| 0 <= i < at ==> (#[trigger] version_data@[i])@ == data@[i].tree(),
        decreases data.len() - at,
    {
        version_data.push(data[at].to_value());
        at += 1;
    }
    proof {
        lemma_array_view(version_data);
        assert(trees_of(version_data@) =~= Seq::new(data@.len(), |i: int| data@[i].tree()));
    }
    CborValue::Array(version_data)
}

impl ProposeVersionView {
    /// The tree of a proposal item: the tag as an integer, the table as a
    /// list of pairs.
    pub open spec fn tree(self) -> ValueTree {
        match self {
            ProposeVersionView::Index(index) => ValueTree::Integer(index),
            ProposeVersionView::VersionTable(table) => table_tree(table),
        }
    }
}

impl ProposeVersion {
    /// Writes a proposal item as a value.
    pub fn to_value(&self) -> (value: CborValue)
        ensures
            value@ == self@.tree(),
    {
        match self {
            ProposeVersion::Index(index) => CborValue::Integer(*index),
            ProposeVersion::VersionTable(version_table) => {
                let ghost table = table_view(*version_table);
                let mut values: Vec<(CborValue, CborValue)> = Vec::new();
                let mut at: usize = 0;
                while at < version_table.len()
                    invariant
                        at <= version_table.len(),
                        table == table_view(*version_table),
                        values@.len() == at,
                        forall|i: int|
                            0 <= i < at ==> (#[trigger] values@[i]).0@ == ValueTree::Integer(
                                table[i].0,
                            ) && values@[i].1@ == capabilities_tree(table[i].1),
                    decreases version_table.len() - at,
                {
                    let version_number = CborValue::Integer(version_table[at].0);
                    let version_data = capabilities_to_value(&version_table[at].1);
                    values.push((version_number, version_data));
                    at += 1;
                }
                proof {
                    lemma_pairs_view(values);
                    assert(Seq::new(values@.len(), |i: int| (values@[i].0@, values@[i].1@))
                        =~= Seq::new(
                        table.len(),
                        |i: int| (ValueTree::Integer(table[i].0), capabilities_tree(table[i].1)),
                    ));
                }
                CborValue::Pairs(values)
            },
        }
    }
}

/// The model of what writing a message returned.
pub open spec fn value_outcome(result: Result<CborValue, String>) -> Result<ValueTree, Seq<char>> {
    match result {
        Ok(value) => Ok(value@),
        Err(text) => Err(text@),
    }
}

impl MessageView {
    /// The tree of a message. Only a proposal has one, the array of its
    /// items' trees: this side never sends an acceptance or a refusal.
    pub open spec fn tree(self) -> Result<ValueTree, Seq<char>> {
        match self {
            MessageView::ProposeVersions(items) => Ok(
                ValueTree::Array(Seq::new(items.len(), |i: int| items[i].tree())),
            ),
            _ => Err("Not expecting other value"@),
        }
    }
}

impl Message {
    /// Writes a message as a value.
    pub fn to_value(&self) -> (result: Result<CborValue, String>)
        ensures
            value_outcome(result) == self@.tree(),
    {
        match self {
            Message::ProposeVersions(propose_versions) => {
                let ghost items = self@->ProposeVersions_0;
                let mut values: Vec<CborValue> = Vec::new();
                let mut at: usize = 0;
                while at < propose_versions.len()
                    invariant
                        at <= propose_versions.len(),
                        items.len() == propose_versions@.len(),
                        forall|i: int|
                            0 <= i < items.len() ==> (#[trigger] items[i]) == propose_versions@[i]@,
                        values@.len() == at,
                        forall|i: int| 0 <= i < at ==> (#[trigger] values@[i])@ == items[i].tree(),
                    decreases propose_versions.len() - at,
                {
                    values.push(propose_versions[at].to_value());
                    at += 1;
                }
                proof {
                    lemma_array_view(values);
                    assert(trees_of(values@) =~= Seq::new(items.len(), |i: int| items[i].tree()));
                }
                Ok(CborValue::Array(values))
            },
            _ => Err("Not expecting other value".to_owned()),
        }
    }
}

/// What this side writes, it does not read back: the tree of a proposal is
/// no acceptance and no refusal, so reading it gives an error.
pub proof fn lemma_proposal_is_not_read_back(message: MessageView)
    requires
        message is ProposeVersions,
    ensures
        message.tree() is Ok,
        MessageView::decoded(message.tree()->Ok_0) is Err,
{
    let items = message->ProposeVersions_0;
    let trees = message.tree()->Ok_0->Array_0;
    if items.len() > 0 {
        assert(trees[0] == items[0].tree());
    }
    if items.len() > 1 {
        assert(trees[1] == items[1].tree());
    }
    if items.len() > 2 {
        assert(trees[2] == items[2].tree());
    }
}

/// Only a proposal is written as a value: an acceptance and a refusal are
/// refused, with the same error.
pub proof fn lemma_only_proposals_are_written(message: MessageView)
    ensures
        message.tree() is Ok <==> message is ProposeVersions,
        !(message is ProposeVersions) ==> message.tree() == Err::<ValueTree, Seq<char>>(
            "Not expecting other value"@,
        ),
{
}

} // verus!

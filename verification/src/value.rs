//! The value tree that handshake messages are written to and read from.
use vstd::prelude::*;

verus! {

/// The smallest integer that a data item holds without big-number encoding: -(2^64).
pub const MIN_INTEGER: i128 = -18446744073709551616;

/// The largest integer that a data item holds without big-number encoding: 2^64 - 1.
pub const MAX_INTEGER: i128 = 18446744073709551615;

/// The mathematical model of a self-describing data item: an integer, a text,
/// a boolean, an array of items, or a map. `Other` stands for every kind of
/// item that a handshake message never carries (byte strings, floats, null,
/// tagged items).
pub enum ValueTree {
    /// An integer.
    Integer(i128),
    /// A text.
    Text(Seq<char>),
    /// A boolean.
    Bool(bool),
    /// An array: its items in order.
    Array(Seq<ValueTree>),
    /// A map: its pairs of key and value, in the order they were written.
    /// Nothing keeps a key from occurring twice.
    Pairs(Seq<(ValueTree, ValueTree)>),
    /// An item of any other kind.
    Other,
}

impl ValueTree {
    /// A tree that can be written out as it stands: it holds no `Other` item,
    /// and each of its integers lies between `MIN_INTEGER` and `MAX_INTEGER`.
    pub open spec fn representable(self) -> bool
        decreases self,
    {
        match self {
            ValueTree::Integer(i) => MIN_INTEGER <= i <= MAX_INTEGER,
            ValueTree::Text(_) => true,
            ValueTree::Bool(_) => true,
            ValueTree::Array(items) => forall|i: int|
                0 <= i < items.len() ==> (#[trigger] items[i]).representable(),
            ValueTree::Pairs(entries) => forall|i: int|
                0 <= i < entries.len() ==> (#[trigger] entries[i]).0.representable()
                    && entries[i].1.representable(),
            ValueTree::Other => false,
        }
    }
}

/// A data item as the program holds it. Its view is a `ValueTree`.
#[derive(Debug, PartialEq)]
pub enum CborValue {
    /// An integer.
    Integer(i128),
    /// A text.
    Text(String),
    /// A boolean.
    Bool(bool),
    /// An array: its items in order.
    Array(Vec<CborValue>),
    /// A map: its pairs of key and value, in the order they were written.
    Pairs(Vec<(CborValue, CborValue)>),
    /// An item of any other kind: a byte string, a float, null, a tagged item.
    Other,
}

/// The tree that a value stands for.
pub open spec fn tree_of(value: CborValue) -> ValueTree
    decreases value,
{
    match value {
        CborValue::Integer(i) => ValueTree::Integer(i),
        CborValue::Text(t) => ValueTree::Text(t@),
        CborValue::Bool(b) => ValueTree::Bool(b),
        CborValue::Array(items) => ValueTree::Array(
            Seq::new(
                items@.len(),
                |i: int|
                    if 0 <= i < items@.len() {
                        tree_of(items@[i])
                    } else {
                        ValueTree::Other
                    },
            ),
        ),
        CborValue::Pairs(entries) => ValueTree::Pairs(
            Seq::new(
                entries@.len(),
                |i: int|
                    if 0 <= i < entries@.len() {
                        (tree_of(entries@[i].0), tree_of(entries@[i].1))
                    } else {
                        (ValueTree::Other, ValueTree::Other)
                    },
            ),
        ),
        CborValue::Other => ValueTree::Other,
    }
}

impl View for CborValue {
    type V = ValueTree;

    open spec fn view(&self) -> ValueTree {
        tree_of(*self)
    }
}

/// The trees of a sequence of values, one by one.
pub open spec fn trees_of(values: Seq<CborValue>) -> Seq<ValueTree> {
    Seq::new(values.len(), |i: int| values[i]@)
}

/// The view of an array is the array of its items' views.
pub proof fn lemma_array_view(items: Vec<CborValue>)
    ensures
        CborValue::Array(items)@ == ValueTree::Array(trees_of(items@)),
{
    assert(CborValue::Array(items)@->Array_0 =~= trees_of(items@));
}

/// The view of a list of pairs is the list of the pairs' views.
pub proof fn lemma_pairs_view(entries: Vec<(CborValue, CborValue)>)
    ensures
        CborValue::Pairs(entries)@ == ValueTree::Pairs(
            Seq::new(entries@.len(), |i: int| (entries@[i].0@, entries@[i].1@)),
        ),
{
    assert(CborValue::Pairs(entries)@->Pairs_0 =~= Seq::new(
        entries@.len(),
        |i: int| (entries@[i].0@, entries@[i].1@),
    ));
}

} // verus!

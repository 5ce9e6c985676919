//! Building the table of offered versions.
use vstd::prelude::*;
use crate::messages::{
    table_view, NodeToNodeVersionData, ProposeVersion, ProposeVersionView, VersionNumber,
    VersionTable, VersionTableView,
};

verus! {

/// The capabilities offered for every version: the network magic first, then
/// the diffusion mode, which is always `false`.
pub open spec fn offered_capabilities(network_magic: u32) -> Seq<NodeToNodeVersionData> {
    seq![
        NodeToNodeVersionData::NetworkMagic(network_magic),
        NodeToNodeVersionData::InitiatorAndResponderDiffusionMode(false),
    ]
}

/// The version numbers of a table rise from each entry to the next, so none
/// occurs twice.
pub open spec fn strictly_ascending(table: VersionTableView) -> bool {
    forall|i: int, j: int| 0 <= i < j < table.len() ==> table[i].0 < table[j].0
}

/// The table has an entry for `version`.
pub open spec fn holds_version(table: VersionTableView, version: VersionNumber) -> bool {
    exists|i: int| 0 <= i < table.len() && (#[trigger] table[i]).0 == version
}

/// `version` is one of the numbers in `versions`.
pub open spec fn names_version(versions: Seq<i64>, version: VersionNumber) -> bool {
    exists|j: int| 0 <= j < versions.len() && #[trigger] versions[j] == version
}

/// `table` is the version table for the supported `versions` and the network
/// magic: it is strictly ascending, it has an entry for a number exactly
/// where `versions` names that number, and each entry offers the same
/// capabilities.
pub open spec fn is_version_table_of(
    table: VersionTableView,
    versions: Seq<i64>,
    network_magic: u32,
) -> bool {
    &&& strictly_ascending(table)
    &&& forall|version: VersionNumber|
        #![trigger holds_version(table, version)]
        #![trigger names_version(versions, version)]
        holds_version(table, version) <==> names_version(versions, version)
    &&& forall|i: int|
        0 <= i < table.len() ==> (#[trigger] table[i]).1 == offered_capabilities(network_magic)
}

/// The version table for the supported `versions` and the network magic.
/// There is exactly one: see `lemma_version_table_is_unique`.
pub open spec fn version_table_of(versions: Seq<i64>, network_magic: u32) -> VersionTableView {
    choose|table: VersionTableView| is_version_table_of(table, versions, network_magic)
}

/// Adding one more candidate adds its number to those named, and nothing else.
proof fn lemma_names_one_more(versions: Seq<i64>, at: int, version: VersionNumber)
    requires
        0 <= at < versions.len(),
    ensures
        names_version(versions.take(at + 1), version) <==> (names_version(
            versions.take(at),
            version,
        ) || versions[at] == version),
{
    let shorter = versions.take(at);
    let longer = versions.take(at + 1);
    if names_version(longer, version) {
        let j = choose|j: int| 0 <= j < longer.len() && #[trigger] longer[j] == version;
        if j < at {
            assert(shorter[j] == version);
        }
    }
    if names_version(shorter, version) {
        let j = choose|j: int| 0 <= j < shorter.len() && #[trigger] shorter[j] == version;
        assert(longer[j] == version);
    }
    if versions[at] == version {
        assert(longer[at] == version);
    }
}

/// Inserting an entry adds its number to those held, and nothing else.
proof fn lemma_holds_after_insert(
    table: VersionTableView,
    at: int,
    entry: (VersionNumber, Seq<NodeToNodeVersionData>),
    version: VersionNumber,
)
    requires
        0 <= at <= table.len(),
    ensures
        holds_version(table.insert(at, entry), version) <==> (holds_version(table, version)
            || entry.0 == version),
{
    let longer = table.insert(at, entry);
    table.insert_ensures(at, entry);
    if holds_version(longer, version) {
        let i = choose|i: int| 0 <= i < longer.len() && (#[trigger] longer[i]).0 == version;
        if i < at {
            assert(table[i].0 == version);
        } else if i > at {
            assert(longer[(i - 1) + 1] == table[i - 1]);
            assert(table[i - 1].0 == version);
        }
    }
    if holds_version(table, version) {
        let i = choose|i: int| 0 <= i < table.len() && (#[trigger] table[i]).0 == version;
        if i < at {
            assert(longer[i].0 == version);
        } else {
            assert(longer[i + 1] == table[i]);
            assert(longer[i + 1].0 == version);
        }
    }
    if entry.0 == version {
        assert(longer[at].0 == version);
    }
}

/// The place where the entry for `version` belongs in an ascending table:
/// after the entries with smaller numbers and before those with greater ones.
pub open spec fn is_place_for(table: VersionTableView, version: VersionNumber, place: int) -> bool {
    &&& 0 <= place <= table.len()
    &&& forall|i: int| 0 <= i < place ==> (#[trigger] table[i]).0 < version
    &&& forall|i: int| place <= i < table.len() ==> version < (#[trigger] table[i]).0
}

/// A candidate whose number the table holds already leaves the table as it is.
proof fn lemma_table_when_version_is_held(
    table: VersionTableView,
    versions: Seq<i64>,
    at: int,
    network_magic: u32,
)
    requires
        0 <= at < versions.len(),
        is_version_table_of(table, versions.take(at), network_magic),
        holds_version(table, versions[at] as VersionNumber),
    ensures
        is_version_table_of(table, versions.take(at + 1), network_magic),
{
    let seen = versions.take(at + 1);
    assert forall|other: VersionNumber|
        #![trigger holds_version(table, other)]
        #![trigger names_version(seen, other)]
        holds_version(table, other) <==> names_version(seen, other) by {
        lemma_names_one_more(versions, at, other);
    }
}

/// A candidate whose number the table does not hold yet gets an entry at the
/// place where it belongs.
proof fn lemma_table_when_version_is_inserted(
    table: VersionTableView,
    versions: Seq<i64>,
    at: int,
    network_magic: u32,
    place: int,
)
    requires
        0 <= at < versions.len(),
        is_version_table_of(table, versions.take(at), network_magic),
        is_place_for(table, versions[at] as VersionNumber, place),
    ensures
        is_version_table_of(
            table.insert(
                place,
                (versions[at] as VersionNumber, offered_capabilities(network_magic)),
            ),
            versions.take(at + 1),
            network_magic,
        ),
{
    let version = versions[at] as VersionNumber;
    let entry = (version, offered_capabilities(network_magic));
    let after = table.insert(place, entry);
    let seen = versions.take(at + 1);
    table.insert_ensures(place, entry);
    assert forall|i: int, j: int| 0 <= i < j < after.len() implies after[i].0 < after[j].0 by {
        if j < place {
            assert(table[i].0 < table[j].0);
        } else if j == place {
            assert(table[i].0 < version);
        } else if i < place {
            assert(after[(j - 1) + 1] == table[j - 1]);
            assert(table[i].0 < table[j - 1].0);
        } else if i == place {
            assert(after[(j - 1) + 1] == table[j - 1]);
            assert(version < table[j - 1].0);
        } else {
            assert(after[(i - 1) + 1] == table[i - 1]);
            assert(after[(j - 1) + 1] == table[j - 1]);
            assert(table[i - 1].0 < table[j - 1].0);
        }
    }
    assert forall|other: VersionNumber|
        #![trigger holds_version(after, other)]
        #![trigger names_version(seen, other)]
        holds_version(after, other) <==> names_version(seen, other) by {
        lemma_names_one_more(versions, at, other);
        lemma_holds_after_insert(table, place, entry, other);
    }
    assert forall|i: int| 0 <= i < after.len() implies (#[trigger] after[i]).1
        == offered_capabilities(network_magic) by {
        if i < place {
            assert(after[i] == table[i]);
        } else if i > place {
            assert(after[(i - 1) + 1] == table[i - 1]);
        }
    }
}

/// In an ascending table there is a place for every number that it does not
/// hold.
proof fn lemma_place_exists(table: VersionTableView, version: VersionNumber) -> (place: int)
    requires
        strictly_ascending(table),
        !holds_version(table, version),
    ensures
        is_place_for(table, version, place),
    decreases table.len(),
{
    if table.len() == 0 {
        0
    } else {
        let last = table.len() - 1;
        assert(table[last].0 != version);
        if table[last].0 < version {
            assert forall|i: int| 0 <= i < table.len() implies (#[trigger] table[i]).0 < version by {
                if i < last {
                    assert(table[i].0 < table[last].0);
                }
            }
            table.len() as int
        } else {
            let shorter = table.drop_last();
            assert forall|i: int, j: int| 0 <= i < j < shorter.len() implies shorter[i].0
                < shorter[j].0 by {
                assert(table[i].0 < table[j].0);
            }
            if holds_version(shorter, version) {
                let i = choose|i: int| 0 <= i < shorter.len() && (#[trigger] shorter[i]).0 == version;
                assert(table[i].0 == version);
            }
            let place = lemma_place_exists(shorter, version);
            assert forall|i: int| 0 <= i < place implies (#[trigger] table[i]).0 < version by {
                assert(shorter[i].0 < version);
            }
            assert forall|i: int| place <= i < table.len() implies version < (
            #[trigger] table[i]).0 by {
                if i < last {
                    assert(version < shorter[i].0);
                }
            }
            place
        }
    }
}

/// The first `count` candidates have a version table.
proof fn lemma_table_of_first_candidates(versions: Seq<i64>, network_magic: u32, count: int) -> (table:
    VersionTableView)
    requires
        0 <= count <= versions.len(),
    ensures
        is_version_table_of(table, versions.take(count), network_magic),
    decreases count,
{
    if count == 0 {
        let table: VersionTableView = Seq::empty();
        let seen = versions.take(0);
        assert forall|other: VersionNumber|
            #![trigger holds_version(table, other)]
            #![trigger names_version(seen, other)]
            holds_version(table, other) <==> names_version(seen, other) by {}
        table
    } else {
        let at = count - 1;
        let before = lemma_table_of_first_candidates(versions, network_magic, at);
        let version = versions[at] as VersionNumber;
        if holds_version(before, version) {
            lemma_table_when_version_is_held(before, versions, at, network_magic);
            before
        } else {
            let place = lemma_place_exists(before, version);
            lemma_table_when_version_is_inserted(before, versions, at, network_magic, place);
            before.insert(place, (version, offered_capabilities(network_magic)))
        }
    }
}

/// Every list of supported versions has a version table, so
/// `version_table_of` names one.
pub proof fn lemma_version_table_exists(versions: Seq<i64>, network_magic: u32)
    ensures
        is_version_table_of(version_table_of(versions, network_magic), versions, network_magic),
{
    let table = lemma_table_of_first_candidates(versions, network_magic, versions.len() as int);
    assert(versions.take(versions.len() as int) =~= versions);
}

/// Past its first entry, an ascending table holds what it held before,
/// but for the number of that first entry.
proof fn lemma_holds_in_rest(table: VersionTableView, version: VersionNumber)
    requires
        strictly_ascending(table),
        table.len() > 0,
    ensures
        strictly_ascending(table.subrange(1, table.len() as int)),
        holds_version(table.subrange(1, table.len() as int), version) <==> (holds_version(
            table,
            version,
        ) && version != table[0].0),
{
    let rest = table.subrange(1, table.len() as int);
    assert forall|i: int, j: int| 0 <= i < j < rest.len() implies rest[i].0 < rest[j].0 by {
        assert(table[i + 1].0 < table[j + 1].0);
    }
    if holds_version(rest, version) {
        let i = choose|i: int| 0 <= i < rest.len() && (#[trigger] rest[i]).0 == version;
        assert(table[i + 1].0 == version);
        assert(table[0].0 < table[i + 1].0);
    }
    if holds_version(table, version) && version != table[0].0 {
        let i = choose|i: int| 0 <= i < table.len() && (#[trigger] table[i]).0 == version;
        assert(rest[i - 1].0 == version);
    }
}

/// Two ascending tables that hold the same version numbers have them at the
/// same places.
proof fn lemma_same_versions_same_places(first: VersionTableView, second: VersionTableView)
    requires
        strictly_ascending(first),
        strictly_ascending(second),
        forall|version: VersionNumber|
            #![trigger holds_version(first, version)]
            #![trigger holds_version(second, version)]
            holds_version(first, version) <==> holds_version(second, version),
    ensures
        first.len() == second.len(),
        forall|i: int| 0 <= i < first.len() ==> (#[trigger] first[i]).0 == second[i].0,
    decreases first.len(),
{
    if first.len() == 0 {
        if second.len() > 0 {
            assert(holds_version(second, second[0].0));
            assert(holds_version(first, second[0].0));
        }
    } else {
        assert(holds_version(first, first[0].0));
        assert(holds_version(second, first[0].0));
        let k = choose|k: int| 0 <= k < second.len() && (#[trigger] second[k]).0 == first[0].0;
        assert(holds_version(second, second[0].0));
        assert(holds_version(first, second[0].0));
        let l = choose|l: int| 0 <= l < first.len() && (#[trigger] first[l]).0 == second[0].0;
        if k > 0 {
            assert(second[0].0 < second[k].0);
        }
        if l > 0 {
            assert(first[0].0 < first[l].0);
        }
        assert(first[0].0 == second[0].0);
        let first_rest = first.subrange(1, first.len() as int);
        let second_rest = second.subrange(1, second.len() as int);
        assert forall|version: VersionNumber|
            #![trigger holds_version(first_rest, version)]
            #![trigger holds_version(second_rest, version)]
            holds_version(first_rest, version) <==> holds_version(second_rest, version) by {
            lemma_holds_in_rest(first, version);
            lemma_holds_in_rest(second, version);
        }
        lemma_holds_in_rest(first, first[0].0);
        lemma_holds_in_rest(second, first[0].0);
        lemma_same_versions_same_places(first_rest, second_rest);
        assert forall|i: int| 0 <= i < first.len() implies (#[trigger] first[i]).0
            == second[i].0 by {
            if i > 0 {
                assert(first_rest[i - 1].0 == second_rest[i - 1].0);
            }
        }
    }
}

/// The version table of a list of supported versions and a network magic is
/// unique: whatever satisfies `is_version_table_of` for them is the same
/// table.
pub proof fn lemma_version_table_is_unique(
    first: VersionTableView,
    second: VersionTableView,
    versions: Seq<i64>,
    network_magic: u32,
)
    requires
        is_version_table_of(first, versions, network_magic),
        is_version_table_of(second, versions, network_magic),
    ensures
        first == second,
{
    assert forall|version: VersionNumber|
        #![trigger holds_version(first, version)]
        #![trigger holds_version(second, version)]
        holds_version(first, version) <==> holds_version(second, version) by {
        assert(holds_version(first, version) <==> names_version(versions, version));
        assert(holds_version(second, version) <==> names_version(versions, version));
    }
    lemma_same_versions_same_places(first, second);
    assert forall|i: int| 0 <= i < first.len() implies first[i] == second[i] by {
        assert(first[i].0 == second[i].0);
        assert(first[i].1 == offered_capabilities(network_magic));
        assert(second[i].1 == offered_capabilities(network_magic));
    }
    assert(first =~= second);
}

/// The table has each supported version exactly once: there is an entry for
/// it, and no second one.
pub proof fn lemma_version_table_holds_each_version_once(
    table: VersionTableView,
    versions: Seq<i64>,
    network_magic: u32,
    at: int,
) -> (place: int)
    requires
        is_version_table_of(table, versions, network_magic),
        0 <= at < versions.len(),
    ensures
        0 <= place < table.len(),
        table[place] == (versions[at] as VersionNumber, offered_capabilities(network_magic)),
        forall|other: int|
            0 <= other < table.len() && (#[trigger] table[other]).0 == versions[at] ==> other
                == place,
{
    let version = versions[at] as VersionNumber;
    assert(names_version(versions, version));
    assert(holds_version(table, version));
    let place = choose|i: int| 0 <= i < table.len() && (#[trigger] table[i]).0 == version;
    assert forall|other: int|
        0 <= other < table.len() && (#[trigger] table[other]).0 == versions[at] implies other
        == place by {
        if other < place {
            assert(table[other].0 < table[place].0);
        } else if place < other {
            assert(table[place].0 < table[other].0);
        }
    }
    place
}

/// The order of the candidates, and how often each occurs, make no
/// difference to the table: two lists that name the same numbers have the
/// same table.
pub proof fn lemma_version_table_ignores_order_and_repeats(
    first: VersionTableView,
    first_versions: Seq<i64>,
    second: VersionTableView,
    second_versions: Seq<i64>,
    network_magic: u32,
)
    requires
        is_version_table_of(first, first_versions, network_magic),
        is_version_table_of(second, second_versions, network_magic),
        forall|version: VersionNumber|
            #![trigger names_version(first_versions, version)]
            #![trigger names_version(second_versions, version)]
            names_version(first_versions, version) <==> names_version(second_versions, version),
    ensures
        first == second,
{
    assert forall|version: VersionNumber|
        #![trigger holds_version(first, version)]
        #![trigger names_version(second_versions, version)]
        holds_version(first, version) <==> names_version(second_versions, version) by {
        assert(holds_version(first, version) <==> names_version(first_versions, version));
        assert(names_version(first_versions, version) <==> names_version(
            second_versions,
            version,
        ));
    }
    lemma_version_table_is_unique(first, second, second_versions, network_magic);
}

/// Looks for `version` among the entries of an ascending table: `Ok` with
/// the place of its entry, or `Err` with the place where its entry belongs.
fn search_version(table: &VersionTable, version: VersionNumber) -> (found: Result<usize, usize>)
    requires
        strictly_ascending(table_view(*table)),
    ensures
        match found {
            Ok(at) => at < table.len() && table_view(*table)[at as int].0 == version,
            Err(at) => is_place_for(table_view(*table), version, at as int),
        },
{
    let ghost view = table_view(*table);
    let mut low: usize = 0;
    let mut high: usize = table.len();
    while low < high
        invariant
            low <= high <= table.len(),
            view == table_view(*table),
            strictly_ascending(view),
            forall|i: int| 0 <= i < low ==> (#[trigger] view[i]).0 < version,
            forall|i: int| high <= i < table.len() ==> version < (#[trigger] view[i]).0,
        decreases high - low,
    {
        let middle = low + (high - low) / 2;
        let key = table[middle].0;
        assert(key == view[middle as int].0);
        if key == version {
            return Ok(middle);
        } else if key < version {
            assert forall|i: int| 0 <= i < middle + 1 implies (#[trigger] view[i]).0 < version by {
                if i < middle {
                    assert(view[i].0 < view[middle as int].0);
                }
            }
            low = middle + 1;
        } else {
            assert forall|i: int| middle <= i < table.len() implies version < (
            #[trigger] view[i]).0 by {
                if middle < i {
                    assert(view[middle as int].0 < view[i].0);
                }
            }
            high = middle;
        }
    }
    Err(low)
}

impl ProposeVersion {
    /// Builds the version table for the supported versions: each distinct
    /// number once, in ascending order whatever the order of the candidates,
    /// each with the network magic and the diffusion mode `false`.
    pub fn create_version_table(supported_versions: &Vec<i64>, network_magic: u32) -> (proposal:
        ProposeVersion)
        ensures
            proposal@ matches ProposeVersionView::VersionTable(table) && is_version_table_of(
                table,
                supported_versions@,
                network_magic,
            ),
            proposal@ == ProposeVersionView::VersionTable(
                version_table_of(supported_versions@, network_magic),
            ),
    {
        let mut version_table: VersionTable = Vec::new();
        let mut at: usize = 0;
        while at < supported_versions.len()
            invariant
                at <= supported_versions.len(),
                is_version_table_of(
                    table_view(version_table),
                    supported_versions@.take(at as int),
                    network_magic,
                ),
            decreases supported_versions.len() - at,
        {
            let version = supported_versions[at] as i128;
            let ghost before = table_view(version_table);
            match search_version(&version_table, version) {
                Ok(place) => {
                    proof {
                        assert(before[place as int].0 == version);
                        lemma_table_when_version_is_held(
                            before,
                            supported_versions@,
                            at as int,
                            network_magic,
                        );
                    }
                },
                Err(place) => {
                    let capabilities = vec![
                        NodeToNodeVersionData::NetworkMagic(network_magic),
                        NodeToNodeVersionData::InitiatorAndResponderDiffusionMode(false),
                    ];
                    assert(capabilities@ =~= offered_capabilities(network_magic));
                    let ghost entry = (version, capabilities@);
                    version_table.insert(place, (version, capabilities));
                    proof {
                        assert(table_view(version_table) =~= before.insert(place as int, entry));
                        lemma_table_when_version_is_inserted(
                            before,
                            supported_versions@,
                            at as int,
                            network_magic,
                            place as int,
                        );
                    }
                },
            }
            at += 1;
        }
        proof {
            assert(supported_versions@.take(at as int) =~= supported_versions@);
            lemma_version_table_is_unique(
                table_view(version_table),
                version_table_of(supported_versions@, network_magic),
                supported_versions@,
                network_magic,
            );
        }
        ProposeVersion::VersionTable(version_table)
    }
}

} // verus!

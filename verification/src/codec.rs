//! The byte encoding of value trees, done by the `ciborium` crate.
use vstd::prelude::*;
use vstd::std_specs::vec::axiom_vec_index_decreases;
use crate::value::{
    lemma_array_view, lemma_pairs_view, trees_of, CborValue, ValueTree, MAX_INTEGER, MIN_INTEGER,
};

verus! {

/// `ciborium::Value`, a data item as `ciborium` holds it. Nothing of what is
/// inside is known here but through `item_tree`.
#[verifier::external_type_specification]
#[verifier::external_body]
pub struct ExItem(ciborium::Value);

/// `std::io::Error`, the error of a reader. Nothing of it is looked at.
#[verifier::external_type_specification]
#[verifier::external_body]
pub struct ExIoError(std::io::Error);

/// `ciborium::de::Error`, why `ciborium` read no data item. Nothing of it is
/// looked at.
#[verifier::external_type_specification]
#[verifier::external_body]
#[verifier::reject_recursive_types(T)]
pub struct ExReadError<T>(ciborium::de::Error<T>);

/// The tree that a `ciborium::Value` holds: what `import_item` makes of it.
pub uninterp spec fn item_tree(item: ciborium::Value) -> ValueTree;

/// The bytes that `ciborium::into_writer` writes for a value that holds the
/// given tree.
pub uninterp spec fn cbor_encoding(tree: ValueTree) -> Seq<u8>;

/// The tree of the value that `ciborium::from_reader` reads from the given
/// bytes, or `None` where it reads none.
pub uninterp spec fn cbor_decoding(bytes: Seq<u8>) -> Option<ValueTree>;

/// Turns a `ciborium::Value` into a value of this library, variant by
/// variant: integers (through `i128::from`), texts, booleans, arrays and maps
/// keep what they hold, and every other kind of item becomes `Other`. The
/// contract says no more than that `item_tree` is the name of what comes out.
#[verifier::external_body]
fn import_item(item: ciborium::Value) -> (value: CborValue)
    ensures
        value@ == item_tree(item),
{
    match item {
        ciborium::Value::Integer(i) => CborValue::Integer(i.into()),
        ciborium::Value::Text(t) => CborValue::Text(t),
        ciborium::Value::Bool(b) => CborValue::Bool(b),
        ciborium::Value::Array(a) => CborValue::Array(a.into_iter().map(import_item).collect()),
        ciborium::Value::Map(m) => CborValue::Pairs(
            m.into_iter().map(|(k, v)| (import_item(k), import_item(v))).collect(),
        ),
        _ => CborValue::Other,
    }
}

/// Builds the `ciborium::Value` that holds the tree of a representable
/// value, variant by variant: `ciborium::Value::from` keeps an integer
/// between `MIN_INTEGER` and `MAX_INTEGER` as an integer, and the other
/// constructors keep what they are given. The contract claims that
/// `import_item` would turn the result back into an equal tree.
#[verifier::external_body]
fn export_item(value: &CborValue) -> (item: ciborium::Value)
    requires
        value@.representable(),
    ensures
        item_tree(item) == value@,
{
    match value {
        CborValue::Integer(i) => ciborium::Value::from(*i),
        CborValue::Text(t) => ciborium::Value::Text(t.clone()),
        CborValue::Bool(b) => ciborium::Value::Bool(*b),
        CborValue::Array(a) => ciborium::Value::Array(a.iter().map(export_item).collect()),
        CborValue::Pairs(m) => ciborium::Value::Map(
            m.iter().map(|e| (export_item(&e.0), export_item(&e.1))).collect(),
        ),
        CborValue::Other => ciborium::Value::Null,
    }
}

/// `ciborium::from_reader` on a byte slice: reads one data item from the
/// front of the bytes, or fails. The contract claims only that the result
/// depends on the bytes alone, and gives it the name `cbor_decoding`.
#[verifier::external_body]
fn read_item(bytes: &[u8]) -> (read: Result<ciborium::Value, ciborium::de::Error<std::io::Error>>)
    ensures
        match read {
            Ok(item) => cbor_decoding(bytes@) == Some(item_tree(item)),
            Err(_) => cbor_decoding(bytes@) is None,
        },
{
    ciborium::from_reader(bytes)
}

/// `ciborium::into_writer` on a vector: appends the encoding of the item.
/// The contract claims that the bytes appended depend on the tree of the
/// item alone, and gives them the name `cbor_encoding`; and that the call
/// succeeds: writing to a vector does not fail, and the serializer refuses
/// none of the kinds of item that a representable tree holds.
#[verifier::external_body]
fn write_item(item: &ciborium::Value, out: &mut Vec<u8>)
    requires
        item_tree(*item).representable(),
    ensures
        final(out)@ == old(out)@ + cbor_encoding(item_tree(*item)),
{
    ciborium::into_writer(item, out).unwrap()
}

/// Appends the encoding of `value` to `out`. Only a representable value has
/// an encoding here; `try_encode_value` takes any value.
pub fn encode_value(value: &CborValue, out: &mut Vec<u8>)
    requires
        value@.representable(),
    ensures
        final(out)@ == old(out)@ + cbor_encoding(value@),
{
    let item = export_item(value);
    write_item(&item, out);
}

/// Tells whether a value can be written out as it stands.
pub fn is_representable(value: &CborValue) -> (representable: bool)
    ensures
        representable == value@.representable(),
    decreases value,
{
    match value {
        CborValue::Integer(number) => MIN_INTEGER <= *number && *number <= MAX_INTEGER,
        CborValue::Text(_) => true,
        CborValue::Bool(_) => true,
        CborValue::Array(items) => {
            proof {
                lemma_array_view(*items);
            }
            let mut at: usize = 0;
            while at < items.len()
                invariant
                    at <= items.len(),
                    value == CborValue::Array(*items),
                    value@ == ValueTree::Array(trees_of(items@)),
                    forall|i: int| 0 <= i < at ==> (#[trigger] items@[i])@.representable(),
                decreases items.len() - at,
            {
                proof {
                    axiom_vec_index_decreases(*items, at as int);
                }
                if !is_representable(&items[at]) {
                    assert(!value@->Array_0[at as int].representable());
                    return false;
                }
                at += 1;
            }
            assert forall|i: int| 0 <= i < trees_of(items@).len() implies (
            #[trigger] trees_of(items@)[i]).representable() by {
                assert(items@[i]@.representable());
            }
            true
        },
        CborValue::Pairs(entries) => {
            proof {
                lemma_pairs_view(*entries);
            }
            let ghost pairs = Seq::new(entries@.len(), |i: int| (entries@[i].0@, entries@[i].1@));
            let mut at: usize = 0;
            while at < entries.len()
                invariant
                    at <= entries.len(),
                    value == CborValue::Pairs(*entries),
                    value@ == ValueTree::Pairs(pairs),
                    pairs == Seq::new(entries@.len(), |i: int| (entries@[i].0@, entries@[i].1@)),
                    forall|i: int|
                        0 <= i < at ==> (#[trigger] entries@[i]).0@.representable()
                            && entries@[i].1@.representable(),
                decreases entries.len() - at,
            {
                proof {
                    axiom_vec_index_decreases(*entries, at as int);
                }
                if !is_representable(&entries[at].0) || !is_representable(&entries[at].1) {
                    assert(!(value@->Pairs_0[at as int].0.representable()
                        && value@->Pairs_0[at as int].1.representable()));
                    return false;
                }
                at += 1;
            }
            assert forall|i: int| 0 <= i < pairs.len() implies (#[trigger] pairs[i]).0.representable()
                && pairs[i].1.representable() by {
                assert(entries@[i].0@.representable());
            }
            true
        },
        CborValue::Other => false,
    }
}

/// Appends the encoding of `value` to `out` where the value can be written
/// out as it stands, and says whether it did; otherwise `out` stays as it is.
pub fn try_encode_value(value: &CborValue, out: &mut Vec<u8>) -> (written: bool)
    ensures
        written == value@.representable(),
        written ==> final(out)@ == old(out)@ + cbor_encoding(value@),
        !written ==> final(out)@ == old(out)@,
{
    if is_representable(value) {
        encode_value(value, out);
        true
    } else {
        false
    }
}

/// Reads one value from the front of `bytes`; `None` where the bytes do not
/// start with a data item.
pub fn decode_value(bytes: &[u8]) -> (value: Option<CborValue>)
    ensures
        match value {
            Some(v) => cbor_decoding(bytes@) == Some(v@),
            None => cbor_decoding(bytes@) is None,
        },
{
    match read_item(bytes) {
        Ok(item) => Some(import_item(item)),
        Err(_) => None,
    }
}

} // verus!

//! Reading messages from the value trees that a peer sent.
use vstd::prelude::*;
use vstd::string::*;
use crate::messages::{
    AcceptVersion, AcceptVersionView, Index, Message, MessageView, NodeToNodeVersionData,
    RefuseReason, RefuseReasonView, VersionNumber,
};
use crate::text::{decimal, decimal_text, lemma_decimal_text_is_injective};
use crate::value::{lemma_array_view, trees_of, CborValue, ValueTree};

verus! {

/// What was found wrong with a value tree that does not read as a message:
/// which item is missing, of the wrong kind, or a tag that is not known.
pub enum DecodeFailure {
    /// The message is no array.
    MessageNotArray,
    /// The message has no tag.
    MessageIndexMissing,
    /// The tag of the message is no integer.
    MessageIndexNotInteger,
    /// The tag of the message is an integer other than 1 and 2.
    MessageIndexUnknown(Index),
    /// An acceptance has no version number.
    AcceptVersionNumberMissing,
    /// An acceptance has no capability list.
    AcceptVersionDataMissing,
    /// The version number of an acceptance is no integer.
    AcceptVersionNumberNotInteger,
    /// The capability list of an acceptance is no array.
    AcceptVersionDataNotArray,
    /// An item of a capability list is neither an integer nor a boolean.
    VersionDataOfOtherKind,
    /// A refusal has no reason.
    RefuseReasonMissing,
    /// The reason of a refusal is no array.
    RefuseReasonNotArray,
    /// The reason of a refusal has no tag.
    RefuseReasonIndexMissing,
    /// The tag of a refusal reason is no integer.
    RefuseReasonIndexNotInteger,
    /// The tag of a refusal reason is an integer other than 0, 1 and 2.
    RefuseReasonIndexUnknown,
    /// An item of the version list of a version mismatch is no integer.
    MismatchVersionNotInteger,
    /// A decode-error refusal has no version number.
    DecodeErrorVersionMissing,
    /// The version number of a decode-error refusal is no integer.
    DecodeErrorVersionNotInteger,
    /// A decode-error refusal has no text.
    DecodeErrorTextMissing,
    /// The text of a decode-error refusal is no text.
    DecodeErrorTextNotText,
    /// A plain refusal has no version number.
    RefusedVersionMissing,
    /// The version number of a plain refusal is no integer.
    RefusedVersionNotInteger,
    /// A plain refusal has no text.
    RefusedTextMissing,
    /// The text of a plain refusal is no text.
    RefusedTextNotText,
}

impl DecodeFailure {
    /// The text that reports the failure. Each failure has a text of its
    /// own: see `lemma_text_names_the_failure`.
    pub open spec fn text(self) -> Seq<char> {
        match self {
            DecodeFailure::MessageNotArray => "Could not convert Message into array"@,
            DecodeFailure::MessageIndexMissing => "No value found at message index 0"@,
            DecodeFailure::MessageIndexNotInteger => "Could not convert index to integer"@,
            DecodeFailure::MessageIndexUnknown(index) => "Message: Do not expect any other index "@
                + decimal_text(index as int) + "!"@,
            DecodeFailure::AcceptVersionNumberMissing => "No value found at AcceptVersion index 1"@,
            DecodeFailure::AcceptVersionDataMissing => "No value found at AcceptVersion index 2"@,
            DecodeFailure::AcceptVersionNumberNotInteger => "Could not convert version_number as integer"@,
            DecodeFailure::AcceptVersionDataNotArray => "Could not convert to array"@,
            DecodeFailure::VersionDataOfOtherKind => "Do not expect any other value!"@,
            DecodeFailure::RefuseReasonMissing => "No value found at Refuse index 1"@,
            DecodeFailure::RefuseReasonNotArray => "No value found!"@,
            DecodeFailure::RefuseReasonIndexMissing => "No value found at RefuseReason index 0"@,
            DecodeFailure::RefuseReasonIndexNotInteger => "Could not convert RefuseReason index to integer"@,
            DecodeFailure::RefuseReasonIndexUnknown => "RefuseReason: Do not expect any other index!"@,
            DecodeFailure::MismatchVersionNotInteger => "Could not convert VersionMismatch version_number to integer"@,
            DecodeFailure::DecodeErrorVersionMissing => "No value found at HandshakeDecodeError index 1"@,
            DecodeFailure::DecodeErrorVersionNotInteger => "Could not convert version_number to integer"@,
            DecodeFailure::DecodeErrorTextMissing => "No value found at HandshakeDecodeError index 2"@,
            DecodeFailure::DecodeErrorTextNotText => "Could not convert tstr to text"@,
            DecodeFailure::RefusedVersionMissing => "No value found at Refused index 1"@,
            DecodeFailure::RefusedVersionNotInteger => "Could not convert to integer"@,
            DecodeFailure::RefusedTextMissing => "No value found at Refused index 2"@,
            DecodeFailure::RefusedTextNotText => "Could not convert Refused tstr to text"@,
        }
    }
}

/// The text of an error names the failure: two failures with the same text
/// are the same failure, so the text tells which item was missing, of the
/// wrong kind, or an unknown tag.
pub proof fn lemma_text_names_the_failure(first: DecodeFailure, second: DecodeFailure)
    requires
        first.text() == second.text(),
    ensures
        first == second,
{
    reveal_strlit("Could not convert Message into array");
    reveal_strlit("No value found at message index 0");
    reveal_strlit("Could not convert index to integer");
    reveal_strlit("Message: Do not expect any other index ");
    reveal_strlit("!");
    reveal_strlit("No value found at AcceptVersion index 1");
    reveal_strlit("No value found at AcceptVersion index 2");
    reveal_strlit("Could not convert version_number as integer");
    reveal_strlit("Could not convert to array");
    reveal_strlit("Do not expect any other value!");
    reveal_strlit("No value found at Refuse index 1");
    reveal_strlit("No value found!");
    reveal_strlit("No value found at RefuseReason index 0");
    reveal_strlit("Could not convert RefuseReason index to integer");
    reveal_strlit("RefuseReason: Do not expect any other index!");
    reveal_strlit("Could not convert VersionMismatch version_number to integer");
    reveal_strlit("No value found at HandshakeDecodeError index 1");
    reveal_strlit("Could not convert version_number to integer");
    reveal_strlit("No value found at HandshakeDecodeError index 2");
    reveal_strlit("Could not convert tstr to text");
    reveal_strlit("No value found at Refused index 1");
    reveal_strlit("Could not convert to integer");
    reveal_strlit("No value found at Refused index 2");
    reveal_strlit("Could not convert Refused tstr to text");
    let prefix = "Message: Do not expect any other index "@;
    if let DecodeFailure::MessageIndexUnknown(first_index) = first {
        let first_number = decimal_text(first_index as int);
        assert(first.text()[0] == prefix[0]);
        assert(second.text()[0] == 'M');
        if let DecodeFailure::MessageIndexUnknown(second_index) = second {
            let second_number = decimal_text(second_index as int);
            assert(first.text().len() == prefix.len() + first_number.len() + 1);
            assert(second.text().len() == prefix.len() + second_number.len() + 1);
            assert(first_number == first.text().subrange(
                prefix.len() as int,
                (prefix.len() + first_number.len()) as int,
            ));
            assert(second_number == second.text().subrange(
                prefix.len() as int,
                (prefix.len() + second_number.len()) as int,
            ));
            lemma_decimal_text_is_injective(first_index as int, second_index as int);
        }
    } else if let DecodeFailure::MessageIndexUnknown(second_index) = second {
        assert(second.text()[0] == prefix[0]);
        assert(first.text()[0] == 'M');
    } else {
        // The texts differ in their length, or in one of a few characters.
        assert("Could not convert Message into array"@.len() == 36
            && "Could not convert Message into array"@[0] == 'C'
            && "Could not convert Message into array"@[18] == 'M'
            && "Could not convert Message into array"@[32] == 'r'
            && "Could not convert Message into array"@[33] == 'r');
        assert("No value found at message index 0"@.len() == 33
            && "No value found at message index 0"@[0] == 'N'
            && "No value found at message index 0"@[18] == 'm'
            && "No value found at message index 0"@[32] == '0');
        assert("Could not convert index to integer"@.len() == 34
            && "Could not convert index to integer"@[0] == 'C'
            && "Could not convert index to integer"@[18] == 'i'
            && "Could not convert index to integer"@[32] == 'e'
            && "Could not convert index to integer"@[33] == 'r');
        assert("No value found at AcceptVersion index 1"@.len() == 39
            && "No value found at AcceptVersion index 1"@[0] == 'N'
            && "No value found at AcceptVersion index 1"@[18] == 'A'
            && "No value found at AcceptVersion index 1"@[32] == 'i'
            && "No value found at AcceptVersion index 1"@[33] == 'n'
            && "No value found at AcceptVersion index 1"@[38] == '1');
        assert("No value found at AcceptVersion index 2"@.len() == 39
            && "No value found at AcceptVersion index 2"@[0] == 'N'
            && "No value found at AcceptVersion index 2"@[18] == 'A'
            && "No value found at AcceptVersion index 2"@[32] == 'i'
            && "No value found at AcceptVersion index 2"@[33] == 'n'
            && "No value found at AcceptVersion index 2"@[38] == '2');
        assert("Could not convert version_number as integer"@.len() == 43
            && "Could not convert version_number as integer"@[0] == 'C'
            && "Could not convert version_number as integer"@[18] == 'v'
            && "Could not convert version_number as integer"@[32] == ' '
            && "Could not convert version_number as integer"@[33] == 'a'
            && "Could not convert version_number as integer"@[38] == 't');
        assert("Could not convert to array"@.len() == 26
            && "Could not convert to array"@[0] == 'C'
            && "Could not convert to array"@[18] == 't');
        assert("Do not expect any other value!"@.len() == 30
            && "Do not expect any other value!"@[0] == 'D'
            && "Do not expect any other value!"@[18] == 'o');
        assert("No value found at Refuse index 1"@.len() == 32
            && "No value found at Refuse index 1"@[0] == 'N'
            && "No value found at Refuse index 1"@[18] == 'R');
        assert("No value found!"@.len() == 15
            && "No value found!"@[0] == 'N');
        assert("No value found at RefuseReason index 0"@.len() == 38
            && "No value found at RefuseReason index 0"@[0] == 'N'
            && "No value found at RefuseReason index 0"@[18] == 'R'
            && "No value found at RefuseReason index 0"@[32] == 'n'
            && "No value found at RefuseReason index 0"@[33] == 'd');
        assert("Could not convert RefuseReason index to integer"@.len() == 47
            && "Could not convert RefuseReason index to integer"@[0] == 'C'
            && "Could not convert RefuseReason index to integer"@[18] == 'R'
            && "Could not convert RefuseReason index to integer"@[32] == 'n'
            && "Could not convert RefuseReason index to integer"@[33] == 'd'
            && "Could not convert RefuseReason index to integer"@[38] == 'o'
            && "Could not convert RefuseReason index to integer"@[45] == 'e');
        assert("RefuseReason: Do not expect any other index!"@.len() == 44
            && "RefuseReason: Do not expect any other index!"@[0] == 'R'
            && "RefuseReason: Do not expect any other index!"@[18] == 'o'
            && "RefuseReason: Do not expect any other index!"@[32] == 'o'
            && "RefuseReason: Do not expect any other index!"@[33] == 't'
            && "RefuseReason: Do not expect any other index!"@[38] == 'i');
        assert("Could not convert VersionMismatch version_number to integer"@.len() == 59
            && "Could not convert VersionMismatch version_number to integer"@[0] == 'C'
            && "Could not convert VersionMismatch version_number to integer"@[18] == 'V'
            && "Could not convert VersionMismatch version_number to integer"@[32] == 'h'
            && "Could not convert VersionMismatch version_number to integer"@[33] == ' '
            && "Could not convert VersionMismatch version_number to integer"@[38] == 'i'
            && "Could not convert VersionMismatch version_number to integer"@[45] == 'b');
        assert("No value found at HandshakeDecodeError index 1"@.len() == 46
            && "No value found at HandshakeDecodeError index 1"@[0] == 'N'
            && "No value found at HandshakeDecodeError index 1"@[18] == 'H'
            && "No value found at HandshakeDecodeError index 1"@[32] == 'e'
            && "No value found at HandshakeDecodeError index 1"@[33] == 'E'
            && "No value found at HandshakeDecodeError index 1"@[38] == ' '
            && "No value found at HandshakeDecodeError index 1"@[45] == '1');
        assert("Could not convert version_number to integer"@.len() == 43
            && "Could not convert version_number to integer"@[0] == 'C'
            && "Could not convert version_number to integer"@[18] == 'v'
            && "Could not convert version_number to integer"@[32] == ' '
            && "Could not convert version_number to integer"@[33] == 't'
            && "Could not convert version_number to integer"@[38] == 't');
        assert("No value found at HandshakeDecodeError index 2"@.len() == 46
            && "No value found at HandshakeDecodeError index 2"@[0] == 'N'
            && "No value found at HandshakeDecodeError index 2"@[18] == 'H'
            && "No value found at HandshakeDecodeError index 2"@[32] == 'e'
            && "No value found at HandshakeDecodeError index 2"@[33] == 'E'
            && "No value found at HandshakeDecodeError index 2"@[38] == ' '
            && "No value found at HandshakeDecodeError index 2"@[45] == '2');
        assert("Could not convert tstr to text"@.len() == 30
            && "Could not convert tstr to text"@[0] == 'C'
            && "Could not convert tstr to text"@[18] == 't');
        assert("No value found at Refused index 1"@.len() == 33
            && "No value found at Refused index 1"@[0] == 'N'
            && "No value found at Refused index 1"@[18] == 'R'
            && "No value found at Refused index 1"@[32] == '1');
        assert("Could not convert to integer"@.len() == 28
            && "Could not convert to integer"@[0] == 'C'
            && "Could not convert to integer"@[18] == 't');
        assert("No value found at Refused index 2"@.len() == 33
            && "No value found at Refused index 2"@[0] == 'N'
            && "No value found at Refused index 2"@[18] == 'R'
            && "No value found at Refused index 2"@[32] == '2');
        assert("Could not convert Refused tstr to text"@.len() == 38
            && "Could not convert Refused tstr to text"@[0] == 'C'
            && "Could not convert Refused tstr to text"@[18] == 'R'
            && "Could not convert Refused tstr to text"@[32] == 'o'
            && "Could not convert Refused tstr to text"@[33] == ' ');
    }
}

/// What reading gives, with a failure told by its text.
pub open spec fn with_text<T>(attempt: Result<T, DecodeFailure>) -> Result<T, Seq<char>> {
    match attempt {
        Ok(read) => Ok(read),
        Err(failure) => Err(failure.text()),
    }
}

/// The integers that a sequence of trees holds, if all of them are integers.
pub open spec fn integers_of(items: Seq<ValueTree>) -> Option<Seq<i128>> {
    if forall|i: int| 0 <= i < items.len() ==> (#[trigger] items[i]) is Integer {
        Some(Seq::new(items.len(), |i: int| items[i]->Integer_0))
    } else {
        None
    }
}

impl RefuseReasonView {
    /// A version-mismatch refusal, read from the items that follow its tag 0.
    /// The list of versions is optional: where the item after the tag is
    /// absent, or is no array, the list is empty.
    pub open spec fn mismatch_decoded(items: Seq<ValueTree>) -> Result<RefuseReasonView, DecodeFailure> {
        if items.len() > 1 && items[1] is Array {
            match integers_of(items[1]->Array_0) {
                Some(versions) => Ok(RefuseReasonView::VersionMismatch(versions)),
                None => Err(DecodeFailure::MismatchVersionNotInteger),
            }
        } else {
            Ok(RefuseReasonView::VersionMismatch(Seq::empty()))
        }
    }

    /// A decode-error refusal, read from the items that follow its tag 1.
    pub open spec fn decode_error_decoded(items: Seq<ValueTree>) -> Result<
        RefuseReasonView,
        DecodeFailure,
    > {
        if items.len() <= 1 {
            Err(DecodeFailure::DecodeErrorVersionMissing)
        } else if !(items[1] is Integer) {
            Err(DecodeFailure::DecodeErrorVersionNotInteger)
        } else if items.len() <= 2 {
            Err(DecodeFailure::DecodeErrorTextMissing)
        } else if !(items[2] is Text) {
            Err(DecodeFailure::DecodeErrorTextNotText)
        } else {
            Ok(RefuseReasonView::HandshakeDecodeError(items[1]->Integer_0, items[2]->Text_0))
        }
    }

    /// A plain refusal, read from the items that follow its tag 2.
    pub open spec fn refused_decoded(items: Seq<ValueTree>) -> Result<RefuseReasonView, DecodeFailure> {
        if items.len() <= 1 {
            Err(DecodeFailure::RefusedVersionMissing)
        } else if !(items[1] is Integer) {
            Err(DecodeFailure::RefusedVersionNotInteger)
        } else if items.len() <= 2 {
            Err(DecodeFailure::RefusedTextMissing)
        } else if !(items[2] is Text) {
            Err(DecodeFailure::RefusedTextNotText)
        } else {
            Ok(RefuseReasonView::Refused(items[1]->Integer_0, items[2]->Text_0))
        }
    }

    /// What a tree reads as: an array that starts with the tag 0, 1 or 2 and
    /// goes on as that kind of refusal asks, or else the failure, which is
    /// the first thing found wrong.
    pub open spec fn decoded(tree: ValueTree) -> Result<RefuseReasonView, DecodeFailure> {
        match tree {
            ValueTree::Array(items) => {
                if items.len() == 0 {
                    Err(DecodeFailure::RefuseReasonIndexMissing)
                } else {
                    match items[0] {
                        ValueTree::Integer(index) => {
                            if index == 0 {
                                Self::mismatch_decoded(items)
                            } else if index == 1 {
                                Self::decode_error_decoded(items)
                            } else if index == 2 {
                                Self::refused_decoded(items)
                            } else {
                                Err(DecodeFailure::RefuseReasonIndexUnknown)
                            }
                        },
                        _ => Err(DecodeFailure::RefuseReasonIndexNotInteger),
                    }
                }
            },
            _ => Err(DecodeFailure::RefuseReasonNotArray),
        }
    }
}

/// The model of what a decoder returned: the view of the value, or the text
/// of the error.
pub open spec fn refusal_outcome(result: Result<RefuseReason, String>) -> Result<
    RefuseReasonView,
    Seq<char>,
> {
    match result {
        Ok(reason) => Ok(reason@),
        Err(text) => Err(text@),
    }
}

/// The integer at `items[at]`, if that item is one.
fn integer_at(items: &Vec<CborValue>, at: usize) -> (found: Option<i128>)
    requires
        at < items.len(),
    ensures
        found == (match items[at as int]@ {
            ValueTree::Integer(i) => Some(i),
            _ => None,
        }),
{
    match &items[at] {
        CborValue::Integer(i) => Some(*i),
        _ => None,
    }
}

/// The text at `items[at]`, if that item is one.
fn text_at(items: &Vec<CborValue>, at: usize) -> (found: Option<String>)
    requires
        at < items.len(),
    ensures
        match items[at as int]@ {
            ValueTree::Text(t) => found is Some && found->Some_0@ == t,
            _ => found is None,
        },
{
    match &items[at] {
        CborValue::Text(t) => Some(t.clone()),
        _ => None,
    }
}

/// Reads a list of version numbers: every item has to be an integer.
fn versions_from_values(values: &Vec<CborValue>) -> (versions: Option<Vec<VersionNumber>>)
    ensures
        match integers_of(trees_of(values@)) {
            Some(numbers) => versions is Some && versions->Some_0@ == numbers,
            None => versions is None,
        },
{
    let mut versions: Vec<VersionNumber> = Vec::new();
    let mut at: usize = 0;
    while at < values.len()
        invariant
            at <= values.len(),
            versions@.len() == at,
            forall|i: int| 0 <= i < at ==> values[i]@ == ValueTree::Integer(#[trigger] versions@[i]),
        decreases values.len() - at,
    {
        match integer_at(values, at) {
            Some(version) => versions.push(version),
            None => {
                assert(!(trees_of(values@)[at as int] is Integer));
                return None;
            },
        }
        at += 1;
    }
    proof {
        let trees = trees_of(values@);
        assert forall|i: int| 0 <= i < trees.len() implies (#[trigger] trees[i]) is Integer by {
            assert(values[i]@ == ValueTree::Integer(versions@[i]));
        }
        assert(versions@ =~= integers_of(trees)->Some_0) by {
            assert forall|i: int| 0 <= i < trees.len() implies versions@[i]
                == trees[i]->Integer_0 by {
                assert(values[i]@ == ValueTree::Integer(versions@[i]));
            }
        }
    }
    Some(versions)
}

impl RefuseReason {
    /// Reads a refusal from a value. An error is the text of the failure,
    /// which no other failure has.
    pub fn from_value(value: &CborValue) -> (result: Result<RefuseReason, String>)
        ensures
            refusal_outcome(result) == with_text(RefuseReasonView::decoded(value@)),
    {
        let items = match value {
            CborValue::Array(items) => items,
            _ => {
                return Err("No value found!".to_owned());
            },
        };
        proof {
            lemma_array_view(*items);
        }
        if items.len() == 0 {
            return Err("No value found at RefuseReason index 0".to_owned());
        }
        let index = match integer_at(items, 0) {
            Some(index) => index,
            None => {
                return Err("Could not convert RefuseReason index to integer".to_owned());
            },
        };
        if index == 0 {
            if items.len() > 1 {
                match &items[1] {
                    CborValue::Array(numbers) => {
                        proof {
                            lemma_array_view(*numbers);
                        }
                        match versions_from_values(numbers) {
                            Some(versions) => Ok(RefuseReason::VersionMismatch(versions)),
                            None => Err("Could not convert VersionMismatch version_number to integer".to_owned()),
                        }
                    },
                    _ => Ok(RefuseReason::VersionMismatch(Vec::new())),
                }
            } else {
                Ok(RefuseReason::VersionMismatch(Vec::new()))
            }
        } else if index == 1 {
            if items.len() <= 1 {
                return Err("No value found at HandshakeDecodeError index 1".to_owned());
            }
            let version_number = match integer_at(items, 1) {
                Some(number) => number,
                None => {
                    return Err("Could not convert version_number to integer".to_owned());
                },
            };
            if items.len() <= 2 {
                return Err("No value found at HandshakeDecodeError index 2".to_owned());
            }
            match text_at(items, 2) {
                Some(text) => Ok(RefuseReason::HandshakeDecodeError(version_number, text)),
                None => Err("Could not convert tstr to text".to_owned()),
            }
        } else if index == 2 {
            if items.len() <= 1 {
                return Err("No value found at Refused index 1".to_owned());
            }
            let version_number = match integer_at(items, 1) {
                Some(number) => number,
                None => {
                    return Err("Could not convert to integer".to_owned());
                },
            };
            if items.len() <= 2 {
                return Err("No value found at Refused index 2".to_owned());
            }
            match text_at(items, 2) {
                Some(text) => Ok(RefuseReason::Refused(version_number, text)),
                None => Err("Could not convert Refused tstr to text".to_owned()),
            }
        } else {
            Err("RefuseReason: Do not expect any other index!".to_owned())
        }
    }
}

/// The low 32 bits of an integer, as an unsigned number.
pub open spec fn low_32_bits(number: i128) -> u32 {
    (number % 0x1_0000_0000) as u32
}

/// Cuts an integer to its low 32 bits.
fn take_low_32_bits(number: i128) -> (low: u32)
    ensures
        low == low_32_bits(number),
{
    assert(number as u32 == (number % 0x1_0000_0000i128) as u32) by (bit_vector);
    #[verifier::truncate]
    (number as u32)
}

impl NodeToNodeVersionData {
    /// What a tree reads as: an integer is a network magic, taken by its low
    /// 32 bits; a boolean is a diffusion mode; nothing else is a capability.
    pub open spec fn decoded(tree: ValueTree) -> Result<NodeToNodeVersionData, DecodeFailure> {
        match tree {
            ValueTree::Integer(i) => Ok(NodeToNodeVersionData::NetworkMagic(low_32_bits(i))),
            ValueTree::Bool(b) => Ok(NodeToNodeVersionData::InitiatorAndResponderDiffusionMode(b)),
            _ => Err(DecodeFailure::VersionDataOfOtherKind),
        }
    }

    /// Reads a capability from a value. An error is the text of the failure.
    pub fn from_value(value: &CborValue) -> (result: Result<NodeToNodeVersionData, String>)
        ensures
            match Self::decoded(value@) {
                Ok(data) => result == Ok::<NodeToNodeVersionData, String>(data),
                Err(failure) => result is Err && result->Err_0@ == failure.text(),
            },
    {
        match value {
            CborValue::Integer(i) => Ok(NodeToNodeVersionData::NetworkMagic(take_low_32_bits(*i))),
            CborValue::Bool(b) => Ok(
                NodeToNodeVersionData::InitiatorAndResponderDiffusionMode(*b),
            ),
            _ => Err("Do not expect any other value!".to_owned()),
        }
    }
}

/// The capabilities that a sequence of trees reads as, if each of them is an
/// integer or a boolean.
pub open spec fn capabilities_of(items: Seq<ValueTree>) -> Option<Seq<NodeToNodeVersionData>> {
    if forall|i: int| 0 <= i < items.len() ==> NodeToNodeVersionData::decoded(#[trigger] items[i]) is Ok {
        Some(Seq::new(items.len(), |i: int| NodeToNodeVersionData::decoded(items[i])->Ok_0))
    } else {
        None
    }
}

/// The model of what an `AcceptVersion` decoder returned.
pub open spec fn accept_outcome(result: Result<AcceptVersion, String>) -> Result<
    AcceptVersionView,
    Seq<char>,
> {
    match result {
        Ok(item) => Ok(item@),
        Err(text) => Err(text@),
    }
}

impl AcceptVersionView {
    /// The version number that a tree reads as.
    pub open spec fn version_number_decoded(tree: ValueTree) -> Result<AcceptVersionView, DecodeFailure> {
        match tree {
            ValueTree::Integer(number) => Ok(AcceptVersionView::VersionNumber(number)),
            _ => Err(DecodeFailure::AcceptVersionNumberNotInteger),
        }
    }

    /// The capability list that a tree reads as: an array, each item of which
    /// reads as a capability.
    pub open spec fn nodes_data_decoded(tree: ValueTree) -> Result<AcceptVersionView, DecodeFailure> {
        match tree {
            ValueTree::Array(items) => match capabilities_of(items) {
                Some(data) => Ok(AcceptVersionView::NodeToNodeVersionData(data)),
                None => Err(DecodeFailure::VersionDataOfOtherKind),
            },
            _ => Err(DecodeFailure::AcceptVersionDataNotArray),
        }
    }
}

impl AcceptVersion {
    /// Reads the version number of an acceptance. An error is the text of the
    /// failure.
    pub fn version_number_from_value(value: &CborValue) -> (result: Result<AcceptVersion, String>)
        ensures
            accept_outcome(result) == with_text(AcceptVersionView::version_number_decoded(value@)),
    {
        match value {
            CborValue::Integer(number) => Ok(AcceptVersion::VersionNumber(*number)),
            _ => Err("Could not convert version_number as integer".to_owned()),
        }
    }

    /// Reads the capability list of an acceptance. An error is the text of
    /// the failure.
    pub fn nodes_data_from_value(value: &CborValue) -> (result: Result<AcceptVersion, String>)
        ensures
            accept_outcome(result) == with_text(AcceptVersionView::nodes_data_decoded(value@)),
    {
        let items = match value {
            CborValue::Array(items) => items,
            _ => {
                return Err("Could not convert to array".to_owned());
            },
        };
        proof {
            lemma_array_view(*items);
        }
        let ghost trees = trees_of(items@);
        let mut data: Vec<NodeToNodeVersionData> = Vec::new();
        let mut at: usize = 0;
        while at < items.len()
            invariant
                at <= items.len(),
                trees == trees_of(items@),
                value@ == ValueTree::Array(trees),
                data@.len() == at,
                forall|i: int|
                    0 <= i < at ==> NodeToNodeVersionData::decoded(trees[i]) == Ok::<
                        NodeToNodeVersionData,
                        DecodeFailure,
                    >(#[trigger] data@[i]),
            decreases items.len() - at,
        {
            match NodeToNodeVersionData::from_value(&items[at]) {
                Ok(capability) => data.push(capability),
                Err(text) => {
                    assert(!(NodeToNodeVersionData::decoded(trees[at as int]) is Ok));
                    return Err(text);
                },
            }
            at += 1;
        }
        proof {
            assert forall|i: int| 0 <= i < trees.len() implies NodeToNodeVersionData::decoded(
                #[trigger] trees[i],
            ) is Ok by {
                assert(NodeToNodeVersionData::decoded(trees[i]) == Ok::<
                    NodeToNodeVersionData,
                    DecodeFailure,
                >(data@[i]));
            }
            assert(data@ =~= capabilities_of(trees)->Some_0) by {
                assert forall|i: int| 0 <= i < trees.len() implies data@[i]
                    == NodeToNodeVersionData::decoded(trees[i])->Ok_0 by {
                    assert(NodeToNodeVersionData::decoded(trees[i]) == Ok::<
                        NodeToNodeVersionData,
                        DecodeFailure,
                    >(data@[i]));
                }
            }
        }
        Ok(AcceptVersion::NodeToNodeVersionData(data))
    }
}

/// The model of what a message decoder returned.
pub open spec fn message_outcome(result: Result<Message, String>) -> Result<MessageView, Seq<char>> {
    match result {
        Ok(message) => Ok(message@),
        Err(text) => Err(text@),
    }
}

impl MessageView {
    /// An acceptance, read from the items that follow its tag 1: the version
    /// number, then the capability list.
    pub open spec fn accept_decoded(items: Seq<ValueTree>) -> Result<MessageView, DecodeFailure> {
        if items.len() <= 1 {
            Err(DecodeFailure::AcceptVersionNumberMissing)
        } else if items.len() <= 2 {
            Err(DecodeFailure::AcceptVersionDataMissing)
        } else {
            match AcceptVersionView::version_number_decoded(items[1]) {
                Err(failure) => Err(failure),
                Ok(number) => match AcceptVersionView::nodes_data_decoded(items[2]) {
                    Err(failure) => Err(failure),
                    Ok(data) => Ok(
                        MessageView::AcceptVersion(seq![AcceptVersionView::Index(1), number, data]),
                    ),
                },
            }
        }
    }

    /// A refusal, read from the item that follows its tag 2.
    pub open spec fn refuse_decoded(items: Seq<ValueTree>) -> Result<MessageView, DecodeFailure> {
        if items.len() <= 1 {
            Err(DecodeFailure::RefuseReasonMissing)
        } else {
            match RefuseReasonView::decoded(items[1]) {
                Err(failure) => Err(failure),
                Ok(reason) => Ok(MessageView::Refuse(reason)),
            }
        }
    }

    /// What a tree reads as: an array that starts with the tag 1 (an
    /// acceptance) or 2 (a refusal) and goes on as that message asks, or else
    /// the failure, which is the first thing found wrong.
    pub open spec fn decoded(tree: ValueTree) -> Result<MessageView, DecodeFailure> {
        match tree {
            ValueTree::Array(items) => {
                if items.len() == 0 {
                    Err(DecodeFailure::MessageIndexMissing)
                } else {
                    match items[0] {
                        ValueTree::Integer(index) => {
                            if index == 1 {
                                Self::accept_decoded(items)
                            } else if index == 2 {
                                Self::refuse_decoded(items)
                            } else {
                                Err(DecodeFailure::MessageIndexUnknown(index))
                            }
                        },
                        _ => Err(DecodeFailure::MessageIndexNotInteger),
                    }
                }
            },
            _ => Err(DecodeFailure::MessageNotArray),
        }
    }
}

impl Message {
    /// Reads a message from the value that a peer sent. An error is the text
    /// of the failure, which no other failure has.
    pub fn from_value(array: CborValue) -> (result: Result<Message, String>)
        ensures
            message_outcome(result) == with_text(MessageView::decoded(array@)),
    {
        let items = match array {
            CborValue::Array(items) => items,
            _ => {
                return Err("Could not convert Message into array".to_owned());
            },
        };
        proof {
            lemma_array_view(items);
        }
        if items.len() == 0 {
            return Err("No value found at message index 0".to_owned());
        }
        let index = match integer_at(&items, 0) {
            Some(index) => index,
            None => {
                return Err("Could not convert index to integer".to_owned());
            },
        };
        if index == 1 {
            if items.len() <= 1 {
                return Err("No value found at AcceptVersion index 1".to_owned());
            }
            if items.len() <= 2 {
                return Err("No value found at AcceptVersion index 2".to_owned());
            }
            let version_number = match AcceptVersion::version_number_from_value(&items[1]) {
                Ok(number) => number,
                Err(text) => {
                    return Err(text);
                },
            };
            let node_to_node_version_data = match AcceptVersion::nodes_data_from_value(&items[2]) {
                Ok(data) => data,
                Err(text) => {
                    return Err(text);
                },
            };
            let ghost number = version_number@;
            let ghost data = node_to_node_version_data@;
            let accepted = vec![AcceptVersion::Index(1), version_number, node_to_node_version_data];
            let message = Message::AcceptVersion(accepted);
            assert(message@->AcceptVersion_0 =~= seq![AcceptVersionView::Index(1), number, data]);
            Ok(message)
        } else if index == 2 {
            if items.len() <= 1 {
                return Err("No value found at Refuse index 1".to_owned());
            }
            match RefuseReason::from_value(&items[1]) {
                Ok(reason) => Ok(Message::Refuse(reason)),
                Err(text) => Err(text),
            }
        } else {
            let text = "Message: Do not expect any other index ".to_owned().concat(
                decimal(index).as_str(),
            ).concat("!");
            Err(text)
        }
    }
}

/// A tree has the shape of an acceptance: an array of the tag 1, an integer
/// and an array of integers and booleans, and whatever follows.
pub open spec fn is_acceptance_tree(tree: ValueTree) -> bool {
    &&& tree matches ValueTree::Array(items)
    &&& items.len() >= 3
    &&& items[0] == ValueTree::Integer(1)
    &&& items[1] is Integer
    &&& items[2] matches ValueTree::Array(data)
    &&& forall|i: int| 0 <= i < data.len() ==> (#[trigger] data[i]) is Integer || data[i] is Bool
}

/// A tree has the shape of a refusal reason: an array that starts with the
/// tag 0 and goes on, if with an array, then with one of integers; or that
/// starts with the tag 1 or 2, an integer and a text.
pub open spec fn is_refuse_reason_tree(tree: ValueTree) -> bool {
    &&& tree matches ValueTree::Array(items)
    &&& items.len() >= 1
    &&& items[0] matches ValueTree::Integer(index)
    &&& if index == 0 {
        items.len() >= 2 && items[1] is Array ==> forall|i: int|
            0 <= i < items[1]->Array_0.len() ==> (#[trigger] items[1]->Array_0[i]) is Integer
    } else {
        &&& index == 1 || index == 2
        &&& items.len() >= 3
        &&& items[1] is Integer
        &&& items[2] is Text
    }
}

/// A tree has the shape of a refusal: an array of the tag 2 and a refusal
/// reason, and whatever follows.
pub open spec fn is_refusal_tree(tree: ValueTree) -> bool {
    &&& tree matches ValueTree::Array(items)
    &&& items.len() >= 2
    &&& items[0] == ValueTree::Integer(2)
    &&& is_refuse_reason_tree(items[1])
}

/// A refusal reason is read from exactly the trees that have its shape;
/// every other tree gives an error.
pub proof fn lemma_refuse_reason_read_iff_shaped(tree: ValueTree)
    ensures
        RefuseReasonView::decoded(tree) is Ok <==> is_refuse_reason_tree(tree),
{
}

/// A message is read from exactly the trees that have the shape of an
/// acceptance or of a refusal, and is then of that kind: a proposal is never
/// read. Every other tree (an item of the wrong kind, a missing item, a tag
/// that is not known) gives an error.
pub proof fn lemma_message_read_iff_shaped(tree: ValueTree)
    ensures
        MessageView::decoded(tree) is Ok <==> is_acceptance_tree(tree) || is_refusal_tree(tree),
        MessageView::decoded(tree) matches Ok(message) ==> (message is AcceptVersion
            <==> is_acceptance_tree(tree)) && (message is Refuse <==> is_refusal_tree(tree))
            && !(message is ProposeVersions),
{
    if let ValueTree::Array(items) = tree {
        if items.len() >= 2 {
            lemma_refuse_reason_read_iff_shaped(items[1]);
        }
    }
}

} // verus!

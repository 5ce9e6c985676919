//! The steps of one exchange: what is sent to a peer, and what its answer
//! reads as.
use vstd::prelude::*;
use crate::codec::{cbor_decoding, cbor_encoding, decode_value, encode_value};
use crate::messages::{
    Message, MessageView, ProposeVersion, ProposeVersionView, StateMachine,
    MINI_PROTOCOL_ID_HANDSHAKE,
};
use crate::reading::{is_acceptance_tree, is_refusal_tree, lemma_message_read_iff_shaped};
use crate::segment::{
    decode_segment, encode_segment, segment_bytes, segment_parsed, SegmentError, SegmentHeader,
    MAX_PAYLOAD_LENGTH,
};
use crate::value::{ValueTree, MAX_INTEGER, MIN_INTEGER};
use crate::writing::{capabilities_tree, table_tree};
use crate::version_table::{
    holds_version, lemma_version_table_exists, names_version, offered_capabilities,
    version_table_of,
};

verus! {

/// The proposal for the supported `versions` and the network magic: the
/// tag 0, then the version table.
pub open spec fn proposal(versions: Seq<i64>, network_magic: u32) -> MessageView {
    MessageView::ProposeVersions(
        seq![
            ProposeVersionView::Index(0),
            ProposeVersionView::VersionTable(version_table_of(versions, network_magic)),
        ],
    )
}

/// The tree of that proposal.
pub open spec fn proposal_tree(versions: Seq<i64>, network_magic: u32) -> ValueTree {
    ValueTree::Array(
        seq![ValueTree::Integer(0), table_tree(version_table_of(versions, network_magic))],
    )
}

/// The tree of a proposal is the one that `proposal_tree` names, and it can
/// be written out as it stands.
pub proof fn lemma_proposal_tree(versions: Seq<i64>, network_magic: u32)
    ensures
        proposal(versions, network_magic).tree() == Ok::<ValueTree, Seq<char>>(
            proposal_tree(versions, network_magic),
        ),
        proposal_tree(versions, network_magic).representable(),
{
    lemma_version_table_exists(versions, network_magic);
    let table = version_table_of(versions, network_magic);
    let items = proposal(versions, network_magic)->ProposeVersions_0;
    assert(Seq::new(items.len(), |i: int| items[i].tree()) =~= seq![
        ValueTree::Integer(0),
        table_tree(table),
    ]);
    let entries = table_tree(table)->Pairs_0;
    assert forall|i: int| 0 <= i < entries.len() implies (#[trigger] entries[i]).0.representable()
        && entries[i].1.representable() by {
        assert(holds_version(table, table[i].0));
        assert(names_version(versions, table[i].0));
        assert(MIN_INTEGER <= table[i].0 <= MAX_INTEGER);
        assert(table[i].1 == offered_capabilities(network_magic));
        let capabilities = capabilities_tree(table[i].1)->Array_0;
        assert forall|j: int| 0 <= j < capabilities.len() implies (
        #[trigger] capabilities[j]).representable() by {}
        assert(entries[i].1 == capabilities_tree(table[i].1));
    }
    assert(table_tree(table).representable());
    let top = proposal_tree(versions, network_magic)->Array_0;
    assert forall|i: int| 0 <= i < top.len() implies (#[trigger] top[i]).representable() by {}
}

/// Builds the proposal for the supported versions and the network magic.
pub fn propose_versions(supported_versions: &Vec<i64>, network_magic: u32) -> (message: Message)
    ensures
        message@ == proposal(supported_versions@, network_magic),
{
    let table = ProposeVersion::create_version_table(supported_versions, network_magic);
    let ghost table_model = table@;
    let items = vec![ProposeVersion::Index(0), table];
    let message = Message::ProposeVersions(items);
    assert(message@->ProposeVersions_0 =~= seq![ProposeVersionView::Index(0), table_model]);
    message
}

/// Appends to `message` the bytes that the state has to send. In `Propose`
/// these are the encoded proposal for the supported versions and the network
/// magic; in `Confirm` there is nothing to send. `Done` is no state to
/// prepare a message in.
pub fn prepare_message(
    message: &mut Vec<u8>,
    state: StateMachine,
    supported_versions: &Vec<i64>,
    network_magic: u32,
)
    requires
        !(state is Done),
    ensures
        state is Propose ==> final(message)@ == old(message)@ + cbor_encoding(
            proposal_tree(supported_versions@, network_magic),
        ),
        state is Confirm ==> final(message)@ == old(message)@,
{
    match state {
        StateMachine::Propose => {
            let propose_versions = propose_versions(supported_versions, network_magic);
            proof {
                lemma_proposal_tree(supported_versions@, network_magic);
            }
            match propose_versions.to_value() {
                Ok(value) => encode_value(&value, message),
                Err(_) => {
                    assert(false);
                },
            }
        },
        StateMachine::Confirm => {},
        StateMachine::Done => {
            assert(false);
        },
    }
}

/// The transmission time that a header carries: the microseconds that have
/// passed, cut to their low 32 bits.
pub fn transmission_time(elapsed_micros: u128) -> (time: u32)
    ensures
        time == elapsed_micros % 0x1_0000_0000,
{
    (elapsed_micros % 0x1_0000_0000) as u32
}

/// Frames an encoded message as this side sends it: under the handshake's
/// protocol identifier, as the initiator, with the transmission time.
pub fn outgoing_segment(elapsed_micros: u128, message: &[u8]) -> (segment: Result<
    Vec<u8>,
    SegmentError,
>)
    ensures
        message@.len() <= MAX_PAYLOAD_LENGTH ==> segment is Ok && segment->Ok_0@ == segment_bytes(
            SegmentHeader {
                transmission_time: (elapsed_micros % 0x1_0000_0000) as u32,
                protocol_id: MINI_PROTOCOL_ID_HANDSHAKE,
                payload_length: message@.len() as u16,
            },
            message@,
        ),
        message@.len() > MAX_PAYLOAD_LENGTH ==> segment == Err::<Vec<u8>, SegmentError>(
            SegmentError::PayloadTooLong,
        ),
{
    encode_segment(transmission_time(elapsed_micros), MINI_PROTOCOL_ID_HANDSHAKE, message)
}

/// What a peer answered: the header of its segment and the message in it.
#[derive(Debug, PartialEq)]
pub struct Response {
    pub header: SegmentHeader,
    pub message: Message,
}

/// Why the bytes that a peer sent do not read as a response.
#[derive(Debug, PartialEq)]
pub enum ReceiveError {
    /// The bytes do not hold a whole segment.
    Segment(SegmentError),
    /// The payload of the segment does not start with a data item.
    Payload,
    /// The data item is no message that this side expects: the text says
    /// what was found wrong.
    Message(String),
}

/// The mathematical model of what reading a response gives.
pub type ResponseView = Result<(SegmentHeader, MessageView), ReceiveErrorView>;

/// The mathematical model of a `ReceiveError`.
pub enum ReceiveErrorView {
    Segment(SegmentError),
    Payload,
    Message(Seq<char>),
}

/// The message that a data item reads as, with the header it came under.
pub open spec fn response_of_tree(header: SegmentHeader, tree: ValueTree) -> ResponseView {
    match MessageView::decoded(tree) {
        Ok(message) => Ok((header, message)),
        Err(failure) => Err(ReceiveErrorView::Message(failure.text())),
    }
}

/// What the bytes received from a peer read as: a segment, whose payload
/// decodes to a data item, which reads as a message.
pub open spec fn response_read(buffer: Seq<u8>) -> ResponseView {
    match segment_parsed(buffer) {
        Err(error) => Err(ReceiveErrorView::Segment(error)),
        Ok((header, payload)) => match cbor_decoding(payload) {
            None => Err(ReceiveErrorView::Payload),
            Some(tree) => response_of_tree(header, tree),
        },
    }
}

/// A response is read from exactly the buffers that start with a whole
/// segment whose payload decodes to a tree with the shape of an acceptance
/// or of a refusal. Every other buffer gives an error.
pub proof fn lemma_response_read_iff_well_formed(buffer: Seq<u8>)
    ensures
        response_read(buffer) is Ok <==> {
            &&& segment_parsed(buffer) matches Ok((_, payload))
            &&& cbor_decoding(payload) matches Some(tree)
            &&& is_acceptance_tree(tree) || is_refusal_tree(tree)
        },
{
    if let Ok((_, payload)) = segment_parsed(buffer) {
        if let Some(tree) = cbor_decoding(payload) {
            lemma_message_read_iff_shaped(tree);
        }
    }
}

/// The model of what `read_response` returned.
pub open spec fn response_outcome(result: Result<Response, ReceiveError>) -> ResponseView {
    match result {
        Ok(response) => Ok((response.header, response.message@)),
        Err(ReceiveError::Segment(error)) => Err(ReceiveErrorView::Segment(error)),
        Err(ReceiveError::Payload) => Err(ReceiveErrorView::Payload),
        Err(ReceiveError::Message(text)) => Err(ReceiveErrorView::Message(text@)),
    }
}

/// Reads the answer of a peer from the bytes received: takes the segment at
/// their front, decodes its payload, and reads the message.
pub fn read_response(buffer: &[u8]) -> (result: Result<Response, ReceiveError>)
    ensures
        response_outcome(result) == response_read(buffer@),
{
    let (header, payload) = match decode_segment(buffer) {
        Ok(segment) => segment,
        Err(error) => {
            return Err(ReceiveError::Segment(error));
        },
    };
    let value = match decode_value(payload) {
        Some(value) => value,
        None => {
            return Err(ReceiveError::Payload);
        },
    };
    match Message::from_value(value) {
        Ok(message) => Ok(Response { header, message }),
        Err(text) => Err(ReceiveError::Message(text)),
    }
}

} // verus!

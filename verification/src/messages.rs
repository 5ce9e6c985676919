//! The handshake messages and their mathematical models.
use vstd::prelude::*;

verus! {

/// The mini-protocol identifier of the handshake.
pub const MINI_PROTOCOL_ID_HANDSHAKE: u16 = 0;

/// The literal tag that a message starts with.
pub type Index = i128;

/// The number of a protocol version.
pub type VersionNumber = i128;

/// The text that a peer gives for a refusal.
pub type RefuseReasonMessage = String;

/// The magic of a network.
pub type NetworkMagic = u32;

/// Whether a node runs as initiator and responder at once.
pub type InitiatorAndResponderDiffusionMode = bool;

/// The table of the versions that a node offers, each with its capabilities.
/// A table that `ProposeVersion::create_version_table` builds is strictly
/// ascending by version number.
pub type VersionTable = Vec<(VersionNumber, Vec<NodeToNodeVersionData>)>;

/// One capability that a node offers for a version.
#[derive(Debug, PartialEq)]
pub enum NodeToNodeVersionData {
    NetworkMagic(NetworkMagic),
    InitiatorAndResponderDiffusionMode(InitiatorAndResponderDiffusionMode),
}

/// One item of a proposal: the literal tag, or the table of offered versions.
#[derive(Debug, PartialEq)]
pub enum ProposeVersion {
    Index(Index),
    VersionTable(VersionTable),
}

/// One item of an acceptance: the literal tag, the version chosen, or the
/// capabilities that the peer has for it.
#[derive(Debug, PartialEq)]
pub enum AcceptVersion {
    Index(Index),
    VersionNumber(VersionNumber),
    NodeToNodeVersionData(Vec<NodeToNodeVersionData>),
}

/// Why a peer refused the versions proposed to it.
#[derive(Debug, PartialEq)]
pub enum RefuseReason {
    VersionMismatch(Vec<VersionNumber>),
    HandshakeDecodeError(VersionNumber, RefuseReasonMessage),
    Refused(VersionNumber, RefuseReasonMessage),
}

/// A handshake message.
#[derive(Debug, PartialEq)]
pub enum Message {
    ProposeVersions(Vec<ProposeVersion>),
    AcceptVersion(Vec<AcceptVersion>),
    Refuse(RefuseReason),
}

/// The states that the handshake goes through.
#[derive(Debug, PartialEq)]
pub enum StateMachine {
    Propose,
    Confirm,
    Done,
}

/// The mathematical model of a version table: its entries in order, each a
/// version number with the capabilities offered for it.
pub type VersionTableView = Seq<(VersionNumber, Seq<NodeToNodeVersionData>)>;

/// The model of a table held in memory.
pub open spec fn table_view(table: VersionTable) -> VersionTableView {
    Seq::new(table@.len(), |i: int| (table@[i].0, table@[i].1@))
}

/// The mathematical model of a `ProposeVersion`.
pub enum ProposeVersionView {
    Index(Index),
    VersionTable(VersionTableView),
}

impl View for ProposeVersion {
    type V = ProposeVersionView;

    open spec fn view(&self) -> ProposeVersionView {
        match self {
            ProposeVersion::Index(index) => ProposeVersionView::Index(*index),
            ProposeVersion::VersionTable(table) => ProposeVersionView::VersionTable(
                table_view(*table),
            ),
        }
    }
}

/// The mathematical model of an `AcceptVersion`.
pub enum AcceptVersionView {
    Index(Index),
    VersionNumber(VersionNumber),
    NodeToNodeVersionData(Seq<NodeToNodeVersionData>),
}

impl View for AcceptVersion {
    type V = AcceptVersionView;

    open spec fn view(&self) -> AcceptVersionView {
        match self {
            AcceptVersion::Index(index) => AcceptVersionView::Index(*index),
            AcceptVersion::VersionNumber(number) => AcceptVersionView::VersionNumber(*number),
            AcceptVersion::NodeToNodeVersionData(data) => AcceptVersionView::NodeToNodeVersionData(
                data@,
            ),
        }
    }
}

/// The mathematical model of a `RefuseReason`.
pub enum RefuseReasonView {
    VersionMismatch(Seq<VersionNumber>),
    HandshakeDecodeError(VersionNumber, Seq<char>),
    Refused(VersionNumber, Seq<char>),
}

impl View for RefuseReason {
    type V = RefuseReasonView;

    open spec fn view(&self) -> RefuseReasonView {
        match self {
            RefuseReason::VersionMismatch(versions) => RefuseReasonView::VersionMismatch(versions@),
            RefuseReason::HandshakeDecodeError(version, text) => RefuseReasonView::HandshakeDecodeError(
                *version,
                text@,
            ),
            RefuseReason::Refused(version, text) => RefuseReasonView::Refused(*version, text@),
        }
    }
}

/// The mathematical model of a `Message`.
pub enum MessageView {
    ProposeVersions(Seq<ProposeVersionView>),
    AcceptVersion(Seq<AcceptVersionView>),
    Refuse(RefuseReasonView),
}

impl View for Message {
    type V = MessageView;

    open spec fn view(&self) -> MessageView {
        match self {
            Message::ProposeVersions(items) => MessageView::ProposeVersions(
                Seq::new(items@.len(), |i: int| items@[i]@),
            ),
            Message::AcceptVersion(items) => MessageView::AcceptVersion(
                Seq::new(items@.len(), |i: int| items@[i]@),
            ),
            Message::Refuse(reason) => MessageView::Refuse(reason@),
        }
    }
}

} // verus!

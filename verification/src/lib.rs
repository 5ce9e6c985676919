//! A version-negotiation handshake: the messages, their value trees, the
//! segment framing, and the steps of one exchange.
pub mod codec;
pub mod config;
pub mod messages;
pub mod reading;
pub mod segment;
pub mod text;
pub mod value;
pub mod version_table;
pub mod workflows;
pub mod writing;

pub use config::{AppConfig, HostConfig};
pub use messages::{
    AcceptVersion, Message, NodeToNodeVersionData, ProposeVersion, RefuseReason, StateMachine,
    MINI_PROTOCOL_ID_HANDSHAKE,
};
pub use value::CborValue;

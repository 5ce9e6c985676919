//! What a run is configured with: the peers and the versions to offer them.
use vstd::prelude::*;

verus! {

/// One peer to negotiate with.
#[derive(Debug, PartialEq)]
pub struct HostConfig {
    /// The address to connect to.
    pub host: String,
    /// The magic of the network that the peer belongs to.
    pub network_magic: u32,
    /// The name of that network, for display.
    pub network_id: String,
}

/// The configuration of a run.
#[derive(Debug, PartialEq)]
pub struct AppConfig {
    /// The peers to negotiate with.
    pub hosts: Vec<HostConfig>,
    /// The version numbers to offer to each of them.
    pub supported_versions: Vec<i64>,
    /// The highest version number that the configuration allows.
    pub max_supported_version: u8,
}

} // verus!

//! The configuration model the service consumes.
//!
//! The configuration file itself is parsed outside this crate; what
//! arrives here are plain values: one entry per network with its
//! endpoint, its vaults and, optionally, its bridge proxy.

use vstd::prelude::*;
use crate::address::Address;

verus! {

/// One vault of a network's configuration.
pub struct VaultsEntry {
    /// Vault address.
    pub address: Address,
    /// Token group label, if the token is grouped.
    pub group: Option<String>,
}

/// One network's configuration.
pub struct NetworkVaults {
    /// RPC endpoint.
    pub endpoint: String,
    /// Vault addresses.
    pub vaults: Vec<VaultsEntry>,
    /// Bridge proxy address, if the network has one.
    pub bridge_proxy: Option<Address>,
}

} // verus!

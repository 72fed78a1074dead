//! Polls read-only vault and bridge state over several blockchain networks
//! and republishes the latest known values as a renderable metrics snapshot.
//!
//! The crate holds the verified core: the startup registry with its
//! cross-network uniqueness rules, the per-vault and per-bridge refresh
//! state machines, the snapshot renderer, and the loss-free decimal text
//! path for 256-bit on-chain integers.  Transports (HTTP, timers, the
//! metrics server) stay outside; they hand this crate plain values.

pub mod digits;
pub mod address;
pub mod registry;
pub mod state;
pub mod metrics;
pub mod service;
pub mod render;
pub mod abi;
pub mod contracts;
pub mod api;
pub mod printed_num;
pub mod config;

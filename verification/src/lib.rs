//! The data plane of a WireGuard client.

pub mod bytes;
pub mod checksum;
pub mod clock;
pub mod crew;
pub mod error;
pub mod filter;
pub mod mss;
pub mod poll;
pub mod registry;
pub mod runtime;
pub mod settings;
pub mod startup;
pub mod summary;
pub mod text;
pub mod timer;
pub mod wireguard;
pub mod worker;

//! Core of a small DHCPv4 server: an address-lease store, the reply
//! builders, and the per-message protocol dispatcher, all verified.
//! The binary wire codec is an outside collaborator reached through a
//! few trusted wrappers; socket I/O lives outside this crate.

pub mod config;
pub mod dispatch;
pub mod laws;
pub mod lease;
pub mod msg;
pub mod store;
pub mod wire;

pub use config::Config;
pub use lease::Lease;
pub use store::LeaseDb;

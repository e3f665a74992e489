//! Verified management layer for WireGuard-style device configuration.
//!
//! The crate validates untrusted device/peer descriptors, reconciles them
//! against an in-memory device store (create-or-update with full peer-list
//! replacement), and maps domain errors to HTTP semantics.

pub mod addr;
pub mod device;
pub mod error;
pub mod key;
pub mod laws;
pub mod peer;

//! Ephemeral state and lifecycle rules of a self-hosted encrypted file drop
//! that authenticates its owners with passkeys.
//!
//! The library holds the verified core: expiring single-use correlation
//! stores, the registration and login ceremonies built on them, bearer
//! sessions with a sliding expiry, and the rules that govern encrypted blobs
//! and their reconciliation with the files on disk.
pub mod outside;

pub mod error;
pub mod correlation;
pub mod session;
pub mod ceremony;
pub mod blob;
pub mod table;
pub mod reconcile;
pub mod app_html;
pub mod prf_seed;

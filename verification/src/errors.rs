//! Error values surfaced by the verified subsystems.
//!
//! Storage failures carry a message; key-value lookups distinguish a missing
//! key from an internal failure; signing distinguishes a missing key in the
//! key-management service from every other failure.

use vstd::prelude::*;

verus! {

/// A durable-store failure: connection, query, or decode.
#[derive(Debug)]
pub struct StoreError {
    pub message: String,
}

/// A key-value operation failure.
#[derive(Debug)]
pub enum KvError {
    /// The key is not bound; carries the key looked up.
    NotFound(Vec<u8>),
    /// Any other failure; carries its description.
    Internal(String),
}

/// A signing failure.
#[derive(Debug)]
pub enum SignError {
    /// The named key does not exist in the key-management service.
    KeyNotFound(String),
    /// Any other failure; carries its description.
    Internal(String),
}

} // verus!

//! Persistence coordination for a two-store configuration service.
//!
//! Environments and the configs they own are kept in two places: a metadata
//! store holding identity, names, timestamps and parent linkage, and a blob
//! store holding raw config payloads. This crate verifies the layer that
//! keeps the two coherent: identifier generation, keyset pagination with
//! opaque cursors, the emulated foreign-key check on config creation, and
//! the count-checked deletes with cascade from an environment to its configs.

use vstd::prelude::*;

pub mod blob;
pub mod container;
pub mod cursor;
pub mod dto;
pub mod errors;
pub mod ids;
pub mod models;
pub mod paging;
pub mod repositories;
pub mod seqs;
pub mod services;
pub mod store;

verus! {

/// Entity identifier: a 64-bit value assigned by the generator, unique and
/// ascending in issuance order, used both as primary key and as the keyset
/// pagination boundary.
pub type ID = i64;

} // verus!

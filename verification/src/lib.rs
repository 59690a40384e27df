//! A persistence engine for structured records kept in ordered key-value
//! stores. Entities resolve to a canonical binary key through an
//! order-preserving encoding, and a save pipeline enforces create, update and
//! replace semantics while tracking per-record metadata.

use vstd::prelude::*;

pub mod blob;
pub mod db;
pub mod entity;
pub mod keys;
pub mod request;
pub mod save;
pub mod store;
pub mod value;

verus! {

use crate::save::SaveError;

/// Every failure a save or projection can surface, grouped by the stage that
/// produced it.
#[derive(Clone, Debug, PartialEq, Eq)]
pub enum Error {
    /// The entity's logical path is not registered in the schema.
    Resolution { path: String },
    /// The schema names a store that the database does not hold.
    StoreNotFound { store: String },
    /// The entity failed validation; the field-level violations are listed.
    Validation { violations: Vec<String> },
    /// The entity could not be serialized.
    Serialize { message: String },
    /// Stored or supplied bytes could not be decoded.
    Deserialize { message: String },
    /// A conflict-mode or empty-result failure.
    Save(SaveError),
}

/// Bootstrap stub invoked by host tooling before any store is touched.
/// It performs no work of its own.
pub fn init() {
}

} // verus!

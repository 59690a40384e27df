//! The entity capability interface. Entity types are produced by an outside
//! schema system; the pipeline consumes them only through these capabilities:
//! a mutate-on-create hook, composite-key extraction, path identification,
//! serialization, validation and sanitization.

use vstd::prelude::*;

use crate::keys::DataKey;
use crate::value::Metadata;
use crate::Error;

verus! {

/// The capabilities every savable entity provides. The pipeline promises
/// nothing about what they compute; its contracts hold whatever they return.
pub trait EntityDynamic {
    /// Populates generated identifiers; run only for `Create` saves.
    fn on_create(&mut self);

    /// The ordered field values that identify this entity within its store.
    fn composite_key_dyn(&self) -> Vec<String>;

    /// The logical path naming this entity's schema and target store.
    fn path_dyn(&self) -> String;

    /// Serializes the entity into payload bytes.
    fn serialize_dyn(&self) -> Result<Vec<u8>, Error>;

    /// Checks the entity, returning every field-level violation found.
    fn validate_dyn(&self) -> Result<(), Vec<String>>;

    /// Normalizes fields in place.
    fn sanitize_dyn(&mut self);
}

/// A typed entity: the dynamic capabilities plus decoding, for reading rows
/// back into a concrete type.
pub trait Entity: EntityDynamic + Sized {
    /// The logical path shared by every value of this type.
    fn path() -> String;

    /// Decodes an entity from payload bytes.
    fn from_bytes(data: &[u8]) -> Result<Self, Error>;
}

/// A typed entity together with its record metadata.
pub struct EntityValue<E> {
    pub entity: E,
    pub metadata: Metadata,
}

/// A committed row decoded back into a typed entity.
pub struct EntityRow<E> {
    pub key: DataKey,
    pub value: EntityValue<E>,
}

} // verus!

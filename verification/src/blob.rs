//! An owned byte-string value type used for opaque binary fields.

use vstd::prelude::*;

verus! {

use crate::value::clone_bytes;

/// An owned, opaque byte string.
#[derive(Clone, Debug, Default, PartialEq, Eq, PartialOrd, Ord, Hash)]
pub struct Blob {
    pub bytes: Vec<u8>,
}

impl View for Blob {
    type V = Seq<u8>;

    open spec fn view(&self) -> Seq<u8> {
        self.bytes@
    }
}

impl Blob {
    /// How many bytes the blob holds.
    pub fn len(&self) -> (n: usize)
        ensures
            n == self@.len(),
    {
        self.bytes.len()
    }

    /// Whether the blob holds no bytes.
    pub fn is_empty(&self) -> (r: bool)
        ensures
            r == (self@.len() == 0),
    {
        self.bytes.len() == 0
    }

    /// Wraps owned bytes into a blob.
    pub fn from_bytes(bytes: Vec<u8>) -> (r: Blob)
        ensures
            r@ == bytes@,
    {
        Blob { bytes }
    }


    /// Borrows the wrapped bytes.
    pub fn inner(&self) -> (r: &Vec<u8>)
        ensures
            r@ == self@,
    {
        &self.bytes
    }

    /// Copies the wrapped bytes out.
    pub fn to_vec(&self) -> (r: Vec<u8>)
        ensures
            r@ == self@,
    {
        clone_bytes(&self.bytes)
    }
}

impl From<Vec<u8>> for Blob {
    fn from(bytes: Vec<u8>) -> (r: Blob) {
        Blob { bytes }
    }
}

impl vstd::std_specs::convert::FromSpecImpl<Vec<u8>> for Blob {
    open spec fn obeys_from_spec() -> bool {
        true
    }

    open spec fn from_spec(bytes: Vec<u8>) -> Blob {
        Blob { bytes }
    }
}

} // verus!

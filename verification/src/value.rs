//! Stored values, their metadata, and the stable binary layout they are
//! persisted in: the serialized payload bytes, then the creation timestamp
//! and the modification timestamp, eight little-endian bytes each.

use vstd::prelude::*;

use crate::keys::DataKey;

verus! {

use vstd::bytes::lemma_auto_spec_u64_to_from_le_bytes;
use vstd::bytes::spec_u64_from_le_bytes;
use vstd::bytes::spec_u64_to_le_bytes;
use vstd::bytes::u64_from_le_bytes;
use vstd::bytes::u64_to_le_bytes;
use vstd::slice::slice_subrange;

/// Creation and modification timestamps of one stored record, as
/// nanoseconds of monotonic wall-clock time.
#[derive(Clone, Copy, Debug, PartialEq, Eq, Structural)]
pub struct Metadata {
    pub created: u64,
    pub modified: u64,
}

/// A stored value: opaque serialized payload bytes paired with the record's
/// metadata.
#[derive(Clone, Debug, PartialEq, Eq)]
pub struct DataValue {
    pub data: Vec<u8>,
    pub metadata: Metadata,
}

/// The mathematical content of a [`DataValue`].
#[verifier::ext_equal]
pub struct DataValueView {
    pub data: Seq<u8>,
    pub metadata: Metadata,
}

impl View for DataValue {
    type V = DataValueView;

    open spec fn view(&self) -> DataValueView {
        DataValueView { data: self.data@, metadata: self.metadata }
    }
}

/// The stable binary layout of a stored value.
pub open spec fn spec_encode_value(v: DataValueView) -> Seq<u8> {
    v.data + spec_u64_to_le_bytes(v.metadata.created) + spec_u64_to_le_bytes(v.metadata.modified)
}

/// Reads the binary layout back; `None` when the bytes are too short to hold
/// the two timestamps.
pub open spec fn spec_decode_value(bytes: Seq<u8>) -> Option<DataValueView> {
    if bytes.len() >= 16 {
        let n = bytes.len() as int;
        Some(
            DataValueView {
                data: bytes.take(n - 16),
                metadata: Metadata {
                    created: spec_u64_from_le_bytes(bytes.subrange(n - 16, n - 8)),
                    modified: spec_u64_from_le_bytes(bytes.subrange(n - 8, n)),
                },
            },
        )
    } else {
        None
    }
}

/// Decoding inverts encoding: the layout loses nothing of a stored value.
pub proof fn lemma_value_round_trip(v: DataValueView)
    ensures
        spec_decode_value(spec_encode_value(v)) == Some(v),
{
    lemma_auto_spec_u64_to_from_le_bytes();
    let e = spec_encode_value(v);
    let n = e.len() as int;
    assert(e.len() == v.data.len() + 16);
    assert(e.subrange(n - 16, n - 8) =~= spec_u64_to_le_bytes(v.metadata.created));
    assert(e.subrange(n - 8, n) =~= spec_u64_to_le_bytes(v.metadata.modified));
    assert(e.take(n - 16) =~= v.data);
    let w = spec_decode_value(e)->Some_0;
    assert(w.data == v.data);
    assert(w.metadata == v.metadata);
}

impl DataValue {
    /// Writes this value in the stable binary layout.
    pub fn encode(&self) -> (r: Vec<u8>)
        ensures
            r@ == spec_encode_value(self@),
    {
        let mut out = clone_bytes(&self.data);
        let mut created = u64_to_le_bytes(self.metadata.created);
        out.append(&mut created);
        let mut modified = u64_to_le_bytes(self.metadata.modified);
        out.append(&mut modified);
        proof {
            assert(out@ =~= spec_encode_value(self@));
        }
        out
    }

    /// Reads a value back from the stable binary layout.
    pub fn decode(bytes: &[u8]) -> (r: Option<DataValue>)
        ensures
            match r {
                Some(v) => spec_decode_value(bytes@) == Some(v@),
                None => spec_decode_value(bytes@) is None,
            },
    {
        if bytes.len() < 16 {
            return None;
        }
        let n = bytes.len();
        let created = u64_from_le_bytes(slice_subrange(bytes, n - 16, n - 8));
        let modified = u64_from_le_bytes(slice_subrange(bytes, n - 8, n));
        let rest = slice_subrange(bytes, 0, n - 16);
        let mut data: Vec<u8> = Vec::new();
        let mut i: usize = 0;
        while i < rest.len()
            invariant
                i <= rest.len(),
                data@ == rest@.take(i as int),
            decreases rest.len() - i,
        {
            let b = *vstd::slice::slice_index_get(rest, i);
            data.push(b);
            proof {
                assert(rest@.take(i + 1) =~= rest@.take(i as int) + seq![rest@[i as int]]);
            }
            i = i + 1;
        }
        proof {
            assert(rest@.take(rest@.len() as int) =~= rest@);
            assert(rest@ =~= bytes@.take(bytes@.len() - 16));
        }
        Some(DataValue { data, metadata: Metadata { created, modified } })
    }
}

/// Compares two byte strings for equality.
pub fn bytes_eq(a: &Vec<u8>, b: &Vec<u8>) -> (r: bool)
    ensures
        r == (a@ == b@),
{
    if a.len() != b.len() {
        return false;
    }
    let n = a.len();
    let mut i: usize = 0;
    while i < n
        invariant
            i <= n,
            n == a@.len(),
            n == b@.len(),
            forall|j: int| 0 <= j < i ==> a@[j] == b@[j],
        decreases n - i,
    {
        if a[i] != b[i] {
            return false;
        }
        i = i + 1;
    }
    proof {
        assert(a@ =~= b@);
    }
    true
}

/// Copies a byte string, preserving its bytes.
pub fn clone_bytes(v: &Vec<u8>) -> (r: Vec<u8>)
    ensures
        r@ == v@,
{
    let mut out: Vec<u8> = Vec::new();
    let n = v.len();
    let mut i: usize = 0;
    while i < n
        invariant
            i <= n,
            n == v@.len(),
            out@ == v@.take(i as int),
        decreases n - i,
    {
        out.push(v[i]);
        proof {
            assert(v@.take(i + 1) =~= v@.take(i as int) + seq![v@[i as int]]);
        }
        i = i + 1;
    }
    proof {
        assert(v@.take(n as int) =~= v@);
    }
    out
}

impl DataValue {
    /// Copies this value, preserving payload and metadata.
    pub fn duplicate(&self) -> (r: DataValue)
        ensures
            r@ == self@,
    {
        DataValue { data: clone_bytes(&self.data), metadata: self.metadata }
    }
}

/// The externally visible unit of storage: a resolved key together with the
/// stored value it maps to. A row is built fresh on every successful write
/// and never mutated afterwards.
#[derive(Clone, Debug, PartialEq, Eq)]
pub struct DataRow {
    pub key: DataKey,
    pub value: DataValue,
}

/// The mathematical content of a [`DataRow`].
#[verifier::ext_equal]
pub struct DataRowView {
    pub key: crate::keys::DataKeyView,
    pub value: DataValueView,
}

impl View for DataRow {
    type V = DataRowView;

    open spec fn view(&self) -> DataRowView {
        DataRowView { key: self.key@, value: self.value@ }
    }
}

impl DataRow {
    /// Pairs a resolved key with its stored value.
    pub fn new(key: DataKey, value: DataValue) -> (r: DataRow)
        ensures
            r@.key == key@,
            r@.value == value@,
    {
        DataRow { key, value }
    }
}

/// A row handed back from a query-style accessor, carrying the same key and
/// stored value as the committed row it projects.
#[derive(Clone, Debug, PartialEq, Eq)]
pub struct QueryRow {
    pub key: DataKey,
    pub value: DataValue,
}

impl View for QueryRow {
    type V = DataRowView;

    open spec fn view(&self) -> DataRowView {
        DataRowView { key: self.key@, value: self.value@ }
    }
}

} // verus!

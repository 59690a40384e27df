//! The ordered store: a durable mapping from encoded key bytes to encoded
//! value bytes, kept in a stable-memory B-tree of an outside crate. The
//! B-tree orders keys by the standard byte-wise comparison of `Vec<u8>`,
//! which is exactly the order the key encoding preserves.

use vstd::prelude::*;

verus! {

use crate::keys::bytes_lt;

/// One named ordered store. Verus never looks inside: every operation goes
/// through the trusted wrappers below, whose contracts speak of
/// [`store_contents`].
#[verifier::external_body]
pub struct Store {
    data: ic_stable_structures::btreemap::BTreeMap<
        Vec<u8>,
        Vec<u8>,
        ic_stable_structures::DefaultMemoryImpl,
    >,
}

/// What the store holds: the encoded value bytes at each encoded key.
pub uninterp spec fn store_contents(s: Store) -> Map<Seq<u8>, Seq<u8>>;

impl View for Store {
    type V = Map<Seq<u8>, Seq<u8>>;

    open spec fn view(&self) -> Map<Seq<u8>, Seq<u8>> {
        store_contents(*self)
    }
}

/// The contents of a store that holds nothing.
pub open spec fn empty_contents() -> Map<Seq<u8>, Seq<u8>> {
    Map::empty()
}

/// `vs` lists the values of `m`, one per entry, ordered by the byte-wise
/// order of the keys they are stored under.
pub open spec fn values_in_key_order(m: Map<Seq<u8>, Seq<u8>>, vs: Seq<Seq<u8>>) -> bool {
    exists|ks: Seq<Seq<u8>>|
        {
            &&& ks.len() == vs.len()
            &&& (forall|i: int, j: int| 0 <= i < j < ks.len() ==> bytes_lt(ks[i], ks[j]))
            &&& (forall|i: int| 0 <= i < ks.len() ==> m.contains_key(ks[i]))
            &&& (forall|k: Seq<u8>| m.contains_key(k) ==> ks.contains(k))
            &&& (forall|i: int| 0 <= i < ks.len() ==> vs[i] == m[ks[i]])
        }
}

impl Store {
    /// Relies on `BTreeMap::init` over a fresh in-memory byte buffer: a map
    /// loaded from empty memory holds no entries.
    #[verifier::external_body]
    pub fn init() -> (s: Store)
        ensures
            store_contents(s) == empty_contents(),
            store_contents(s).dom().finite(),
    {
        Store {
            data: ic_stable_structures::btreemap::BTreeMap::init(
                ic_stable_structures::DefaultMemoryImpl::default(),
            ),
        }
    }

    /// Relies on `BTreeMap::get`: returns the value stored at the key, if
    /// any, and changes nothing.
    #[verifier::external_body]
    pub fn get(&self, key: &Vec<u8>) -> (r: Option<Vec<u8>>)
        ensures
            match r {
                Some(v) => store_contents(*self).contains_key(key@) && v@ == store_contents(
                    *self,
                )[key@],
                None => !store_contents(*self).contains_key(key@),
            },
    {
        self.data.get(key)
    }

    /// Relies on `BTreeMap::insert`: stores the value at the key
    /// unconditionally and returns the value it displaced, if any.
    #[verifier::external_body]
    pub fn insert(&mut self, key: Vec<u8>, value: Vec<u8>) -> (prev: Option<Vec<u8>>)
        ensures
            store_contents(*final(self)) == store_contents(*old(self)).insert(key@, value@),
            store_contents(*final(self)).dom().finite() == store_contents(
                *old(self),
            ).dom().finite(),
            match prev {
                Some(v) => store_contents(*old(self)).contains_key(key@) && v@ == store_contents(
                    *old(self),
                )[key@],
                None => !store_contents(*old(self)).contains_key(key@),
            },
    {
        self.data.insert(key, value)
    }

    /// Relies on `BTreeMap::remove`: removes the entry at the key and
    /// returns the value it held, if any.
    #[verifier::external_body]
    pub fn remove(&mut self, key: &Vec<u8>) -> (prev: Option<Vec<u8>>)
        ensures
            store_contents(*final(self)) == store_contents(*old(self)).remove(key@),
            store_contents(*final(self)).dom().finite() == store_contents(
                *old(self),
            ).dom().finite(),
            match prev {
                Some(v) => store_contents(*old(self)).contains_key(key@) && v@ == store_contents(
                    *old(self),
                )[key@],
                None => !store_contents(*old(self)).contains_key(key@),
            },
    {
        self.data.remove(key)
    }

    /// Relies on `BTreeMap::clear_new`: removes every entry in place,
    /// without taking the store by value.
    #[verifier::external_body]
    pub fn clear(&mut self)
        ensures
            store_contents(*final(self)) == empty_contents(),
            store_contents(*final(self)).dom().finite(),
    {
        self.data.clear_new()
    }

    /// Relies on `BTreeMap::keys`: the keys come back in strictly increasing
    /// byte-wise order, and they are exactly the keys the store holds.
    #[verifier::external_body]
    pub fn keys(&self) -> (r: Vec<Vec<u8>>)
        ensures
            forall|i: int, j: int|
                0 <= i < j < r@.len() ==> bytes_lt(r@[i]@, r@[j]@),
            forall|i: int| 0 <= i < r@.len() ==> store_contents(*self).contains_key(r@[i]@),
            forall|k: Seq<u8>|
                store_contents(*self).contains_key(k) ==> exists|i: int|
                    0 <= i < r@.len() && r@[i]@ == k,
    {
        self.data.keys().collect()
    }

    /// Relies on `BTreeMap::values`: the stored values come back in the
    /// byte-wise order of their keys, one for each entry.
    #[verifier::external_body]
    pub fn values(&self) -> (r: Vec<Vec<u8>>)
        ensures
            values_in_key_order(store_contents(*self), r.deep_view()),
    {
        self.data.values().collect()
    }
}

} // verus!

//! The database: the named ordered stores and the static schema table that
//! maps each logical entity path to the store it is persisted in. The table
//! is fixed when the database is built and never changes afterwards.

use vstd::prelude::*;

use crate::keys::DataKey;
use crate::store::Store;
use crate::value::DataValue;
use crate::Error;

verus! {

use crate::keys::clone_string;
use crate::store::store_contents;
use crate::value::spec_decode_value;
use crate::keys::spec_key_bytes;

/// One schema entry: entities under `entity_path` are persisted in the store
/// named `store_path`.
#[derive(Clone, Debug, PartialEq, Eq)]
pub struct StoreMapping {
    pub entity_path: String,
    pub store_path: String,
}

/// The mathematical content of a [`StoreMapping`].
pub struct StoreMappingView {
    pub entity_path: Seq<char>,
    pub store_path: Seq<char>,
}

impl View for StoreMapping {
    type V = StoreMappingView;

    open spec fn view(&self) -> StoreMappingView {
        StoreMappingView { entity_path: self.entity_path@, store_path: self.store_path@ }
    }
}

/// The store name the registry assigns to a logical path: the first matching
/// entry at or after position `i` decides.
pub open spec fn registry_lookup_from(
    reg: Seq<StoreMappingView>,
    path: Seq<char>,
    i: int,
) -> Option<Seq<char>>
    decreases reg.len() - i,
{
    if i < 0 || i >= reg.len() {
        None
    } else if reg[i].entity_path == path {
        Some(reg[i].store_path)
    } else {
        registry_lookup_from(reg, path, i + 1)
    }
}

/// The position of a store name in the list of stores: the first match at or
/// after position `i` decides.
pub open spec fn name_index_from(names: Seq<Seq<char>>, name: Seq<char>, i: int) -> Option<int>
    decreases names.len() - i,
{
    if i < 0 || i >= names.len() {
        None
    } else if names[i] == name {
        Some(i)
    } else {
        name_index_from(names, name, i + 1)
    }
}

/// The database: parallel lists of store names and stores, plus the schema
/// registry.
pub struct Db {
    pub store_names: Vec<String>,
    pub stores: Vec<Store>,
    pub registry: Vec<StoreMapping>,
}

/// The mathematical content of a [`Db`]: the store names, what each store
/// holds, and the registry entries.
#[verifier::ext_equal]
pub struct DbView {
    pub names: Seq<Seq<char>>,
    pub stores: Seq<Map<Seq<u8>, Seq<u8>>>,
    pub registry: Seq<StoreMappingView>,
}

impl View for Db {
    type V = DbView;

    open spec fn view(&self) -> DbView {
        DbView {
            names: self.store_names.deep_view(),
            stores: Seq::new(self.stores@.len() as nat, |i: int| store_contents(self.stores@[i])),
            registry: self.registry@.map_values(|m: StoreMapping| m@),
        }
    }
}

/// The store index a logical path resolves to, if both resolution steps
/// succeed: the registry names a store, and that store exists.
pub open spec fn resolve_spec(db: DbView, path: Seq<char>) -> Option<int> {
    match registry_lookup_from(db.registry, path, 0) {
        Some(name) => name_index_from(db.names, name, 0),
        None => None,
    }
}

/// Well-formedness of a database: one store per name, every store finite,
/// and every stored byte string a valid value encoding.
pub open spec fn db_wf(db: DbView) -> bool {
    &&& db.stores.len() == db.names.len()
    &&& (forall|i: int| 0 <= i < db.stores.len() ==> (#[trigger] db.stores[i]).dom().finite())
    &&& (forall|i: int, k: Seq<u8>|
        0 <= i < db.stores.len() && (#[trigger] db.stores[i].contains_key(k))
            ==> spec_decode_value(db.stores[i][k]) is Some)
}

impl Db {
    /// Builds a database with one fresh, empty store per name and the given
    /// schema registry.
    pub fn new(store_names: Vec<String>, registry: Vec<StoreMapping>) -> (db: Db)
        ensures
            db_wf(db@),
            db@.names == store_names.deep_view(),
            db@.registry == registry@.map_values(|m: StoreMapping| m@),
            forall|i: int|
                0 <= i < db@.stores.len() ==> db@.stores[i] == crate::store::empty_contents(),
    {
        let mut stores: Vec<Store> = Vec::new();
        let n = store_names.len();
        let mut i: usize = 0;
        while i < n
            invariant
                i <= n,
                stores@.len() == i,
                forall|j: int|
                    0 <= j < i ==> store_contents(#[trigger] stores@[j])
                        == crate::store::empty_contents(),
                forall|j: int|
                    0 <= j < i ==> (#[trigger] store_contents(stores@[j])).dom().finite(),
            decreases n - i,
        {
            stores.push(Store::init());
            i = i + 1;
        }
        Db { store_names, stores, registry }
    }

    /// Resolves the store index a logical path is persisted in. Fails with a
    /// resolution error exactly when the path is not registered, and with a
    /// store-not-found error exactly when the registry names a store the
    /// database does not hold.
    pub fn resolve_store(&self, path: &String) -> (r: Result<usize, Error>)
        requires
            db_wf(self@),
        ensures
            match r {
                Ok(i) => resolve_spec(self@, path@) == Some(i as int) && i < self@.stores.len(),
                Err(e) => resolve_spec(self@, path@) is None && match e {
                    Error::Resolution { path: p } => p@ == path@ && registry_lookup_from(
                        self@.registry,
                        path@,
                        0,
                    ) is None,
                    Error::StoreNotFound { store } => registry_lookup_from(
                        self@.registry,
                        path@,
                        0,
                    ) == Some(store@),
                    _ => false,
                },
            },
    {
        let reg_len = self.registry.len();
        let mut i: usize = 0;
        while i < reg_len
            invariant
                i <= reg_len,
                reg_len == self@.registry.len(),
                db_wf(self@),
                registry_lookup_from(self@.registry, path@, 0) == registry_lookup_from(
                    self@.registry,
                    path@,
                    i as int,
                ),
                forall|j: int| 0 <= j < i ==> (#[trigger] self@.registry[j]).entity_path != path@,
            decreases reg_len - i,
        {
            proof {
                assert(self@.registry[i as int] == self.registry@[i as int]@);
            }
            if self.registry[i].entity_path == *path {
                let name = &self.registry[i].store_path;
                let names_len = self.store_names.len();
                let mut j: usize = 0;
                while j < names_len
                    invariant
                        j <= names_len,
                        names_len == self@.names.len(),
                        self@.stores.len() == self@.names.len(),
                        name@ == self@.registry[i as int].store_path,
                        registry_lookup_from(self@.registry, path@, 0) == Some(name@),
                        name_index_from(self@.names, name@, 0) == name_index_from(
                            self@.names,
                            name@,
                            j as int,
                        ),
                    decreases names_len - j,
                {
                    if self.store_names[j] == *name {
                        proof {
                            assert(self@.names[j as int] == self.store_names@[j as int]@);
                        }
                        return Ok(j);
                    }
                    proof {
                        assert(self@.names[j as int] == self.store_names@[j as int]@);
                    }
                    j = j + 1;
                }
                return Err(Error::StoreNotFound { store: clone_string(name) });
            }
            i = i + 1;
        }
        Err(Error::Resolution { path: clone_string(path) })
    }

    /// Reads and decodes the stored value at a resolved key, changing
    /// nothing.
    pub fn get(&self, store: usize, key: &DataKey) -> (r: Option<DataValue>)
        requires
            db_wf(self@),
            store < self@.stores.len(),
        ensures
            match r {
                Some(v) => self@.stores[store as int].contains_key(spec_key_bytes(key@))
                    && spec_decode_value(self@.stores[store as int][spec_key_bytes(key@)])
                    == Some(v@),
                None => !self@.stores[store as int].contains_key(spec_key_bytes(key@)),
            },
    {
        let key_bytes = key.to_bytes();
        let raw = self.stores[store].get(&key_bytes);
        match raw {
            Some(bytes) => {
                match DataValue::decode(bytes.as_slice()) {
                    Some(v) => Some(v),
                    None => None,
                }
            },
            None => None,
        }
    }

    /// Reads the raw stored bytes at encoded key bytes, changing nothing.
    pub fn get_encoded(&self, store: usize, key_bytes: &Vec<u8>) -> (r: Option<Vec<u8>>)
        requires
            store < self@.stores.len(),
        ensures
            match r {
                Some(v) => self@.stores[store as int].contains_key(key_bytes@) && v@
                    == self@.stores[store as int][key_bytes@],
                None => !self@.stores[store as int].contains_key(key_bytes@),
            },
    {
        self.stores[store].get(key_bytes)
    }

    /// Stores encoded value bytes at encoded key bytes, returning the bytes
    /// displaced, and leaves every other store untouched.
    pub fn insert_encoded(&mut self, store: usize, key_bytes: Vec<u8>, value_bytes: Vec<u8>) -> (r:
        Option<Vec<u8>>)
        requires
            db_wf(old(self)@),
            store < old(self)@.stores.len(),
            spec_decode_value(value_bytes@) is Some,
        ensures
            db_wf(final(self)@),
            final(self)@.names == old(self)@.names,
            final(self)@.registry == old(self)@.registry,
            final(self)@.stores == old(self)@.stores.update(
                store as int,
                old(self)@.stores[store as int].insert(key_bytes@, value_bytes@),
            ),
            match r {
                Some(v) => old(self)@.stores[store as int].contains_key(key_bytes@) && v@ == old(
                    self,
                )@.stores[store as int][key_bytes@],
                None => !old(self)@.stores[store as int].contains_key(key_bytes@),
            },
    {
        let ghost pre = self@;
        let mut s = self.stores.remove(store);
        let prev = s.insert(key_bytes, value_bytes);
        self.stores.insert(store, s);
        proof {
            let post = self@;
            assert(post.names == pre.names);
            assert(post.registry == pre.registry);
            assert(self.stores@ =~= old(self).stores@.update(store as int, s));
            assert forall|j: int| 0 <= j < post.stores.len() implies post.stores[j]
                == pre.stores.update(
                store as int,
                pre.stores[store as int].insert(key_bytes@, value_bytes@),
            )[j] by {
                if j != store {
                    assert(self.stores@[j] == old(self).stores@[j]);
                }
            }
            assert(post.stores =~= pre.stores.update(
                store as int,
                pre.stores[store as int].insert(key_bytes@, value_bytes@),
            ));
            assert forall|i: int, k: Seq<u8>|
                0 <= i < post.stores.len() && (#[trigger] post.stores[i].contains_key(k))
                    implies spec_decode_value(post.stores[i][k]) is Some by {
                if i == store && k == key_bytes@ {
                } else {
                    assert(pre.stores[i].contains_key(k));
                }
            }
        }
        prev
    }
}

} // verus!

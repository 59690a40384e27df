//! The save pipeline: conflict modes, batch-wide options, and the executor
//! that carries an entity from its mutation hooks to a committed row.

use vstd::prelude::*;

use crate::db::Db;
use crate::keys::DataKey;
use crate::value::DataRow;
use crate::value::DataValue;
use crate::value::QueryRow;
use crate::value::Metadata;
use crate::Error;
use std::io::Write;

verus! {

use crate::db::db_wf;
use crate::db::DbView;
use crate::db::resolve_spec;
use crate::entity::Entity;
use crate::entity::EntityDynamic;
use crate::entity::EntityRow;
use crate::entity::EntityValue;
use crate::keys::clone_string;
use crate::keys::spec_key_bytes;
use crate::value::bytes_eq;
use crate::value::lemma_value_round_trip;
use crate::value::spec_decode_value;
use crate::value::spec_encode_value;
use crate::value::DataValueView;
use crate::value::DataRowView;

/// A conflict-mode or empty-result failure of a save.
#[derive(Clone, Debug, PartialEq, Eq)]
pub enum SaveError {
    /// `Create` found a value already stored at the key.
    KeyExists { key: DataKey },
    /// `Update` found no value stored at the key.
    KeyNotFound { key: DataKey },
    /// A single-row accessor was used against an empty result.
    NoResultsFound,
}

/// How a save reacts to an existing value at the target key.
///
/// `Create` only inserts into an empty slot, `Update` only changes an
/// existing row, and `Replace` writes regardless of what was there.
#[derive(Clone, Copy, Debug, PartialEq, Eq, Structural)]
pub enum SaveMode {
    Create,
    Replace,
    Update,
}

/// Batch-wide behavior flags; both default to on.
#[derive(Clone, Copy, Debug, PartialEq, Eq, Structural)]
pub struct SaveOptions {
    pub sanitize: bool,
    pub validate: bool,
}

impl Default for SaveOptions {
    /// Sanitization and validation are both enabled unless switched off.
    fn default() -> (r: Self)
        ensures
            r.sanitize,
            r.validate,
    {
        Self { sanitize: true, validate: true }
    }
}

/// The optional per-write tracing hook; purely observational.
#[derive(Clone, Copy, Debug, PartialEq, Eq, Structural)]
pub struct DebugContext {
    pub enabled: bool,
}

impl DebugContext {
    /// Switches tracing on.
    pub fn enable(&mut self)
        ensures
            final(self).enabled,
    {
        self.enabled = true;
    }

    /// Relies on `std::io::stdout`; writes one trace line describing a
    /// resolved write and affects nothing else.
    #[verifier::external_body]
    fn emit(mode: &str, key: &DataKey) {
        let _ = writeln!(std::io::stdout(), "store.{}: {}:{:?}", mode, key.path, key.fields);
    }

    /// Traces one resolved write when enabled.
    pub fn println(&self, mode: &SaveMode, key: &DataKey) {
        if self.enabled {
            let name = match mode {
                SaveMode::Create => "create",
                SaveMode::Replace => "replace",
                SaveMode::Update => "update",
            };
            Self::emit(name, key);
        }
    }
}

/// Everything a save carries besides the entities: the conflict mode, the
/// tracing hook, and the batch-wide flags.
pub struct SaveBuilderConfig {
    pub mode: SaveMode,
    pub debug: DebugContext,
    pub options: SaveOptions,
}

impl Default for DebugContext {
    /// Tracing starts switched off.
    fn default() -> (r: Self)
        ensures
            !r.enabled,
    {
        Self { enabled: false }
    }
}

/// The stored value at the given encoded key, decoded; `None` when the key
/// is absent.
pub open spec fn prior_value(m: Map<Seq<u8>, Seq<u8>>, kb: Seq<u8>) -> Option<DataValueView> {
    if m.contains_key(kb) {
        spec_decode_value(m[kb])
    } else {
        None
    }
}

/// Whether the conflict mode admits a write given the prior state of the
/// key: `Create` wants it empty, `Update` wants it occupied, `Replace`
/// always writes.
pub open spec fn mode_admits(mode: SaveMode, prior: Option<DataValueView>) -> bool {
    match mode {
        SaveMode::Create => prior is None,
        SaveMode::Update => prior is Some,
        SaveMode::Replace => true,
    }
}

/// The metadata of a write: a first insert stamps both timestamps with the
/// current time; an overwrite keeps the old creation time, and keeps the old
/// modification time exactly when the payload bytes are unchanged.
pub open spec fn metadata_for(prior: Option<DataValueView>, data: Seq<u8>, now: u64) -> Metadata {
    match prior {
        None => Metadata { created: now, modified: now },
        Some(old) => Metadata {
            created: old.metadata.created,
            modified: if data == old.data {
                old.metadata.modified
            } else {
                now
            },
        },
    }
}

/// The value an admitted write stores.
pub open spec fn saved_value(prior: Option<DataValueView>, data: Seq<u8>, now: u64) -> DataValueView {
    DataValueView { data, metadata: metadata_for(prior, data, now) }
}

/// Performs the conflict resolution, metadata computation and commit for one
/// resolved item.
fn apply_one(db: &mut Db, store: usize, key: DataKey, data: Vec<u8>, mode: SaveMode, now: u64) -> (r:
    Result<DataRow, Error>)
    requires
        db_wf(old(db)@),
        store < old(db)@.stores.len(),
    ensures
        db_wf(final(db)@),
        final(db)@.names == old(db)@.names,
        final(db)@.registry == old(db)@.registry,
        ({
            let kb = spec_key_bytes(key@);
            let prior = prior_value(old(db)@.stores[store as int], kb);
            match r {
                Ok(row) => {
                    &&& mode_admits(mode, prior)
                    &&& row@.key == key@
                    &&& row@.value == saved_value(prior, data@, now)
                    &&& final(db)@.stores == old(db)@.stores.update(
                        store as int,
                        old(db)@.stores[store as int].insert(kb, spec_encode_value(row@.value)),
                    )
                },
                Err(e) => {
                    &&& !mode_admits(mode, prior)
                    &&& final(db)@ == old(db)@
                    &&& match e {
                        Error::Save(SaveError::KeyExists { key: k }) => mode == SaveMode::Create
                            && k@ == key@,
                        Error::Save(SaveError::KeyNotFound { key: k }) => mode == SaveMode::Update
                            && k@ == key@,
                        _ => false,
                    }
                },
            }
        }),
{
    let ghost kb = spec_key_bytes(key@);
    let key_bytes = key.to_bytes();
    let prior: Option<DataValue> = match db.get_encoded(store, &key_bytes) {
        Some(b) => match DataValue::decode(b.as_slice()) {
            Some(v) => Some(v),
            None => {
                proof {
                    assert(old(db)@.stores[store as int].contains_key(kb));
                    assert(false);
                }
                None
            },
        },
        None => None,
    };
    match mode {
        SaveMode::Create => {
            if prior.is_some() {
                return Err(Error::Save(SaveError::KeyExists { key }));
            }
        },
        SaveMode::Update => {
            if prior.is_none() {
                return Err(Error::Save(SaveError::KeyNotFound { key }));
            }
        },
        SaveMode::Replace => {},
    }
    let metadata = match &prior {
        None => Metadata { created: now, modified: now },
        Some(old_value) => {
            let modified = if bytes_eq(&data, &old_value.data) {
                old_value.metadata.modified
            } else {
                now
            };
            Metadata { created: old_value.metadata.created, modified }
        },
    };
    let value = DataValue { data, metadata };
    let value_bytes = value.encode();
    proof {
        lemma_value_round_trip(value@);
    }
    let _ = db.insert_encoded(store, key_bytes, value_bytes);
    Ok(DataRow::new(key, value))
}

/// One committed write, described end to end: the row's path resolved to a
/// store, the conflict mode admitted the write against the prior value, the
/// row carries exactly the metadata the rule assigns, and the database after
/// differs from the database before only by that one stored entry.
pub open spec fn committed_step(
    pre: DbView,
    post: DbView,
    row: DataRowView,
    mode: SaveMode,
    now: u64,
) -> bool {
    let kb = spec_key_bytes(row.key);
    match resolve_spec(pre, row.key.path) {
        Some(i) => {
            let prior = prior_value(pre.stores[i], kb);
            &&& mode_admits(mode, prior)
            &&& row.value == saved_value(prior, row.value.data, now)
            &&& post.names == pre.names
            &&& post.registry == pre.registry
            &&& post.stores == pre.stores.update(
                i,
                pre.stores[i].insert(kb, spec_encode_value(row.value)),
            )
        },
        None => false,
    }
}

/// The database after the committed write that `row` describes.
pub open spec fn commit_post(pre: DbView, row: DataRowView) -> DbView {
    let kb = spec_key_bytes(row.key);
    let i = resolve_spec(pre, row.key.path)->Some_0;
    DbView {
        names: pre.names,
        registry: pre.registry,
        stores: pre.stores.update(i, pre.stores[i].insert(kb, spec_encode_value(row.value))),
    }
}

/// The rows describe successive committed writes starting from `pre`: each
/// one a [`committed_step`] against the database the previous rows left.
pub open spec fn batch_committed(
    pre: DbView,
    rows: Seq<DataRowView>,
    mode: SaveMode,
    now: u64,
) -> bool
    decreases rows.len(),
{
    if rows.len() == 0 {
        true
    } else {
        &&& committed_step(pre, commit_post(pre, rows[0]), rows[0], mode, now)
        &&& batch_committed(commit_post(pre, rows[0]), rows.drop_first(), mode, now)
    }
}

/// The database the committed writes of `rows` leave behind.
pub open spec fn batch_post(pre: DbView, rows: Seq<DataRowView>) -> DbView
    decreases rows.len(),
{
    if rows.len() == 0 {
        pre
    } else {
        batch_post(commit_post(pre, rows[0]), rows.drop_first())
    }
}

/// The views of a sequence of rows.
pub open spec fn rows_views(rows: Seq<DataRow>) -> Seq<DataRowView> {
    rows.map_values(|r: DataRow| r@)
}

/// Extends a committed batch by one further committed write.
proof fn lemma_batch_push(
    pre: DbView,
    rows: Seq<DataRowView>,
    row: DataRowView,
    post: DbView,
    mode: SaveMode,
    now: u64,
)
    requires
        batch_committed(pre, rows, mode, now),
        committed_step(batch_post(pre, rows), post, row, mode, now),
    ensures
        batch_committed(pre, rows.push(row), mode, now),
        batch_post(pre, rows.push(row)) == post,
    decreases rows.len(),
{
    if rows.len() == 0 {
        assert(batch_post(pre, rows) == pre);
        assert(post =~= commit_post(pre, row));
        assert(rows.push(row)[0] == row);
        assert(rows.push(row).drop_first() =~= Seq::<DataRowView>::empty());
        assert(batch_committed(commit_post(pre, row), Seq::<DataRowView>::empty(), mode, now));
        assert(batch_post(commit_post(pre, row), Seq::<DataRowView>::empty()) == commit_post(
            pre,
            row,
        ));
        assert(batch_committed(pre, rows.push(row), mode, now));
        assert(batch_post(pre, rows.push(row)) == post);
    } else {
        lemma_batch_push(commit_post(pre, rows[0]), rows.drop_first(), row, post, mode, now);
        assert(rows.push(row)[0] == rows[0]);
        assert(rows.push(row).drop_first() =~= rows.drop_first().push(row));
        assert(batch_committed(pre, rows.push(row), mode, now));
        assert(batch_post(pre, rows.push(row)) == post);
    }
}

/// Runs the whole lifecycle for one entity: the create hook, sanitization,
/// key and store resolution, validation, serialization, and the commit.
/// A failure at any stage leaves the database exactly as it was.
fn execute_one<E: EntityDynamic>(
    db: &mut Db,
    config: &SaveBuilderConfig,
    entity: &mut E,
    now: u64,
) -> (r: Result<DataRow, Error>)
    requires
        db_wf(old(db)@),
    ensures
        db_wf(final(db)@),
        match r {
            Ok(row) => committed_step(old(db)@, final(db)@, row@, config.mode, now),
            Err(_) => final(db)@ == old(db)@,
        },
{
    if config.mode == SaveMode::Create {
        entity.on_create();
    }
    if config.options.sanitize {
        entity.sanitize_dyn();
    }
    let ck = entity.composite_key_dyn();
    let path = entity.path_dyn();
    let key = DataKey::new(path, ck);
    let store = match db.resolve_store(&key.path) {
        Ok(i) => i,
        Err(e) => {
            return Err(e);
        },
    };
    config.debug.println(&config.mode, &key);
    if config.options.validate {
        match entity.validate_dyn() {
            Ok(_) => {},
            Err(violations) => {
                return Err(Error::Validation { violations });
            },
        }
    }
    let data = match entity.serialize_dyn() {
        Ok(d) => d,
        Err(e) => {
            return Err(e);
        },
    };
    apply_one(db, store, key, data, config.mode, now)
}

/// Idempotent rewrite: writing a value and then writing the same payload
/// bytes again under `Replace` leaves both timestamps exactly as the first
/// write set them, whatever the clock says the second time.
pub proof fn lemma_replace_rewrite_idempotent(
    m: Map<Seq<u8>, Seq<u8>>,
    kb: Seq<u8>,
    data: Seq<u8>,
    t0: u64,
    t1: u64,
)
    ensures
        ({
            let first = saved_value(prior_value(m, kb), data, t0);
            let m1 = m.insert(kb, spec_encode_value(first));
            let second = saved_value(prior_value(m1, kb), data, t1);
            &&& mode_admits(SaveMode::Replace, prior_value(m, kb))
            &&& mode_admits(SaveMode::Replace, prior_value(m1, kb))
            &&& second == first
        }),
{
    let first = saved_value(prior_value(m, kb), data, t0);
    let m1 = m.insert(kb, spec_encode_value(first));
    lemma_value_round_trip(first);
    assert(prior_value(m1, kb) == Some(first));
    assert(saved_value(Some(first), data, t1) =~= first);
}

/// Create exclusivity: a first `Create` against an empty key is admitted;
/// once its value is stored, a second `Create` against the same key is
/// refused, and the stored value stands exactly as the first write left it.
pub proof fn lemma_create_exclusive(
    m: Map<Seq<u8>, Seq<u8>>,
    kb: Seq<u8>,
    data: Seq<u8>,
    t0: u64,
)
    requires
        !m.contains_key(kb),
    ensures
        ({
            let first = saved_value(prior_value(m, kb), data, t0);
            let m1 = m.insert(kb, spec_encode_value(first));
            &&& mode_admits(SaveMode::Create, prior_value(m, kb))
            &&& !mode_admits(SaveMode::Create, prior_value(m1, kb))
            &&& m1[kb] == spec_encode_value(first)
            &&& first.metadata == (Metadata { created: t0, modified: t0 })
        }),
{
    let first = saved_value(prior_value(m, kb), data, t0);
    lemma_value_round_trip(first);
}

/// Update requires existence: against a key with no stored value, `Update`
/// is never admitted, so it always fails and writes nothing.
pub proof fn lemma_update_requires_existence(m: Map<Seq<u8>, Seq<u8>>, kb: Seq<u8>)
    requires
        !m.contains_key(kb),
    ensures
        !mode_admits(SaveMode::Update, prior_value(m, kb)),
{
}

/// Replace is total: whatever is stored at the key, `Replace` is admitted,
/// and afterwards the store holds exactly the new payload at that key.
pub proof fn lemma_replace_total(m: Map<Seq<u8>, Seq<u8>>, kb: Seq<u8>, data: Seq<u8>, now: u64)
    ensures
        mode_admits(SaveMode::Replace, prior_value(m, kb)),
        ({
            let v = saved_value(prior_value(m, kb), data, now);
            let m1 = m.insert(kb, spec_encode_value(v));
            &&& v.data == data
            &&& m1.contains_key(kb)
            &&& spec_decode_value(m1[kb]) == Some(v)
        }),
{
    let v = saved_value(prior_value(m, kb), data, now);
    lemma_value_round_trip(v);
}

proof fn lemma_name_index_bound(names: Seq<Seq<char>>, name: Seq<char>, i: int, j: int)
    requires
        crate::db::name_index_from(names, name, i) == Some(j),
    ensures
        i <= j < names.len(),
    decreases names.len() - i,
{
    if 0 <= i < names.len() && !(names[i] == name) {
        lemma_name_index_bound(names, name, i + 1, j);
    }
}

/// A batch whose rows all avoid one encoded key leaves that entry of every
/// store exactly as it was.
proof fn lemma_batch_preserves_entry(
    pre: DbView,
    rows: Seq<DataRowView>,
    mode: SaveMode,
    now: u64,
    i: int,
    kb: Seq<u8>,
)
    requires
        pre.stores.len() == pre.names.len(),
        batch_committed(pre, rows, mode, now),
        0 <= i < pre.stores.len(),
        forall|l: int| 0 <= l < rows.len() ==> spec_key_bytes(#[trigger] rows[l].key) != kb,
    ensures
        ({
            let post = batch_post(pre, rows);
            &&& post.stores.len() == pre.stores.len()
            &&& post.names == pre.names
            &&& post.registry == pre.registry
            &&& post.stores[i].contains_key(kb) == pre.stores[i].contains_key(kb)
            &&& (pre.stores[i].contains_key(kb) ==> post.stores[i][kb] == pre.stores[i][kb])
        }),
    decreases rows.len(),
{
    if rows.len() > 0 {
        let mid = commit_post(pre, rows[0]);
        let i0 = resolve_spec(pre, rows[0].key.path)->Some_0;
        lemma_name_index_bound(
            pre.names,
            crate::db::registry_lookup_from(pre.registry, rows[0].key.path, 0)->Some_0,
            0,
            i0,
        );
        assert(rows.drop_first().len() == rows.len() - 1);
        assert(forall|l: int|
            0 <= l < rows.drop_first().len() ==> rows.drop_first()[l] == rows[l + 1]);
        lemma_batch_preserves_entry(mid, rows.drop_first(), mode, now, i, kb);
    }
}

/// Batch fail-fast with partial commit, the visibility half: every row a
/// batch committed whose key no later row of the batch writes again is
/// present in the final database, at its resolved store and key, with
/// exactly the value its row records. Together with the executor's
/// contract — on failure the database equals the batch of the rows
/// committed before the failing item — this pins the store state a partial
/// batch leaves behind.
pub proof fn lemma_batch_prefix_visible(
    pre: DbView,
    rows: Seq<DataRowView>,
    mode: SaveMode,
    now: u64,
    j: int,
)
    requires
        pre.stores.len() == pre.names.len(),
        batch_committed(pre, rows, mode, now),
        0 <= j < rows.len(),
        forall|l: int|
            j < l < rows.len() ==> spec_key_bytes(#[trigger] rows[l].key) != spec_key_bytes(
                rows[j].key,
            ),
    ensures
        ({
            let post = batch_post(pre, rows);
            let i = resolve_spec(pre, rows[j].key.path)->Some_0;
            &&& resolve_spec(pre, rows[j].key.path) is Some
            &&& 0 <= i < post.stores.len()
            &&& post.stores[i].contains_key(spec_key_bytes(rows[j].key))
            &&& post.stores[i][spec_key_bytes(rows[j].key)] == spec_encode_value(rows[j].value)
        }),
    decreases j,
{
    let mid = commit_post(pre, rows[0]);
    let i0 = resolve_spec(pre, rows[0].key.path)->Some_0;
    lemma_name_index_bound(
        pre.names,
        crate::db::registry_lookup_from(pre.registry, rows[0].key.path, 0)->Some_0,
        0,
        i0,
    );
    assert(rows.drop_first().len() == rows.len() - 1);
    assert(forall|l: int| 0 <= l < rows.drop_first().len() ==> rows.drop_first()[l] == rows[l + 1]);
    if j == 0 {
        let kb = spec_key_bytes(rows[0].key);
        assert(mid.stores[i0].contains_key(kb));
        assert(mid.stores[i0][kb] == spec_encode_value(rows[0].value));
        lemma_batch_preserves_entry(mid, rows.drop_first(), mode, now, i0, kb);
    } else {
        lemma_batch_prefix_visible(mid, rows.drop_first(), mode, now, j - 1);
        assert(rows.drop_first()[j - 1] == rows[j]);
        assert(resolve_spec(mid, rows[j].key.path) == resolve_spec(pre, rows[j].key.path));
    }
}

/// Entry point of a save: carries the conflict mode and the behavior flags,
/// and takes the entities together with the database and the current time.
pub struct SaveBuilder {
    pub config: SaveBuilderConfig,
}

/// Runs a batch of entities through the pipeline, strictly in input order.
pub struct SaveBuilderExecutor<E: EntityDynamic> {
    pub config: SaveBuilderConfig,
    pub entities: Vec<E>,
}

/// The committed rows of a successful save.
#[derive(Debug)]
pub struct SaveBuilderResult {
    pub results: Vec<DataRow>,
}

impl SaveBuilder {
    /// Starts a save in the given conflict mode, with tracing off and both
    /// behavior flags on.
    pub fn new(mode: SaveMode) -> (r: Self)
        ensures
            r.config.mode == mode,
            !r.config.debug.enabled,
            r.config.options.sanitize,
            r.config.options.validate,
    {
        Self {
            config: SaveBuilderConfig {
                mode,
                debug: DebugContext::default(),
                options: SaveOptions::default(),
            },
        }
    }

    /// Switches per-write tracing on.
    pub fn debug(self) -> (r: Self)
        ensures
            r.config.mode == self.config.mode,
            r.config.options == self.config.options,
            r.config.debug.enabled,
    {
        let mut s = self;
        s.config.debug.enable();
        s
    }

    /// Saves one entity decoded from payload bytes.
    pub fn from_data<E: Entity>(self, db: &mut Db, data: &[u8], now: u64) -> (r: Result<
        SaveBuilderResult,
        Error,
    >)
        requires
            db_wf(old(db)@),
        ensures
            db_wf(final(db)@),
            save_outcome(old(db)@, final(db)@, r, self.config.mode, now),
    {
        let entity: E = match E::from_bytes(data) {
            Ok(e) => e,
            Err(e) => {
                proof {
                    assert(batch_committed(
                        old(db)@,
                        Seq::<DataRowView>::empty(),
                        self.config.mode,
                        now,
                    ));
                    assert(batch_post(old(db)@, Seq::<DataRowView>::empty()) == old(db)@);
                    assert(exists|c: Seq<DataRowView>|
                        batch_committed(old(db)@, c, self.config.mode, now) && db@ == batch_post(
                            old(db)@,
                            c,
                        ));
                }
                return Err(e);
            },
        };
        self.execute(db, vec![entity], now)
    }

    /// Saves one entity.
    pub fn from_entity<E: EntityDynamic>(self, db: &mut Db, entity: E, now: u64) -> (r: Result<
        SaveBuilderResult,
        Error,
    >)
        requires
            db_wf(old(db)@),
        ensures
            db_wf(final(db)@),
            save_outcome(old(db)@, final(db)@, r, self.config.mode, now),
            (r matches Ok(res) ==> res.results@.len() == 1),
    {
        self.execute(db, vec![entity], now)
    }

    /// Saves a batch of entities, strictly in input order.
    pub fn from_entities<E: EntityDynamic>(self, db: &mut Db, entities: Vec<E>, now: u64) -> (r:
        Result<SaveBuilderResult, Error>)
        requires
            db_wf(old(db)@),
        ensures
            db_wf(final(db)@),
            save_outcome(old(db)@, final(db)@, r, self.config.mode, now),
            (r matches Ok(res) ==> res.results@.len() == entities@.len()),
    {
        self.execute(db, entities, now)
    }

    /// Saves one boxed entity. Entities reach the pipeline through the
    /// capability interface either way; this form takes them already boxed.
    pub fn from_entity_dynamic<E: EntityDynamic>(self, db: &mut Db, entity: Box<E>, now: u64) -> (r:
        Result<SaveBuilderResult, Error>)
        requires
            db_wf(old(db)@),
        ensures
            db_wf(final(db)@),
            save_outcome(old(db)@, final(db)@, r, self.config.mode, now),
            (r matches Ok(res) ==> res.results@.len() == 1),
    {
        self.from_entity(db, *entity, now)
    }

    /// Saves a batch of boxed entities, strictly in input order.
    pub fn from_entities_dynamic<E: EntityDynamic>(
        self,
        db: &mut Db,
        entities: Vec<Box<E>>,
        now: u64,
    ) -> (r: Result<SaveBuilderResult, Error>)
        requires
            db_wf(old(db)@),
        ensures
            db_wf(final(db)@),
            save_outcome(old(db)@, final(db)@, r, self.config.mode, now),
            (r matches Ok(res) ==> res.results@.len() == entities@.len()),
    {
        let mut boxed = entities;
        let mut unboxed: Vec<E> = Vec::new();
        let total = boxed.len();
        let mut i: usize = 0;
        while i < total
            invariant
                i <= total,
                total == boxed@.len() + i,
                unboxed@.len() == i,
            decreases total - i,
        {
            let e = boxed.remove(0);
            unboxed.push(*e);
            i = i + 1;
        }
        self.from_entities(db, unboxed, now)
    }

    /// Hands the batch to the executor and wraps what it returns.
    fn execute<E: EntityDynamic>(self, db: &mut Db, entities: Vec<E>, now: u64) -> (r: Result<
        SaveBuilderResult,
        Error,
    >)
        requires
            db_wf(old(db)@),
        ensures
            db_wf(final(db)@),
            save_outcome(old(db)@, final(db)@, r, self.config.mode, now),
            (r matches Ok(res) ==> res.results@.len() == entities@.len()),
    {
        let ghost mode = self.config.mode;
        let mut executor = SaveBuilderExecutor::new(self, entities);
        let results = match executor.execute(db, now) {
            Ok(rows) => rows,
            Err(e) => {
                proof {
                    let c = choose|c: Seq<DataRowView>|
                        batch_committed(old(db)@, c, executor.config.mode, now) && db@
                            == batch_post(old(db)@, c);
                    assert(batch_committed(old(db)@, c, mode, now));
                    assert(exists|w: Seq<DataRowView>|
                        batch_committed(old(db)@, w, mode, now) && db@ == batch_post(old(db)@, w));
                }
                return Err(e);
            },
        };
        Ok(SaveBuilderResult::new(results))
    }
}

/// What a finished save says of the database: on success the returned rows
/// are exactly the committed writes, in order; on failure some prefix of
/// committed writes stands, and nothing else changed.
pub open spec fn save_outcome(
    pre: DbView,
    post: DbView,
    r: Result<SaveBuilderResult, Error>,
    mode: SaveMode,
    now: u64,
) -> bool {
    match r {
        Ok(res) => batch_committed(pre, rows_views(res.results@), mode, now) && post == batch_post(
            pre,
            rows_views(res.results@),
        ),
        Err(_) => exists|committed: Seq<DataRowView>|
            batch_committed(pre, committed, mode, now) && post == batch_post(pre, committed),
    }
}

impl<E: EntityDynamic> SaveBuilderExecutor<E> {
    /// Takes over the builder's configuration together with the entities to
    /// save.
    pub fn new(prev: SaveBuilder, entities: Vec<E>) -> (r: Self)
        ensures
            r.config == prev.config,
            r.entities == entities,
    {
        Self { config: prev.config, entities }
    }

    /// Processes the entities sequentially in input order. The first failure
    /// aborts the batch: every item before it stays committed, the failing
    /// item and all later ones leave no trace in the stores.
    pub fn execute(&mut self, db: &mut Db, now: u64) -> (r: Result<Vec<DataRow>, Error>)
        requires
            db_wf(old(db)@),
        ensures
            db_wf(final(db)@),
            final(self).config == old(self).config,
            match r {
                Ok(rows) => {
                    &&& rows@.len() == old(self).entities@.len()
                    &&& batch_committed(old(db)@, rows_views(rows@), old(self).config.mode, now)
                    &&& final(db)@ == batch_post(old(db)@, rows_views(rows@))
                },
                Err(_) => exists|committed: Seq<DataRowView>|
                    batch_committed(old(db)@, committed, old(self).config.mode, now) && final(db)@
                        == batch_post(old(db)@, committed),
            },
    {
        let ghost pre = db@;
        let mut results: Vec<DataRow> = Vec::new();
        let total = self.entities.len();
        let mut done: usize = 0;
        proof {
            assert(rows_views(results@) =~= Seq::<DataRowView>::empty());
        }
        while done < total
            invariant
                db_wf(db@),
                pre == old(db)@,
                done <= total,
                total == old(self).entities@.len(),
                self.config == old(self).config,
                self.entities@ == old(self).entities@.skip(done as int),
                results@.len() == done,
                batch_committed(pre, rows_views(results@), self.config.mode, now),
                db@ == batch_post(pre, rows_views(results@)),
            decreases total - done,
        {
            let mut entity = self.entities.remove(0);
            let ghost mid = db@;
            let ghost committed = rows_views(results@);
            match execute_one(db, &self.config, &mut entity, now) {
                Ok(row) => {
                    proof {
                        lemma_batch_push(pre, committed, row@, db@, self.config.mode, now);
                    }
                    results.push(row);
                    proof {
                        assert(rows_views(results@) =~= committed.push(row@));
                        assert(old(self).entities@.skip(done as int).drop_first()
                            =~= old(self).entities@.skip(done + 1));
                    }
                },
                Err(e) => {
                    proof {
                        assert(batch_committed(old(db)@, committed, old(self).config.mode, now));
                        assert(db@ == batch_post(old(db)@, committed));
                        assert(exists|c: Seq<DataRowView>|
                            batch_committed(old(db)@, c, old(self).config.mode, now) && db@
                                == batch_post(old(db)@, c));
                    }
                    return Err(e);
                },
            }
            done = done + 1;
        }
        Ok(results)
    }
}

impl SaveBuilderResult {
    /// Wraps the committed rows of a save.
    pub fn new(results: Vec<DataRow>) -> (r: Self)
        ensures
            r.results == results,
    {
        Self { results }
    }

    /// A save that returned a result committed everything it was given.
    pub fn ok(&self) -> (r: Result<(), Error>)
        ensures
            r is Ok,
    {
        Ok(())
    }

    /// The first committed row; fails exactly when the batch was empty.
    pub fn query_row(&self) -> (r: Result<QueryRow, Error>)
        ensures
            match r {
                Ok(q) => self.results@.len() > 0 && q@ == self.results@[0]@,
                Err(e) => self.results@.len() == 0 && e == Error::Save(SaveError::NoResultsFound),
            },
    {
        if self.results.len() == 0 {
            return Err(Error::Save(SaveError::NoResultsFound));
        }
        let row = &self.results[0];
        Ok(QueryRow { key: row.key.duplicate(), value: row.value.duplicate() })
    }

    /// All committed rows, in commit order.
    pub fn query_rows(self) -> (r: Vec<QueryRow>)
        ensures
            r@.len() == self.results@.len(),
            forall|i: int| 0 <= i < r@.len() ==> r@[i]@ == self.results@[i]@,
    {
        let mut out: Vec<QueryRow> = Vec::new();
        let n = self.results.len();
        let mut i: usize = 0;
        while i < n
            invariant
                i <= n,
                n == self.results@.len(),
                out@.len() == i,
                forall|j: int| 0 <= j < i ==> out@[j]@ == self.results@[j]@,
            decreases n - i,
        {
            let row = &self.results[i];
            out.push(QueryRow { key: row.key.duplicate(), value: row.value.duplicate() });
            i = i + 1;
        }
        out
    }

    /// The first committed row decoded into a typed entity row. Fails with
    /// the empty-result error exactly when the batch was empty, and with a
    /// decode error when the row's path is not the entity type's path or its
    /// payload does not decode.
    pub fn entity_row<E: Entity>(&self) -> (r: Result<EntityRow<E>, Error>)
        ensures
            match r {
                Ok(er) => self.results@.len() > 0 && er.key@ == self.results@[0]@.key
                    && er.value.metadata == self.results@[0]@.value.metadata && er.key@.path
                    == self.results@[0]@.key.path,
                Err(e) => self.results@.len() == 0 ==> e == Error::Save(SaveError::NoResultsFound),
            },
            self.results@.len() == 0 ==> r is Err,
    {
        if self.results.len() == 0 {
            return Err(Error::Save(SaveError::NoResultsFound));
        }
        let row = &self.results[0];
        let expected = E::path();
        if !(row.key.path == expected) {
            return Err(
                Error::Deserialize { message: clone_string(&row.key.path) },
            );
        }
        match E::from_bytes(row.value.data.as_slice()) {
            Ok(entity) => Ok(
                EntityRow {
                    key: row.key.duplicate(),
                    value: EntityValue { entity, metadata: row.value.metadata },
                },
            ),
            Err(e) => Err(e),
        }
    }

    /// Every committed row decoded into a typed entity row, in commit order.
    pub fn entity_rows<E: Entity>(&self) -> (r: Vec<Result<EntityRow<E>, Error>>)
        ensures
            r@.len() == self.results@.len(),
            forall|i: int|
                0 <= i < r@.len() ==> ((#[trigger] r@[i]) matches Ok(er) ==> er.key@
                    == self.results@[i]@.key && er.value.metadata
                    == self.results@[i]@.value.metadata),
    {
        let mut out: Vec<Result<EntityRow<E>, Error>> = Vec::new();
        let n = self.results.len();
        let mut i: usize = 0;
        while i < n
            invariant
                i <= n,
                n == self.results@.len(),
                out@.len() == i,
                forall|j: int|
                    0 <= j < i ==> ((#[trigger] out@[j]) matches Ok(er) ==> er.key@
                        == self.results@[j]@.key && er.value.metadata
                        == self.results@[j]@.value.metadata),
            decreases n - i,
        {
            let row = &self.results[i];
            let expected = E::path();
            let item: Result<EntityRow<E>, Error> = if !(row.key.path == expected) {
                Err(Error::Deserialize { message: clone_string(&row.key.path) })
            } else {
                match E::from_bytes(row.value.data.as_slice()) {
                    Ok(entity) => Ok(
                        EntityRow {
                            key: row.key.duplicate(),
                            value: EntityValue { entity, metadata: row.value.metadata },
                        },
                    ),
                    Err(e) => Err(e),
                }
            };
            out.push(item);
            i = i + 1;
        }
        out
    }

    /// The first committed row decoded into a typed entity.
    pub fn entity<E: Entity>(&self) -> (r: Result<E, Error>)
        ensures
            self.results@.len() == 0 ==> r is Err,
            (r is Err && self.results@.len() == 0) ==> r->Err_0 == Error::Save(
                SaveError::NoResultsFound,
            ),
    {
        match self.entity_row::<E>() {
            Ok(er) => Ok(er.value.entity),
            Err(e) => Err(e),
        }
    }

    /// Every committed row decoded into a typed entity, in commit order.
    pub fn entities<E: Entity>(&self) -> (r: Vec<Result<E, Error>>)
        ensures
            r@.len() == self.results@.len(),
    {
        let mut out: Vec<Result<E, Error>> = Vec::new();
        let rows = self.entity_rows::<E>();
        let n = rows.len();
        let mut rows_mut = rows;
        let mut i: usize = 0;
        while i < n
            invariant
                i <= n,
                n == rows_mut@.len() + i,
                out@.len() == i,
            decreases n - i,
        {
            let item: Result<EntityRow<E>, Error> = rows_mut.remove(0);
            match item {
                Ok(er) => out.push(Ok(er.value.entity)),
                Err(e) => out.push(Err(e)),
            }
            i = i + 1;
        }
        out
    }
}

} // verus!

use mimic_db::db::{Db, StoreMapping};
use mimic_db::entity::{Entity, EntityDynamic};
use mimic_db::save::{SaveBuilder, SaveError, SaveMode};
use mimic_db::Error;

/// A record with a fixed payload, for byte-exact scenarios.
struct RawDoc {
    key: String,
    payload: Vec<u8>,
}

impl EntityDynamic for RawDoc {
    fn on_create(&mut self) {}

    fn composite_key_dyn(&self) -> Vec<String> {
        vec![self.key.clone()]
    }

    fn path_dyn(&self) -> String {
        "user".to_string()
    }

    fn serialize_dyn(&self) -> Result<Vec<u8>, Error> {
        Ok(self.payload.clone())
    }

    fn validate_dyn(&self) -> Result<(), Vec<String>> {
        Ok(())
    }

    fn sanitize_dyn(&mut self) {}
}

/// A record exercising validation and sanitization.
struct User {
    name: String,
    email: String,
}

impl EntityDynamic for User {
    fn on_create(&mut self) {}

    fn composite_key_dyn(&self) -> Vec<String> {
        vec![self.name.clone()]
    }

    fn path_dyn(&self) -> String {
        "user".to_string()
    }

    fn serialize_dyn(&self) -> Result<Vec<u8>, Error> {
        Ok(format!("{}\n{}", self.name, self.email).into_bytes())
    }

    fn validate_dyn(&self) -> Result<(), Vec<String>> {
        if self.email.contains('@') {
            Ok(())
        } else {
            Err(vec![format!("email: missing '@' in {:?}", self.email)])
        }
    }

    fn sanitize_dyn(&mut self) {
        self.email = self.email.trim().to_lowercase();
    }
}

impl Entity for User {
    fn path() -> String {
        "user".to_string()
    }

    fn from_bytes(data: &[u8]) -> Result<User, Error> {
        let text = String::from_utf8(data.to_vec()).map_err(|_| Error::Deserialize {
            message: "not utf-8".to_string(),
        })?;
        let mut parts = text.splitn(2, '\n');
        let name = parts.next().unwrap_or("").to_string();
        let email = match parts.next() {
            Some(e) => e.to_string(),
            None => {
                return Err(Error::Deserialize {
                    message: "missing email line".to_string(),
                })
            }
        };
        Ok(User { name, email })
    }
}

fn user_db() -> Db {
    Db::new(
        vec!["data".to_string()],
        vec![StoreMapping {
            entity_path: "user".to_string(),
            store_path: "data".to_string(),
        }],
    )
}

fn doc(key: &str, payload: &[u8]) -> RawDoc {
    RawDoc {
        key: key.to_string(),
        payload: payload.to_vec(),
    }
}

#[test]
fn create_then_rewrite_keeps_timestamps() {
    let mut db = user_db();
    let t0 = 100;
    let t1 = 200;
    let t2 = 300;

    let res = SaveBuilder::new(SaveMode::Create)
        .from_entity(&mut db, doc("alice", b"v1"), t0)
        .unwrap();
    let row = res.query_row().unwrap();
    assert_eq!(row.value.metadata.created, t0);
    assert_eq!(row.value.metadata.modified, t0);

    // Replacing with identical payload bytes keeps both timestamps.
    let res = SaveBuilder::new(SaveMode::Replace)
        .from_entity(&mut db, doc("alice", b"v1"), t1)
        .unwrap();
    let row = res.query_row().unwrap();
    assert_eq!(row.value.metadata.created, t0);
    assert_eq!(row.value.metadata.modified, t0);

    // Replacing with different payload bytes bumps only `modified`.
    let res = SaveBuilder::new(SaveMode::Replace)
        .from_entity(&mut db, doc("alice", b"v2"), t2)
        .unwrap();
    let row = res.query_row().unwrap();
    assert_eq!(row.value.metadata.created, t0);
    assert_eq!(row.value.metadata.modified, t2);
    assert_eq!(row.value.data, b"v2".to_vec());
}

#[test]
fn create_against_occupied_key_fails_and_leaves_value() {
    let mut db = user_db();
    SaveBuilder::new(SaveMode::Create)
        .from_entity(&mut db, doc("alice", b"v1"), 1)
        .unwrap();

    let err = SaveBuilder::new(SaveMode::Create)
        .from_entity(&mut db, doc("alice", b"v2"), 2)
        .unwrap_err();
    match err {
        Error::Save(SaveError::KeyExists { key }) => {
            assert_eq!(key.path, "user");
            assert_eq!(key.fields, vec!["alice".to_string()]);
        }
        other => panic!("expected KeyExists, got {:?}", other),
    }

    let store = db.resolve_store(&"user".to_string()).unwrap();
    let key = mimic_db::keys::DataKey::new("user".to_string(), vec!["alice".to_string()]);
    let stored = db.get(store, &key).unwrap();
    assert_eq!(stored.data, b"v1".to_vec());
    assert_eq!(stored.metadata.created, 1);
    assert_eq!(stored.metadata.modified, 1);
}

#[test]
fn update_against_empty_key_fails_and_creates_nothing() {
    let mut db = user_db();
    let err = SaveBuilder::new(SaveMode::Update)
        .from_entity(&mut db, doc("ghost", b"v1"), 5)
        .unwrap_err();
    match err {
        Error::Save(SaveError::KeyNotFound { key }) => {
            assert_eq!(key.path, "user");
        }
        other => panic!("expected KeyNotFound, got {:?}", other),
    }
    let store = db.resolve_store(&"user".to_string()).unwrap();
    let key = mimic_db::keys::DataKey::new("user".to_string(), vec!["ghost".to_string()]);
    assert!(db.get(store, &key).is_none());
}

#[test]
fn replace_never_fails_on_presence() {
    let mut db = user_db();
    let store = db.resolve_store(&"user".to_string()).unwrap();
    let key = mimic_db::keys::DataKey::new("user".to_string(), vec!["alice".to_string()]);

    // Absent key: behaves like a first insert.
    let res = SaveBuilder::new(SaveMode::Replace)
        .from_entity(&mut db, doc("alice", b"v1"), 10)
        .unwrap();
    assert!(res.ok().is_ok());
    assert_eq!(db.get(store, &key).unwrap().data, b"v1".to_vec());

    // Present key: overwritten unconditionally.
    SaveBuilder::new(SaveMode::Replace)
        .from_entity(&mut db, doc("alice", b"v2"), 11)
        .unwrap();
    assert_eq!(db.get(store, &key).unwrap().data, b"v2".to_vec());
}

#[test]
fn batch_fails_fast_and_keeps_committed_prefix() {
    let mut db = user_db();
    let valid = User {
        name: "alice".to_string(),
        email: "alice@example.com".to_string(),
    };
    let invalid = User {
        name: "bob".to_string(),
        email: "no-at-sign".to_string(),
    };
    let trailing = User {
        name: "carol".to_string(),
        email: "carol@example.com".to_string(),
    };

    let err = SaveBuilder::new(SaveMode::Create)
        .from_entities(&mut db, vec![valid, invalid, trailing], 7)
        .unwrap_err();
    match err {
        Error::Validation { violations } => assert_eq!(violations.len(), 1),
        other => panic!("expected a validation error, got {:?}", other),
    }

    let store = db.resolve_store(&"user".to_string()).unwrap();
    let alice = mimic_db::keys::DataKey::new("user".to_string(), vec!["alice".to_string()]);
    let bob = mimic_db::keys::DataKey::new("user".to_string(), vec!["bob".to_string()]);
    let carol = mimic_db::keys::DataKey::new("user".to_string(), vec!["carol".to_string()]);
    assert!(db.get(store, &alice).is_some());
    assert!(db.get(store, &bob).is_none());
    assert!(db.get(store, &carol).is_none());
}

#[test]
fn sanitize_runs_before_validation_and_serialization() {
    let mut db = user_db();
    let user = User {
        name: "alice".to_string(),
        email: "  ALICE@Example.COM  ".to_string(),
    };
    let res = SaveBuilder::new(SaveMode::Create)
        .from_entity(&mut db, user, 1)
        .unwrap();
    let decoded: User = res.entity().unwrap();
    assert_eq!(decoded.email, "alice@example.com");
}

#[test]
fn validation_can_be_switched_off_batch_wide() {
    let mut db = user_db();
    let mut builder = SaveBuilder::new(SaveMode::Create);
    builder.config.options.validate = false;
    let invalid = User {
        name: "bob".to_string(),
        email: "no-at-sign".to_string(),
    };
    let res = builder.from_entity(&mut db, invalid, 1).unwrap();
    assert_eq!(res.results.len(), 1);
}

#[test]
fn unregistered_path_is_a_resolution_error() {
    let mut db = Db::new(vec!["data".to_string()], vec![]);
    let err = SaveBuilder::new(SaveMode::Create)
        .from_entity(&mut db, doc("alice", b"v1"), 1)
        .unwrap_err();
    match err {
        Error::Resolution { path } => assert_eq!(path, "user"),
        other => panic!("expected a resolution error, got {:?}", other),
    }
}

#[test]
fn registry_naming_missing_store_is_store_not_found() {
    let mut db = Db::new(
        vec!["data".to_string()],
        vec![StoreMapping {
            entity_path: "user".to_string(),
            store_path: "elsewhere".to_string(),
        }],
    );
    let err = SaveBuilder::new(SaveMode::Create)
        .from_entity(&mut db, doc("alice", b"v1"), 1)
        .unwrap_err();
    match err {
        Error::StoreNotFound { store } => assert_eq!(store, "elsewhere"),
        other => panic!("expected store-not-found, got {:?}", other),
    }
}

#[test]
fn query_row_on_empty_batch_is_no_results_found() {
    let mut db = user_db();
    let empty: Vec<RawDoc> = vec![];
    let res = SaveBuilder::new(SaveMode::Create)
        .from_entities(&mut db, empty, 1)
        .unwrap();
    let err = res.query_row().unwrap_err();
    assert_eq!(err, Error::Save(SaveError::NoResultsFound));
    assert!(res.ok().is_ok());
}

#[test]
fn query_rows_returns_all_rows_in_order() {
    let mut db = user_db();
    let res = SaveBuilder::new(SaveMode::Create)
        .from_entities(&mut db, vec![doc("a", b"1"), doc("b", b"2")], 1)
        .unwrap();
    let rows = res.query_rows();
    assert_eq!(rows.len(), 2);
    assert_eq!(rows[0].key.fields, vec!["a".to_string()]);
    assert_eq!(rows[0].value.data, b"1".to_vec());
    assert_eq!(rows[1].key.fields, vec!["b".to_string()]);
    assert_eq!(rows[1].value.data, b"2".to_vec());
}

#[test]
fn typed_projection_round_trips_an_entity() {
    let mut db = user_db();
    let user = User {
        name: "alice".to_string(),
        email: "alice@example.com".to_string(),
    };
    let res = SaveBuilder::new(SaveMode::Create)
        .from_entity(&mut db, user, 42)
        .unwrap();
    let row = res.entity_row::<User>().unwrap();
    assert_eq!(row.key.path, "user");
    assert_eq!(row.value.metadata.created, 42);
    assert_eq!(row.value.entity.name, "alice");
    assert_eq!(row.value.entity.email, "alice@example.com");

    let all = res.entities::<User>();
    assert_eq!(all.len(), 1);
    assert!(all[0].is_ok());
}

#[test]
fn boxed_entities_save_like_plain_ones() {
    let mut db = user_db();
    let res = SaveBuilder::new(SaveMode::Create)
        .from_entity_dynamic(&mut db, Box::new(doc("a", b"1")), 1)
        .unwrap();
    assert_eq!(res.results.len(), 1);

    let res = SaveBuilder::new(SaveMode::Create)
        .from_entities_dynamic(
            &mut db,
            vec![Box::new(doc("b", b"2")), Box::new(doc("c", b"3"))],
            2,
        )
        .unwrap();
    assert_eq!(res.results.len(), 2);
    let store = db.resolve_store(&"user".to_string()).unwrap();
    let key = mimic_db::keys::DataKey::new("user".to_string(), vec!["c".to_string()]);
    assert_eq!(db.get(store, &key).unwrap().data, b"3".to_vec());
}

#[test]
fn from_data_decodes_then_saves() {
    let mut db = user_db();
    let payload = b"dora\ndora@example.com".to_vec();
    let res = SaveBuilder::new(SaveMode::Create)
        .from_data::<User>(&mut db, &payload, 3)
        .unwrap();
    let row = res.query_row().unwrap();
    assert_eq!(row.key.fields, vec!["dora".to_string()]);
    assert_eq!(row.value.data, payload);
}

/// A record that cannot be serialized.
struct Broken;

impl EntityDynamic for Broken {
    fn on_create(&mut self) {}

    fn composite_key_dyn(&self) -> Vec<String> {
        vec!["broken".to_string()]
    }

    fn path_dyn(&self) -> String {
        "user".to_string()
    }

    fn serialize_dyn(&self) -> Result<Vec<u8>, Error> {
        Err(Error::Serialize {
            message: "unencodable field".to_string(),
        })
    }

    fn validate_dyn(&self) -> Result<(), Vec<String>> {
        Ok(())
    }

    fn sanitize_dyn(&mut self) {}
}

#[test]
fn serialization_failure_leaves_the_store_untouched() {
    let mut db = user_db();
    let err = SaveBuilder::new(SaveMode::Create)
        .from_entity(&mut db, Broken, 1)
        .unwrap_err();
    match err {
        Error::Serialize { message } => assert_eq!(message, "unencodable field"),
        other => panic!("expected a serialization error, got {:?}", other),
    }
    let store = db.resolve_store(&"user".to_string()).unwrap();
    let key = mimic_db::keys::DataKey::new("user".to_string(), vec!["broken".to_string()]);
    assert!(db.get(store, &key).is_none());
}

#[test]
fn typed_projection_rejects_a_foreign_path() {
    let mut db = user_db();
    // RawDoc rows live under the "user" path; User decodes them, but a row
    // saved under a path other than the entity type's own is refused.
    let res = SaveBuilder::new(SaveMode::Create)
        .from_entity(&mut db, doc("alice", b"alice\nalice@example.com"), 1)
        .unwrap();
    assert!(res.entity_row::<User>().is_ok());

    let mut db2 = Db::new(
        vec!["data".to_string()],
        vec![StoreMapping {
            entity_path: "widget".to_string(),
            store_path: "data".to_string(),
        }],
    );
    let mut widget = doc("w1", b"w1\nw@example.com");
    widget.key = "w1".to_string();
    let res = SaveBuilder::new(SaveMode::Create)
        .from_entity(
            &mut db2,
            RawDocAt {
                path: "widget".to_string(),
                inner: widget,
            },
            1,
        )
        .unwrap();
    match res.entity_row::<User>() {
        Err(Error::Deserialize { message }) => assert_eq!(message, "widget"),
        Err(other) => panic!("expected a decode error, got {:?}", other),
        Ok(_) => panic!("expected a decode error, got a row"),
    }
}

/// A raw document stored under a caller-chosen path.
struct RawDocAt {
    path: String,
    inner: RawDoc,
}

impl EntityDynamic for RawDocAt {
    fn on_create(&mut self) {}

    fn composite_key_dyn(&self) -> Vec<String> {
        self.inner.composite_key_dyn()
    }

    fn path_dyn(&self) -> String {
        self.path.clone()
    }

    fn serialize_dyn(&self) -> Result<Vec<u8>, Error> {
        self.inner.serialize_dyn()
    }

    fn validate_dyn(&self) -> Result<(), Vec<String>> {
        Ok(())
    }

    fn sanitize_dyn(&mut self) {}
}

/// A record whose on-create hook fills in a generated identifier.
struct GenDoc {
    id: String,
}

impl EntityDynamic for GenDoc {
    fn on_create(&mut self) {
        if self.id.is_empty() {
            self.id = "generated".to_string();
        }
    }

    fn composite_key_dyn(&self) -> Vec<String> {
        vec![self.id.clone()]
    }

    fn path_dyn(&self) -> String {
        "user".to_string()
    }

    fn serialize_dyn(&self) -> Result<Vec<u8>, Error> {
        Ok(self.id.clone().into_bytes())
    }

    fn validate_dyn(&self) -> Result<(), Vec<String>> {
        Ok(())
    }

    fn sanitize_dyn(&mut self) {}
}

#[test]
fn on_create_hook_runs_only_for_create() {
    let mut db = user_db();
    let res = SaveBuilder::new(SaveMode::Create)
        .from_entity(&mut db, GenDoc { id: String::new() }, 1)
        .unwrap();
    let row = res.query_row().unwrap();
    assert_eq!(row.key.fields, vec!["generated".to_string()]);

    // Under Replace the hook is skipped: the empty id stays.
    let res = SaveBuilder::new(SaveMode::Replace)
        .from_entity(&mut db, GenDoc { id: String::new() }, 2)
        .unwrap();
    let row = res.query_row().unwrap();
    assert_eq!(row.key.fields, vec![String::new()]);
}

#[test]
fn debug_builder_traces_without_changing_behavior() {
    let mut db = user_db();
    let res = SaveBuilder::new(SaveMode::Create)
        .debug()
        .from_entity(&mut db, doc("alice", b"v1"), 1)
        .unwrap();
    assert_eq!(res.results.len(), 1);
}

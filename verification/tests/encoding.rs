use mimic_db::blob::Blob;
use mimic_db::keys::DataKey;
use mimic_db::value::{DataValue, Metadata};

fn key(fields: &[&str]) -> Vec<u8> {
    DataKey::new(
        "user".to_string(),
        fields.iter().map(|f| f.to_string()).collect(),
    )
    .to_bytes()
}

#[test]
fn key_bytes_preserve_field_order() {
    // Field-wise order agrees with byte-wise order of the encodings.
    assert!(key(&["alice"]) < key(&["bob"]));
    assert!(key(&["alice"]) < key(&["alice", "x"]));
    assert!(key(&["a"]) < key(&["ab"]));
    assert!(key(&["a", "z"]) < key(&["ab", "a"]));
    assert!(key(&["a\u{0}b"]) < key(&["a\u{0}c"]));
    assert!(key(&["a"]) < key(&["a\u{0}"]));
    assert!(key(&["a\u{0}"]) < key(&["a\u{1}"]));
}

#[test]
fn key_bytes_distinguish_field_boundaries() {
    // Concatenations that collide as plain strings stay distinct keys.
    assert_ne!(key(&["ab"]), key(&["a", "b"]));
    assert_ne!(key(&["a", "bc"]), key(&["ab", "c"]));
    assert_ne!(key(&[""]), key(&["", ""]));
    assert_ne!(
        DataKey::new("user".to_string(), vec!["a".to_string()]).to_bytes(),
        DataKey::new("usera".to_string(), vec![]).to_bytes(),
    );
}

#[test]
fn key_encoding_layout_is_stable() {
    // One framed field: 0x01 marker, escaped bytes, 0x00 terminator.
    let bytes = DataKey::new("u".to_string(), vec!["a\u{0}b".to_string()]).to_bytes();
    assert_eq!(
        bytes,
        vec![1, b'u', 0, 1, b'a', 0, 255, b'b', 0],
    );
}

#[test]
fn value_layout_round_trips() {
    let value = DataValue {
        data: b"payload".to_vec(),
        metadata: Metadata {
            created: 123456789,
            modified: 987654321,
        },
    };
    let encoded = value.encode();
    assert_eq!(encoded.len(), 16 + 7);
    let decoded = DataValue::decode(&encoded).unwrap();
    assert_eq!(decoded, value);
}

#[test]
fn value_decode_rejects_short_input() {
    assert!(DataValue::decode(&[0u8; 15]).is_none());
    let empty = DataValue::decode(&[0u8; 16]).unwrap();
    assert_eq!(empty.data, Vec::<u8>::new());
    assert_eq!(empty.metadata.created, 0);
}

#[test]
fn blob_wraps_bytes() {
    let blob = Blob::from(vec![1u8, 2, 3]);
    assert_eq!(blob.len(), 3);
    assert!(!blob.is_empty());
    assert_eq!(blob.inner(), &vec![1u8, 2, 3]);
    assert_eq!(blob.to_vec(), vec![1u8, 2, 3]);

    let empty = Blob::from_bytes(Vec::new());
    assert_eq!(empty.len(), 0);
    assert!(empty.is_empty());
    assert!(empty < blob);
}

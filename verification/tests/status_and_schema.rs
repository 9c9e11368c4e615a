use blake2::digest::consts::U32;
use blake2::digest::Digest;
use blake2::Blake2b;

use qsb_did::schema::{Error as SchemaError, Event as SchemaEvent, SchemaRegistry};
use qsb_did::status_list::{Error as StatusError, Event as StatusEvent, StatusListRegistry};
use qsb_did::ChainContext;

fn ctx() -> ChainContext {
    ChainContext::new(vec![0u8; 32]).unwrap()
}

fn blake(m: &[u8]) -> Vec<u8> {
    let mut h: Blake2b<U32> = Blake2b::new();
    h.update(m);
    h.finalize().to_vec()
}

#[test]
fn status_bit_flip() {
    let c = ctx();
    let mut reg = StatusListRegistry::new();
    let issuer = b"did:qsb:..A..".to_vec();
    let nonce = vec![0u8; 16];
    let ev = reg.create_status_list(&c, issuer.clone(), nonce, 20, Vec::new()).unwrap();
    let list_id = match ev {
        StatusEvent::StatusListCreated { status_list_id, issuer_did } => {
            assert_eq!(issuer_did, issuer);
            status_list_id
        },
        _ => panic!("wrong event"),
    };
    assert!(list_id.starts_with(b"did:qsb:statuslist:"));

    let record = reg.get_status_list(list_id.clone()).unwrap();
    assert_eq!(record.bitmap, vec![0u8, 0, 0]);
    assert_eq!(record.version, 0);

    let ev = reg.set_status(list_id.clone(), issuer.clone(), 9, true, Vec::new()).unwrap();
    match ev {
        StatusEvent::StatusUpdated { status_index, revoked, .. } => {
            assert_eq!(status_index, 9);
            assert!(revoked);
        },
        _ => panic!("wrong event"),
    }
    let record = reg.get_status_list(list_id.clone()).unwrap();
    assert_eq!(record.bitmap, vec![0x00u8, 0x02, 0x00]);
    assert_eq!(record.version, 1);

    assert_eq!(
        reg.set_status(list_id.clone(), issuer.clone(), 24, true, Vec::new()).unwrap_err(),
        StatusError::StatusIndexOutOfBounds
    );
    let record = reg.get_status_list(list_id.clone()).unwrap();
    assert_eq!(record.bitmap, vec![0x00u8, 0x02, 0x00]);

    // clearing the bit succeeds and still bumps the version
    reg.set_status(list_id.clone(), issuer.clone(), 9, false, Vec::new()).unwrap();
    let record = reg.get_status_list(list_id.clone()).unwrap();
    assert_eq!(record.bitmap, vec![0u8, 0, 0]);
    assert_eq!(record.version, 2);

    // re-setting a bit to its current value succeeds and bumps the version
    reg.set_status(list_id.clone(), issuer, 9, false, Vec::new()).unwrap();
    assert_eq!(reg.get_status_list(list_id).unwrap().version, 3);
}

#[test]
fn short_nonce_rejected() {
    let c = ctx();
    let mut reg = StatusListRegistry::new();
    assert_eq!(
        reg.create_status_list(&c, b"issuer".to_vec(), vec![0u8; 15], 8, Vec::new()).unwrap_err(),
        StatusError::InvalidListNonce
    );
}

#[test]
fn status_list_errors() {
    let c = ctx();
    let mut reg = StatusListRegistry::new();
    let issuer = b"did:qsb:..A..".to_vec();
    let nonce = vec![7u8; 16];
    let ev = reg.create_status_list(&c, issuer.clone(), nonce.clone(), 8, Vec::new()).unwrap();
    let list_id = match ev {
        StatusEvent::StatusListCreated { status_list_id, .. } => status_list_id,
        _ => panic!("wrong event"),
    };

    // a second creation with the same parts collides
    assert_eq!(
        reg.create_status_list(&c, issuer.clone(), nonce, 8, Vec::new()).unwrap_err(),
        StatusError::StatusListAlreadyExists
    );

    // only the creating issuer may flip bits
    assert_eq!(
        reg.set_status(list_id.clone(), b"did:qsb:..B..".to_vec(), 0, true, Vec::new()).unwrap_err(),
        StatusError::IssuerMismatch
    );

    // unknown list, malformed list id
    let mut id = blake(b"anything");
    id[0] ^= 1;
    let missing = bs58::encode(&id).into_string().into_bytes();
    assert_eq!(
        reg.set_status(missing, issuer, 0, true, Vec::new()).unwrap_err(),
        StatusError::StatusListNotFound
    );
    assert_eq!(
        reg.get_status_list(b"did:qsb:statuslist:0OIl".to_vec()).unwrap_err(),
        StatusError::InvalidStatusListId
    );
}

#[test]
fn schema_registration_is_content_addressed() {
    let c = ctx();
    let mut reg = SchemaRegistry::new();
    let json = b"{\"type\":\"credential\"}".to_vec();
    let issuer = b"did:qsb:..A..".to_vec();
    let ev = reg
        .register_schema(&c, json.clone(), b"ipfs://x".to_vec(), issuer.clone(), Vec::new())
        .unwrap();
    let schema_id = match ev {
        SchemaEvent::SchemaRegistered { schema_id, issuer_did } => {
            assert_eq!(issuer_did, issuer);
            schema_id
        },
        _ => panic!("wrong event"),
    };

    // the id is the digest of material prefix, genesis and the JSON bytes
    let mut material = b"QSB_SCHEMA".to_vec();
    material.extend_from_slice(&[0u8; 32]);
    material.extend_from_slice(&json);
    let id = blake(&material);
    let mut expected = b"did:qsb:schema:".to_vec();
    expected.extend_from_slice(bs58::encode(&id).into_string().as_bytes());
    assert_eq!(schema_id, expected);

    // the stored hash is the bare content hash, distinct from the id
    let record = reg.get_schema(schema_id.clone()).unwrap();
    assert_eq!(record.schema_hash, blake(&json));
    assert_ne!(record.schema_hash, id);
    assert_eq!(record.schema_uri, b"ipfs://x".to_vec());
    assert!(!record.deprecated);
    assert_eq!(record.version, 0);

    // byte-identical JSON collides; different JSON gets a different id
    assert_eq!(
        reg.register_schema(&c, json.clone(), b"ipfs://y".to_vec(), issuer.clone(), Vec::new())
            .unwrap_err(),
        SchemaError::SchemaAlreadyExists
    );
    let ev = reg
        .register_schema(&c, b"{\"type\":\"other\"}".to_vec(), b"ipfs://y".to_vec(), issuer, Vec::new())
        .unwrap();
    match ev {
        SchemaEvent::SchemaRegistered { schema_id: other_id, .. } => {
            assert_ne!(other_id, schema_id);
        },
        _ => panic!("wrong event"),
    }
}

#[test]
fn issuer_mismatched_deprecation() {
    let c = ctx();
    let mut reg = SchemaRegistry::new();
    let json = b"{\"a\":1}".to_vec();
    let ev = reg
        .register_schema(&c, json, b"ipfs://x".to_vec(), b"did:qsb:..A..".to_vec(), Vec::new())
        .unwrap();
    let schema_id = match ev {
        SchemaEvent::SchemaRegistered { schema_id, .. } => schema_id,
        _ => panic!("wrong event"),
    };

    assert_eq!(
        reg.deprecate_schema(schema_id.clone(), b"did:qsb:..B..".to_vec(), Vec::new()).unwrap_err(),
        SchemaError::IssuerMismatch
    );
    let record = reg.get_schema(schema_id.clone()).unwrap();
    assert!(!record.deprecated);
    assert_eq!(record.version, 0);

    // the registering issuer may deprecate, exactly once
    assert!(reg.deprecate_schema(schema_id.clone(), b"did:qsb:..A..".to_vec(), Vec::new()).is_ok());
    let record = reg.get_schema(schema_id.clone()).unwrap();
    assert!(record.deprecated);
    assert_eq!(record.version, 1);
    assert_eq!(
        reg.deprecate_schema(schema_id, b"did:qsb:..A..".to_vec(), Vec::new()).unwrap_err(),
        SchemaError::SchemaDeprecated
    );
}

#[test]
fn schema_errors() {
    let mut reg = SchemaRegistry::new();
    assert_eq!(
        reg.get_schema(b"did:qsb:schema:0OIl".to_vec()).unwrap_err(),
        SchemaError::InvalidSchemaId
    );
    let missing = bs58::encode(&[5u8; 32]).into_string().into_bytes();
    assert_eq!(
        reg.deprecate_schema(missing, b"i".to_vec(), Vec::new()).unwrap_err(),
        SchemaError::SchemaNotFound
    );
}

#[test]
fn oversized_list_length_rejected() {
    let c = ctx();
    let mut reg = StatusListRegistry::new();
    assert_eq!(
        reg.create_status_list(&c, b"issuer".to_vec(), vec![0u8; 16], u32::MAX, Vec::new())
            .unwrap_err(),
        StatusError::StatusIndexOutOfBounds
    );
}

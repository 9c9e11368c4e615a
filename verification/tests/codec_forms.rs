use blake2::digest::consts::U32;
use blake2::digest::Digest;
use blake2::Blake2b;

use qsb_did::did::{did_id_from_public_key, did_string_from_did_id, decode_did_id, Error};
use qsb_did::scale::push_compact_len;
use qsb_did::schema::{decode_schema_id, schema_string_from_schema_id};
use qsb_did::status_list::{decode_status_list_id, status_list_string_from_id};
use qsb_did::ChainContext;

fn blake(m: &[u8]) -> Vec<u8> {
    let mut h: Blake2b<U32> = Blake2b::new();
    h.update(m);
    h.finalize().to_vec()
}

fn some_id() -> Vec<u8> {
    blake(b"an identifier")
}

#[test]
fn textual_round_trip_all_prefixes() {
    let id = some_id();

    let s = did_string_from_did_id(&id);
    assert!(s.starts_with(b"did:qsb:"));
    assert_eq!(decode_did_id(&s).unwrap(), id);

    let s = status_list_string_from_id(&id);
    assert!(s.starts_with(b"did:qsb:statuslist:"));
    assert_eq!(decode_status_list_id(&s).unwrap(), id);

    let s = schema_string_from_schema_id(&id);
    assert!(s.starts_with(b"did:qsb:schema:"));
    assert_eq!(decode_schema_id(&s).unwrap(), id);
}

#[test]
fn raw_base58_accepted() {
    let id = some_id();
    let raw = bs58::encode(&id).into_string().into_bytes();
    assert_eq!(decode_did_id(&raw).unwrap(), id);
    assert_eq!(decode_status_list_id(&raw).unwrap(), id);
    assert_eq!(decode_schema_id(&raw).unwrap(), id);
}

#[test]
fn malformed_ids_rejected() {
    // characters outside the base58 alphabet
    assert_eq!(decode_did_id(&b"did:qsb:0OIl".to_vec()).unwrap_err(), Error::InvalidDidId);
    // valid base58 that does not decode to exactly 32 bytes
    let short = bs58::encode(&[1u8; 8]).into_string().into_bytes();
    assert_eq!(decode_did_id(&short).unwrap_err(), Error::InvalidDidId);
    let long = bs58::encode(&[1u8; 40]).into_string().into_bytes();
    assert_eq!(decode_did_id(&long).unwrap_err(), Error::InvalidDidId);
}

#[test]
fn textual_form_is_prefixed_base58() {
    let id = some_id();
    let s = did_string_from_did_id(&id);
    let mut expected = b"did:qsb:".to_vec();
    expected.extend_from_slice(bs58::encode(&id).into_string().as_bytes());
    assert_eq!(s, expected);
}

#[test]
fn id_derivation_mixes_genesis() {
    let pk = vec![9u8; 1312];
    let c0 = ChainContext::new(vec![0u8; 32]).unwrap();
    let c1 = ChainContext::new(vec![1u8; 32]).unwrap();
    let id0 = did_id_from_public_key(&c0, &pk);
    let id1 = did_id_from_public_key(&c1, &pk);
    assert_ne!(id0, id1);

    let mut material = b"QSB_DID".to_vec();
    material.extend_from_slice(&[0u8; 32]);
    material.extend_from_slice(&pk);
    assert_eq!(id0, blake(&material));
}

#[test]
fn chain_context_requires_32_byte_genesis() {
    assert!(ChainContext::new(vec![0u8; 31]).is_none());
    assert!(ChainContext::new(vec![0u8; 32]).is_some());
}

#[test]
fn compact_length_modes() {
    // one byte: value shifted left twice
    let mut v = Vec::new();
    push_compact_len(&mut v, 5);
    assert_eq!(v, vec![20u8]);
    let mut v = Vec::new();
    push_compact_len(&mut v, 63);
    assert_eq!(v, vec![252u8]);
    // two bytes, little endian: 64 -> 64*4+1 = 0x0101
    let mut v = Vec::new();
    push_compact_len(&mut v, 64);
    assert_eq!(v, vec![0x01u8, 0x01]);
    // the public-key width used throughout: 1312 -> 5249 = 0x1481
    let mut v = Vec::new();
    push_compact_len(&mut v, 1312);
    assert_eq!(v, vec![0x81u8, 0x14]);
    // four bytes: 16384 -> 16384*4+2 = 0x00010002
    let mut v = Vec::new();
    push_compact_len(&mut v, 16384);
    assert_eq!(v, vec![0x02u8, 0x00, 0x01, 0x00]);
    // big mode: 2^30 -> header (4-4)*4+3 = 3, then 4 little-endian bytes
    let mut v = Vec::new();
    push_compact_len(&mut v, 1073741824);
    assert_eq!(v, vec![0x03u8, 0x00, 0x00, 0x00, 0x40]);
}

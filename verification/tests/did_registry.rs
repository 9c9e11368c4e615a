use blake2::digest::consts::U32;
use blake2::digest::Digest;
use blake2::Blake2b;
use ml_dsa::{Keypair, MlDsa44, Signer, SigningKey};

use qsb_did::did::{DidRegistry, Error, Event};
use qsb_did::rpc::DidRpc;
use qsb_did::types::KeyRole;
use qsb_did::ChainContext;

fn ctx() -> ChainContext {
    ChainContext::new(vec![0u8; 32]).unwrap()
}

fn keypair(tag: u8) -> (SigningKey<MlDsa44>, Vec<u8>) {
    let seed = ml_dsa::B32::from([tag; 32]);
    let sk = SigningKey::<MlDsa44>::from_seed(&seed);
    let pk = sk.verifying_key().encode().as_slice().to_vec();
    (sk, pk)
}

fn sign(sk: &SigningKey<MlDsa44>, msg: &[u8]) -> Vec<u8> {
    sk.sign(msg).encode().as_slice().to_vec()
}

fn compact(n: usize) -> Vec<u8> {
    if n < 64 {
        vec![(n as u8) * 4]
    } else {
        assert!(n < 16384);
        let v = (n as u16) * 4 + 1;
        vec![(v & 0xff) as u8, (v >> 8) as u8]
    }
}

fn enc(b: &[u8]) -> Vec<u8> {
    let mut out = compact(b.len());
    out.extend_from_slice(b);
    out
}

fn payload(prefix: &str, parts: &[&[u8]]) -> Vec<u8> {
    let mut p = prefix.as_bytes().to_vec();
    for part in parts {
        p.extend_from_slice(&enc(part));
    }
    p
}

fn enc_role_seq(roles: &[u8]) -> Vec<u8> {
    let mut out = compact(roles.len());
    out.extend_from_slice(roles);
    out
}

fn blake(m: &[u8]) -> Vec<u8> {
    let mut h: Blake2b<U32> = Blake2b::new();
    h.update(m);
    h.finalize().to_vec()
}

fn created_did(reg: &mut DidRegistry, c: &ChainContext, sk: &SigningKey<MlDsa44>, pk: &[u8]) -> Vec<u8> {
    let pl = payload("QSB_DID_CREATE", &[pk]);
    let sig = sign(sk, &pl);
    match reg.create_did(c, pk.to_vec(), sig).unwrap() {
        Event::DidCreated { did } => did,
        _ => panic!("wrong event"),
    }
}

#[test]
fn create_and_read() {
    let c = ctx();
    let mut reg = DidRegistry::new();
    let (sk1, pk1) = keypair(1);
    let did = created_did(&mut reg, &c, &sk1, &pk1);

    let mut material = b"QSB_DID".to_vec();
    material.extend_from_slice(&[0u8; 32]);
    material.extend_from_slice(&pk1);
    let id = blake(&material);
    let mut expected = b"did:qsb:".to_vec();
    expected.extend_from_slice(bs58::encode(&id).into_string().as_bytes());
    assert_eq!(did, expected);

    let details = reg.get_did(did.clone()).unwrap();
    assert_eq!(details.version, 0);
    assert!(!details.deactivated);
    assert_eq!(details.keys.len(), 1);
    assert_eq!(details.keys[0].public_key, pk1);
    assert_eq!(details.keys[0].roles, vec![KeyRole::Authentication]);
    assert!(!details.keys[0].revoked);
    assert!(details.services.is_empty());
    assert!(details.metadata.is_empty());

    let rpc = DidRpc::new(reg);
    let resolved = rpc.did_by_string(did).unwrap();
    assert_eq!(resolved.version, 0);
    assert_eq!(resolved.keys[0].public_key, pk1);
    assert!(rpc.did_by_string(b"not base58 \xff".to_vec()).is_none());
}

#[test]
fn duplicate_creation_rejected() {
    let c = ctx();
    let mut reg = DidRegistry::new();
    let (sk1, pk1) = keypair(1);
    let did = created_did(&mut reg, &c, &sk1, &pk1);

    let pl = payload("QSB_DID_CREATE", &[&pk1]);
    let sig = sign(&sk1, &pl);
    assert_eq!(reg.create_did(&c, pk1.clone(), sig).unwrap_err(), Error::DidAlreadyExists);
    // state unchanged
    let details = reg.get_did(did).unwrap();
    assert_eq!(details.version, 0);
    assert_eq!(details.keys.len(), 1);
}

#[test]
fn rotate_then_old_key_powerless() {
    let c = ctx();
    let mut reg = DidRegistry::new();
    let (sk1, pk1) = keypair(1);
    let (sk2, pk2) = keypair(2);
    let (_, pk3) = keypair(3);
    let did = created_did(&mut reg, &c, &sk1, &pk1);

    let mut pl = payload("QSB_DID_ROTATE_KEY", &[&did, &pk1, &pk2]);
    pl.extend_from_slice(&enc_role_seq(&[0]));
    let sig = sign(&sk1, &pl);
    match reg.rotate_key(did.clone(), pk1.clone(), pk2.clone(), vec![KeyRole::Authentication], sig).unwrap() {
        Event::KeyRotated { old_public_key, new_public_key, .. } => {
            assert_eq!(old_public_key, pk1);
            assert_eq!(new_public_key, pk2);
        },
        _ => panic!("wrong event"),
    }
    let details = reg.get_did(did.clone()).unwrap();
    assert_eq!(details.version, 1);
    assert_eq!(details.keys.len(), 2);
    assert_eq!(details.keys[0].public_key, pk1);
    assert!(details.keys[0].revoked);
    assert_eq!(details.keys[1].public_key, pk2);
    assert!(!details.keys[1].revoked);
    assert_eq!(details.keys[1].roles, vec![KeyRole::Authentication]);

    // the revoked key no longer authorizes anything
    let mut pl = payload("QSB_DID_ADD_KEY", &[&did, &pk3]);
    pl.extend_from_slice(&enc_role_seq(&[0]));
    let bad = sign(&sk1, &pl);
    assert_eq!(
        reg.add_key(did.clone(), pk3.clone(), vec![KeyRole::Authentication], bad).unwrap_err(),
        Error::InvalidSignature
    );
    // the new key does
    let good = sign(&sk2, &pl);
    assert!(reg.add_key(did.clone(), pk3.clone(), vec![KeyRole::Authentication], good).is_ok());
    let details = reg.get_did(did).unwrap();
    assert_eq!(details.version, 2);
    assert_eq!(details.keys.len(), 3);
}

#[test]
fn deactivated_did_absorbs_mutations() {
    let c = ctx();
    let mut reg = DidRegistry::new();
    let (sk1, pk1) = keypair(1);
    let (_, pk2) = keypair(2);
    let did = created_did(&mut reg, &c, &sk1, &pk1);

    let pl = payload("QSB_DID_DEACTIVATE", &[&did]);
    let sig = sign(&sk1, &pl);
    assert!(reg.deactivate_did(did.clone(), sig.clone()).is_ok());
    let details = reg.get_did(did.clone()).unwrap();
    assert!(details.deactivated);
    assert_eq!(details.version, 1);

    // a second deactivation, properly signed, fails
    assert_eq!(reg.deactivate_did(did.clone(), sig).unwrap_err(), Error::DidDeactivated);

    // every other mutation fails the same way
    let mut pl = payload("QSB_DID_ADD_KEY", &[&did, &pk2]);
    pl.extend_from_slice(&enc_role_seq(&[0]));
    let sig = sign(&sk1, &pl);
    assert_eq!(
        reg.add_key(did.clone(), pk2.clone(), vec![KeyRole::Authentication], sig).unwrap_err(),
        Error::DidDeactivated
    );
    let details = reg.get_did(did).unwrap();
    assert_eq!(details.version, 1);
}

#[test]
fn key_lifecycle_errors() {
    let c = ctx();
    let mut reg = DidRegistry::new();
    let (sk1, pk1) = keypair(1);
    let (_, pk2) = keypair(2);
    let did = created_did(&mut reg, &c, &sk1, &pk1);

    // adding the same key again
    let mut pl = payload("QSB_DID_ADD_KEY", &[&did, &pk1]);
    pl.extend_from_slice(&enc_role_seq(&[0]));
    let sig = sign(&sk1, &pl);
    assert_eq!(
        reg.add_key(did.clone(), pk1.clone(), vec![KeyRole::Authentication], sig).unwrap_err(),
        Error::KeyAlreadyExists
    );

    // revoking an unknown key
    let pl = payload("QSB_DID_REVOKE_KEY", &[&did, &pk2]);
    let sig = sign(&sk1, &pl);
    assert_eq!(reg.revoke_key(did.clone(), pk2.clone(), sig).unwrap_err(), Error::KeyNotFound);

    // updating roles of an unknown key
    let mut pl = payload("QSB_DID_UPDATE_ROLES", &[&did, &pk2]);
    pl.extend_from_slice(&enc_role_seq(&[1]));
    let sig = sign(&sk1, &pl);
    assert_eq!(
        reg.update_roles(did.clone(), pk2.clone(), vec![KeyRole::AssertionMethod], sig).unwrap_err(),
        Error::KeyNotFound
    );

    // self-revocation is allowed, then the key cannot be revoked again
    let pl = payload("QSB_DID_REVOKE_KEY", &[&did, &pk1]);
    let sig = sign(&sk1, &pl);
    assert!(reg.revoke_key(did.clone(), pk1.clone(), sig.clone()).is_ok());
    // the key set is now empty of live keys: the same command no longer verifies
    assert_eq!(reg.revoke_key(did.clone(), pk1.clone(), sig).unwrap_err(), Error::InvalidSignature);
    let details = reg.get_did(did).unwrap();
    assert_eq!(details.version, 1);
    assert!(details.keys[0].revoked);
}

#[test]
fn update_roles_replaces_roles() {
    let c = ctx();
    let mut reg = DidRegistry::new();
    let (sk1, pk1) = keypair(1);
    let did = created_did(&mut reg, &c, &sk1, &pk1);

    let mut pl = payload("QSB_DID_UPDATE_ROLES", &[&did, &pk1]);
    pl.extend_from_slice(&enc_role_seq(&[0, 3]));
    let sig = sign(&sk1, &pl);
    let roles = vec![KeyRole::Authentication, KeyRole::CapabilityInvocation];
    assert!(reg.update_roles(did.clone(), pk1.clone(), roles.clone(), sig).is_ok());
    let details = reg.get_did(did).unwrap();
    assert_eq!(details.keys[0].roles, roles);
    assert_eq!(details.version, 1);
}

#[test]
fn service_lifecycle() {
    let c = ctx();
    let mut reg = DidRegistry::new();
    let (sk1, pk1) = keypair(1);
    let did = created_did(&mut reg, &c, &sk1, &pk1);

    let svc = qsb_did::types::ServiceEndpoint {
        id: b"svc-1".to_vec(),
        service_type: b"LinkedDomains".to_vec(),
        endpoint: b"https://example.org".to_vec(),
    };
    let mut svc_bytes = enc(&svc.id);
    svc_bytes.extend_from_slice(&enc(&svc.service_type));
    svc_bytes.extend_from_slice(&enc(&svc.endpoint));
    let mut pl = payload("QSB_DID_ADD_SERVICE", &[&did]);
    pl.extend_from_slice(&svc_bytes);
    let sig = sign(&sk1, &pl);
    assert!(reg.add_service(did.clone(), svc, sig.clone()).is_ok());

    // duplicate id rejected
    let svc2 = qsb_did::types::ServiceEndpoint {
        id: b"svc-1".to_vec(),
        service_type: b"LinkedDomains".to_vec(),
        endpoint: b"https://example.org".to_vec(),
    };
    assert_eq!(reg.add_service(did.clone(), svc2, sig).unwrap_err(), Error::ServiceAlreadyExists);

    // removal, then removing again fails
    let pl = payload("QSB_DID_REMOVE_SERVICE", &[&did, b"svc-1"]);
    let sig = sign(&sk1, &pl);
    assert!(reg.remove_service(did.clone(), b"svc-1".to_vec(), sig.clone()).is_ok());
    assert_eq!(
        reg.remove_service(did.clone(), b"svc-1".to_vec(), sig).unwrap_err(),
        Error::ServiceNotFound
    );
    let details = reg.get_did(did).unwrap();
    assert!(details.services.is_empty());
    assert_eq!(details.version, 2);
}

#[test]
fn metadata_lifecycle() {
    let c = ctx();
    let mut reg = DidRegistry::new();
    let (sk1, pk1) = keypair(1);
    let did = created_did(&mut reg, &c, &sk1, &pk1);

    let entry = qsb_did::types::MetadataEntry { key: b"k".to_vec(), value: b"v1".to_vec() };
    let mut pl = payload("QSB_DID_SET_METADATA", &[&did]);
    pl.extend_from_slice(&enc(b"k"));
    pl.extend_from_slice(&enc(b"v1"));
    let sig = sign(&sk1, &pl);
    assert!(reg.set_metadata(did.clone(), entry, sig).is_ok());

    // last write wins, position preserved
    let entry2 = qsb_did::types::MetadataEntry { key: b"k".to_vec(), value: b"v2".to_vec() };
    let mut pl = payload("QSB_DID_SET_METADATA", &[&did]);
    pl.extend_from_slice(&enc(b"k"));
    pl.extend_from_slice(&enc(b"v2"));
    let sig = sign(&sk1, &pl);
    assert!(reg.set_metadata(did.clone(), entry2, sig).is_ok());
    let details = reg.get_did(did.clone()).unwrap();
    assert_eq!(details.metadata.len(), 1);
    assert_eq!(details.metadata[0].key, b"k".to_vec());
    assert_eq!(details.metadata[0].value, b"v2".to_vec());
    assert_eq!(details.version, 2);

    // removing an absent key fails; removing the present one empties the map
    let pl = payload("QSB_DID_REMOVE_METADATA", &[&did, b"absent"]);
    let sig = sign(&sk1, &pl);
    assert_eq!(
        reg.remove_metadata(did.clone(), b"absent".to_vec(), sig).unwrap_err(),
        Error::MetadataNotFound
    );
    let pl = payload("QSB_DID_REMOVE_METADATA", &[&did, b"k"]);
    let sig = sign(&sk1, &pl);
    assert!(reg.remove_metadata(did.clone(), b"k".to_vec(), sig).is_ok());
    let details = reg.get_did(did).unwrap();
    assert!(details.metadata.is_empty());
    assert_eq!(details.version, 3);
}

#[test]
fn malformed_crypto_material_rejected() {
    let c = ctx();
    let mut reg = DidRegistry::new();
    let (sk1, pk1) = keypair(1);
    let (sk2, _) = keypair(2);

    // a public key of the wrong width
    let short_pk = vec![1u8; 10];
    let pl = payload("QSB_DID_CREATE", &[&short_pk]);
    let sig = sign(&sk1, &pl);
    assert_eq!(reg.create_did(&c, short_pk, sig).unwrap_err(), Error::InvalidPublicKey);

    // signature bytes of the wrong width
    let pl = payload("QSB_DID_CREATE", &[&pk1]);
    assert_eq!(
        reg.create_did(&c, pk1.clone(), vec![0u8; 7]).unwrap_err(),
        Error::InvalidDidSignature
    );

    // a well-formed signature by the wrong key
    let wrong = sign(&sk2, &pl);
    assert_eq!(reg.create_did(&c, pk1.clone(), wrong).unwrap_err(), Error::InvalidSignature);

    // an unknown DID
    let did = created_did(&mut reg, &c, &sk1, &pk1);
    let mut other = did.clone();
    let n = other.len();
    other[n - 1] = if other[n - 1] == b'2' { b'3' } else { b'2' };
    let pl = payload("QSB_DID_DEACTIVATE", &[&other]);
    let sig = sign(&sk1, &pl);
    assert_eq!(reg.deactivate_did(other, sig).unwrap_err(), Error::DidNotFound);

    // a malformed id
    let pl = payload("QSB_DID_DEACTIVATE", &[b"did:qsb:0OIl"]);
    let sig = sign(&sk1, &pl);
    assert_eq!(reg.deactivate_did(b"did:qsb:0OIl".to_vec(), sig).unwrap_err(), Error::InvalidDidId);
}

#[test]
fn version_increments_once_per_mutation() {
    let c = ctx();
    let mut reg = DidRegistry::new();
    let (sk1, pk1) = keypair(1);
    let (_, pk2) = keypair(2);
    let did = created_did(&mut reg, &c, &sk1, &pk1);
    assert_eq!(reg.get_did(did.clone()).unwrap().version, 0);

    let mut pl = payload("QSB_DID_ADD_KEY", &[&did, &pk2]);
    pl.extend_from_slice(&enc_role_seq(&[2]));
    let sig = sign(&sk1, &pl);
    reg.add_key(did.clone(), pk2.clone(), vec![KeyRole::KeyAgreement], sig).unwrap();
    assert_eq!(reg.get_did(did.clone()).unwrap().version, 1);

    let pl = payload("QSB_DID_REVOKE_KEY", &[&did, &pk2]);
    let sig = sign(&sk1, &pl);
    reg.revoke_key(did.clone(), pk2, sig).unwrap();
    assert_eq!(reg.get_did(did).unwrap().version, 2);
}

#[test]
fn rotate_and_revoke_error_paths() {
    let c = ctx();
    let mut reg = DidRegistry::new();
    let (sk1, pk1) = keypair(1);
    let (_, pk2) = keypair(2);
    let did = created_did(&mut reg, &c, &sk1, &pk1);

    let mut pl = payload("QSB_DID_ADD_KEY", &[&did, &pk2]);
    pl.extend_from_slice(&enc_role_seq(&[1]));
    let sig = sign(&sk1, &pl);
    reg.add_key(did.clone(), pk2.clone(), vec![KeyRole::AssertionMethod], sig).unwrap();

    // revoke the second key, then revoking it again is a distinct error
    let pl = payload("QSB_DID_REVOKE_KEY", &[&did, &pk2]);
    let sig = sign(&sk1, &pl);
    reg.revoke_key(did.clone(), pk2.clone(), sig.clone()).unwrap();
    assert_eq!(
        reg.revoke_key(did.clone(), pk2.clone(), sig).unwrap_err(),
        Error::KeyAlreadyRevoked
    );

    // rotation onto an existing key collides, even with a revoked one
    let mut pl = payload("QSB_DID_ROTATE_KEY", &[&did, &pk1, &pk2]);
    pl.extend_from_slice(&enc_role_seq(&[0]));
    let sig = sign(&sk1, &pl);
    assert_eq!(
        reg.rotate_key(did.clone(), pk1.clone(), pk2.clone(), vec![KeyRole::Authentication], sig)
            .unwrap_err(),
        Error::KeyAlreadyExists
    );

    // rotation from an unknown key, and from a revoked key
    let (_, pk3) = keypair(3);
    let (_, pk4) = keypair(4);
    let mut pl = payload("QSB_DID_ROTATE_KEY", &[&did, &pk3, &pk4]);
    pl.extend_from_slice(&enc_role_seq(&[0]));
    let sig = sign(&sk1, &pl);
    assert_eq!(
        reg.rotate_key(did.clone(), pk3, pk4.clone(), vec![KeyRole::Authentication], sig)
            .unwrap_err(),
        Error::KeyNotFound
    );
    let mut pl = payload("QSB_DID_ROTATE_KEY", &[&did, &pk2, &pk4]);
    pl.extend_from_slice(&enc_role_seq(&[0]));
    let sig = sign(&sk1, &pl);
    assert_eq!(
        reg.rotate_key(did.clone(), pk2, pk4, vec![KeyRole::Authentication], sig).unwrap_err(),
        Error::KeyAlreadyRevoked
    );

    // updating roles of a revoked key also fails
    let details = reg.get_did(did).unwrap();
    assert_eq!(details.version, 2);
    assert!(details.keys[1].revoked);
}

//! The DID registry: the ten mutation commands over DID documents, each
//! authorized by an ML-DSA-44 signature over a canonical, domain-separated
//! payload, together with the read path and the identifier helpers.

use vstd::prelude::*;

use crate::codec::{
    base58_of, compute_id, decode_textual_id, derive_id, encode_textual_id, parse_id,
};
use crate::crypto::{
    mldsa44_pk_wf, mldsa44_sig_wf, mldsa44_verifies, mldsa_verify, pk_well_formed, sig_authorizes,
    sig_well_formed,
};
use crate::scale::{
    enc_bytes, enc_entry, enc_roles, enc_service, push_enc_bytes, push_enc_entry, push_enc_roles,
    push_enc_service,
};
use crate::store::Store;
use crate::types::{
    keys_unique, keys_view, metadata_unique, metadata_view, services_unique, services_view,
    clone_bytes, copy_elems, DidDetails, DidDetailsV, DidKey, DidKeyV, KeyRole, MetadataEntry, MetadataEntryV,
    ServiceEndpoint, ServiceEndpointV,
};
use crate::ChainContext;

verus! {

/// Why a DID command was rejected.
#[derive(Clone, Copy, PartialEq, Eq, Debug)]
pub enum Error {
    DidAlreadyExists,
    DidNotFound,
    DidDeactivated,
    KeyAlreadyExists,
    KeyNotFound,
    KeyAlreadyRevoked,
    InvalidDidId,
    ServiceAlreadyExists,
    ServiceNotFound,
    MetadataNotFound,
    InvalidSignature,
    InvalidPublicKey,
    InvalidDidSignature,
}

/// What a successful DID command reports.
#[derive(Debug)]
pub enum Event {
    DidCreated { did: Vec<u8> },
    KeyAdded { did: Vec<u8>, public_key: Vec<u8> },
    KeyRevoked { did: Vec<u8>, public_key: Vec<u8> },
    DidDeactivated { did: Vec<u8> },
    KeyRotated { did: Vec<u8>, old_public_key: Vec<u8>, new_public_key: Vec<u8> },
    RolesUpdated { did: Vec<u8>, public_key: Vec<u8> },
    ServiceAdded { did: Vec<u8>, service_id: Vec<u8> },
    ServiceRemoved { did: Vec<u8>, service_id: Vec<u8> },
    MetadataSet { did: Vec<u8>, key: Vec<u8> },
    MetadataRemoved { did: Vec<u8>, key: Vec<u8> },
}

/// `"did:qsb:"` as bytes.
pub open spec fn spec_did_prefix() -> Seq<u8> {
    seq![100u8, 105u8, 100u8, 58u8, 113u8, 115u8, 98u8, 58u8]
}

pub fn did_prefix() -> (r: Vec<u8>)
    ensures
        r@ == spec_did_prefix(),
{
    let a: [u8; 8] = [100u8, 105u8, 100u8, 58u8, 113u8, 115u8, 98u8, 58u8];
    let mut v: Vec<u8> = Vec::new();
    v.extend_from_slice(a.as_slice());
    proof {
        assert(v@ =~= spec_did_prefix());
    }
    v
}

/// `"QSB_DID"` as bytes.
pub open spec fn spec_did_material_prefix() -> Seq<u8> {
    seq![81u8, 83u8, 66u8, 95u8, 68u8, 73u8, 68u8]
}

pub fn did_material_prefix() -> (r: Vec<u8>)
    ensures
        r@ == spec_did_material_prefix(),
{
    let a: [u8; 7] = [81u8, 83u8, 66u8, 95u8, 68u8, 73u8, 68u8];
    let mut v: Vec<u8> = Vec::new();
    v.extend_from_slice(a.as_slice());
    proof {
        assert(v@ =~= spec_did_material_prefix());
    }
    v
}

/// `"QSB_DID_CREATE"` as bytes.
pub open spec fn spec_create_prefix() -> Seq<u8> {
    seq![81u8, 83u8, 66u8, 95u8, 68u8, 73u8, 68u8, 95u8, 67u8, 82u8, 69u8, 65u8, 84u8, 69u8]
}

pub fn create_prefix() -> (r: Vec<u8>)
    ensures
        r@ == spec_create_prefix(),
{
    let a: [u8; 14] = [81u8, 83u8, 66u8, 95u8, 68u8, 73u8, 68u8, 95u8, 67u8, 82u8, 69u8, 65u8, 84u8, 69u8];
    let mut v: Vec<u8> = Vec::new();
    v.extend_from_slice(a.as_slice());
    proof {
        assert(v@ =~= spec_create_prefix());
    }
    v
}

/// `"QSB_DID_ADD_KEY"` as bytes.
pub open spec fn spec_add_key_prefix() -> Seq<u8> {
    seq![81u8, 83u8, 66u8, 95u8, 68u8, 73u8, 68u8, 95u8, 65u8, 68u8, 68u8, 95u8, 75u8, 69u8, 89u8]
}

pub fn add_key_prefix() -> (r: Vec<u8>)
    ensures
        r@ == spec_add_key_prefix(),
{
    let a: [u8; 15] = [81u8, 83u8, 66u8, 95u8, 68u8, 73u8, 68u8, 95u8, 65u8, 68u8, 68u8, 95u8, 75u8, 69u8, 89u8];
    let mut v: Vec<u8> = Vec::new();
    v.extend_from_slice(a.as_slice());
    proof {
        assert(v@ =~= spec_add_key_prefix());
    }
    v
}

/// `"QSB_DID_REVOKE_KEY"` as bytes.
pub open spec fn spec_revoke_key_prefix() -> Seq<u8> {
    seq![81u8, 83u8, 66u8, 95u8, 68u8, 73u8, 68u8, 95u8, 82u8, 69u8, 86u8, 79u8, 75u8, 69u8, 95u8, 75u8, 69u8, 89u8]
}

pub fn revoke_key_prefix() -> (r: Vec<u8>)
    ensures
        r@ == spec_revoke_key_prefix(),
{
    let a: [u8; 18] = [81u8, 83u8, 66u8, 95u8, 68u8, 73u8, 68u8, 95u8, 82u8, 69u8, 86u8, 79u8, 75u8, 69u8, 95u8, 75u8, 69u8, 89u8];
    let mut v: Vec<u8> = Vec::new();
    v.extend_from_slice(a.as_slice());
    proof {
        assert(v@ =~= spec_revoke_key_prefix());
    }
    v
}

/// `"QSB_DID_DEACTIVATE"` as bytes.
pub open spec fn spec_deactivate_prefix() -> Seq<u8> {
    seq![81u8, 83u8, 66u8, 95u8, 68u8, 73u8, 68u8, 95u8, 68u8, 69u8, 65u8, 67u8, 84u8, 73u8, 86u8, 65u8, 84u8, 69u8]
}

pub fn deactivate_prefix() -> (r: Vec<u8>)
    ensures
        r@ == spec_deactivate_prefix(),
{
    let a: [u8; 18] = [81u8, 83u8, 66u8, 95u8, 68u8, 73u8, 68u8, 95u8, 68u8, 69u8, 65u8, 67u8, 84u8, 73u8, 86u8, 65u8, 84u8, 69u8];
    let mut v: Vec<u8> = Vec::new();
    v.extend_from_slice(a.as_slice());
    proof {
        assert(v@ =~= spec_deactivate_prefix());
    }
    v
}

/// `"QSB_DID_ADD_SERVICE"` as bytes.
pub open spec fn spec_add_service_prefix() -> Seq<u8> {
    seq![81u8, 83u8, 66u8, 95u8, 68u8, 73u8, 68u8, 95u8, 65u8, 68u8, 68u8, 95u8, 83u8, 69u8, 82u8, 86u8, 73u8, 67u8, 69u8]
}

pub fn add_service_prefix() -> (r: Vec<u8>)
    ensures
        r@ == spec_add_service_prefix(),
{
    let a: [u8; 19] = [81u8, 83u8, 66u8, 95u8, 68u8, 73u8, 68u8, 95u8, 65u8, 68u8, 68u8, 95u8, 83u8, 69u8, 82u8, 86u8, 73u8, 67u8, 69u8];
    let mut v: Vec<u8> = Vec::new();
    v.extend_from_slice(a.as_slice());
    proof {
        assert(v@ =~= spec_add_service_prefix());
    }
    v
}

/// `"QSB_DID_REMOVE_SERVICE"` as bytes.
pub open spec fn spec_remove_service_prefix() -> Seq<u8> {
    seq![81u8, 83u8, 66u8, 95u8, 68u8, 73u8, 68u8, 95u8, 82u8, 69u8, 77u8, 79u8, 86u8, 69u8, 95u8, 83u8, 69u8, 82u8, 86u8, 73u8, 67u8, 69u8]
}

pub fn remove_service_prefix() -> (r: Vec<u8>)
    ensures
        r@ == spec_remove_service_prefix(),
{
    let a: [u8; 22] = [81u8, 83u8, 66u8, 95u8, 68u8, 73u8, 68u8, 95u8, 82u8, 69u8, 77u8, 79u8, 86u8, 69u8, 95u8, 83u8, 69u8, 82u8, 86u8, 73u8, 67u8, 69u8];
    let mut v: Vec<u8> = Vec::new();
    v.extend_from_slice(a.as_slice());
    proof {
        assert(v@ =~= spec_remove_service_prefix());
    }
    v
}

/// `"QSB_DID_SET_METADATA"` as bytes.
pub open spec fn spec_set_metadata_prefix() -> Seq<u8> {
    seq![81u8, 83u8, 66u8, 95u8, 68u8, 73u8, 68u8, 95u8, 83u8, 69u8, 84u8, 95u8, 77u8, 69u8, 84u8, 65u8, 68u8, 65u8, 84u8, 65u8]
}

pub fn set_metadata_prefix() -> (r: Vec<u8>)
    ensures
        r@ == spec_set_metadata_prefix(),
{
    let a: [u8; 20] = [81u8, 83u8, 66u8, 95u8, 68u8, 73u8, 68u8, 95u8, 83u8, 69u8, 84u8, 95u8, 77u8, 69u8, 84u8, 65u8, 68u8, 65u8, 84u8, 65u8];
    let mut v: Vec<u8> = Vec::new();
    v.extend_from_slice(a.as_slice());
    proof {
        assert(v@ =~= spec_set_metadata_prefix());
    }
    v
}

/// `"QSB_DID_REMOVE_METADATA"` as bytes.
pub open spec fn spec_remove_metadata_prefix() -> Seq<u8> {
    seq![81u8, 83u8, 66u8, 95u8, 68u8, 73u8, 68u8, 95u8, 82u8, 69u8, 77u8, 79u8, 86u8, 69u8, 95u8, 77u8, 69u8, 84u8, 65u8, 68u8, 65u8, 84u8, 65u8]
}

pub fn remove_metadata_prefix() -> (r: Vec<u8>)
    ensures
        r@ == spec_remove_metadata_prefix(),
{
    let a: [u8; 23] = [81u8, 83u8, 66u8, 95u8, 68u8, 73u8, 68u8, 95u8, 82u8, 69u8, 77u8, 79u8, 86u8, 69u8, 95u8, 77u8, 69u8, 84u8, 65u8, 68u8, 65u8, 84u8, 65u8];
    let mut v: Vec<u8> = Vec::new();
    v.extend_from_slice(a.as_slice());
    proof {
        assert(v@ =~= spec_remove_metadata_prefix());
    }
    v
}

/// `"QSB_DID_ROTATE_KEY"` as bytes.
pub open spec fn spec_rotate_key_prefix() -> Seq<u8> {
    seq![81u8, 83u8, 66u8, 95u8, 68u8, 73u8, 68u8, 95u8, 82u8, 79u8, 84u8, 65u8, 84u8, 69u8, 95u8, 75u8, 69u8, 89u8]
}

pub fn rotate_key_prefix() -> (r: Vec<u8>)
    ensures
        r@ == spec_rotate_key_prefix(),
{
    let a: [u8; 18] = [81u8, 83u8, 66u8, 95u8, 68u8, 73u8, 68u8, 95u8, 82u8, 79u8, 84u8, 65u8, 84u8, 69u8, 95u8, 75u8, 69u8, 89u8];
    let mut v: Vec<u8> = Vec::new();
    v.extend_from_slice(a.as_slice());
    proof {
        assert(v@ =~= spec_rotate_key_prefix());
    }
    v
}

/// `"QSB_DID_UPDATE_ROLES"` as bytes.
pub open spec fn spec_update_roles_prefix() -> Seq<u8> {
    seq![81u8, 83u8, 66u8, 95u8, 68u8, 73u8, 68u8, 95u8, 85u8, 80u8, 68u8, 65u8, 84u8, 69u8, 95u8, 82u8, 79u8, 76u8, 69u8, 83u8]
}

pub fn update_roles_prefix() -> (r: Vec<u8>)
    ensures
        r@ == spec_update_roles_prefix(),
{
    let a: [u8; 20] = [81u8, 83u8, 66u8, 95u8, 68u8, 73u8, 68u8, 95u8, 85u8, 80u8, 68u8, 65u8, 84u8, 69u8, 95u8, 82u8, 79u8, 76u8, 69u8, 83u8];
    let mut v: Vec<u8> = Vec::new();
    v.extend_from_slice(a.as_slice());
    proof {
        assert(v@ =~= spec_update_roles_prefix());
    }
    v
}

/// `version` after a successful mutation: one more, saturating.
pub open spec fn sat_inc(v: u64) -> u64 {
    if v == u64::MAX {
        u64::MAX
    } else {
        (v + 1) as u64
    }
}

fn bump_version(v: u64) -> (r: u64)
    ensures
        r == sat_inc(v),
{
    if v == u64::MAX {
        v
    } else {
        v + 1
    }
}

/// The id a command names, when its textual form parses.
pub open spec fn parsed_did_id(raw: Seq<u8>) -> Seq<u8> {
    match parse_id(raw, spec_did_prefix()) {
        Some(b) => b,
        None => Seq::empty(),
    }
}

/// Whether the document holds a key with this `public_key`, revoked or not.
pub open spec fn has_key(keys: Seq<DidKeyV>, pk: Seq<u8>) -> bool {
    exists|i: int| 0 <= i < keys.len() && keys[i].public_key == pk
}

/// Index of the key with this `public_key`; unique under `keys_unique`.
pub open spec fn key_at(keys: Seq<DidKeyV>, pk: Seq<u8>) -> int {
    choose|i: int| 0 <= i < keys.len() && keys[i].public_key == pk
}

pub open spec fn has_service(services: Seq<ServiceEndpointV>, id: Seq<u8>) -> bool {
    exists|i: int| 0 <= i < services.len() && services[i].id == id
}

pub open spec fn service_at(services: Seq<ServiceEndpointV>, id: Seq<u8>) -> int {
    choose|i: int| 0 <= i < services.len() && services[i].id == id
}

pub open spec fn has_meta(metadata: Seq<MetadataEntryV>, key: Seq<u8>) -> bool {
    exists|i: int| 0 <= i < metadata.len() && metadata[i].key == key
}

pub open spec fn meta_at(metadata: Seq<MetadataEntryV>, key: Seq<u8>) -> int {
    choose|i: int| 0 <= i < metadata.len() && metadata[i].key == key
}

/// What a sequence looks like after an order-disturbing removal: the removed
/// slot takes the last element, then the tail is dropped.
pub open spec fn seq_swap_remove<T>(s: Seq<T>, i: int) -> Seq<T> {
    s.update(i, s.last()).drop_last()
}

// Payloads: the ASCII domain-separation prefix, then the canonical encoding
// of the command fields in order. The id is the caller-supplied wire form.

pub open spec fn create_payload(pk: Seq<u8>) -> Seq<u8> {
    spec_create_prefix() + enc_bytes(pk)
}

pub open spec fn add_key_payload(did_id: Seq<u8>, pk: Seq<u8>, roles: Seq<KeyRole>) -> Seq<u8> {
    spec_add_key_prefix() + enc_bytes(did_id) + enc_bytes(pk) + enc_roles(roles)
}

pub open spec fn revoke_key_payload(did_id: Seq<u8>, pk: Seq<u8>) -> Seq<u8> {
    spec_revoke_key_prefix() + enc_bytes(did_id) + enc_bytes(pk)
}

pub open spec fn deactivate_payload(did_id: Seq<u8>) -> Seq<u8> {
    spec_deactivate_prefix() + enc_bytes(did_id)
}

pub open spec fn add_service_payload(did_id: Seq<u8>, s: ServiceEndpointV) -> Seq<u8> {
    spec_add_service_prefix() + enc_bytes(did_id) + enc_service(s)
}

pub open spec fn remove_service_payload(did_id: Seq<u8>, sid: Seq<u8>) -> Seq<u8> {
    spec_remove_service_prefix() + enc_bytes(did_id) + enc_bytes(sid)
}

pub open spec fn set_metadata_payload(did_id: Seq<u8>, e: MetadataEntryV) -> Seq<u8> {
    spec_set_metadata_prefix() + enc_bytes(did_id) + enc_entry(e)
}

pub open spec fn remove_metadata_payload(did_id: Seq<u8>, key: Seq<u8>) -> Seq<u8> {
    spec_remove_metadata_prefix() + enc_bytes(did_id) + enc_bytes(key)
}

pub open spec fn rotate_key_payload(
    did_id: Seq<u8>,
    old_pk: Seq<u8>,
    new_pk: Seq<u8>,
    roles: Seq<KeyRole>,
) -> Seq<u8> {
    spec_rotate_key_prefix() + enc_bytes(did_id) + enc_bytes(old_pk) + enc_bytes(new_pk)
        + enc_roles(roles)
}

pub open spec fn update_roles_payload(did_id: Seq<u8>, pk: Seq<u8>, roles: Seq<KeyRole>) -> Seq<
    u8,
> {
    spec_update_roles_prefix() + enc_bytes(did_id) + enc_bytes(pk) + enc_roles(roles)
}

/// The checks every mutation passes before it touches its document, in
/// order: the id must parse, the DID must exist, the signature bytes must
/// decode, some non-revoked key must verify them over the payload, and the
/// DID must not be deactivated. `None` means the command reaches its own
/// logic.
pub open spec fn mutation_gate(
    m: Map<Seq<u8>, DidDetailsV>,
    did_id_raw: Seq<u8>,
    sig: Seq<u8>,
    payload: Seq<u8>,
) -> Option<Error> {
    match parse_id(did_id_raw, spec_did_prefix()) {
        Option::None => Some(Error::InvalidDidId),
        Option::Some(id) => {
            if !m.contains_key(id) {
                Some(Error::DidNotFound)
            } else if !mldsa44_sig_wf(sig) {
                Some(Error::InvalidDidSignature)
            } else if !sig_authorizes(m[id].keys, payload, sig) {
                Some(Error::InvalidSignature)
            } else if m[id].deactivated {
                Some(Error::DidDeactivated)
            } else {
                None
            }
        },
    }
}

/// The document created for a fresh DID: version zero, a single live
/// authentication key, nothing else.
pub open spec fn new_did_details(pk: Seq<u8>) -> DidDetailsV {
    DidDetailsV {
        version: 0,
        deactivated: false,
        keys: seq![DidKeyV { public_key: pk, roles: seq![KeyRole::Authentication], revoked: false }],
        services: Seq::empty(),
        metadata: Seq::empty(),
    }
}


fn build_create_payload(pk: &Vec<u8>) -> (r: Vec<u8>)
    ensures
        r@ == create_payload(pk@),
{
    let mut p = create_prefix();
    push_enc_bytes(&mut p, pk);
    p
}

fn build_add_key_payload(did_id: &Vec<u8>, pk: &Vec<u8>, roles: &Vec<KeyRole>) -> (r: Vec<u8>)
    ensures
        r@ == add_key_payload(did_id@, pk@, roles@),
{
    let mut p = add_key_prefix();
    push_enc_bytes(&mut p, did_id);
    push_enc_bytes(&mut p, pk);
    push_enc_roles(&mut p, roles);
    proof {
        assert(p@ =~= add_key_payload(did_id@, pk@, roles@));
    }
    p
}

fn build_revoke_key_payload(did_id: &Vec<u8>, pk: &Vec<u8>) -> (r: Vec<u8>)
    ensures
        r@ == revoke_key_payload(did_id@, pk@),
{
    let mut p = revoke_key_prefix();
    push_enc_bytes(&mut p, did_id);
    push_enc_bytes(&mut p, pk);
    proof {
        assert(p@ =~= revoke_key_payload(did_id@, pk@));
    }
    p
}

fn build_deactivate_payload(did_id: &Vec<u8>) -> (r: Vec<u8>)
    ensures
        r@ == deactivate_payload(did_id@),
{
    let mut p = deactivate_prefix();
    push_enc_bytes(&mut p, did_id);
    p
}

fn build_add_service_payload(did_id: &Vec<u8>, s: &ServiceEndpoint) -> (r: Vec<u8>)
    ensures
        r@ == add_service_payload(did_id@, s@),
{
    let mut p = add_service_prefix();
    push_enc_bytes(&mut p, did_id);
    push_enc_service(&mut p, s);
    proof {
        assert(p@ =~= add_service_payload(did_id@, s@));
    }
    p
}

fn build_remove_service_payload(did_id: &Vec<u8>, sid: &Vec<u8>) -> (r: Vec<u8>)
    ensures
        r@ == remove_service_payload(did_id@, sid@),
{
    let mut p = remove_service_prefix();
    push_enc_bytes(&mut p, did_id);
    push_enc_bytes(&mut p, sid);
    proof {
        assert(p@ =~= remove_service_payload(did_id@, sid@));
    }
    p
}

fn build_set_metadata_payload(did_id: &Vec<u8>, e: &MetadataEntry) -> (r: Vec<u8>)
    ensures
        r@ == set_metadata_payload(did_id@, e@),
{
    let mut p = set_metadata_prefix();
    push_enc_bytes(&mut p, did_id);
    push_enc_entry(&mut p, e);
    proof {
        assert(p@ =~= set_metadata_payload(did_id@, e@));
    }
    p
}

fn build_remove_metadata_payload(did_id: &Vec<u8>, key: &Vec<u8>) -> (r: Vec<u8>)
    ensures
        r@ == remove_metadata_payload(did_id@, key@),
{
    let mut p = remove_metadata_prefix();
    push_enc_bytes(&mut p, did_id);
    push_enc_bytes(&mut p, key);
    proof {
        assert(p@ =~= remove_metadata_payload(did_id@, key@));
    }
    p
}

fn build_rotate_key_payload(
    did_id: &Vec<u8>,
    old_pk: &Vec<u8>,
    new_pk: &Vec<u8>,
    roles: &Vec<KeyRole>,
) -> (r: Vec<u8>)
    ensures
        r@ == rotate_key_payload(did_id@, old_pk@, new_pk@, roles@),
{
    let mut p = rotate_key_prefix();
    push_enc_bytes(&mut p, did_id);
    push_enc_bytes(&mut p, old_pk);
    push_enc_bytes(&mut p, new_pk);
    push_enc_roles(&mut p, roles);
    proof {
        assert(p@ =~= rotate_key_payload(did_id@, old_pk@, new_pk@, roles@));
    }
    p
}

fn build_update_roles_payload(did_id: &Vec<u8>, pk: &Vec<u8>, roles: &Vec<KeyRole>) -> (r: Vec<
    u8,
>)
    ensures
        r@ == update_roles_payload(did_id@, pk@, roles@),
{
    let mut p = update_roles_prefix();
    push_enc_bytes(&mut p, did_id);
    push_enc_bytes(&mut p, pk);
    push_enc_roles(&mut p, roles);
    proof {
        assert(p@ =~= update_roles_payload(did_id@, pk@, roles@));
    }
    p
}

/// First key whose `public_key` equals `pk`; under `keys_unique` the only one.
fn find_key(keys: &Vec<DidKey>, pk: &Vec<u8>) -> (r: Option<usize>)
    ensures
        r matches Some(i) ==> i < keys@.len() && keys_view(keys@)[i as int].public_key == pk@
            && has_key(keys_view(keys@), pk@),
        r is None ==> !has_key(keys_view(keys@), pk@),
{
    let mut i: usize = 0;
    while i < keys.len()
        invariant
            i <= keys@.len(),
            forall|m: int| 0 <= m < i ==> keys_view(keys@)[m].public_key != pk@,
        decreases keys@.len() - i,
    {
        if &keys[i].public_key == pk {
            proof {
                assert(keys_view(keys@)[i as int].public_key == pk@);
            }
            return Some(i);
        }
        i = i + 1;
    }
    proof {
        if has_key(keys_view(keys@), pk@) {
            let j = choose|j: int|
                0 <= j < keys_view(keys@).len() && keys_view(keys@)[j].public_key == pk@;
            assert(false);
        }
    }
    None
}

fn find_service(services: &Vec<ServiceEndpoint>, sid: &Vec<u8>) -> (r: Option<usize>)
    ensures
        r matches Some(i) ==> i < services@.len() && services_view(services@)[i as int].id == sid@
            && has_service(services_view(services@), sid@),
        r is None ==> !has_service(services_view(services@), sid@),
{
    let mut i: usize = 0;
    while i < services.len()
        invariant
            i <= services@.len(),
            forall|m: int| 0 <= m < i ==> services_view(services@)[m].id != sid@,
        decreases services@.len() - i,
    {
        if &services[i].id == sid {
            proof {
                assert(services_view(services@)[i as int].id == sid@);
            }
            return Some(i);
        }
        i = i + 1;
    }
    proof {
        if has_service(services_view(services@), sid@) {
            let j = choose|j: int|
                0 <= j < services_view(services@).len() && services_view(services@)[j].id == sid@;
            assert(false);
        }
    }
    None
}

fn find_meta(metadata: &Vec<MetadataEntry>, key: &Vec<u8>) -> (r: Option<usize>)
    ensures
        r matches Some(i) ==> i < metadata@.len() && metadata_view(metadata@)[i as int].key == key@
            && has_meta(metadata_view(metadata@), key@),
        r is None ==> !has_meta(metadata_view(metadata@), key@),
{
    let mut i: usize = 0;
    while i < metadata.len()
        invariant
            i <= metadata@.len(),
            forall|m: int| 0 <= m < i ==> metadata_view(metadata@)[m].key != key@,
        decreases metadata@.len() - i,
    {
        if &metadata[i].key == key {
            proof {
                assert(metadata_view(metadata@)[i as int].key == key@);
            }
            return Some(i);
        }
        i = i + 1;
    }
    proof {
        if has_meta(metadata_view(metadata@), key@) {
            let j = choose|j: int|
                0 <= j < metadata_view(metadata@).len() && metadata_view(metadata@)[j].key == key@;
            assert(false);
        }
    }
    None
}

/// A swap-removal keeps services unique: every surviving slot holds one of
/// the endpoints that were already there, no two the same one.
proof fn lemma_services_unique_swap_remove(s: Seq<ServiceEndpointV>, i: int)
    requires
        services_unique(s),
        0 <= i < s.len(),
    ensures
        services_unique(seq_swap_remove(s, i)),
{
    let r = seq_swap_remove(s, i);
    assert forall|m: int, n: int| 0 <= m < n < r.len() implies r[m].id != r[n].id by {
        if m == i {
            assert(r[m] == s[s.len() - 1]);
            assert(r[n] == s[n]);
        } else if n == i {
            assert(r[m] == s[m]);
            assert(r[n] == s[s.len() - 1]);
        } else {
            assert(r[m] == s[m]);
            assert(r[n] == s[n]);
        }
    }
}

proof fn lemma_metadata_unique_swap_remove(s: Seq<MetadataEntryV>, i: int)
    requires
        metadata_unique(s),
        0 <= i < s.len(),
    ensures
        metadata_unique(seq_swap_remove(s, i)),
{
    let r = seq_swap_remove(s, i);
    assert forall|m: int, n: int| 0 <= m < n < r.len() implies r[m].key != r[n].key by {
        if m == i {
            assert(r[m] == s[s.len() - 1]);
            assert(r[n] == s[n]);
        } else if n == i {
            assert(r[m] == s[m]);
            assert(r[n] == s[s.len() - 1]);
        } else {
            assert(r[m] == s[m]);
            assert(r[n] == s[n]);
        }
    }
}

/// Decodes a DID id from its textual (`did:qsb:` + base58) or raw-base58
/// wire form into its 32 bytes.
pub fn decode_did_id(input: &Vec<u8>) -> (r: Result<Vec<u8>, Error>)
    ensures
        parse_id(input@, spec_did_prefix()) matches Some(b) ==> (r matches Ok(v) && v@ == b
            && v@.len() == 32),
        parse_id(input@, spec_did_prefix()) is None ==> (r matches Err(e) && e
            == Error::InvalidDidId),
{
    let p = did_prefix();
    match decode_textual_id(&p, input) {
        Some(v) => Ok(v),
        None => Err(Error::InvalidDidId),
    }
}

/// Textual form of a DID id. Decoding the result yields the id back: the
/// round trip holds for every 32-byte id.
pub fn did_string_from_did_id(did_id: &Vec<u8>) -> (r: Vec<u8>)
    requires
        did_id@.len() == 32,
    ensures
        r@ == spec_did_prefix() + base58_of(did_id@),
        parse_id(r@, spec_did_prefix()) == Some(did_id@),
{
    let p = did_prefix();
    encode_textual_id(&p, did_id)
}

/// The id derived for a public key on this chain: a digest of the DID
/// material prefix, the genesis hash and the key bytes.
pub fn did_id_from_public_key(ctx: &ChainContext, public_key: &Vec<u8>) -> (r: Vec<u8>)
    ensures
        r@ == derive_id(spec_did_material_prefix(), ctx.genesis_hash@, public_key@),
        r@.len() == 32,
{
    let m = did_material_prefix();
    compute_id(&m, &ctx.genesis_hash, public_key)
}

/// Checks a signature against a supplied public key; used only at DID
/// creation, where no stored key set exists yet.
pub fn verify_signature_with_public_key(
    did_signature: &Vec<u8>,
    payload: &Vec<u8>,
    public_key: &Vec<u8>,
) -> (r: Result<(), Error>)
    ensures
        !mldsa44_pk_wf(public_key@) ==> (r matches Err(e) && e == Error::InvalidPublicKey),
        mldsa44_pk_wf(public_key@) && !mldsa44_sig_wf(did_signature@) ==> (r matches Err(e) && e
            == Error::InvalidDidSignature),
        mldsa44_pk_wf(public_key@) && mldsa44_sig_wf(did_signature@) && !mldsa44_verifies(
            public_key@,
            payload@,
            did_signature@,
        ) ==> (r matches Err(e) && e == Error::InvalidSignature),
        mldsa44_pk_wf(public_key@) && mldsa44_sig_wf(did_signature@) && mldsa44_verifies(
            public_key@,
            payload@,
            did_signature@,
        ) ==> r is Ok,
{
    if !pk_well_formed(public_key) {
        return Err(Error::InvalidPublicKey);
    }
    if !sig_well_formed(did_signature) {
        return Err(Error::InvalidDidSignature);
    }
    if !mldsa_verify(public_key, payload, did_signature) {
        return Err(Error::InvalidSignature);
    }
    Ok(())
}

/// The DID half of the registry state: documents keyed by 32-byte ids.
pub struct DidRegistry {
    records: Store<DidDetails>,
}

impl View for DidRegistry {
    type V = Map<Seq<u8>, DidDetailsV>;

    closed spec fn view(&self) -> Map<Seq<u8>, DidDetailsV> {
        self.records@
    }
}

impl DidRegistry {
    pub closed spec fn store_wf(&self) -> bool {
        self.records.wf()
    }

    /// Every stored document satisfies its structural invariant.
    pub open spec fn wf(&self) -> bool {
        &&& self.store_wf()
        &&& forall|k: Seq<u8>| #[trigger] self@.contains_key(k) ==> self@[k].wf()
    }

    pub fn new() -> (r: DidRegistry)
        ensures
            r.wf(),
            r@ == Map::<Seq<u8>, DidDetailsV>::empty(),
    {
        let r = DidRegistry { records: Store::new() };
        proof {
            assert(forall|k: Seq<u8>| !r@.contains_key(k));
        }
        r
    }

    /// Checks a command signature against the live key set of the DID:
    /// accepts on the first non-revoked, well-formed key that verifies it.
    pub fn verify_did_signature(
        &self,
        did_id: &Vec<u8>,
        did_signature: &Vec<u8>,
        payload: &Vec<u8>,
    ) -> (r: Result<(), Error>)
        requires
            self.wf(),
        ensures
            !self@.contains_key(did_id@) ==> (r matches Err(e) && e == Error::DidNotFound),
            self@.contains_key(did_id@) && !mldsa44_sig_wf(did_signature@) ==> (r matches Err(e)
                && e == Error::InvalidDidSignature),
            self@.contains_key(did_id@) && mldsa44_sig_wf(did_signature@) && !sig_authorizes(
                self@[did_id@].keys,
                payload@,
                did_signature@,
            ) ==> (r matches Err(e) && e == Error::InvalidSignature),
            self@.contains_key(did_id@) && mldsa44_sig_wf(did_signature@) && sig_authorizes(
                self@[did_id@].keys,
                payload@,
                did_signature@,
            ) ==> r is Ok,
    {
        let details = match self.records.get(did_id) {
            Some(d) => d,
            None => {
                return Err(Error::DidNotFound);
            },
        };
        if !sig_well_formed(did_signature) {
            return Err(Error::InvalidDidSignature);
        }
        let ghost keysv = self@[did_id@].keys;
        let mut i: usize = 0;
        while i < details.keys.len()
            invariant
                self@.contains_key(did_id@),
                details@ == self@[did_id@],
                keysv == details@.keys,
                keysv == keys_view(details.keys@),
                mldsa44_sig_wf(did_signature@),
                i <= details.keys@.len(),
                keysv.len() == details.keys@.len(),
                forall|m: int|
                    0 <= m < i ==> !(!keysv[m].revoked && mldsa44_pk_wf(
                        #[trigger] keysv[m].public_key,
                    ) && mldsa44_verifies(keysv[m].public_key, payload@, did_signature@)),
            decreases details.keys@.len() - i,
        {
            let k = &details.keys[i];
            if !k.revoked {
                if pk_well_formed(&k.public_key) {
                    if mldsa_verify(&k.public_key, payload, did_signature) {
                        proof {
                            assert(keys_view(details.keys@)[i as int] == details.keys@[i as int]@);
                            assert(keysv[i as int] == details.keys@[i as int]@);
                            assert(!keysv[i as int].revoked);
                            assert(mldsa44_pk_wf(keysv[i as int].public_key));
                            assert(mldsa44_verifies(
                                keysv[i as int].public_key,
                                payload@,
                                did_signature@,
                            ));
                            assert(sig_authorizes(keysv, payload@, did_signature@));
                        }
                        return Ok(());
                    }
                }
            }
            proof {
                assert(keys_view(details.keys@)[i as int] == details.keys@[i as int]@);
                assert(keysv[i as int] == details.keys@[i as int]@);
            }
            i = i + 1;
        }
        proof {
            if sig_authorizes(keysv, payload@, did_signature@) {
                let j = choose|j: int|
                    0 <= j < keysv.len() && !keysv[j].revoked && mldsa44_pk_wf(
                        keysv[j].public_key,
                    ) && mldsa44_verifies(keysv[j].public_key, payload@, did_signature@);
                assert(false);
            }
        }
        Err(Error::InvalidSignature)
    }

    /// Creates a DID for a public key: derives the id, rejects a duplicate,
    /// verifies the creation payload under that key, and stores a fresh
    /// document with the single authentication key.
    pub fn create_did(
        &mut self,
        ctx: &ChainContext,
        public_key: Vec<u8>,
        did_signature: Vec<u8>,
    ) -> (r: Result<Event, Error>)
        requires
            old(self).wf(),
        ensures
            final(self).wf(),
            ({
                let id = derive_id(spec_did_material_prefix(), ctx.genesis_hash@, public_key@);
                let payload = create_payload(public_key@);
                &&& (old(self)@.contains_key(id) ==> (r matches Err(e) && e
                    == Error::DidAlreadyExists))
                &&& (!old(self)@.contains_key(id) && !mldsa44_pk_wf(public_key@) ==> (r matches Err(
                    e,
                ) && e == Error::InvalidPublicKey))
                &&& (!old(self)@.contains_key(id) && mldsa44_pk_wf(public_key@) && !mldsa44_sig_wf(
                    did_signature@,
                ) ==> (r matches Err(e) && e == Error::InvalidDidSignature))
                &&& (!old(self)@.contains_key(id) && mldsa44_pk_wf(public_key@) && mldsa44_sig_wf(
                    did_signature@,
                ) && !mldsa44_verifies(public_key@, payload, did_signature@) ==> (r matches Err(e)
                    && e == Error::InvalidSignature))
                &&& (!old(self)@.contains_key(id) && mldsa44_pk_wf(public_key@) && mldsa44_sig_wf(
                    did_signature@,
                ) && mldsa44_verifies(public_key@, payload, did_signature@) ==> (r matches Ok(e)
                    && e matches Event::DidCreated { did } && did@ == spec_did_prefix()
                    + base58_of(id) && final(self)@ == old(self)@.insert(
                    id,
                    new_did_details(public_key@),
                )))
                &&& (r is Err ==> final(self)@ == old(self)@)
            }),
    {
        let id = did_id_from_public_key(ctx, &public_key);
        if self.records.contains(&id) {
            return Err(Error::DidAlreadyExists);
        }
        let payload = build_create_payload(&public_key);
        match verify_signature_with_public_key(&did_signature, &payload, &public_key) {
            Ok(()) => (),
            Err(e) => {
                return Err(e);
            },
        };
        let mut roles: Vec<KeyRole> = Vec::new();
        roles.push(KeyRole::Authentication);
        let mut keys: Vec<DidKey> = Vec::new();
        keys.push(DidKey { public_key, roles, revoked: false });
        let details = DidDetails {
            version: 0,
            deactivated: false,
            keys,
            services: Vec::new(),
            metadata: Vec::new(),
        };
        let ghost pkv = details.keys@[0].public_key@;
        proof {
            assert(keys_view(details.keys@) =~= seq![
                DidKeyV {
                    public_key: pkv,
                    roles: seq![KeyRole::Authentication],
                    revoked: false,
                },
            ]);
            assert(services_view(details.services@) =~= Seq::<ServiceEndpointV>::empty());
            assert(metadata_view(details.metadata@) =~= Seq::<MetadataEntryV>::empty());
            assert(details@ =~= new_did_details(pkv));
            assert(new_did_details(pkv).wf());
        }
        let did = did_string_from_did_id(&id);
        let ghost idv = id@;
        self.records.insert_new(id, details);
        proof {
            assert forall|k: Seq<u8>| #[trigger] self@.contains_key(k) implies self@[k].wf() by {
                if k == idv {
                    assert(self@[k] == new_did_details(pkv));
                } else {
                    assert(old(self)@.contains_key(k));
                    assert(self@[k] == old(self)@[k]);
                }
            }
        }
        Ok(Event::DidCreated { did })
    }

    /// Adds a key to a DID document; the new key must not duplicate any
    /// existing one, revoked keys included.
    pub fn add_key(
        &mut self,
        did_id: Vec<u8>,
        public_key: Vec<u8>,
        roles: Vec<KeyRole>,
        did_signature: Vec<u8>,
    ) -> (r: Result<Event, Error>)
        requires
            old(self).wf(),
        ensures
            final(self).wf(),
            ({
                let payload = add_key_payload(did_id@, public_key@, roles@);
                let g = mutation_gate(old(self)@, did_id@, did_signature@, payload);
                let id = parsed_did_id(did_id@);
                let doc = old(self)@[id];
                &&& (g matches Some(e) ==> (r matches Err(e2) && e2 == e) && final(self)@ == old(self)@)
                &&& (g is None && has_key(doc.keys, public_key@) ==> (r matches Err(e2) && e2
                    == Error::KeyAlreadyExists) && final(self)@ == old(self)@)
                &&& (g is None && !has_key(doc.keys, public_key@) ==> (r matches Ok(e)
                    && e matches Event::KeyAdded { did, public_key: epk } && did@
                    == spec_did_prefix() + base58_of(id) && epk@ == public_key@ && final(self)@
                    == old(self)@.insert(
                    id,
                    DidDetailsV {
                        version: sat_inc(doc.version),
                        deactivated: false,
                        keys: doc.keys.push(
                            DidKeyV { public_key: public_key@, roles: roles@, revoked: false },
                        ),
                        services: doc.services,
                        metadata: doc.metadata,
                    },
                )))
            }),
    {
        let ghost rolesv = roles@;
        let payload = build_add_key_payload(&did_id, &public_key, &roles);
        let id = match decode_did_id(&did_id) {
            Ok(v) => v,
            Err(e) => {
                return Err(e);
            },
        };
        match self.verify_did_signature(&id, &did_signature, &payload) {
            Ok(()) => (),
            Err(e) => {
                return Err(e);
            },
        };
        let deact: bool;
        let dup: bool;
        {
            let doc = match self.records.get(&id) {
                Some(d) => d,
                None => {
                    proof {
                        assert(false);
                    }
                    return Err(Error::DidNotFound);
                },
            };
            deact = doc.deactivated;
            dup = match find_key(&doc.keys, &public_key) {
                Some(_) => true,
                None => false,
            };
        }
        if deact {
            return Err(Error::DidDeactivated);
        }
        if dup {
            return Err(Error::KeyAlreadyExists);
        }
        let did = did_string_from_did_id(&id);
        let ghost idv = id@;
        let ghost docv = self@[idv];
        let (idk, mut details) = match self.records.remove_entry(&id) {
            Some(p) => p,
            None => {
                proof {
                    assert(false);
                }
                return Err(Error::DidNotFound);
            },
        };
        let epk = clone_bytes(&public_key);
        details.keys.push(DidKey { public_key, roles, revoked: false });
        details.version = bump_version(details.version);
        proof {
            assert(keys_view(details.keys@) =~= docv.keys.push(
                DidKeyV { public_key: epk@, roles: rolesv, revoked: false },
            ));
            assert(keys_unique(keys_view(details.keys@)));
            assert(details@ =~= DidDetailsV {
                version: sat_inc(docv.version),
                deactivated: false,
                keys: docv.keys.push(
                    DidKeyV { public_key: epk@, roles: rolesv, revoked: false },
                ),
                services: docv.services,
                metadata: docv.metadata,
            });
            assert(details@.wf());
        }
        self.records.insert_new(idk, details);
        proof {
            assert(self@ =~= old(self)@.insert(idv, self@[idv]));
            assert forall|k: Seq<u8>| #[trigger] self@.contains_key(k) implies self@[k].wf() by {
                if k != idv {
                    assert(old(self)@.contains_key(k));
                    assert(self@[k] == old(self)@[k]);
                }
            }
        }
        Ok(Event::KeyAdded { did, public_key: epk })
    }

    /// Revokes a key by its `public_key`. Self-revocation of the signing key
    /// is allowed: the command was authorized before the mutation.
    pub fn revoke_key(
        &mut self,
        did_id: Vec<u8>,
        public_key: Vec<u8>,
        did_signature: Vec<u8>,
    ) -> (r: Result<Event, Error>)
        requires
            old(self).wf(),
        ensures
            final(self).wf(),
            ({
                let payload = revoke_key_payload(did_id@, public_key@);
                let g = mutation_gate(old(self)@, did_id@, did_signature@, payload);
                let id = parsed_did_id(did_id@);
                let doc = old(self)@[id];
                let kat = key_at(doc.keys, public_key@);
                &&& (g matches Some(e) ==> (r matches Err(e2) && e2 == e) && final(self)@ == old(self)@)
                &&& (g is None && !has_key(doc.keys, public_key@) ==> (r matches Err(e2) && e2
                    == Error::KeyNotFound) && final(self)@ == old(self)@)
                &&& (g is None && has_key(doc.keys, public_key@) && doc.keys[kat].revoked ==> (
                r matches Err(e2) && e2 == Error::KeyAlreadyRevoked) && final(self)@ == old(self)@)
                &&& (g is None && has_key(doc.keys, public_key@) && !doc.keys[kat].revoked ==> (
                r matches Ok(e) && e matches Event::KeyRevoked { did, public_key: epk } && did@
                    == spec_did_prefix() + base58_of(id) && epk@ == public_key@ && final(self)@
                    == old(self)@.insert(
                    id,
                    DidDetailsV {
                        version: sat_inc(doc.version),
                        deactivated: false,
                        keys: doc.keys.update(
                            kat,
                            DidKeyV {
                                public_key: public_key@,
                                roles: doc.keys[kat].roles,
                                revoked: true,
                            },
                        ),
                        services: doc.services,
                        metadata: doc.metadata,
                    },
                )))
            }),
    {
        let payload = build_revoke_key_payload(&did_id, &public_key);
        let id = match decode_did_id(&did_id) {
            Ok(v) => v,
            Err(e) => {
                return Err(e);
            },
        };
        match self.verify_did_signature(&id, &did_signature, &payload) {
            Ok(()) => (),
            Err(e) => {
                return Err(e);
            },
        };
        let ghost idv = id@;
        let ghost docv = self@[idv];
        let ghost pkv = public_key@;
        let deact: bool;
        let found: Option<usize>;
        let mut was_revoked: bool = false;
        {
            let doc = match self.records.get(&id) {
                Some(d) => d,
                None => {
                    proof {
                        assert(false);
                    }
                    return Err(Error::DidNotFound);
                },
            };
            deact = doc.deactivated;
            found = find_key(&doc.keys, &public_key);
            if let Some(i) = found {
                was_revoked = doc.keys[i].revoked;
            }
        }
        if deact {
            return Err(Error::DidDeactivated);
        }
        let i: usize = match found {
            Some(i) => i,
            None => {
                return Err(Error::KeyNotFound);
            },
        };
        proof {
            assert(has_key(docv.keys, pkv));
            let j = key_at(docv.keys, pkv);
            assert(0 <= j < docv.keys.len() && docv.keys[j].public_key == pkv);
            if j < i {
                assert(false);
            } else if i < j {
                assert(false);
            }
            assert(key_at(docv.keys, pkv) == i as int);
            assert(docv.keys[i as int].revoked == was_revoked);
        }
        if was_revoked {
            return Err(Error::KeyAlreadyRevoked);
        }
        let did = did_string_from_did_id(&id);
        let (idk, mut details) = match self.records.remove_entry(&id) {
            Some(p) => p,
            None => {
                proof {
                    assert(false);
                }
                return Err(Error::DidNotFound);
            },
        };
        let old_roles = copy_elems(&details.keys[i].roles);
        let epk = clone_bytes(&public_key);
        details.keys[i] = DidKey { public_key, roles: old_roles, revoked: true };
        details.version = bump_version(details.version);
        proof {
            assert(keys_view(details.keys@) =~= docv.keys.update(
                i as int,
                DidKeyV { public_key: pkv, roles: docv.keys[i as int].roles, revoked: true },
            ));
            assert(keys_unique(keys_view(details.keys@)));
            assert(details@ =~= DidDetailsV {
                version: sat_inc(docv.version),
                deactivated: false,
                keys: docv.keys.update(
                    i as int,
                    DidKeyV { public_key: pkv, roles: docv.keys[i as int].roles, revoked: true },
                ),
                services: docv.services,
                metadata: docv.metadata,
            });
            assert(details@.wf());
        }
        self.records.insert_new(idk, details);
        proof {
            assert(self@ =~= old(self)@.insert(idv, self@[idv]));
            assert forall|k: Seq<u8>| #[trigger] self@.contains_key(k) implies self@[k].wf() by {
                if k != idv {
                    assert(old(self)@.contains_key(k));
                    assert(self@[k] == old(self)@[k]);
                }
            }
        }
        Ok(Event::KeyRevoked { did, public_key: epk })
    }

    /// Deactivates a DID: terminal, no further mutation is accepted.
    pub fn deactivate_did(&mut self, did_id: Vec<u8>, did_signature: Vec<u8>) -> (r: Result<
        Event,
        Error,
    >)
        requires
            old(self).wf(),
        ensures
            final(self).wf(),
            ({
                let payload = deactivate_payload(did_id@);
                let g = mutation_gate(old(self)@, did_id@, did_signature@, payload);
                let id = parsed_did_id(did_id@);
                let doc = old(self)@[id];
                &&& (g matches Some(e) ==> (r matches Err(e2) && e2 == e) && final(self)@ == old(self)@)
                &&& (g is None ==> (r matches Ok(e) && e matches Event::DidDeactivated { did }
                    && did@ == spec_did_prefix() + base58_of(id) && final(self)@ == old(self)@.insert(
                    id,
                    DidDetailsV {
                        version: sat_inc(doc.version),
                        deactivated: true,
                        keys: doc.keys,
                        services: doc.services,
                        metadata: doc.metadata,
                    },
                )))
            }),
    {
        let payload = build_deactivate_payload(&did_id);
        let id = match decode_did_id(&did_id) {
            Ok(v) => v,
            Err(e) => {
                return Err(e);
            },
        };
        match self.verify_did_signature(&id, &did_signature, &payload) {
            Ok(()) => (),
            Err(e) => {
                return Err(e);
            },
        };
        let deact: bool;
        {
            let doc = match self.records.get(&id) {
                Some(d) => d,
                None => {
                    proof {
                        assert(false);
                    }
                    return Err(Error::DidNotFound);
                },
            };
            deact = doc.deactivated;
        }
        if deact {
            return Err(Error::DidDeactivated);
        }
        let did = did_string_from_did_id(&id);
        let ghost idv = id@;
        let ghost docv = self@[idv];
        let (idk, mut details) = match self.records.remove_entry(&id) {
            Some(p) => p,
            None => {
                proof {
                    assert(false);
                }
                return Err(Error::DidNotFound);
            },
        };
        details.deactivated = true;
        details.version = bump_version(details.version);
        proof {
            assert(details@ =~= DidDetailsV {
                version: sat_inc(docv.version),
                deactivated: true,
                keys: docv.keys,
                services: docv.services,
                metadata: docv.metadata,
            });
            assert(details@.wf());
        }
        self.records.insert_new(idk, details);
        proof {
            assert(self@ =~= old(self)@.insert(idv, self@[idv]));
            assert forall|k: Seq<u8>| #[trigger] self@.contains_key(k) implies self@[k].wf() by {
                if k != idv {
                    assert(old(self)@.contains_key(k));
                    assert(self@[k] == old(self)@[k]);
                }
            }
        }
        Ok(Event::DidDeactivated { did })
    }

    /// Attaches a service endpoint; endpoints are unique by `id`.
    pub fn add_service(
        &mut self,
        did_id: Vec<u8>,
        service: ServiceEndpoint,
        did_signature: Vec<u8>,
    ) -> (r: Result<Event, Error>)
        requires
            old(self).wf(),
        ensures
            final(self).wf(),
            ({
                let payload = add_service_payload(did_id@, service@);
                let g = mutation_gate(old(self)@, did_id@, did_signature@, payload);
                let id = parsed_did_id(did_id@);
                let doc = old(self)@[id];
                &&& (g matches Some(e) ==> (r matches Err(e2) && e2 == e) && final(self)@ == old(self)@)
                &&& (g is None && has_service(doc.services, service@.id) ==> (r matches Err(e2)
                    && e2 == Error::ServiceAlreadyExists) && final(self)@ == old(self)@)
                &&& (g is None && !has_service(doc.services, service@.id) ==> (r matches Ok(e)
                    && e matches Event::ServiceAdded { did, service_id } && did@
                    == spec_did_prefix() + base58_of(id) && service_id@ == service@.id && final(self)@ == old(self)@.insert(
                    id,
                    DidDetailsV {
                        version: sat_inc(doc.version),
                        deactivated: false,
                        keys: doc.keys,
                        services: doc.services.push(service@),
                        metadata: doc.metadata,
                    },
                )))
            }),
    {
        let ghost servv = service@;
        let payload = build_add_service_payload(&did_id, &service);
        let id = match decode_did_id(&did_id) {
            Ok(v) => v,
            Err(e) => {
                return Err(e);
            },
        };
        match self.verify_did_signature(&id, &did_signature, &payload) {
            Ok(()) => (),
            Err(e) => {
                return Err(e);
            },
        };
        let deact: bool;
        let dup: bool;
        {
            let doc = match self.records.get(&id) {
                Some(d) => d,
                None => {
                    proof {
                        assert(false);
                    }
                    return Err(Error::DidNotFound);
                },
            };
            deact = doc.deactivated;
            dup = match find_service(&doc.services, &service.id) {
                Some(_) => true,
                None => false,
            };
        }
        if deact {
            return Err(Error::DidDeactivated);
        }
        if dup {
            return Err(Error::ServiceAlreadyExists);
        }
        let did = did_string_from_did_id(&id);
        let ghost idv = id@;
        let ghost docv = self@[idv];
        let service_id = clone_bytes(&service.id);
        let (idk, mut details) = match self.records.remove_entry(&id) {
            Some(p) => p,
            None => {
                proof {
                    assert(false);
                }
                return Err(Error::DidNotFound);
            },
        };
        details.services.push(service);
        details.version = bump_version(details.version);
        proof {
            assert(services_view(details.services@) =~= docv.services.push(servv));
            assert(services_unique(services_view(details.services@)));
            assert(details@ =~= DidDetailsV {
                version: sat_inc(docv.version),
                deactivated: false,
                keys: docv.keys,
                services: docv.services.push(servv),
                metadata: docv.metadata,
            });
            assert(details@.wf());
        }
        self.records.insert_new(idk, details);
        proof {
            assert(self@ =~= old(self)@.insert(idv, self@[idv]));
            assert forall|k: Seq<u8>| #[trigger] self@.contains_key(k) implies self@[k].wf() by {
                if k != idv {
                    assert(old(self)@.contains_key(k));
                    assert(self@[k] == old(self)@[k]);
                }
            }
        }
        Ok(Event::ServiceAdded { did, service_id })
    }

    /// Removes a service endpoint by its `id`. The removal swaps the last
    /// endpoint into the freed slot: the remaining order is not stable.
    pub fn remove_service(
        &mut self,
        did_id: Vec<u8>,
        service_id: Vec<u8>,
        did_signature: Vec<u8>,
    ) -> (r: Result<Event, Error>)
        requires
            old(self).wf(),
        ensures
            final(self).wf(),
            ({
                let payload = remove_service_payload(did_id@, service_id@);
                let g = mutation_gate(old(self)@, did_id@, did_signature@, payload);
                let id = parsed_did_id(did_id@);
                let doc = old(self)@[id];
                let sat = service_at(doc.services, service_id@);
                &&& (g matches Some(e) ==> (r matches Err(e2) && e2 == e) && final(self)@ == old(self)@)
                &&& (g is None && !has_service(doc.services, service_id@) ==> (r matches Err(e2)
                    && e2 == Error::ServiceNotFound) && final(self)@ == old(self)@)
                &&& (g is None && has_service(doc.services, service_id@) ==> (r matches Ok(e)
                    && e matches Event::ServiceRemoved { did, service_id: esid } && did@
                    == spec_did_prefix() + base58_of(id) && esid@ == service_id@ && final(self)@
                    == old(self)@.insert(
                    id,
                    DidDetailsV {
                        version: sat_inc(doc.version),
                        deactivated: false,
                        keys: doc.keys,
                        services: seq_swap_remove(doc.services, sat),
                        metadata: doc.metadata,
                    },
                )))
            }),
    {
        let payload = build_remove_service_payload(&did_id, &service_id);
        let id = match decode_did_id(&did_id) {
            Ok(v) => v,
            Err(e) => {
                return Err(e);
            },
        };
        match self.verify_did_signature(&id, &did_signature, &payload) {
            Ok(()) => (),
            Err(e) => {
                return Err(e);
            },
        };
        let ghost idv = id@;
        let ghost docv = self@[idv];
        let ghost sidv = service_id@;
        let deact: bool;
        let found: Option<usize>;
        {
            let doc = match self.records.get(&id) {
                Some(d) => d,
                None => {
                    proof {
                        assert(false);
                    }
                    return Err(Error::DidNotFound);
                },
            };
            deact = doc.deactivated;
            found = find_service(&doc.services, &service_id);
        }
        if deact {
            return Err(Error::DidDeactivated);
        }
        let i: usize = match found {
            Some(i) => i,
            None => {
                return Err(Error::ServiceNotFound);
            },
        };
        proof {
            assert(has_service(docv.services, sidv));
            let j = service_at(docv.services, sidv);
            assert(0 <= j < docv.services.len() && docv.services[j].id == sidv);
            if j < i {
                assert(false);
            } else if i < j {
                assert(false);
            }
            assert(service_at(docv.services, sidv) == i as int);
        }
        let did = did_string_from_did_id(&id);
        let (idk, mut details) = match self.records.remove_entry(&id) {
            Some(p) => p,
            None => {
                proof {
                    assert(false);
                }
                return Err(Error::DidNotFound);
            },
        };
        details.services.swap_remove(i);
        details.version = bump_version(details.version);
        proof {
            assert(services_view(details.services@) =~= seq_swap_remove(docv.services, i as int));
            lemma_services_unique_swap_remove(docv.services, i as int);
            assert(details@ =~= DidDetailsV {
                version: sat_inc(docv.version),
                deactivated: false,
                keys: docv.keys,
                services: seq_swap_remove(docv.services, i as int),
                metadata: docv.metadata,
            });
            assert(details@.wf());
        }
        self.records.insert_new(idk, details);
        proof {
            assert(self@ =~= old(self)@.insert(idv, self@[idv]));
            assert forall|k: Seq<u8>| #[trigger] self@.contains_key(k) implies self@[k].wf() by {
                if k != idv {
                    assert(old(self)@.contains_key(k));
                    assert(self@[k] == old(self)@[k]);
                }
            }
        }
        Ok(Event::ServiceRemoved { did, service_id })
    }

    /// Sets a metadata entry: an existing key keeps its position and takes
    /// the new value; a new key is appended.
    pub fn set_metadata(
        &mut self,
        did_id: Vec<u8>,
        entry: MetadataEntry,
        did_signature: Vec<u8>,
    ) -> (r: Result<Event, Error>)
        requires
            old(self).wf(),
        ensures
            final(self).wf(),
            ({
                let payload = set_metadata_payload(did_id@, entry@);
                let g = mutation_gate(old(self)@, did_id@, did_signature@, payload);
                let id = parsed_did_id(did_id@);
                let doc = old(self)@[id];
                let mat = meta_at(doc.metadata, entry@.key);
                &&& (g matches Some(e) ==> (r matches Err(e2) && e2 == e) && final(self)@ == old(self)@)
                &&& (g is None && has_meta(doc.metadata, entry@.key) ==> (r matches Ok(e)
                    && e matches Event::MetadataSet { did, key } && did@ == spec_did_prefix()
                    + base58_of(id) && key@ == entry@.key && final(self)@ == old(self)@.insert(
                    id,
                    DidDetailsV {
                        version: sat_inc(doc.version),
                        deactivated: false,
                        keys: doc.keys,
                        services: doc.services,
                        metadata: doc.metadata.update(
                            mat,
                            MetadataEntryV { key: entry@.key, value: entry@.value },
                        ),
                    },
                )))
                &&& (g is None && !has_meta(doc.metadata, entry@.key) ==> (r matches Ok(e)
                    && e matches Event::MetadataSet { did, key } && did@ == spec_did_prefix()
                    + base58_of(id) && key@ == entry@.key && final(self)@ == old(self)@.insert(
                    id,
                    DidDetailsV {
                        version: sat_inc(doc.version),
                        deactivated: false,
                        keys: doc.keys,
                        services: doc.services,
                        metadata: doc.metadata.push(entry@),
                    },
                )))
            }),
    {
        let ghost entryv = entry@;
        let payload = build_set_metadata_payload(&did_id, &entry);
        let id = match decode_did_id(&did_id) {
            Ok(v) => v,
            Err(e) => {
                return Err(e);
            },
        };
        match self.verify_did_signature(&id, &did_signature, &payload) {
            Ok(()) => (),
            Err(e) => {
                return Err(e);
            },
        };
        let ghost idv = id@;
        let ghost docv = self@[idv];
        let deact: bool;
        let found: Option<usize>;
        {
            let doc = match self.records.get(&id) {
                Some(d) => d,
                None => {
                    proof {
                        assert(false);
                    }
                    return Err(Error::DidNotFound);
                },
            };
            deact = doc.deactivated;
            found = find_meta(&doc.metadata, &entry.key);
        }
        if deact {
            return Err(Error::DidDeactivated);
        }
        let key = clone_bytes(&entry.key);
        let did = did_string_from_did_id(&id);
        let (idk, mut details) = match self.records.remove_entry(&id) {
            Some(p) => p,
            None => {
                proof {
                    assert(false);
                }
                return Err(Error::DidNotFound);
            },
        };
        match found {
            Some(i) => {
                proof {
                    assert(has_meta(docv.metadata, entryv.key));
                    let j = meta_at(docv.metadata, entryv.key);
                    assert(0 <= j < docv.metadata.len() && docv.metadata[j].key == entryv.key);
                    if j < i {
                        assert(false);
                    } else if i < j {
                        assert(false);
                    }
                    assert(meta_at(docv.metadata, entryv.key) == i as int);
                }
                details.metadata[i] = entry;
                proof {
                    assert(metadata_view(details.metadata@) =~= docv.metadata.update(
                        i as int,
                        MetadataEntryV { key: entryv.key, value: entryv.value },
                    ));
                    assert(metadata_unique(metadata_view(details.metadata@)));
                }
            },
            None => {
                details.metadata.push(entry);
                proof {
                    assert(metadata_view(details.metadata@) =~= docv.metadata.push(entryv));
                    assert(metadata_unique(metadata_view(details.metadata@)));
                }
            },
        }
        details.version = bump_version(details.version);
        proof {
            if has_meta(docv.metadata, entryv.key) {
                assert(details@ =~= DidDetailsV {
                    version: sat_inc(docv.version),
                    deactivated: false,
                    keys: docv.keys,
                    services: docv.services,
                    metadata: docv.metadata.update(
                        meta_at(docv.metadata, entryv.key),
                        MetadataEntryV { key: entryv.key, value: entryv.value },
                    ),
                });
            } else {
                assert(details@ =~= DidDetailsV {
                    version: sat_inc(docv.version),
                    deactivated: false,
                    keys: docv.keys,
                    services: docv.services,
                    metadata: docv.metadata.push(entryv),
                });
            }
            assert(details@.wf());
        }
        self.records.insert_new(idk, details);
        proof {
            assert(self@ =~= old(self)@.insert(idv, self@[idv]));
            assert forall|k: Seq<u8>| #[trigger] self@.contains_key(k) implies self@[k].wf() by {
                if k != idv {
                    assert(old(self)@.contains_key(k));
                    assert(self@[k] == old(self)@[k]);
                }
            }
        }
        Ok(Event::MetadataSet { did, key })
    }

    /// Removes a metadata entry by key; swaps the last entry into the freed
    /// slot, as service removal does.
    pub fn remove_metadata(
        &mut self,
        did_id: Vec<u8>,
        key: Vec<u8>,
        did_signature: Vec<u8>,
    ) -> (r: Result<Event, Error>)
        requires
            old(self).wf(),
        ensures
            final(self).wf(),
            ({
                let payload = remove_metadata_payload(did_id@, key@);
                let g = mutation_gate(old(self)@, did_id@, did_signature@, payload);
                let id = parsed_did_id(did_id@);
                let doc = old(self)@[id];
                let mat = meta_at(doc.metadata, key@);
                &&& (g matches Some(e) ==> (r matches Err(e2) && e2 == e) && final(self)@ == old(self)@)
                &&& (g is None && !has_meta(doc.metadata, key@) ==> (r matches Err(e2) && e2
                    == Error::MetadataNotFound) && final(self)@ == old(self)@)
                &&& (g is None && has_meta(doc.metadata, key@) ==> (r matches Ok(e)
                    && e matches Event::MetadataRemoved { did, key: ekey } && did@
                    == spec_did_prefix() + base58_of(id) && ekey@ == key@ && final(self)@ == old(self)@.insert(
                    id,
                    DidDetailsV {
                        version: sat_inc(doc.version),
                        deactivated: false,
                        keys: doc.keys,
                        services: doc.services,
                        metadata: seq_swap_remove(doc.metadata, mat),
                    },
                )))
            }),
    {
        let payload = build_remove_metadata_payload(&did_id, &key);
        let id = match decode_did_id(&did_id) {
            Ok(v) => v,
            Err(e) => {
                return Err(e);
            },
        };
        match self.verify_did_signature(&id, &did_signature, &payload) {
            Ok(()) => (),
            Err(e) => {
                return Err(e);
            },
        };
        let ghost idv = id@;
        let ghost docv = self@[idv];
        let ghost keyv = key@;
        let deact: bool;
        let found: Option<usize>;
        {
            let doc = match self.records.get(&id) {
                Some(d) => d,
                None => {
                    proof {
                        assert(false);
                    }
                    return Err(Error::DidNotFound);
                },
            };
            deact = doc.deactivated;
            found = find_meta(&doc.metadata, &key);
        }
        if deact {
            return Err(Error::DidDeactivated);
        }
        let i: usize = match found {
            Some(i) => i,
            None => {
                return Err(Error::MetadataNotFound);
            },
        };
        proof {
            assert(has_meta(docv.metadata, keyv));
            let j = meta_at(docv.metadata, keyv);
            assert(0 <= j < docv.metadata.len() && docv.metadata[j].key == keyv);
            if j < i {
                assert(false);
            } else if i < j {
                assert(false);
            }
            assert(meta_at(docv.metadata, keyv) == i as int);
        }
        let did = did_string_from_did_id(&id);
        let (idk, mut details) = match self.records.remove_entry(&id) {
            Some(p) => p,
            None => {
                proof {
                    assert(false);
                }
                return Err(Error::DidNotFound);
            },
        };
        details.metadata.swap_remove(i);
        details.version = bump_version(details.version);
        proof {
            assert(metadata_view(details.metadata@) =~= seq_swap_remove(docv.metadata, i as int));
            lemma_metadata_unique_swap_remove(docv.metadata, i as int);
            assert(details@ =~= DidDetailsV {
                version: sat_inc(docv.version),
                deactivated: false,
                keys: docv.keys,
                services: docv.services,
                metadata: seq_swap_remove(docv.metadata, i as int),
            });
            assert(details@.wf());
        }
        self.records.insert_new(idk, details);
        proof {
            assert(self@ =~= old(self)@.insert(idv, self@[idv]));
            assert forall|k: Seq<u8>| #[trigger] self@.contains_key(k) implies self@[k].wf() by {
                if k != idv {
                    assert(old(self)@.contains_key(k));
                    assert(self@[k] == old(self)@[k]);
                }
            }
        }
        Ok(Event::MetadataRemoved { did, key })
    }

    /// Rotates a key: revokes `old_public_key` and appends `new_public_key`
    /// with the supplied roles. The new key is not granted `Authentication`
    /// automatically; callers must include it.
    pub fn rotate_key(
        &mut self,
        did_id: Vec<u8>,
        old_public_key: Vec<u8>,
        new_public_key: Vec<u8>,
        roles: Vec<KeyRole>,
        did_signature: Vec<u8>,
    ) -> (r: Result<Event, Error>)
        requires
            old(self).wf(),
        ensures
            final(self).wf(),
            ({
                let payload = rotate_key_payload(did_id@, old_public_key@, new_public_key@, roles@);
                let g = mutation_gate(old(self)@, did_id@, did_signature@, payload);
                let id = parsed_did_id(did_id@);
                let doc = old(self)@[id];
                let kat = key_at(doc.keys, old_public_key@);
                &&& (g matches Some(e) ==> (r matches Err(e2) && e2 == e) && final(self)@ == old(self)@)
                &&& (g is None && has_key(doc.keys, new_public_key@) ==> (r matches Err(e2) && e2
                    == Error::KeyAlreadyExists) && final(self)@ == old(self)@)
                &&& (g is None && !has_key(doc.keys, new_public_key@) && !has_key(
                    doc.keys,
                    old_public_key@,
                ) ==> (r matches Err(e2) && e2 == Error::KeyNotFound) && final(self)@ == old(self)@)
                &&& (g is None && !has_key(doc.keys, new_public_key@) && has_key(
                    doc.keys,
                    old_public_key@,
                ) && doc.keys[kat].revoked ==> (r matches Err(e2) && e2
                    == Error::KeyAlreadyRevoked) && final(self)@ == old(self)@)
                &&& (g is None && !has_key(doc.keys, new_public_key@) && has_key(
                    doc.keys,
                    old_public_key@,
                ) && !doc.keys[kat].revoked ==> (r matches Ok(e)
                    && e matches Event::KeyRotated { did, old_public_key: eopk, new_public_key: enpk }
                    && did@ == spec_did_prefix() + base58_of(id) && eopk@ == old_public_key@
                    && enpk@ == new_public_key@ && final(self)@ == old(self)@.insert(
                    id,
                    DidDetailsV {
                        version: sat_inc(doc.version),
                        deactivated: false,
                        keys: doc.keys.update(
                            kat,
                            DidKeyV {
                                public_key: old_public_key@,
                                roles: doc.keys[kat].roles,
                                revoked: true,
                            },
                        ).push(
                            DidKeyV { public_key: new_public_key@, roles: roles@, revoked: false },
                        ),
                        services: doc.services,
                        metadata: doc.metadata,
                    },
                )))
            }),
    {
        let ghost rolesv = roles@;
        let payload = build_rotate_key_payload(&did_id, &old_public_key, &new_public_key, &roles);
        let id = match decode_did_id(&did_id) {
            Ok(v) => v,
            Err(e) => {
                return Err(e);
            },
        };
        match self.verify_did_signature(&id, &did_signature, &payload) {
            Ok(()) => (),
            Err(e) => {
                return Err(e);
            },
        };
        let ghost idv = id@;
        let ghost docv = self@[idv];
        let ghost opkv = old_public_key@;
        let deact: bool;
        let dup: bool;
        let found: Option<usize>;
        let mut was_revoked: bool = false;
        {
            let doc = match self.records.get(&id) {
                Some(d) => d,
                None => {
                    proof {
                        assert(false);
                    }
                    return Err(Error::DidNotFound);
                },
            };
            deact = doc.deactivated;
            dup = match find_key(&doc.keys, &new_public_key) {
                Some(_) => true,
                None => false,
            };
            found = find_key(&doc.keys, &old_public_key);
            if let Some(i) = found {
                was_revoked = doc.keys[i].revoked;
            }
        }
        if deact {
            return Err(Error::DidDeactivated);
        }
        if dup {
            return Err(Error::KeyAlreadyExists);
        }
        let i: usize = match found {
            Some(i) => i,
            None => {
                return Err(Error::KeyNotFound);
            },
        };
        proof {
            assert(has_key(docv.keys, opkv));
            let j = key_at(docv.keys, opkv);
            assert(0 <= j < docv.keys.len() && docv.keys[j].public_key == opkv);
            if j < i {
                assert(false);
            } else if i < j {
                assert(false);
            }
            assert(key_at(docv.keys, opkv) == i as int);
            assert(docv.keys[i as int].revoked == was_revoked);
        }
        if was_revoked {
            return Err(Error::KeyAlreadyRevoked);
        }
        let did = did_string_from_did_id(&id);
        let (idk, mut details) = match self.records.remove_entry(&id) {
            Some(p) => p,
            None => {
                proof {
                    assert(false);
                }
                return Err(Error::DidNotFound);
            },
        };
        let old_roles = copy_elems(&details.keys[i].roles);
        let eopk = clone_bytes(&old_public_key);
        let enpk = clone_bytes(&new_public_key);
        details.keys[i] = DidKey { public_key: old_public_key, roles: old_roles, revoked: true };
        details.keys.push(DidKey { public_key: new_public_key, roles, revoked: false });
        details.version = bump_version(details.version);
        proof {
            assert(keys_view(details.keys@) =~= docv.keys.update(
                i as int,
                DidKeyV { public_key: opkv, roles: docv.keys[i as int].roles, revoked: true },
            ).push(DidKeyV { public_key: enpk@, roles: rolesv, revoked: false }));
            assert(keys_unique(keys_view(details.keys@)));
            assert(details@ =~= DidDetailsV {
                version: sat_inc(docv.version),
                deactivated: false,
                keys: docv.keys.update(
                    i as int,
                    DidKeyV { public_key: opkv, roles: docv.keys[i as int].roles, revoked: true },
                ).push(DidKeyV { public_key: enpk@, roles: rolesv, revoked: false }),
                services: docv.services,
                metadata: docv.metadata,
            });
            assert(details@.wf());
        }
        self.records.insert_new(idk, details);
        proof {
            assert(self@ =~= old(self)@.insert(idv, self@[idv]));
            assert forall|k: Seq<u8>| #[trigger] self@.contains_key(k) implies self@[k].wf() by {
                if k != idv {
                    assert(old(self)@.contains_key(k));
                    assert(self@[k] == old(self)@[k]);
                }
            }
        }
        Ok(Event::KeyRotated { did, old_public_key: eopk, new_public_key: enpk })
    }

    /// Replaces the role sequence of a non-revoked key.
    pub fn update_roles(
        &mut self,
        did_id: Vec<u8>,
        public_key: Vec<u8>,
        roles: Vec<KeyRole>,
        did_signature: Vec<u8>,
    ) -> (r: Result<Event, Error>)
        requires
            old(self).wf(),
        ensures
            final(self).wf(),
            ({
                let payload = update_roles_payload(did_id@, public_key@, roles@);
                let g = mutation_gate(old(self)@, did_id@, did_signature@, payload);
                let id = parsed_did_id(did_id@);
                let doc = old(self)@[id];
                let kat = key_at(doc.keys, public_key@);
                &&& (g matches Some(e) ==> (r matches Err(e2) && e2 == e) && final(self)@ == old(self)@)
                &&& (g is None && !has_key(doc.keys, public_key@) ==> (r matches Err(e2) && e2
                    == Error::KeyNotFound) && final(self)@ == old(self)@)
                &&& (g is None && has_key(doc.keys, public_key@) && doc.keys[kat].revoked ==> (
                r matches Err(e2) && e2 == Error::KeyAlreadyRevoked) && final(self)@ == old(self)@)
                &&& (g is None && has_key(doc.keys, public_key@) && !doc.keys[kat].revoked ==> (
                r matches Ok(e) && e matches Event::RolesUpdated { did, public_key: epk } && did@
                    == spec_did_prefix() + base58_of(id) && epk@ == public_key@ && final(self)@
                    == old(self)@.insert(
                    id,
                    DidDetailsV {
                        version: sat_inc(doc.version),
                        deactivated: false,
                        keys: doc.keys.update(
                            kat,
                            DidKeyV { public_key: public_key@, roles: roles@, revoked: false },
                        ),
                        services: doc.services,
                        metadata: doc.metadata,
                    },
                )))
            }),
    {
        let ghost rolesv = roles@;
        let payload = build_update_roles_payload(&did_id, &public_key, &roles);
        let id = match decode_did_id(&did_id) {
            Ok(v) => v,
            Err(e) => {
                return Err(e);
            },
        };
        match self.verify_did_signature(&id, &did_signature, &payload) {
            Ok(()) => (),
            Err(e) => {
                return Err(e);
            },
        };
        let ghost idv = id@;
        let ghost docv = self@[idv];
        let ghost pkv = public_key@;
        let deact: bool;
        let found: Option<usize>;
        let mut was_revoked: bool = false;
        {
            let doc = match self.records.get(&id) {
                Some(d) => d,
                None => {
                    proof {
                        assert(false);
                    }
                    return Err(Error::DidNotFound);
                },
            };
            deact = doc.deactivated;
            found = find_key(&doc.keys, &public_key);
            if let Some(i) = found {
                was_revoked = doc.keys[i].revoked;
            }
        }
        if deact {
            return Err(Error::DidDeactivated);
        }
        let i: usize = match found {
            Some(i) => i,
            None => {
                return Err(Error::KeyNotFound);
            },
        };
        proof {
            assert(has_key(docv.keys, pkv));
            let j = key_at(docv.keys, pkv);
            assert(0 <= j < docv.keys.len() && docv.keys[j].public_key == pkv);
            if j < i {
                assert(false);
            } else if i < j {
                assert(false);
            }
            assert(key_at(docv.keys, pkv) == i as int);
            assert(docv.keys[i as int].revoked == was_revoked);
        }
        if was_revoked {
            return Err(Error::KeyAlreadyRevoked);
        }
        let did = did_string_from_did_id(&id);
        let (idk, mut details) = match self.records.remove_entry(&id) {
            Some(p) => p,
            None => {
                proof {
                    assert(false);
                }
                return Err(Error::DidNotFound);
            },
        };
        let epk = clone_bytes(&public_key);
        details.keys[i] = DidKey { public_key, roles, revoked: false };
        details.version = bump_version(details.version);
        proof {
            assert(keys_view(details.keys@) =~= docv.keys.update(
                i as int,
                DidKeyV { public_key: pkv, roles: rolesv, revoked: false },
            ));
            assert(keys_unique(keys_view(details.keys@)));
            assert(details@ =~= DidDetailsV {
                version: sat_inc(docv.version),
                deactivated: false,
                keys: docv.keys.update(
                    i as int,
                    DidKeyV { public_key: pkv, roles: rolesv, revoked: false },
                ),
                services: docv.services,
                metadata: docv.metadata,
            });
            assert(details@.wf());
        }
        self.records.insert_new(idk, details);
        proof {
            assert(self@ =~= old(self)@.insert(idv, self@[idv]));
            assert forall|k: Seq<u8>| #[trigger] self@.contains_key(k) implies self@[k].wf() by {
                if k != idv {
                    assert(old(self)@.contains_key(k));
                    assert(self@[k] == old(self)@[k]);
                }
            }
        }
        Ok(Event::RolesUpdated { did, public_key: epk })
    }

    /// Reads the document a textual or raw-base58 id names.
    pub fn get_did(&self, did_id: Vec<u8>) -> (r: Result<DidDetails, Error>)
        requires
            self.wf(),
        ensures
            parse_id(did_id@, spec_did_prefix()) is None ==> (r matches Err(e) && e
                == Error::InvalidDidId),
            ({
                let id = parsed_did_id(did_id@);
                &&& (parse_id(did_id@, spec_did_prefix()) is Some && !self@.contains_key(id)
                    ==> (r matches Err(e) && e == Error::DidNotFound))
                &&& (parse_id(did_id@, spec_did_prefix()) is Some && self@.contains_key(id)
                    ==> (r matches Ok(d) && d@ == self@[id]))
            }),
    {
        let id = match decode_did_id(&did_id) {
            Ok(v) => v,
            Err(e) => {
                return Err(e);
            },
        };
        match self.records.get(&id) {
            Some(d) => Ok(d.duplicate()),
            None => Err(Error::DidNotFound),
        }
    }
}

} // verus!


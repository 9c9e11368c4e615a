//! ML-DSA-44 signature checking. The engine treats a public key as well
//! formed exactly when it has the fixed encoded width of the scheme, and a
//! signature as well formed when its fixed-width encoding decodes; whether a
//! well-formed pair verifies over a payload is the scheme's own verdict.

use vstd::prelude::*;

use ml_dsa::signature::Verifier;
use ml_dsa::{EncodedSignature, EncodedVerifyingKey, MlDsa44, Signature, VerifyingKey};

verus! {

/// Encoded width of an ML-DSA-44 verification key.
pub const MLDSA44_PK_LEN: usize = 1312;

/// Encoded width of an ML-DSA-44 signature.
pub const MLDSA44_SIG_LEN: usize = 2420;

/// Whether `ml_dsa::Signature::<MlDsa44>::decode` accepts the bytes as a
/// signature (fixed width, valid hint encoding).
pub uninterp spec fn mldsa44_sig_wf(sig: Seq<u8>) -> bool;

/// Whether the ML-DSA-44 verification of `payload` under `pk` with an empty
/// context string accepts `sig`.
pub uninterp spec fn mldsa44_verifies(pk: Seq<u8>, payload: Seq<u8>, sig: Seq<u8>) -> bool;

/// A public key is well formed when it has the scheme's encoded width: every
/// such key decodes (`ml_dsa::VerifyingKey::decode` is total on that width).
pub open spec fn mldsa44_pk_wf(pk: Seq<u8>) -> bool {
    pk.len() == MLDSA44_PK_LEN
}

/// Whether the bytes are a well-formed public key.
pub fn pk_well_formed(pk: &Vec<u8>) -> (r: bool)
    ensures
        r == mldsa44_pk_wf(pk@),
{
    pk.len() == MLDSA44_PK_LEN
}

/// Relies on ml_dsa::Signature::<MlDsa44>::decode: a deterministic check that
/// accepts only the fixed 2420-byte encoding.
#[verifier::external_body]
pub(crate) fn sig_well_formed(sig: &Vec<u8>) -> (r: bool)
    ensures
        r == mldsa44_sig_wf(sig@),
        r ==> sig@.len() == MLDSA44_SIG_LEN,
{
    EncodedSignature::<MlDsa44>::try_from(sig.as_slice())
        .ok()
        .and_then(|enc| Signature::<MlDsa44>::decode(&enc))
        .is_some()
}

/// Relies on ml_dsa::VerifyingKey::verify: the deterministic ML-DSA-44
/// verification of the payload with an empty context string.
#[verifier::external_body]
pub(crate) fn mldsa_verify(pk: &Vec<u8>, payload: &Vec<u8>, sig: &Vec<u8>) -> (r: bool)
    requires
        mldsa44_pk_wf(pk@),
        mldsa44_sig_wf(sig@),
    ensures
        r == mldsa44_verifies(pk@, payload@, sig@),
{
    let enc_pk = EncodedVerifyingKey::<MlDsa44>::try_from(pk.as_slice()).unwrap();
    let vk = VerifyingKey::<MlDsa44>::decode(&enc_pk);
    let enc_sig = EncodedSignature::<MlDsa44>::try_from(sig.as_slice()).unwrap();
    let s = Signature::<MlDsa44>::decode(&enc_sig).unwrap();
    vk.verify(payload.as_slice(), &s).is_ok()
}

/// Whether some non-revoked, well-formed key of the document authorizes the
/// payload: the live key set's verdict on a command signature.
pub open spec fn sig_authorizes(
    keys: Seq<crate::types::DidKeyV>,
    payload: Seq<u8>,
    sig: Seq<u8>,
) -> bool {
    exists|i: int|
        0 <= i < keys.len() && !keys[i].revoked && mldsa44_pk_wf(#[trigger] keys[i].public_key)
            && mldsa44_verifies(keys[i].public_key, payload, sig)
}

} // verus!

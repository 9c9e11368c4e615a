//! Identifier codec: 32-byte identifiers are Blake2b-256 digests of
//! `<material prefix> || <genesis hash> || <entity bytes>`; their textual form
//! is the base58 of those 32 bytes behind a scheme prefix. Parsers accept the
//! prefixed textual form or raw base58.

use vstd::prelude::*;

use blake2::digest::consts::U32;
use blake2::digest::Digest;
use blake2::Blake2b;

verus! {

/// What `bs58::encode` returns on the given bytes (Bitcoin alphabet).
pub uninterp spec fn base58_of(b: Seq<u8>) -> Seq<u8>;

/// What `bs58::decode` returns on the given text: the decoded bytes, or
/// nothing when the text is not valid base58.
pub uninterp spec fn base58_decoded(s: Seq<u8>) -> Option<Seq<u8>>;

/// What Blake2b with a 32-byte digest returns on the given bytes.
pub uninterp spec fn blake2b256_of(m: Seq<u8>) -> Seq<u8>;

/// Relies on bs58::encode (Bitcoin alphabet): a pure function of the input
/// bytes, and bs58::decode of its output returns exactly the input.
#[verifier::external_body]
fn base58_encode(b: &Vec<u8>) -> (r: Vec<u8>)
    ensures
        r@ == base58_of(b@),
        base58_decoded(r@) == Some(b@),
{
    bs58::encode(b.as_slice()).into_vec()
}

/// Relies on bs58::decode (Bitcoin alphabet): a pure function of the input
/// text that fails exactly on text that is not valid base58.
#[verifier::external_body]
fn base58_decode(s: &Vec<u8>) -> (r: Option<Vec<u8>>)
    ensures
        r matches Some(v) ==> base58_decoded(s@) == Some(v@),
        r is None ==> base58_decoded(s@) is None,
{
    match bs58::decode(s.as_slice()).into_vec() {
        Ok(v) => Some(v),
        Err(_) => None,
    }
}

/// Relies on blake2::Blake2b with a 32-byte output: a pure digest of the
/// input bytes, 32 bytes long.
#[verifier::external_body]
pub fn blake2b256(m: &Vec<u8>) -> (r: Vec<u8>)
    ensures
        r@ == blake2b256_of(m@),
        r@.len() == 32,
{
    let mut h: Blake2b<U32> = Blake2b::new();
    h.update(m.as_slice());
    h.finalize().to_vec()
}

/// Appends `v` to `out`.
pub fn append_bytes(out: &mut Vec<u8>, v: &Vec<u8>)
    ensures
        final(out)@ == old(out)@ + v@,
{
    let mut i: usize = 0;
    while i < v.len()
        invariant
            i <= v.len(),
            out@ == old(out)@ + v@.subrange(0, i as int),
        decreases v.len() - i,
    {
        out.push(v[i]);
        proof {
            assert(out@ =~= old(out)@ + v@.subrange(0, i + 1));
        }
        i = i + 1;
    }
    proof {
        assert(old(out)@ + v@.subrange(0, v@.len() as int) =~= old(out)@ + v@);
    }
}

/// The identifier derived for an entity: a digest over the material prefix,
/// the chain's genesis hash and the entity's own bytes.
pub open spec fn derive_id(material_prefix: Seq<u8>, genesis: Seq<u8>, entity: Seq<u8>) -> Seq<u8> {
    blake2b256_of(material_prefix + genesis + entity)
}

/// Computes the identifier for an entity.
pub fn compute_id(material_prefix: &Vec<u8>, genesis: &Vec<u8>, entity: &Vec<u8>) -> (r: Vec<u8>)
    ensures
        r@ == derive_id(material_prefix@, genesis@, entity@),
        r@.len() == 32,
{
    let mut material: Vec<u8> = Vec::new();
    append_bytes(&mut material, material_prefix);
    append_bytes(&mut material, genesis);
    append_bytes(&mut material, entity);
    blake2b256(&material)
}

/// The input with the scheme prefix removed when it is present; otherwise the
/// input itself (the raw base58 form).
pub open spec fn strip_prefix_spec(input: Seq<u8>, prefix: Seq<u8>) -> Seq<u8> {
    if prefix.is_prefix_of(input) {
        input.skip(prefix.len() as int)
    } else {
        input
    }
}

/// The 32-byte identifier written in `input`, read from either the prefixed
/// textual form or raw base58; nothing when the base58 is invalid or does not
/// yield exactly 32 bytes.
pub open spec fn parse_id(input: Seq<u8>, prefix: Seq<u8>) -> Option<Seq<u8>> {
    match base58_decoded(strip_prefix_spec(input, prefix)) {
        Some(b) => if b.len() == 32 {
            Some(b)
        } else {
            None
        },
        None => None,
    }
}

/// Whether `prefix` starts `input`.
fn has_prefix(input: &Vec<u8>, prefix: &Vec<u8>) -> (r: bool)
    ensures
        r == prefix@.is_prefix_of(input@),
{
    if input.len() < prefix.len() {
        proof {
            assert(!prefix@.is_prefix_of(input@));
        }
        return false;
    }
    let mut i: usize = 0;
    while i < prefix.len()
        invariant
            i <= prefix.len(),
            prefix@.len() <= input@.len(),
            forall|k: int| 0 <= k < i ==> input@[k] == prefix@[k],
        decreases prefix.len() - i,
    {
        if input[i] != prefix[i] {
            proof {
                assert(!prefix@.is_prefix_of(input@));
            }
            return false;
        }
        i = i + 1;
    }
    proof {
        assert(prefix@ =~= input@.subrange(0, prefix@.len() as int));
    }
    true
}

/// Encodes a 32-byte identifier in its textual form: the scheme prefix
/// followed by base58 of the id. Decoding the result yields the id back
/// (the round trip over all 32-byte ids and all scheme prefixes).
pub fn encode_textual_id(prefix: &Vec<u8>, id: &Vec<u8>) -> (r: Vec<u8>)
    requires
        id@.len() == 32,
    ensures
        r@ == prefix@ + base58_of(id@),
        parse_id(r@, prefix@) == Some(id@),
{
    let b58 = base58_encode(id);
    let mut r: Vec<u8> = Vec::new();
    append_bytes(&mut r, prefix);
    append_bytes(&mut r, &b58);
    proof {
        assert(r@.subrange(0, prefix@.len() as int) =~= prefix@);
        assert(prefix@.is_prefix_of(r@));
        assert(strip_prefix_spec(r@, prefix@) =~= b58@);
    }
    r
}

/// Decodes a textual or raw-base58 identifier into its 32 bytes.
pub fn decode_textual_id(prefix: &Vec<u8>, input: &Vec<u8>) -> (r: Option<Vec<u8>>)
    ensures
        parse_id(input@, prefix@) matches Some(b) ==> (r matches Some(v) && v@ == b),
        parse_id(input@, prefix@) is None ==> r is None,
{
    let stripped: Vec<u8> = if has_prefix(input, prefix) {
        let mut s: Vec<u8> = Vec::new();
        let mut i: usize = prefix.len();
        while i < input.len()
            invariant
                prefix@.len() <= i <= input@.len(),
                s@ == input@.subrange(prefix@.len() as int, i as int),
            decreases input.len() - i,
        {
            s.push(input[i]);
            proof {
                assert(s@ =~= input@.subrange(prefix@.len() as int, i + 1));
            }
            i = i + 1;
        }
        proof {
            assert(s@ =~= input@.skip(prefix@.len() as int));
        }
        s
    } else {
        crate::types::clone_bytes(input)
    };
    proof {
        assert(stripped@ == strip_prefix_spec(input@, prefix@));
    }
    match base58_decode(&stripped) {
        Some(v) => {
            if v.len() == 32 {
                Some(v)
            } else {
                None
            }
        },
        None => None,
    }
}

} // verus!

//! Canonical wire encoding used for signing payloads: variable-length byte
//! strings and sequences are prefixed with a compact little-endian length,
//! the encoding used by the transaction envelope. The bytes produced here
//! must be reproducible by every signer, so each encoder carries an exact
//! specification.

use vstd::prelude::*;
use vstd::arithmetic::div_mod::{
    lemma_div_denominator, lemma_div_is_ordered, lemma_div_is_ordered_by_denominator,
    lemma_fundamental_div_mod,
};

use crate::types::KeyRole;

verus! {

/// `256^e`.
pub open spec fn pow256(e: nat) -> nat
    decreases e,
{
    if e == 0 {
        1
    } else {
        256 * pow256((e - 1) as nat)
    }
}

pub proof fn lemma_pow256_pos(e: nat)
    ensures
        pow256(e) >= 1,
    decreases e,
{
    if e > 0 {
        lemma_pow256_pos((e - 1) as nat);
    }
}

/// `count` little-endian base-256 digits of `n`.
pub open spec fn le_bytes(n: nat, count: nat) -> Seq<u8> {
    Seq::new(count, |i: int| (n as int / pow256(i as nat) as int % 256) as u8)
}

/// Fewest base-256 digits that hold `n`.
pub open spec fn min_len_bytes(n: nat) -> nat
    decreases n,
{
    if n < 256 {
        1
    } else {
        1 + min_len_bytes(n / 256)
    }
}

/// The compact length prefix: two low mode bits select one, two or four
/// bytes for small values, or a length-carrying header for big ones.
pub open spec fn compact_len(n: nat) -> Seq<u8> {
    if n < 64 {
        seq![(n * 4) as u8]
    } else if n < 16384 {
        le_bytes(n * 4 + 1, 2)
    } else if n < 1073741824 {
        le_bytes(n * 4 + 2, 4)
    } else {
        seq![((min_len_bytes(n) - 4) * 4 + 3) as u8] + le_bytes(n, min_len_bytes(n))
    }
}

/// A length-prefixed byte string.
pub open spec fn enc_bytes(b: Seq<u8>) -> Seq<u8> {
    compact_len(b.len()) + b
}

/// Wire tag of a key role: its position in the declaration.
pub open spec fn role_byte(r: KeyRole) -> u8 {
    match r {
        KeyRole::Authentication => 0,
        KeyRole::AssertionMethod => 1,
        KeyRole::KeyAgreement => 2,
        KeyRole::CapabilityInvocation => 3,
        KeyRole::CapabilityDelegation => 4,
    }
}

/// A length-prefixed role sequence, one tag byte per role.
pub open spec fn enc_roles(rs: Seq<KeyRole>) -> Seq<u8> {
    compact_len(rs.len()) + Seq::new(rs.len(), |i: int| role_byte(rs[i]))
}

/// A service endpoint: its three byte strings in declaration order.
pub open spec fn enc_service(s: crate::types::ServiceEndpointV) -> Seq<u8> {
    enc_bytes(s.id) + enc_bytes(s.service_type) + enc_bytes(s.endpoint)
}

/// A metadata entry: key then value.
pub open spec fn enc_entry(e: crate::types::MetadataEntryV) -> Seq<u8> {
    enc_bytes(e.key) + enc_bytes(e.value)
}

proof fn lemma_min_len_bytes_bound(n: nat, c: nat)
    requires
        n < pow256(c),
        c >= 1,
    ensures
        min_len_bytes(n) <= c,
    decreases c,
{
    if n < 256 {
    } else {
        lemma_pow256_pos((c - 1) as nat);
        assert(n / 256 < pow256((c - 1) as nat)) by (nonlinear_arith)
            requires
                n < 256 * pow256((c - 1) as nat),
                pow256((c - 1) as nat) >= 1,
        ;
        if c - 1 == 0 {
            assert(false);
        }
        lemma_min_len_bytes_bound(n / 256, (c - 1) as nat);
    }
}

/// Writes the `count` low-order little-endian digits of `n`.
fn push_le_bytes(out: &mut Vec<u8>, n: u64, count: usize)
    ensures
        final(out)@ == old(out)@ + le_bytes(n as nat, count as nat),
{
    let ghost orig = out@;
    proof {
        assert(pow256(0) == 1);
        vstd::arithmetic::div_mod::lemma_div_basics(n as int);
        assert(le_bytes(n as nat, 0) =~= Seq::<u8>::empty());
        assert(out@ =~= orig + le_bytes(n as nat, 0));
    }
    let mut t: u64 = n;
    let mut c: usize = 0;
    while c < count
        invariant
            c <= count,
            t == n as int / pow256(c as nat) as int,
            out@ == orig + le_bytes(n as nat, c as nat),
        decreases count - c,
    {
        proof {
            lemma_pow256_pos(c as nat);
        }
        let b: u8 = (t % 256) as u8;
        out.push(b);
        proof {
            assert(out@ =~= orig + le_bytes(n as nat, (c + 1) as nat));
            lemma_div_denominator(n as int, pow256(c as nat) as int, 256);
            assert(pow256((c + 1) as nat) == pow256(c as nat) * 256) by (nonlinear_arith)
                requires
                    pow256((c + 1) as nat) == 256 * pow256(c as nat),
            ;
        }
        t = t / 256;
        c = c + 1;
    }
}

/// Writes the compact length prefix for `n`.
pub fn push_compact_len(out: &mut Vec<u8>, n: usize)
    ensures
        final(out)@ == old(out)@ + compact_len(n as nat),
{
    let m: u64 = n as u64;
    if m < 64 {
        let b: u8 = (m as u8) * 4;
        out.push(b);
        proof {
            assert(out@ =~= old(out)@ + compact_len(n as nat));
        }
    } else if m < 16384 {
        let v: u64 = m * 4 + 1;
        push_le_bytes(out, v, 2);
    } else if m < 1073741824 {
        let v: u64 = m * 4 + 2;
        push_le_bytes(out, v, 4);
    } else {
        proof {
            assert(pow256(0) == 1);
            vstd::arithmetic::div_mod::lemma_div_basics(m as int);
        }
        let mut t: u64 = m;
        let mut len: usize = 1;
        while t >= 256
            invariant
                1 <= len,
                len <= 8,
                m >= 1073741824,
                t == m as int / pow256((len - 1) as nat) as int,
                min_len_bytes(m as nat) == len - 1 + min_len_bytes(t as nat),
            decreases t,
        {
            proof {
                lemma_pow256_pos((len - 1) as nat);
                lemma_div_denominator(m as int, pow256((len - 1) as nat) as int, 256);
                assert(pow256(len as nat) == pow256((len - 1) as nat) * 256) by (nonlinear_arith)
                    requires
                        pow256(len as nat) == 256 * pow256((len - 1) as nat),
                ;
                if len == 8 {
                    assert(pow256(8) == 0x1_0000_0000_0000_0000) by {
                        reveal_with_fuel(pow256, 9);
                    }
                    lemma_fundamental_div_mod(m as int, pow256(7) as int);
                    assert(m as int >= 256 * pow256(7)) by (nonlinear_arith)
                        requires
                            m as int == pow256(7) as int * (m as int / pow256(7) as int) + (
                            m as int % pow256(7) as int),
                            m as int / pow256(7) as int >= 256,
                            m as int % pow256(7) as int >= 0,
                            pow256(7) >= 1,
                    ;
                    assert(false);
                }
            }
            t = t / 256;
            len = len + 1;
        }
        proof {
            assert(min_len_bytes(t as nat) == 1);
            assert(min_len_bytes(m as nat) == len);
            if len < 4 {
                assert(pow256((len - 1) as nat) <= 65536) by {
                    reveal_with_fuel(pow256, 4);
                }
                lemma_pow256_pos((len - 1) as nat);
                lemma_div_is_ordered_by_denominator(
                    m as int,
                    pow256((len - 1) as nat) as int,
                    65536,
                );
                lemma_div_is_ordered(1073741824, m as int, 65536);
                assert(false);
            }
        }
        let header: u8 = ((len - 4) as u8) * 4 + 3;
        out.push(header);
        push_le_bytes(out, m, len);
        proof {
            assert(out@ =~= old(out)@ + compact_len(n as nat));
        }
    }
}

/// Appends the canonical encoding of a byte string: compact length, then the
/// bytes themselves.
pub fn push_enc_bytes(out: &mut Vec<u8>, b: &Vec<u8>)
    ensures
        final(out)@ == old(out)@ + enc_bytes(b@),
{
    push_compact_len(out, b.len());
    let mut i: usize = 0;
    while i < b.len()
        invariant
            i <= b.len(),
            out@ == old(out)@ + compact_len(b@.len()) + b@.subrange(0, i as int),
        decreases b.len() - i,
    {
        out.push(b[i]);
        proof {
            assert(out@ =~= old(out)@ + compact_len(b@.len()) + b@.subrange(0, i + 1));
        }
        i = i + 1;
    }
    proof {
        assert(b@.subrange(0, b@.len() as int) =~= b@);
        assert(out@ =~= old(out)@ + enc_bytes(b@));
    }
}

/// The wire tag of one role.
pub fn role_tag(r: KeyRole) -> (b: u8)
    ensures
        b == role_byte(r),
{
    match r {
        KeyRole::Authentication => 0,
        KeyRole::AssertionMethod => 1,
        KeyRole::KeyAgreement => 2,
        KeyRole::CapabilityInvocation => 3,
        KeyRole::CapabilityDelegation => 4,
    }
}

/// Appends the canonical encoding of a role sequence.
pub fn push_enc_roles(out: &mut Vec<u8>, rs: &Vec<KeyRole>)
    ensures
        final(out)@ == old(out)@ + enc_roles(rs@),
{
    push_compact_len(out, rs.len());
    let mut i: usize = 0;
    while i < rs.len()
        invariant
            i <= rs.len(),
            out@ == old(out)@ + compact_len(rs@.len()) + Seq::new(
                i as nat,
                |k: int| role_byte(rs@[k]),
            ),
        decreases rs.len() - i,
    {
        let b = role_tag(rs[i]);
        out.push(b);
        proof {
            assert(out@ =~= old(out)@ + compact_len(rs@.len()) + Seq::new(
                (i + 1) as nat,
                |k: int| role_byte(rs@[k]),
            ));
        }
        i = i + 1;
    }
    proof {
        assert(out@ =~= old(out)@ + enc_roles(rs@));
    }
}

/// Appends the canonical encoding of a service endpoint.
pub fn push_enc_service(out: &mut Vec<u8>, s: &crate::types::ServiceEndpoint)
    ensures
        final(out)@ == old(out)@ + enc_service(s@),
{
    push_enc_bytes(out, &s.id);
    push_enc_bytes(out, &s.service_type);
    push_enc_bytes(out, &s.endpoint);
    proof {
        assert(out@ =~= old(out)@ + enc_service(s@));
    }
}

/// Appends the canonical encoding of a metadata entry.
pub fn push_enc_entry(out: &mut Vec<u8>, e: &crate::types::MetadataEntry)
    ensures
        final(out)@ == old(out)@ + enc_entry(e@),
{
    push_enc_bytes(out, &e.key);
    push_enc_bytes(out, &e.value);
    proof {
        assert(out@ =~= old(out)@ + enc_entry(e@));
    }
}

} // verus!

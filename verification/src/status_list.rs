//! The status-list registry: issuer-owned revocation bitmaps with indexed
//! bit flips. A list is addressed by a digest of the issuer DID and a list
//! nonce of at least 16 bytes; bit order within a byte is little-endian.

use vstd::prelude::*;

use crate::codec::{
    base58_of, compute_id, decode_textual_id, derive_id, encode_textual_id, parse_id,
};
use crate::store::Store;
use crate::types::{bytes_eq, clone_bytes, StatusList, StatusListV};
use crate::ChainContext;

verus! {

/// Why a status-list command was rejected.
#[derive(Clone, Copy, PartialEq, Eq, Debug)]
pub enum Error {
    StatusListAlreadyExists,
    StatusListNotFound,
    InvalidStatusListId,
    InvalidListNonce,
    IssuerMismatch,
    StatusIndexOutOfBounds,
}

/// What a successful status-list command reports.
#[derive(Debug)]
pub enum Event {
    StatusListCreated { status_list_id: Vec<u8>, issuer_did: Vec<u8> },
    StatusUpdated { status_list_id: Vec<u8>, status_index: u32, revoked: bool },
}

/// `"did:qsb:statuslist:"` as bytes.
pub open spec fn spec_status_list_prefix() -> Seq<u8> {
    seq![100u8, 105u8, 100u8, 58u8, 113u8, 115u8, 98u8, 58u8, 115u8, 116u8, 97u8, 116u8, 117u8, 115u8, 108u8, 105u8, 115u8, 116u8, 58u8]
}

pub fn status_list_prefix() -> (r: Vec<u8>)
    ensures
        r@ == spec_status_list_prefix(),
{
    let a: [u8; 19] = [100u8, 105u8, 100u8, 58u8, 113u8, 115u8, 98u8, 58u8, 115u8, 116u8, 97u8, 116u8, 117u8, 115u8, 108u8, 105u8, 115u8, 116u8, 58u8];
    let mut v: Vec<u8> = Vec::new();
    v.extend_from_slice(a.as_slice());
    proof {
        assert(v@ =~= spec_status_list_prefix());
    }
    v
}

/// `"QSB_STATUSLIST"` as bytes.
pub open spec fn spec_status_list_material_prefix() -> Seq<u8> {
    seq![81u8, 83u8, 66u8, 95u8, 83u8, 84u8, 65u8, 84u8, 85u8, 83u8, 76u8, 73u8, 83u8, 84u8]
}

pub fn status_list_material_prefix() -> (r: Vec<u8>)
    ensures
        r@ == spec_status_list_material_prefix(),
{
    let a: [u8; 14] = [81u8, 83u8, 66u8, 95u8, 83u8, 84u8, 65u8, 84u8, 85u8, 83u8, 76u8, 73u8, 83u8, 84u8];
    let mut v: Vec<u8> = Vec::new();
    v.extend_from_slice(a.as_slice());
    proof {
        assert(v@ =~= spec_status_list_material_prefix());
    }
    v
}

/// Smallest nonce the registry accepts.
pub const MIN_LIST_NONCE_BYTES: usize = 16;

/// Bytes a list of `n` bits occupies.
pub open spec fn bitmap_len(n: u32) -> int {
    (n + 7) / 8
}

/// A byte with bit `bit` set or cleared; bits count from the least
/// significant end.
pub open spec fn set_bit(b: u8, bit: u8, v: bool) -> u8
    recommends
        bit < 8,
{
    if v {
        b | (1u8 << bit)
    } else {
        b & !(1u8 << bit)
    }
}

/// A zeroed byte vector of the given length.
fn zero_bytes(n: usize) -> (r: Vec<u8>)
    ensures
        r@ == Seq::new(n as nat, |i: int| 0u8),
{
    let mut r: Vec<u8> = Vec::new();
    let mut i: usize = 0;
    while i < n
        invariant
            i <= n,
            r@ == Seq::new(i as nat, |k: int| 0u8),
        decreases n - i,
    {
        r.push(0u8);
        proof {
            assert(r@ =~= Seq::new((i + 1) as nat, |k: int| 0u8));
        }
        i = i + 1;
    }
    r
}

/// Decodes a status-list id from its textual or raw-base58 wire form.
pub fn decode_status_list_id(input: &Vec<u8>) -> (r: Result<Vec<u8>, Error>)
    ensures
        parse_id(input@, spec_status_list_prefix()) matches Some(b) ==> (r matches Ok(v) && v@
            == b && v@.len() == 32),
        parse_id(input@, spec_status_list_prefix()) is None ==> (r matches Err(e) && e
            == Error::InvalidStatusListId),
{
    let p = status_list_prefix();
    match decode_textual_id(&p, input) {
        Some(v) => Ok(v),
        None => Err(Error::InvalidStatusListId),
    }
}

/// Textual form of a status-list id; decoding it yields the id back.
pub fn status_list_string_from_id(status_list_id: &Vec<u8>) -> (r: Vec<u8>)
    requires
        status_list_id@.len() == 32,
    ensures
        r@ == spec_status_list_prefix() + base58_of(status_list_id@),
        parse_id(r@, spec_status_list_prefix()) == Some(status_list_id@),
{
    let p = status_list_prefix();
    encode_textual_id(&p, status_list_id)
}

/// The id of the list an issuer creates with a nonce on this chain.
pub fn status_list_id_from_parts(ctx: &ChainContext, issuer_did: &Vec<u8>, list_nonce: &Vec<u8>) -> (r: Vec<u8>)
    ensures
        r@ == derive_id(
            spec_status_list_material_prefix(),
            ctx.genesis_hash@,
            issuer_did@ + list_nonce@,
        ),
        r@.len() == 32,
{
    let m = status_list_material_prefix();
    let mut entity = clone_bytes(issuer_did);
    crate::codec::append_bytes(&mut entity, list_nonce);
    compute_id(&m, &ctx.genesis_hash, &entity)
}

/// The status-list half of the registry state.
pub struct StatusListRegistry {
    records: Store<StatusList>,
}

impl View for StatusListRegistry {
    type V = Map<Seq<u8>, StatusListV>;

    closed spec fn view(&self) -> Map<Seq<u8>, StatusListV> {
        self.records@
    }
}

impl StatusListRegistry {
    pub closed spec fn store_wf(&self) -> bool {
        self.records.wf()
    }

    /// Every stored list carries a nonce of at least 16 bytes.
    pub open spec fn wf(&self) -> bool {
        &&& self.store_wf()
        &&& forall|k: Seq<u8>| #[trigger] self@.contains_key(k) ==> self@[k].list_nonce.len()
            >= MIN_LIST_NONCE_BYTES
    }

    pub fn new() -> (r: StatusListRegistry)
        ensures
            r.wf(),
            r@ == Map::<Seq<u8>, StatusListV>::empty(),
    {
        let r = StatusListRegistry { records: Store::new() };
        proof {
            assert(forall|k: Seq<u8>| !r@.contains_key(k));
        }
        r
    }

    /// Creates a status list: the nonce must be at least 16 bytes, the id
    /// must be fresh, and the bitmap starts as `ceil(list_length / 8)` zero
    /// bytes.
    pub fn create_status_list(
        &mut self,
        ctx: &ChainContext,
        issuer_did: Vec<u8>,
        list_nonce: Vec<u8>,
        list_length: u32,
        _did_signature: Vec<u8>,
    ) -> (r: Result<Event, Error>)
        requires
            old(self).wf(),
        ensures
            final(self).wf(),
            ({
                let id = derive_id(
                    spec_status_list_material_prefix(),
                    ctx.genesis_hash@,
                    issuer_did@ + list_nonce@,
                );
                &&& (list_nonce@.len() < MIN_LIST_NONCE_BYTES ==> (r matches Err(e) && e
                    == Error::InvalidListNonce))
                &&& (list_nonce@.len() >= MIN_LIST_NONCE_BYTES && old(self)@.contains_key(id)
                    ==> (r matches Err(e) && e == Error::StatusListAlreadyExists))
                &&& (list_nonce@.len() >= MIN_LIST_NONCE_BYTES && !old(self)@.contains_key(id)
                    && list_length as int + 7 > u32::MAX ==> (r matches Err(e) && e
                    == Error::StatusIndexOutOfBounds))
                &&& (list_nonce@.len() >= MIN_LIST_NONCE_BYTES && !old(self)@.contains_key(id)
                    && list_length as int + 7 <= u32::MAX ==> (r matches Ok(e)
                    && e matches Event::StatusListCreated {
                    status_list_id,
                    issuer_did: eissuer,
                } && status_list_id@ == spec_status_list_prefix() + base58_of(id) && eissuer@
                    == issuer_did@ && final(self)@ == old(self)@.insert(
                    id,
                    StatusListV {
                        version: 0,
                        issuer_did: issuer_did@,
                        list_nonce: list_nonce@,
                        bitmap: Seq::new(bitmap_len(list_length) as nat, |i: int| 0u8),
                    },
                )))
                &&& (r is Err ==> final(self)@ == old(self)@)
            }),
    {
        if list_nonce.len() < MIN_LIST_NONCE_BYTES {
            return Err(Error::InvalidListNonce);
        }
        let id = status_list_id_from_parts(ctx, &issuer_did, &list_nonce);
        if self.records.contains(&id) {
            return Err(Error::StatusListAlreadyExists);
        }
        if list_length > u32::MAX - 7 {
            return Err(Error::StatusIndexOutOfBounds);
        }
        let bytes: u32 = (list_length + 7) / 8;
        let bitmap = zero_bytes(bytes as usize);
        let record = StatusList { version: 0, issuer_did, list_nonce, bitmap };
        let ghost idv = id@;
        let ghost recv = record@;
        let status_list_id_full = status_list_string_from_id(&id);
        let eissuer = clone_bytes(&record.issuer_did);
        self.records.insert_new(id, record);
        proof {
            assert(self@ =~= old(self)@.insert(idv, recv));
            assert forall|k: Seq<u8>| #[trigger] self@.contains_key(k) implies self@[k].list_nonce.len() >= MIN_LIST_NONCE_BYTES by {
                if k != idv {
                    assert(old(self)@.contains_key(k));
                    assert(self@[k] == old(self)@[k]);
                }
            }
        }
        Ok(Event::StatusListCreated { status_list_id: status_list_id_full, issuer_did: eissuer })
    }

    /// Sets or clears one bit of a list, addressed by its index; only the
    /// creating issuer may flip bits, and the index must fall inside the
    /// bitmap.
    pub fn set_status(
        &mut self,
        status_list_id: Vec<u8>,
        issuer_did: Vec<u8>,
        status_index: u32,
        revoked: bool,
        _did_signature: Vec<u8>,
    ) -> (r: Result<Event, Error>)
        requires
            old(self).wf(),
        ensures
            final(self).wf(),
            ({
                let pid = parse_id(status_list_id@, spec_status_list_prefix());
                let id = match pid {
                    Some(b) => b,
                    None => Seq::empty(),
                };
                let doc = old(self)@[id];
                &&& (pid is None ==> (r matches Err(e) && e == Error::InvalidStatusListId))
                &&& (pid is Some && !old(self)@.contains_key(id) ==> (r matches Err(e) && e
                    == Error::StatusListNotFound))
                &&& (pid is Some && old(self)@.contains_key(id) && doc.issuer_did != issuer_did@
                    ==> (r matches Err(e) && e == Error::IssuerMismatch))
                &&& (pid is Some && old(self)@.contains_key(id) && doc.issuer_did == issuer_did@
                    && status_index as int >= doc.bitmap.len() * 8 ==> (r matches Err(e) && e
                    == Error::StatusIndexOutOfBounds))
                &&& (pid is Some && old(self)@.contains_key(id) && doc.issuer_did == issuer_did@
                    && (status_index as int) < doc.bitmap.len() * 8 ==> (r matches Ok(e)
                    && e matches Event::StatusUpdated { status_list_id: esid, status_index: eidx, revoked: erev }
                    && esid@ == spec_status_list_prefix() + base58_of(id) && eidx == status_index
                    && erev == revoked && final(self)@ == old(self)@.insert(
                    id,
                    StatusListV {
                        version: crate::did::sat_inc(doc.version),
                        issuer_did: doc.issuer_did,
                        list_nonce: doc.list_nonce,
                        bitmap: doc.bitmap.update(
                            status_index as int / 8,
                            set_bit(
                                doc.bitmap[status_index as int / 8],
                                (status_index % 8) as u8,
                                revoked,
                            ),
                        ),
                    },
                )))
                &&& (r is Ok ==> pid is Some && old(self)@.contains_key(id) && (
                status_index as int) < doc.bitmap.len() * 8)
                &&& (r is Err ==> final(self)@ == old(self)@)
            }),
    {
        let id = match decode_status_list_id(&status_list_id) {
            Ok(v) => v,
            Err(e) => {
                return Err(e);
            },
        };
        let ghost idv = id@;
        let ghost docv = self@[idv];
        let mismatch: bool;
        let in_bounds: bool;
        {
            let doc = match self.records.get(&id) {
                Some(d) => d,
                None => {
                    return Err(Error::StatusListNotFound);
                },
            };
            mismatch = !bytes_eq(&doc.issuer_did, &issuer_did);
            // the bit count cannot overflow: the bitmap has at most
            // usize::MAX bytes and indices are u32
            in_bounds = if doc.bitmap.len() > usize::MAX / 8 {
                true
            } else {
                (status_index as usize) < doc.bitmap.len() * 8
            };
            proof {
                if doc.bitmap.len() > usize::MAX / 8 {
                    assert(doc.bitmap@.len() * 8 > u32::MAX as int) by (nonlinear_arith)
                        requires
                            doc.bitmap@.len() > usize::MAX / 8,
                            usize::MAX >= u32::MAX,
                    ;
                }
            }
        }
        if mismatch {
            return Err(Error::IssuerMismatch);
        }
        if !in_bounds {
            return Err(Error::StatusIndexOutOfBounds);
        }
        let status_list_id_full = status_list_string_from_id(&id);
        let (idk, mut record) = match self.records.remove_entry(&id) {
            Some(p) => p,
            None => {
                proof {
                    assert(false);
                }
                return Err(Error::StatusListNotFound);
            },
        };
        let byte_index: usize = (status_index as usize) / 8;
        let bit_index: u8 = (status_index % 8) as u8;
        let mask: u8 = 1u8 << bit_index;
        proof {
            assert(byte_index < record.bitmap@.len()) by (nonlinear_arith)
                requires
                    (status_index as int) < record.bitmap@.len() * 8,
                    byte_index == status_index as int / 8,
            ;
        }
        let b = record.bitmap[byte_index];
        let nb: u8 = if revoked {
            b | mask
        } else {
            b & !mask
        };
        record.bitmap[byte_index] = nb;
        record.version = if record.version == u64::MAX {
            record.version
        } else {
            record.version + 1
        };
        proof {
            assert(record@ =~= StatusListV {
                version: crate::did::sat_inc(docv.version),
                issuer_did: docv.issuer_did,
                list_nonce: docv.list_nonce,
                bitmap: docv.bitmap.update(
                    status_index as int / 8,
                    set_bit(docv.bitmap[status_index as int / 8], (status_index % 8) as u8, revoked),
                ),
            });
        }
        self.records.insert_new(idk, record);
        proof {
            assert(self@ =~= old(self)@.insert(idv, self@[idv]));
            assert forall|k: Seq<u8>| #[trigger] self@.contains_key(k) implies self@[k].list_nonce.len() >= MIN_LIST_NONCE_BYTES by {
                if k != idv {
                    assert(old(self)@.contains_key(k));
                    assert(self@[k] == old(self)@[k]);
                }
            }
        }
        Ok(Event::StatusUpdated { status_list_id: status_list_id_full, status_index, revoked })
    }

    /// Reads the list a textual or raw-base58 id names.
    pub fn get_status_list(&self, status_list_id: Vec<u8>) -> (r: Result<StatusList, Error>)
        requires
            self.wf(),
        ensures
            parse_id(status_list_id@, spec_status_list_prefix()) is None ==> (r matches Err(e)
                && e == Error::InvalidStatusListId),
            ({
                let id = match parse_id(status_list_id@, spec_status_list_prefix()) {
                    Some(b) => b,
                    None => Seq::empty(),
                };
                &&& (parse_id(status_list_id@, spec_status_list_prefix()) is Some
                    && !self@.contains_key(id) ==> (r matches Err(e) && e
                    == Error::StatusListNotFound))
                &&& (parse_id(status_list_id@, spec_status_list_prefix()) is Some
                    && self@.contains_key(id) ==> (r matches Ok(d) && d@ == self@[id]))
            }),
    {
        let id = match decode_status_list_id(&status_list_id) {
            Ok(v) => v,
            Err(e) => {
                return Err(e);
            },
        };
        match self.records.get(&id) {
            Some(d) => Ok(d.duplicate()),
            None => Err(Error::StatusListNotFound),
        }
    }
}

} // verus!

//! The schema registry: credential schemas content-addressed by their JSON
//! bytes, registered by an issuer DID and deprecated only by the same issuer.

use vstd::prelude::*;

use crate::codec::{
    base58_of, blake2b256, blake2b256_of, compute_id, decode_textual_id, derive_id,
    encode_textual_id, parse_id,
};
use crate::did::sat_inc;
use crate::store::Store;
use crate::types::{bytes_eq, clone_bytes, SchemaRecord, SchemaRecordV};
use crate::ChainContext;

verus! {

/// Why a schema command was rejected.
#[derive(Clone, Copy, PartialEq, Eq, Debug)]
pub enum Error {
    SchemaAlreadyExists,
    SchemaNotFound,
    SchemaDeprecated,
    InvalidSchemaId,
    IssuerMismatch,
}

/// What a successful schema command reports.
#[derive(Debug)]
pub enum Event {
    SchemaRegistered { schema_id: Vec<u8>, issuer_did: Vec<u8> },
    SchemaDeprecated { schema_id: Vec<u8>, issuer_did: Vec<u8> },
}

/// `"did:qsb:schema:"` as bytes.
pub open spec fn spec_schema_prefix() -> Seq<u8> {
    seq![100u8, 105u8, 100u8, 58u8, 113u8, 115u8, 98u8, 58u8, 115u8, 99u8, 104u8, 101u8, 109u8, 97u8, 58u8]
}

pub fn schema_prefix() -> (r: Vec<u8>)
    ensures
        r@ == spec_schema_prefix(),
{
    let a: [u8; 15] = [100u8, 105u8, 100u8, 58u8, 113u8, 115u8, 98u8, 58u8, 115u8, 99u8, 104u8, 101u8, 109u8, 97u8, 58u8];
    let mut v: Vec<u8> = Vec::new();
    v.extend_from_slice(a.as_slice());
    proof {
        assert(v@ =~= spec_schema_prefix());
    }
    v
}

/// `"QSB_SCHEMA"` as bytes.
pub open spec fn spec_schema_material_prefix() -> Seq<u8> {
    seq![81u8, 83u8, 66u8, 95u8, 83u8, 67u8, 72u8, 69u8, 77u8, 65u8]
}

pub fn schema_material_prefix() -> (r: Vec<u8>)
    ensures
        r@ == spec_schema_material_prefix(),
{
    let a: [u8; 10] = [81u8, 83u8, 66u8, 95u8, 83u8, 67u8, 72u8, 69u8, 77u8, 65u8];
    let mut v: Vec<u8> = Vec::new();
    v.extend_from_slice(a.as_slice());
    proof {
        assert(v@ =~= spec_schema_material_prefix());
    }
    v
}

/// Decodes a schema id from its textual or raw-base58 wire form.
pub fn decode_schema_id(input: &Vec<u8>) -> (r: Result<Vec<u8>, Error>)
    ensures
        parse_id(input@, spec_schema_prefix()) matches Some(b) ==> (r matches Ok(v) && v@ == b
            && v@.len() == 32),
        parse_id(input@, spec_schema_prefix()) is None ==> (r matches Err(e) && e
            == Error::InvalidSchemaId),
{
    let p = schema_prefix();
    match decode_textual_id(&p, input) {
        Some(v) => Ok(v),
        None => Err(Error::InvalidSchemaId),
    }
}

/// Textual form of a schema id; decoding it yields the id back.
pub fn schema_string_from_schema_id(schema_id: &Vec<u8>) -> (r: Vec<u8>)
    requires
        schema_id@.len() == 32,
    ensures
        r@ == spec_schema_prefix() + base58_of(schema_id@),
        parse_id(r@, spec_schema_prefix()) == Some(schema_id@),
{
    let p = schema_prefix();
    encode_textual_id(&p, schema_id)
}

/// The id a schema's JSON bytes derive on this chain: the same bytes always
/// address the same record (content addressing).
pub fn schema_id_from_schema(ctx: &ChainContext, schema_json: &Vec<u8>) -> (r: Vec<u8>)
    ensures
        r@ == derive_id(spec_schema_material_prefix(), ctx.genesis_hash@, schema_json@),
        r@.len() == 32,
{
    let m = schema_material_prefix();
    compute_id(&m, &ctx.genesis_hash, schema_json)
}

/// Content addressing: the id a schema registers under is a function of the
/// chain's genesis hash and the schema bytes alone, so byte-identical JSON on
/// the same chain always addresses the same record.
pub proof fn lemma_schema_id_content_addressed(g: Seq<u8>, j1: Seq<u8>, j2: Seq<u8>)
    requires
        j1 == j2,
    ensures
        derive_id(spec_schema_material_prefix(), g, j1) == derive_id(
            spec_schema_material_prefix(),
            g,
            j2,
        ),
{
}

/// The schema half of the registry state.
pub struct SchemaRegistry {
    records: Store<SchemaRecord>,
}

impl View for SchemaRegistry {
    type V = Map<Seq<u8>, SchemaRecordV>;

    closed spec fn view(&self) -> Map<Seq<u8>, SchemaRecordV> {
        self.records@
    }
}

impl SchemaRegistry {
    pub closed spec fn store_wf(&self) -> bool {
        self.records.wf()
    }

    /// Every stored record carries a 32-byte content hash.
    pub open spec fn wf(&self) -> bool {
        &&& self.store_wf()
        &&& forall|k: Seq<u8>| #[trigger] self@.contains_key(k) ==> self@[k].schema_hash.len()
            == 32
    }

    pub fn new() -> (r: SchemaRegistry)
        ensures
            r.wf(),
            r@ == Map::<Seq<u8>, SchemaRecordV>::empty(),
    {
        let r = SchemaRegistry { records: Store::new() };
        proof {
            assert(forall|k: Seq<u8>| !r@.contains_key(k));
        }
        r
    }

    /// Registers a schema under the id its bytes derive; the record keeps the
    /// bare content hash of the JSON, distinct from the id.
    pub fn register_schema(
        &mut self,
        ctx: &ChainContext,
        schema_json: Vec<u8>,
        schema_uri: Vec<u8>,
        issuer_did: Vec<u8>,
        _did_signature: Vec<u8>,
    ) -> (r: Result<Event, Error>)
        requires
            old(self).wf(),
        ensures
            final(self).wf(),
            ({
                let id = derive_id(spec_schema_material_prefix(), ctx.genesis_hash@, schema_json@);
                &&& (old(self)@.contains_key(id) ==> (r matches Err(e) && e
                    == Error::SchemaAlreadyExists) && final(self)@ == old(self)@)
                &&& (!old(self)@.contains_key(id) ==> (r matches Ok(e)
                    && e matches Event::SchemaRegistered { schema_id, issuer_did: eissuer }
                    && schema_id@ == spec_schema_prefix() + base58_of(id) && eissuer@
                    == issuer_did@ && final(self)@ == old(self)@.insert(
                    id,
                    SchemaRecordV {
                        version: 0,
                        deprecated: false,
                        issuer_did: issuer_did@,
                        schema_hash: blake2b256_of(schema_json@),
                        schema_uri: schema_uri@,
                    },
                )))
            }),
    {
        let id = schema_id_from_schema(ctx, &schema_json);
        if self.records.contains(&id) {
            return Err(Error::SchemaAlreadyExists);
        }
        let schema_hash = blake2b256(&schema_json);
        let record = SchemaRecord {
            version: 0,
            deprecated: false,
            issuer_did,
            schema_hash,
            schema_uri,
        };
        let ghost idv = id@;
        let ghost recv = record@;
        let schema_id_full = schema_string_from_schema_id(&id);
        let eissuer = clone_bytes(&record.issuer_did);
        self.records.insert_new(id, record);
        proof {
            assert(self@ =~= old(self)@.insert(idv, recv));
            assert forall|k: Seq<u8>| #[trigger] self@.contains_key(k) implies self@[k].schema_hash.len() == 32 by {
                if k != idv {
                    assert(old(self)@.contains_key(k));
                    assert(self@[k] == old(self)@[k]);
                }
            }
        }
        Ok(Event::SchemaRegistered { schema_id: schema_id_full, issuer_did: eissuer })
    }

    /// Deprecates a schema: only once, and only by its registering issuer.
    pub fn deprecate_schema(
        &mut self,
        schema_id: Vec<u8>,
        issuer_did: Vec<u8>,
        _did_signature: Vec<u8>,
    ) -> (r: Result<Event, Error>)
        requires
            old(self).wf(),
        ensures
            final(self).wf(),
            ({
                let pid = parse_id(schema_id@, spec_schema_prefix());
                let id = match pid {
                    Some(b) => b,
                    None => Seq::empty(),
                };
                let doc = old(self)@[id];
                &&& (pid is None ==> (r matches Err(e) && e == Error::InvalidSchemaId))
                &&& (pid is Some && !old(self)@.contains_key(id) ==> (r matches Err(e) && e
                    == Error::SchemaNotFound))
                &&& (pid is Some && old(self)@.contains_key(id) && doc.deprecated ==> (r matches
                Err(e) && e == Error::SchemaDeprecated))
                &&& (pid is Some && old(self)@.contains_key(id) && !doc.deprecated
                    && doc.issuer_did != issuer_did@ ==> (r matches Err(e) && e
                    == Error::IssuerMismatch))
                &&& (pid is Some && old(self)@.contains_key(id) && !doc.deprecated
                    && doc.issuer_did == issuer_did@ ==> (r matches Ok(e)
                    && e matches Event::SchemaDeprecated { schema_id: esid, issuer_did: eissuer }
                    && esid@ == spec_schema_prefix() + base58_of(id) && eissuer@ == issuer_did@
                    && final(self)@ == old(self)@.insert(
                    id,
                    SchemaRecordV {
                        version: sat_inc(doc.version),
                        deprecated: true,
                        issuer_did: doc.issuer_did,
                        schema_hash: doc.schema_hash,
                        schema_uri: doc.schema_uri,
                    },
                )))
                &&& (r is Err ==> final(self)@ == old(self)@)
            }),
    {
        let id = match decode_schema_id(&schema_id) {
            Ok(v) => v,
            Err(e) => {
                return Err(e);
            },
        };
        let ghost idv = id@;
        let ghost docv = self@[idv];
        let deprecated: bool;
        let mismatch: bool;
        {
            let doc = match self.records.get(&id) {
                Some(d) => d,
                None => {
                    return Err(Error::SchemaNotFound);
                },
            };
            deprecated = doc.deprecated;
            mismatch = !bytes_eq(&doc.issuer_did, &issuer_did);
        }
        if deprecated {
            return Err(Error::SchemaDeprecated);
        }
        if mismatch {
            return Err(Error::IssuerMismatch);
        }
        let schema_id_full = schema_string_from_schema_id(&id);
        let (idk, mut record) = match self.records.remove_entry(&id) {
            Some(p) => p,
            None => {
                proof {
                    assert(false);
                }
                return Err(Error::SchemaNotFound);
            },
        };
        record.deprecated = true;
        record.version = if record.version == u64::MAX {
            record.version
        } else {
            record.version + 1
        };
        proof {
            assert(record@ =~= SchemaRecordV {
                version: sat_inc(docv.version),
                deprecated: true,
                issuer_did: docv.issuer_did,
                schema_hash: docv.schema_hash,
                schema_uri: docv.schema_uri,
            });
        }
        self.records.insert_new(idk, record);
        proof {
            assert(self@ =~= old(self)@.insert(idv, self@[idv]));
            assert forall|k: Seq<u8>| #[trigger] self@.contains_key(k) implies self@[k].schema_hash.len() == 32 by {
                if k != idv {
                    assert(old(self)@.contains_key(k));
                    assert(self@[k] == old(self)@[k]);
                }
            }
        }
        Ok(Event::SchemaDeprecated { schema_id: schema_id_full, issuer_did })
    }

    /// Reads the record a textual or raw-base58 id names.
    pub fn get_schema(&self, schema_id: Vec<u8>) -> (r: Result<SchemaRecord, Error>)
        requires
            self.wf(),
        ensures
            parse_id(schema_id@, spec_schema_prefix()) is None ==> (r matches Err(e) && e
                == Error::InvalidSchemaId),
            ({
                let id = match parse_id(schema_id@, spec_schema_prefix()) {
                    Some(b) => b,
                    None => Seq::empty(),
                };
                &&& (parse_id(schema_id@, spec_schema_prefix()) is Some && !self@.contains_key(id)
                    ==> (r matches Err(e) && e == Error::SchemaNotFound))
                &&& (parse_id(schema_id@, spec_schema_prefix()) is Some && self@.contains_key(id)
                    ==> (r matches Ok(d) && d@ == self@[id]))
            }),
    {
        let id = match decode_schema_id(&schema_id) {
            Ok(v) => v,
            Err(e) => {
                return Err(e);
            },
        };
        match self.records.get(&id) {
            Some(d) => Ok(d.duplicate()),
            None => Err(Error::SchemaNotFound),
        }
    }
}

} // verus!

//! The read API surface: a node-facing handle that resolves DID strings
//! against a registry snapshot, the way the host's RPC gateway serves
//! `did_getByString`. Malformed or unknown ids resolve to nothing.

use vstd::prelude::*;

use crate::codec::parse_id;
use crate::did::{spec_did_prefix, DidRegistry};
use crate::types::{DidDetails, DidDetailsV};

verus! {

pub struct DidRpc {
    registry: DidRegistry,
}

impl View for DidRpc {
    type V = Map<Seq<u8>, DidDetailsV>;

    closed spec fn view(&self) -> Map<Seq<u8>, DidDetailsV> {
        self.registry@
    }
}

impl DidRpc {
    pub closed spec fn wf(&self) -> bool {
        self.registry.wf()
    }

    /// Takes the snapshot this handle answers from.
    pub fn new(client: DidRegistry) -> (r: DidRpc)
        requires
            client.wf(),
        ensures
            r.wf(),
            r@ == client@,
    {
        DidRpc { registry: client }
    }

    /// Resolves a textual or raw-base58 DID to its stored document.
    pub fn did_by_string(&self, did: Vec<u8>) -> (r: Option<DidDetails>)
        requires
            self.wf(),
        ensures
            parse_id(did@, spec_did_prefix()) is None ==> r is None,
            ({
                let id = match parse_id(did@, spec_did_prefix()) {
                    Some(b) => b,
                    None => Seq::empty(),
                };
                &&& (parse_id(did@, spec_did_prefix()) is Some && !self@.contains_key(id) ==> r
                    is None)
                &&& (parse_id(did@, spec_did_prefix()) is Some && self@.contains_key(id) ==> (
                r matches Some(d) && d@ == self@[id]))
            }),
    {
        match self.registry.get_did(did) {
            Ok(d) => Some(d),
            Err(_) => None,
        }
    }
}

} // verus!

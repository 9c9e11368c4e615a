//! A decentralized-identity (DID) state engine: an authoritative registry of
//! self-sovereign identifiers, their ML-DSA-44 key sets, services and metadata,
//! together with issuer-owned revocation bitmaps and a content-addressed
//! credential-schema registry. Every state change is a deterministic
//! transition `(state, signed command) -> (state', event | error)`.

pub mod codec;
pub mod crypto;
pub mod did;
pub mod rpc;
pub mod scale;
pub mod schema;
pub mod status_list;
pub mod store;
pub mod types;

use vstd::prelude::*;

verus! {

/// The chain instance the engine runs on: identifiers mix the genesis block
/// hash into their derivation so the same material yields different ids on
/// different chains.
pub struct ChainContext {
    pub genesis_hash: Vec<u8>,
}

impl ChainContext {
    /// The genesis discriminator is a 32-byte block hash.
    pub open spec fn wf(&self) -> bool {
        self.genesis_hash@.len() == 32
    }

    pub fn new(genesis_hash: Vec<u8>) -> (r: Option<ChainContext>)
        ensures
            genesis_hash@.len() == 32 ==> (r matches Some(c) && c.genesis_hash@ == genesis_hash@
                && c.wf()),
            genesis_hash@.len() != 32 ==> r is None,
    {
        if genesis_hash.len() == 32 {
            Some(ChainContext { genesis_hash })
        } else {
            None
        }
    }
}

} // verus!

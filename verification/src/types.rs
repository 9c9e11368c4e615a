//! Record structures of the registry state: DID documents with their key
//! sets, services and metadata, revocation status lists, and schema records.

use vstd::prelude::*;

verus! {

/// Role a key plays inside a DID document. Stored, but not yet used to
/// restrict which commands a key may authorize.
#[derive(Clone, Copy, PartialEq, Eq, Debug)]
pub enum KeyRole {
    Authentication,
    AssertionMethod,
    KeyAgreement,
    CapabilityInvocation,
    CapabilityDelegation,
}

#[derive(Debug)]
pub struct DidKey {
    pub public_key: Vec<u8>,
    pub roles: Vec<KeyRole>,
    pub revoked: bool,
}

#[verifier::ext_equal]
pub struct DidKeyV {
    pub public_key: Seq<u8>,
    pub roles: Seq<KeyRole>,
    pub revoked: bool,
}

impl View for DidKey {
    type V = DidKeyV;

    open spec fn view(&self) -> DidKeyV {
        DidKeyV { public_key: self.public_key@, roles: self.roles@, revoked: self.revoked }
    }
}

#[derive(Debug)]
pub struct ServiceEndpoint {
    pub id: Vec<u8>,
    pub service_type: Vec<u8>,
    pub endpoint: Vec<u8>,
}

#[verifier::ext_equal]
pub struct ServiceEndpointV {
    pub id: Seq<u8>,
    pub service_type: Seq<u8>,
    pub endpoint: Seq<u8>,
}

impl View for ServiceEndpoint {
    type V = ServiceEndpointV;

    open spec fn view(&self) -> ServiceEndpointV {
        ServiceEndpointV { id: self.id@, service_type: self.service_type@, endpoint: self.endpoint@ }
    }
}

#[derive(Debug)]
pub struct MetadataEntry {
    pub key: Vec<u8>,
    pub value: Vec<u8>,
}

#[verifier::ext_equal]
pub struct MetadataEntryV {
    pub key: Seq<u8>,
    pub value: Seq<u8>,
}

impl View for MetadataEntry {
    type V = MetadataEntryV;

    open spec fn view(&self) -> MetadataEntryV {
        MetadataEntryV { key: self.key@, value: self.value@ }
    }
}

#[derive(Debug)]
pub struct DidDetails {
    pub version: u64,
    pub deactivated: bool,
    pub keys: Vec<DidKey>,
    pub services: Vec<ServiceEndpoint>,
    pub metadata: Vec<MetadataEntry>,
}

#[verifier::ext_equal]
pub struct DidDetailsV {
    pub version: u64,
    pub deactivated: bool,
    pub keys: Seq<DidKeyV>,
    pub services: Seq<ServiceEndpointV>,
    pub metadata: Seq<MetadataEntryV>,
}

pub open spec fn keys_view(s: Seq<DidKey>) -> Seq<DidKeyV> {
    Seq::new(s.len(), |i: int| s[i]@)
}

pub open spec fn services_view(s: Seq<ServiceEndpoint>) -> Seq<ServiceEndpointV> {
    Seq::new(s.len(), |i: int| s[i]@)
}

pub open spec fn metadata_view(s: Seq<MetadataEntry>) -> Seq<MetadataEntryV> {
    Seq::new(s.len(), |i: int| s[i]@)
}

impl View for DidDetails {
    type V = DidDetailsV;

    open spec fn view(&self) -> DidDetailsV {
        DidDetailsV {
            version: self.version,
            deactivated: self.deactivated,
            keys: keys_view(self.keys@),
            services: services_view(self.services@),
            metadata: metadata_view(self.metadata@),
        }
    }
}

/// No two keys of a document share a `public_key`, revoked keys included.
pub open spec fn keys_unique(keys: Seq<DidKeyV>) -> bool {
    forall|i: int, j: int|
        0 <= i < j < keys.len() ==> keys[i].public_key != keys[j].public_key
}

/// Service endpoints are unique by `id`.
pub open spec fn services_unique(services: Seq<ServiceEndpointV>) -> bool {
    forall|i: int, j: int| 0 <= i < j < services.len() ==> services[i].id != services[j].id
}

/// Metadata entries act as a map: unique by `key`.
pub open spec fn metadata_unique(metadata: Seq<MetadataEntryV>) -> bool {
    forall|i: int, j: int| 0 <= i < j < metadata.len() ==> metadata[i].key != metadata[j].key
}

impl DidDetailsV {
    /// Structural invariant of every stored DID document.
    pub open spec fn wf(&self) -> bool {
        &&& self.keys.len() >= 1
        &&& keys_unique(self.keys)
        &&& services_unique(self.services)
        &&& metadata_unique(self.metadata)
    }
}

#[derive(Debug)]
pub struct StatusList {
    pub version: u64,
    pub issuer_did: Vec<u8>,
    pub list_nonce: Vec<u8>,
    pub bitmap: Vec<u8>,
}

#[verifier::ext_equal]
pub struct StatusListV {
    pub version: u64,
    pub issuer_did: Seq<u8>,
    pub list_nonce: Seq<u8>,
    pub bitmap: Seq<u8>,
}

impl View for StatusList {
    type V = StatusListV;

    open spec fn view(&self) -> StatusListV {
        StatusListV {
            version: self.version,
            issuer_did: self.issuer_did@,
            list_nonce: self.list_nonce@,
            bitmap: self.bitmap@,
        }
    }
}

#[derive(Debug)]
pub struct SchemaRecord {
    pub version: u64,
    pub deprecated: bool,
    pub issuer_did: Vec<u8>,
    pub schema_hash: Vec<u8>,
    pub schema_uri: Vec<u8>,
}

#[verifier::ext_equal]
pub struct SchemaRecordV {
    pub version: u64,
    pub deprecated: bool,
    pub issuer_did: Seq<u8>,
    pub schema_hash: Seq<u8>,
    pub schema_uri: Seq<u8>,
}

impl View for SchemaRecord {
    type V = SchemaRecordV;

    open spec fn view(&self) -> SchemaRecordV {
        SchemaRecordV {
            version: self.version,
            deprecated: self.deprecated,
            issuer_did: self.issuer_did@,
            schema_hash: self.schema_hash@,
            schema_uri: self.schema_uri@,
        }
    }
}

/// Whether two byte vectors hold the same bytes.
pub fn bytes_eq(a: &Vec<u8>, b: &Vec<u8>) -> (r: bool)
    ensures
        r == (a@ == b@),
{
    if a.len() != b.len() {
        return false;
    }
    let mut i: usize = 0;
    while i < a.len()
        invariant
            i <= a.len(),
            a@.len() == b@.len(),
            forall|k: int| 0 <= k < i ==> a@[k] == b@[k],
        decreases a.len() - i,
    {
        if a[i] != b[i] {
            return false;
        }
        i = i + 1;
    }
    proof {
        assert(a@ =~= b@);
    }
    true
}

/// Copies a byte vector; `Vec`'s own `clone` keeps the bytes, proved here once.
pub fn clone_bytes(v: &Vec<u8>) -> (r: Vec<u8>)
    ensures
        r@ == v@,
{
    let r = v.clone();
    proof {
        assert forall|i: int| 0 <= i < v@.len() implies r@[i] == v@[i] by {
            assert(cloned::<u8>(v@[i], r@[i]));
        }
        assert(r@ =~= v@);
    }
    r
}

/// Copies a vector of `Copy` elements.
pub fn copy_elems<T: Copy>(v: &Vec<T>) -> (r: Vec<T>)
    ensures
        r@ == v@,
{
    let mut r: Vec<T> = Vec::new();
    let mut i: usize = 0;
    while i < v.len()
        invariant
            i <= v.len(),
            r@ == v@.subrange(0, i as int),
        decreases v.len() - i,
    {
        r.push(v[i]);
        proof {
            assert(r@ =~= v@.subrange(0, i + 1));
        }
        i = i + 1;
    }
    proof {
        assert(v@.subrange(0, v@.len() as int) =~= v@);
    }
    r
}

impl DidKey {
    pub fn duplicate(&self) -> (r: DidKey)
        ensures
            r@ == self@,
    {
        DidKey {
            public_key: clone_bytes(&self.public_key),
            roles: copy_elems(&self.roles),
            revoked: self.revoked,
        }
    }
}

impl ServiceEndpoint {
    pub fn duplicate(&self) -> (r: ServiceEndpoint)
        ensures
            r@ == self@,
    {
        ServiceEndpoint {
            id: clone_bytes(&self.id),
            service_type: clone_bytes(&self.service_type),
            endpoint: clone_bytes(&self.endpoint),
        }
    }
}

impl MetadataEntry {
    pub fn duplicate(&self) -> (r: MetadataEntry)
        ensures
            r@ == self@,
    {
        MetadataEntry { key: clone_bytes(&self.key), value: clone_bytes(&self.value) }
    }
}

impl DidDetails {
    pub fn duplicate(&self) -> (r: DidDetails)
        ensures
            r@ == self@,
    {
        let mut keys: Vec<DidKey> = Vec::new();
        let mut i: usize = 0;
        while i < self.keys.len()
            invariant
                i <= self.keys.len(),
                keys@.len() == i,
                forall|m: int| 0 <= m < i ==> #[trigger] keys@[m]@ == self.keys@[m]@,
            decreases self.keys.len() - i,
        {
            keys.push(self.keys[i].duplicate());
            i = i + 1;
        }
        let mut services: Vec<ServiceEndpoint> = Vec::new();
        let mut j: usize = 0;
        while j < self.services.len()
            invariant
                j <= self.services.len(),
                services@.len() == j,
                forall|m: int| 0 <= m < j ==> #[trigger] services@[m]@ == self.services@[m]@,
            decreases self.services.len() - j,
        {
            services.push(self.services[j].duplicate());
            j = j + 1;
        }
        let mut metadata: Vec<MetadataEntry> = Vec::new();
        let mut k: usize = 0;
        while k < self.metadata.len()
            invariant
                k <= self.metadata.len(),
                metadata@.len() == k,
                forall|m: int| 0 <= m < k ==> #[trigger] metadata@[m]@ == self.metadata@[m]@,
            decreases self.metadata.len() - k,
        {
            metadata.push(self.metadata[k].duplicate());
            k = k + 1;
        }
        let r = DidDetails {
            version: self.version,
            deactivated: self.deactivated,
            keys,
            services,
            metadata,
        };
        proof {
            assert(keys_view(r.keys@) =~= keys_view(self.keys@));
            assert(services_view(r.services@) =~= services_view(self.services@));
            assert(metadata_view(r.metadata@) =~= metadata_view(self.metadata@));
            assert(r@ =~= self@);
        }
        r
    }
}

impl StatusList {
    pub fn duplicate(&self) -> (r: StatusList)
        ensures
            r@ == self@,
    {
        StatusList {
            version: self.version,
            issuer_did: clone_bytes(&self.issuer_did),
            list_nonce: clone_bytes(&self.list_nonce),
            bitmap: clone_bytes(&self.bitmap),
        }
    }
}

impl SchemaRecord {
    pub fn duplicate(&self) -> (r: SchemaRecord)
        ensures
            r@ == self@,
    {
        SchemaRecord {
            version: self.version,
            deprecated: self.deprecated,
            issuer_did: clone_bytes(&self.issuer_did),
            schema_hash: clone_bytes(&self.schema_hash),
            schema_uri: clone_bytes(&self.schema_uri),
        }
    }
}

} // verus!

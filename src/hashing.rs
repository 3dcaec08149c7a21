//! Hashes used to name services and clients.

use vstd::prelude::*;
use vstd::string::StringSliceAdditionalSpecFns;

verus! {

/// Offset basis of 32-bit FNV-1a.
pub const FNV1A_INIT: u32 = 0x811c9dc5;

/// Prime of 32-bit FNV-1a.
pub const FNV1A_PRIME: u32 = 0x01000193;

/// 32-bit FNV-1a of a byte sequence: xor each byte into the state, then
/// multiply by the prime modulo 2^32.
pub open spec fn fnv1a(data: Seq<u8>) -> u32
    decreases data.len(),
{
    if data.len() == 0 {
        FNV1A_INIT
    } else {
        (fnv1a(data.drop_last()) ^ (data.last() as u32)).wrapping_mul(FNV1A_PRIME)
    }
}

/// Hashes the provided bytes with FNV-1a (32-bit variant).
pub fn fnv_hash_bytes(data: &[u8]) -> (hash: u32)
    ensures
        hash == fnv1a(data@),
{
    let mut hash: u32 = FNV1A_INIT;
    let mut i: usize = 0;
    while i < data.len()
        invariant
            i <= data@.len(),
            hash == fnv1a(data@.subrange(0, i as int)),
        decreases data@.len() - i,
    {
        proof {
            let next = data@.subrange(0, i + 1);
            assert(next.drop_last() =~= data@.subrange(0, i as int));
        }
        hash = hash ^ (data[i] as u32);
        hash = hash.wrapping_mul(FNV1A_PRIME);
        i = i + 1;
    }
    assert(data@.subrange(0, data@.len() as int) =~= data@);
    hash
}


/// Unique representation value of a specific service: the FNV-1a hash of
/// its fully qualified name.
#[derive(Debug, Clone, Copy, PartialEq, Eq, Structural, Hash)]
pub struct ServiceHash(pub u32);

impl ServiceHash {
    /// Creates a new hash value from the provided service name.
    pub fn from_name(name: &str) -> (r: ServiceHash)
        ensures
            r.0 == fnv1a(name.spec_bytes()),
    {
        ServiceHash(fnv_hash_bytes(name.as_bytes()))
    }

    /// Converts the hash into an unsigned integer value.
    pub fn as_uint(self) -> (r: u32)
        ensures
            r == self.0,
    {
        self.0
    }
}

/// The digest that std's default hasher, built with fixed keys by
/// `BuildHasherDefault<DefaultHasher>`, gives of a byte slice.
pub uninterp spec fn default_digest(data: Seq<u8>) -> u64;

/// Relies on std's `BuildHasher::hash_one` over
/// `BuildHasherDefault<DefaultHasher>`: every hasher that builder makes
/// starts from the same fixed keys (std documents that all `DefaultHasher`
/// instances made by `new` or `default` are the same), so the digest
/// depends on the bytes alone.
#[verifier::external_body]
fn default_hash_of(data: &[u8]) -> (r: u64)
    ensures
        r == default_digest(data@),
{
    std::hash::BuildHasher::hash_one(
        &std::hash::BuildHasherDefault::<std::collections::hash_map::DefaultHasher>::default(),
        data,
    )
}

/// Retrieves a collision resistant 64-bit hash of the provided bytes.
pub fn hash_item(data: &[u8]) -> (r: u64)
    ensures
        r == default_digest(data@),
{
    default_hash_of(data)
}

/// Network endpoint of a peer, as plain values: the address octets (4 for
/// IPv4, 16 for IPv6) and the port.
#[derive(Debug, Clone, PartialEq, Eq, Hash)]
pub struct PeerAddress {
    pub octets: Vec<u8>,
    pub port: u16,
}

impl PeerAddress {
    /// Bytes that identify the endpoint: the octets followed by the port,
    /// big-endian.
    pub open spec fn spec_bytes(&self) -> Seq<u8> {
        self.octets@ + seq![(self.port / 256) as u8, (self.port % 256) as u8]
    }

    /// Serialises the endpoint as `spec_bytes` describes.
    pub fn to_bytes(&self) -> (r: Vec<u8>)
        ensures
            r@ == self.spec_bytes(),
    {
        let mut r: Vec<u8> = Vec::new();
        let mut i: usize = 0;
        while i < self.octets.len()
            invariant
                i <= self.octets@.len(),
                r@ == self.octets@.subrange(0, i as int),
            decreases self.octets@.len() - i,
        {
            r.push(self.octets[i]);
            i = i + 1;
            assert(r@ =~= self.octets@.subrange(0, i as int));
        }
        r.push((self.port / 256) as u8);
        r.push((self.port % 256) as u8);
        assert(r@ =~= self.spec_bytes());
        r
    }
}

/// Unique identifier for a connected client, derived from its address.
#[derive(Debug, Clone, Copy, PartialEq, Eq, Structural, Hash)]
pub struct ClientHash(pub u64);

impl ClientHash {
    /// Creates a new identifier from the provided peer address.
    pub fn from_socket_address(address: &PeerAddress) -> (r: ClientHash)
        ensures
            r.0 == default_digest(address.spec_bytes()),
    {
        let bytes = address.to_bytes();
        ClientHash(hash_item(bytes.as_slice()))
    }

    /// Converts the hash value into an unsigned integer.
    pub fn as_uint(self) -> (r: u64)
        ensures
            r == self.0,
    {
        self.0
    }
}

} // verus!

//! Digests and key identifiers.
//!
//! A [`Hash`] is a 32-byte SHA-256 digest and a [`PublicKey`] is the 32-byte
//! identifier of a signer.  Both are plain byte arrays to the ledger: it
//! compares them and stores them, and computes digests with [`hash`].

use vstd::prelude::*;
use vstd::std_specs::cmp::PartialEqSpecImpl;

verus! {

/// The SHA-256 digest of `data`.
///
/// The ledger never looks inside the function: all it relies on is that equal
/// inputs give equal digests.
pub uninterp spec fn sha256(data: Seq<u8>) -> Seq<u8>;

/// Byte-wise comparison of two 32-byte arrays.
fn same_bytes(a: &[u8; 32], b: &[u8; 32]) -> (r: bool)
    ensures
        r == (a@ == b@),
{
    let mut i: usize = 0;
    while i < 32
        invariant
            i <= 32,
            forall|j: int| 0 <= j < i ==> a@[j] == b@[j],
        decreases 32 - i,
    {
        if a[i] != b[i] {
            return false;
        }
        i += 1;
    }
    assert(a@ =~= b@);
    true
}

/// A SHA-256 digest.
#[derive(Clone, Copy, Debug, Eq)]
pub struct Hash {
    bytes: [u8; 32],
}

impl View for Hash {
    type V = Seq<u8>;

    closed spec fn view(&self) -> Seq<u8> {
        self.bytes@
    }
}

impl Hash {
    /// Wraps 32 bytes as a digest.
    pub fn new(bytes: [u8; 32]) -> (r: Hash)
        ensures
            r@ == bytes@,
    {
        Hash { bytes }
    }

    /// The digest made of zero bytes only.
    pub fn zero() -> (r: Hash)
        ensures
            r@ == Seq::new(32, |i: int| 0u8),
    {
        let r = Hash { bytes: [0u8; 32] };
        assert(r@ =~= Seq::new(32, |i: int| 0u8));
        r
    }

    /// The bytes of the digest.
    pub fn to_bytes(&self) -> (r: [u8; 32])
        ensures
            r@ == self@,
    {
        self.bytes
    }

    /// Every digest has exactly 32 bytes, and two digests with the same bytes
    /// are the same digest.
    pub proof fn lemma_view(self, other: Hash)
        ensures
            self@.len() == 32,
            self@ == other@ <==> self == other,
    {
        if self@ == other@ {
            assert(self.bytes =~= other.bytes);
        }
    }
}

impl PartialEq for Hash {
    fn eq(&self, other: &Hash) -> (r: bool) {
        same_bytes(&self.bytes, &other.bytes)
    }
}

impl PartialEqSpecImpl for Hash {
    open spec fn obeys_eq_spec() -> bool {
        true
    }

    open spec fn eq_spec(&self, other: &Hash) -> bool {
        self@ == other@
    }
}

/// The identifier of a signer: the 32 bytes of an Ed25519 public key.
#[derive(Clone, Copy, Debug, Eq)]
pub struct PublicKey {
    bytes: [u8; 32],
}

impl View for PublicKey {
    type V = Seq<u8>;

    closed spec fn view(&self) -> Seq<u8> {
        self.bytes@
    }
}

impl PublicKey {
    /// Wraps 32 bytes as a public key.
    pub fn new(bytes: [u8; 32]) -> (r: PublicKey)
        ensures
            r@ == bytes@,
    {
        PublicKey { bytes }
    }

    /// The bytes of the key.
    pub fn to_bytes(&self) -> (r: [u8; 32])
        ensures
            r@ == self@,
    {
        self.bytes
    }

    /// Every key has exactly 32 bytes, and two keys with the same bytes are
    /// the same key.
    pub proof fn lemma_view(self, other: PublicKey)
        ensures
            self@.len() == 32,
            self@ == other@ <==> self == other,
    {
        if self@ == other@ {
            assert(self.bytes =~= other.bytes);
        }
    }
}

impl PartialEq for PublicKey {
    fn eq(&self, other: &PublicKey) -> (r: bool) {
        same_bytes(&self.bytes, &other.bytes)
    }
}

impl PartialEqSpecImpl for PublicKey {
    open spec fn obeys_eq_spec() -> bool {
        true
    }

    open spec fn eq_spec(&self, other: &PublicKey) -> bool {
        self@ == other@
    }
}

/// SHA-256 as computed by `sha2::Sha256::digest`: the result is the digest of
/// exactly the bytes given, whatever their number.
#[verifier::external_body]
fn sha256_digest(data: &[u8]) -> (r: Hash)
    ensures
        r@ == sha256(data@),
{
    let digest = <sha2::Sha256 as sha2::Digest>::digest(data);
    Hash { bytes: digest.into() }
}

/// Computes the SHA-256 digest of `data`.
pub fn hash(data: &[u8]) -> (r: Hash)
    ensures
        r@ == sha256(data@),
{
    sha256_digest(data)
}

} // verus!

//! Content fingerprints of the compiled artifact, for staleness detection:
//! a cryptographic digest of the artifact bytes, the artifact path, its
//! last-modified time and the last-used target identifier. Two fingerprints
//! are equal only if all four fields match.

use vstd::prelude::*;
use vstd::std_specs::cmp::PartialEqSpec;

verus! {

/// The 32-byte digest that the hash function assigns to a byte sequence.
/// The result depends on the bytes alone.
pub uninterp spec fn blake2b256_of(data: Seq<u8>) -> Seq<u8>;

/// Relies on blake2's `Blake2b` with 32-byte output (through the `Digest`
/// trait): hashes the given bytes; the digest is a function of the bytes
/// alone and is 32 bytes long.
#[verifier::external_body]
fn blake2b256(data: &[u8]) -> (r: [u8; 32])
    ensures
        r@ == blake2b256_of(data@),
        r@.len() == 32,
{
    let mut hasher = <blake2::Blake2b<blake2::digest::consts::U32> as blake2::Digest>::new();
    <blake2::Blake2b<blake2::digest::consts::U32> as blake2::Digest>::update(&mut hasher, data);
    let out = <blake2::Blake2b<blake2::digest::consts::U32> as blake2::Digest>::finalize(hasher);
    out.into()
}

/// Returns the blake2 hash of the code slice.
pub fn code_hash(code: &[u8]) -> (r: [u8; 32])
    ensures
        r@ == blake2b256_of(code@),
{
    blake2b256(code)
}

/// Unique fingerprint for a compiled artifact to detect whether it has
/// changed.
#[derive(Debug, Clone)]
pub struct Fingerprint {
    /// Path of the artifact file.
    pub path: String,
    /// Digest of the artifact bytes.
    pub hash: [u8; 32],
    /// Last-modified time of the artifact, as nanoseconds since the epoch.
    pub modified: u128,
    /// The target identifier recorded in the sidecar file.
    pub target: String,
}

/// Mathematical model of a fingerprint.
#[verifier::ext_equal]
pub struct SpecFingerprint {
    pub path: Seq<char>,
    pub hash: Seq<u8>,
    pub modified: u128,
    pub target: Seq<char>,
}

impl View for Fingerprint {
    type V = SpecFingerprint;

    open spec fn view(&self) -> SpecFingerprint {
        SpecFingerprint {
            path: self.path@,
            hash: self.hash@,
            modified: self.modified,
            target: self.target@,
        }
    }
}

impl Fingerprint {
    /// Computes the fingerprint of an artifact from its path, bytes,
    /// modification time and recorded target identifier.
    pub fn compute(path: String, bytes: &[u8], modified: u128, target: String) -> (f: Fingerprint)
        ensures
            f@ == (SpecFingerprint {
                path: path@,
                hash: blake2b256_of(bytes@),
                modified,
                target: target@,
            }),
    {
        let hash = blake2b256(bytes);
        Fingerprint { path, hash, modified, target }
    }
}

/// Byte-wise equality of two 32-byte digests.
#[verifier::loop_isolation(false)]
fn hash_eq(a: &[u8; 32], b: &[u8; 32]) -> (r: bool)
    ensures
        r == (a@ == b@),
{
    let mut i: usize = 0;
    while i < 32
        invariant
            0 <= i <= 32,
            forall|k: int| 0 <= k < i ==> a@[k] == b@[k],
        decreases 32 - i,
    {
        if a[i] != b[i] {
            return false;
        }
        i = i + 1;
    }
    proof {
        assert(a@ =~= b@);
    }
    true
}

impl PartialEq for Fingerprint {
    /// Two fingerprints are equal only if all four fields match.
    fn eq(&self, other: &Fingerprint) -> (r: bool) {
        let mut r = self.path == other.path;
        r = r && hash_eq(&self.hash, &other.hash);
        r = r && self.modified == other.modified;
        r = r && self.target == other.target;
        r
    }
}

impl vstd::std_specs::cmp::PartialEqSpecImpl for Fingerprint {
    open spec fn obeys_eq_spec() -> bool {
        true
    }

    open spec fn eq_spec(&self, other: &Fingerprint) -> bool {
        self@ == other@
    }
}

impl Eq for Fingerprint {

}

/// Equality of fingerprints is exactly equality of all four fields:
/// path, content digest, modification time and target identifier.
pub proof fn lemma_fingerprint_eq_iff_fields(a: Fingerprint, b: Fingerprint)
    ensures
        a.eq_spec(&b) == (a@.path == b@.path && a@.hash == b@.hash && a@.modified == b@.modified
            && a@.target == b@.target),
{
    if a@.path == b@.path && a@.hash == b@.hash && a@.modified == b@.modified && a@.target
        == b@.target {
        assert(a@ =~= b@);
    }
}

} // verus!

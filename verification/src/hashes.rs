//! Digest computation.
//!
//! The solver treats the hash as a trusted external primitive behind the
//! [`HashFunction`] trait: a fixed digest length and a digest that is a
//! pure function of the input bytes. SHA-256 is the canonical choice; two
//! deterministic stand-in hash functions make searches with a known
//! outcome possible, for exercising the solver without cryptography.

use vstd::prelude::*;

verus! {

/// A hash function with a fixed output length whose digest depends on the
/// input bytes alone.
pub trait HashFunction {
    /// The byte length of every digest this function produces.
    spec fn out_len(&self) -> nat;

    /// The digest of `input`, as a mathematical function.
    spec fn hash_spec(&self, input: Seq<u8>) -> Seq<u8>;

    /// The digest length, as executable code.
    fn digest_len(&self) -> (n: usize)
        ensures
            n as nat == self.out_len(),
    ;

    /// Computes the digest of `input`.
    fn digest(&self, input: &[u8]) -> (r: Vec<u8>)
        ensures
            r@ == self.hash_spec(input@),
            r@.len() == self.out_len(),
    ;
}

/// The SHA-256 digest of a byte sequence.
pub uninterp spec fn sha256_of(input: Seq<u8>) -> Seq<u8>;

/// Relies on sha2::Sha256 through sha2::Digest::digest: the SHA-256 digest
/// of the input bytes, a pure function of the input, 32 bytes long.
#[verifier::external_body]
fn sha256_bytes(input: &[u8]) -> (r: Vec<u8>)
    ensures
        r@ == sha256_of(input@),
        r@.len() == 32,
{
    let digest = <sha2::Sha256 as sha2::Digest>::digest(input);
    digest.to_vec()
}

/// SHA-256, the canonical hash of the solver.
pub struct Sha256Hash {}

impl HashFunction for Sha256Hash {
    open spec fn out_len(&self) -> nat {
        32
    }

    open spec fn hash_spec(&self, input: Seq<u8>) -> Seq<u8> {
        sha256_of(input)
    }

    fn digest_len(&self) -> (n: usize) {
        32
    }

    fn digest(&self, input: &[u8]) -> (r: Vec<u8>) {
        sha256_bytes(input)
    }
}

/// A vector of 32 copies of one byte.
fn byte_repeat(b: u8) -> (r: Vec<u8>)
    ensures
        r@ == Seq::new(32, (|k: int| b)),
{
    let mut v: Vec<u8> = Vec::new();
    let mut i: usize = 0;
    while i < 32
        invariant
            0 <= i <= 32,
            v@.len() == i,
            forall|j: int| 0 <= j < i ==> v@[j] == b,
        decreases 32 - i,
    {
        v.push(b);
        i = i + 1;
    }
    proof {
        assert(v@ =~= Seq::new(32, (|k: int| b)));
    }
    v
}

/// A deterministic stand-in hash: every digest byte is the input length
/// modulo 256. The digest is zero exactly when the input length is a
/// multiple of 256.
pub struct LenHash {}

impl HashFunction for LenHash {
    open spec fn out_len(&self) -> nat {
        32
    }

    open spec fn hash_spec(&self, input: Seq<u8>) -> Seq<u8> {
        Seq::new(32, (|k: int| (input.len() % 256) as u8))
    }

    fn digest_len(&self) -> (n: usize) {
        32
    }

    fn digest(&self, input: &[u8]) -> (r: Vec<u8>) {
        let b: u8 = (input.len() % 256) as u8;
        byte_repeat(b)
    }
}

/// Whether `s` ends with the bytes of `mark`.
pub open spec fn ends_with(s: Seq<u8>, mark: Seq<u8>) -> bool {
    mark.len() <= s.len() && s.skip(s.len() - mark.len()) == mark
}

/// Decides whether `s` ends with the bytes of `mark`.
fn suffix_matches(s: &[u8], mark: &[u8]) -> (r: bool)
    ensures
        r == ends_with(s@, mark@),
{
    let sl = s.len();
    let ml = mark.len();
    if ml > sl {
        return false;
    }
    let off = sl - ml;
    let mut i: usize = 0;
    while i < ml
        invariant
            sl == s@.len(),
            ml == mark@.len(),
            ml <= sl,
            off == sl - ml,
            0 <= i <= ml,
            forall|j: int| 0 <= j < i ==> s@[off + j] == mark@[j],
        decreases ml - i,
    {
        if s[off + i] != mark[i] {
            proof {
                assert(s@.skip(off as int)[i as int] == s@[off + i]);
            }
            return false;
        }
        i = i + 1;
    }
    proof {
        assert(s@.skip(off as int) =~= mark@);
    }
    true
}

/// A deterministic stand-in hash keyed to a marker: the digest is all zero
/// bytes when the input ends with the marker and all 0xFF bytes otherwise,
/// which makes the first qualifying nonce of a search predictable.
pub struct SuffixHash {
    pub mark: Vec<u8>,
}

impl HashFunction for SuffixHash {
    open spec fn out_len(&self) -> nat {
        32
    }

    open spec fn hash_spec(&self, input: Seq<u8>) -> Seq<u8> {
        if ends_with(input, self.mark@) {
            Seq::new(32, (|k: int| 0u8))
        } else {
            Seq::new(32, (|k: int| 255u8))
        }
    }

    fn digest_len(&self) -> (n: usize) {
        32
    }

    fn digest(&self, input: &[u8]) -> (r: Vec<u8>) {
        if suffix_matches(input, self.mark.as_slice()) {
            byte_repeat(0)
        } else {
            byte_repeat(255)
        }
    }
}

} // verus!

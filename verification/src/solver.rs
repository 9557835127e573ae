//! The search loop.
//!
//! For nonce = 0, 1, 2, … the solver hashes the candidate — the prefix
//! followed by the decimal rendering of the nonce — and returns the first
//! nonce whose digest, read as a big-endian unsigned integer of the
//! target's byte length, is at most the target. The search is exhaustive
//! and strictly increasing from 0; if the nonce counter would overflow,
//! the search stops and the maximum representable nonce is returned as a
//! best-effort terminal answer.

use vstd::prelude::*;
use vstd::slice::slice_to_vec;
use vstd::string::StringSliceAdditionalSpecFns;

use crate::compare::le_bytes;
use crate::compare::verify_nonce;
use crate::hashes::HashFunction;
use crate::hashes::Sha256Hash;
use crate::hashes::sha256_of;
use crate::hexcodec::hex_bytes;
use crate::hexcodec::hex_decode;
use crate::hexcodec::is_hex;
use crate::numeral::append_dec_bytes;
use crate::numeral::dec_bytes;
use crate::numeral::dec_chars;
use crate::numeral::dec_string;
use crate::progress::NullSink;
use crate::progress::ProgressSink;
use crate::progress::report_log;
use crate::progress::lemma_report_log_step;

verus! {

/// Why a call failed before any search began.
#[derive(Clone, Copy, Debug, PartialEq, Eq, Structural)]
pub enum SolveError {
    /// The target string is not decodable hexadecimal: odd length or a
    /// character that is no hexadecimal digit.
    InvalidTargetEncoding,
    /// The decoded target length differs from the digest length.
    TargetLengthMismatch,
}

/// The candidate bytes for a nonce: the prefix followed by the ASCII
/// decimal rendering of the nonce.
pub open spec fn candidate(prefix: Seq<u8>, n: nat) -> Seq<u8> {
    prefix + dec_bytes(n)
}

/// Whether nonce `n` qualifies: the digest of its candidate, read as a
/// big-endian unsigned integer, is at most the target.
pub open spec fn qualifies<H: HashFunction>(
    h: &H,
    prefix: Seq<u8>,
    target: Seq<u8>,
    n: nat,
) -> bool {
    le_bytes(h.hash_spec(candidate(prefix, n)), target)
}

/// The outcome mandated for a search: either `n` is the first qualifying
/// nonce in ascending order from 0, or `n` is `u64::MAX` and no nonce
/// below it qualifies — the escape hatch against an unreachable target.
pub open spec fn first_outcome<H: HashFunction>(
    h: &H,
    prefix: Seq<u8>,
    target: Seq<u8>,
    n: u64,
) -> bool {
    &&& forall|m: u64| m < n ==> !(#[trigger] qualifies(h, prefix, target, m as nat))
    &&& n < u64::MAX ==> qualifies(h, prefix, target, n as nat)
}

/// How many nonces a finished search has tried: all of `0 ..= n` when it
/// returned a qualifying nonce `n`, and all of `0 .. u64::MAX` when it
/// exhausted the nonce space.
pub open spec fn tested_count(n: u64) -> nat {
    if n < u64::MAX {
        (n + 1) as nat
    } else {
        u64::MAX as nat
    }
}

/// The search itself, over a decoded target: returns the first qualifying
/// nonce, or `u64::MAX` when none below it qualifies, and reports every
/// nonce divisible by 10000 that it tries to the sink, in order.
fn search<H: HashFunction, S: ProgressSink>(
    h: &H,
    prefix: &[u8],
    target: &[u8],
    sink: &mut S,
) -> (n: u64)
    requires
        target@.len() == h.out_len(),
    ensures
        first_outcome(h, prefix@, target@, n),
        final(sink).log() == old(sink).log() + report_log(tested_count(n)),
{
    let mut nonce: u64 = 0;
    proof {
        assert(report_log(0) =~= Seq::<u64>::empty());
        assert(sink.log() =~= old(sink).log() + report_log(0));
    }
    loop
        invariant
            target@.len() == h.out_len(),
            nonce < u64::MAX,
            forall|m: u64| m < nonce ==> !(#[trigger] qualifies(h, prefix@, target@, m as nat)),
            sink.log() == old(sink).log() + report_log(nonce as nat),
        decreases u64::MAX - nonce,
    {
        let mut cand: Vec<u8> = slice_to_vec(prefix);
        append_dec_bytes(&mut cand, nonce);
        let d = h.digest(cand.as_slice());
        if nonce % 10000 == 0 {
            sink.report(nonce);
        }
        proof {
            lemma_report_log_step(nonce as nat);
            if nonce % 10000 == 0 {
                assert(sink.log() =~= old(sink).log() + report_log((nonce + 1) as nat));
            }
        }
        let found = verify_nonce(d.as_slice(), target);
        if found {
            proof {
                assert(qualifies(h, prefix@, target@, nonce as nat));
            }
            return nonce;
        }
        if nonce == u64::MAX - 1 {
            return u64::MAX;
        }
        nonce = nonce + 1;
    }
}

/// Searches for the smallest qualifying nonce, with the hash function and
/// the progress sink supplied by the caller.
///
/// Fails with `InvalidTargetEncoding` exactly when `target_hex` is not
/// decodable hexadecimal, and with `TargetLengthMismatch` exactly when it
/// decodes to a length other than the digest length; no report is made in
/// either case. Otherwise returns the decimal rendering of the first
/// qualifying nonce — or of `u64::MAX` when no smaller nonce qualifies —
/// having reported every multiple of 10000 among the tried nonces.
pub fn solve_with<H: HashFunction, S: ProgressSink>(
    h: &H,
    prefix: &str,
    target_hex: &str,
    sink: &mut S,
) -> (r: Result<String, SolveError>)
    ensures
        r is Err ==> final(sink).log() == old(sink).log(),
        r == Err::<String, SolveError>(SolveError::InvalidTargetEncoding) <==> !is_hex(
            target_hex.spec_bytes(),
        ),
        r == Err::<String, SolveError>(SolveError::TargetLengthMismatch) <==> (is_hex(
            target_hex.spec_bytes(),
        ) && hex_bytes(target_hex.spec_bytes()).len() != h.out_len()),
        r is Ok <==> (is_hex(target_hex.spec_bytes()) && hex_bytes(target_hex.spec_bytes()).len()
            == h.out_len()),
        r is Ok ==> exists|n: u64|
            {
                &&& (#[trigger] dec_chars(n as nat)) == r->Ok_0@
                &&& first_outcome(
                    h,
                    prefix.spec_bytes(),
                    hex_bytes(target_hex.spec_bytes()),
                    n,
                )
                &&& final(sink).log() == old(sink).log() + report_log(tested_count(n))
            },
{
    let target = match hex_decode(target_hex.as_bytes()) {
        Some(t) => t,
        None => {
            return Err(SolveError::InvalidTargetEncoding);
        },
    };
    if target.len() != h.digest_len() {
        return Err(SolveError::TargetLengthMismatch);
    }
    let n = search(h, prefix.as_bytes(), target.as_slice(), sink);
    let s = dec_string(n);
    proof {
        assert(dec_chars(n as nat) == s@);
    }
    Ok(s)
}

/// Whether nonce `n` qualifies under SHA-256.
pub open spec fn sha_qualifies(prefix: Seq<u8>, target: Seq<u8>, n: nat) -> bool {
    le_bytes(sha256_of(candidate(prefix, n)), target)
}

/// The mandated outcome of a SHA-256 search: `n` is the first qualifying
/// nonce, or `u64::MAX` when no nonce below it qualifies.
pub open spec fn sha_first_outcome(prefix: Seq<u8>, target: Seq<u8>, n: u64) -> bool {
    &&& forall|m: u64| m < n ==> !(#[trigger] sha_qualifies(prefix, target, m as nat))
    &&& n < u64::MAX ==> sha_qualifies(prefix, target, n as nat)
}

/// Solves a challenge with SHA-256 and without progress reporting: the
/// digest of the candidate `prefix ++ decimal(nonce)` must be at most the
/// target, which `target_hex` must spell as 64 hexadecimal digits.
///
/// Fails with `InvalidTargetEncoding` exactly when `target_hex` is not
/// decodable hexadecimal, and with `TargetLengthMismatch` exactly when it
/// decodes to a length other than 32 bytes. Otherwise returns the decimal
/// rendering of the first qualifying nonce, or of `u64::MAX` when no
/// smaller nonce qualifies.
pub fn solve_challenge(prefix: &str, target_hex: &str) -> (r: Result<String, SolveError>)
    ensures
        r == Err::<String, SolveError>(SolveError::InvalidTargetEncoding) <==> !is_hex(
            target_hex.spec_bytes(),
        ),
        r == Err::<String, SolveError>(SolveError::TargetLengthMismatch) <==> (is_hex(
            target_hex.spec_bytes(),
        ) && hex_bytes(target_hex.spec_bytes()).len() != 32),
        r is Ok <==> (is_hex(target_hex.spec_bytes()) && hex_bytes(target_hex.spec_bytes()).len()
            == 32),
        r is Ok ==> exists|n: u64|
            {
                &&& (#[trigger] dec_chars(n as nat)) == r->Ok_0@
                &&& sha_first_outcome(
                    prefix.spec_bytes(),
                    hex_bytes(target_hex.spec_bytes()),
                    n,
                )
            },
{
    let h = Sha256Hash {};
    let mut sink = NullSink::new();
    let r = solve_with(&h, prefix, target_hex, &mut sink);
    proof {
        if r is Ok {
            let n = choose|n: u64|
                {
                    &&& (#[trigger] dec_chars(n as nat)) == r->Ok_0@
                    &&& first_outcome(
                        &h,
                        prefix.spec_bytes(),
                        hex_bytes(target_hex.spec_bytes()),
                        n,
                    )
                };
            let p = prefix.spec_bytes();
            let t = hex_bytes(target_hex.spec_bytes());
            assert forall|m: u64| m < n implies !(#[trigger] sha_qualifies(p, t, m as nat)) by {
                assert(!qualifies(&h, p, t, m as nat));
            }
            if n < u64::MAX {
                assert(sha_qualifies(p, t, n as nat));
            }
            assert(sha_first_outcome(p, t, n));
        }
    }
    r
}

/// Determinism: the mandated outcome is unique, so two searches over the
/// same prefix, target, and hash function settle on the same nonce.
pub proof fn lemma_outcome_unique<H: HashFunction>(
    h: &H,
    prefix: Seq<u8>,
    target: Seq<u8>,
    n1: u64,
    n2: u64,
)
    requires
        first_outcome(h, prefix, target, n1),
        first_outcome(h, prefix, target, n2),
    ensures
        n1 == n2,
{
    if n1 < n2 {
        assert(qualifies(h, prefix, target, n1 as nat));
        assert(!qualifies(h, prefix, target, n1 as nat));
    }
    if n2 < n1 {
        assert(qualifies(h, prefix, target, n2 as nat));
        assert(!qualifies(h, prefix, target, n2 as nat));
    }
}

} // verus!

//! Big-endian, fixed-length, byte-wise comparison of a digest against a
//! target threshold.
//!
//! A digest qualifies when, read as a big-endian unsigned integer of the
//! same byte length as the target, it is less than or equal to the target.
//! The comparison walks the bytes from the most significant end and decides
//! at the first differing byte; when every byte is equal the digest
//! qualifies (equality is accepted).

use vstd::prelude::*;

verus! {

/// `a <= b` where both sequences are read as big-endian unsigned integers
/// of the same byte length. Decided at the first differing byte; equal
/// sequences compare as `<=`.
pub open spec fn le_bytes(a: Seq<u8>, b: Seq<u8>) -> bool
    recommends
        a.len() == b.len(),
    decreases a.len(),
{
    if a.len() == 0 || b.len() == 0 {
        true
    } else if a[0] < b[0] {
        true
    } else if a[0] > b[0] {
        false
    } else {
        le_bytes(a.drop_first(), b.drop_first())
    }
}

/// Decides whether `digest` qualifies against `target`: the two must have
/// the same length, and the digest, read as a big-endian unsigned integer,
/// must be less than or equal to the target. Every byte participates,
/// including the last one.
pub fn verify_nonce(digest: &[u8], target: &[u8]) -> (r: bool)
    ensures
        r == (digest@.len() == target@.len() && le_bytes(digest@, target@)),
{
    if digest.len() != target.len() {
        return false;
    }
    let n = digest.len();
    let mut i: usize = 0;
    proof {
        assert(digest@.skip(0) =~= digest@);
        assert(target@.skip(0) =~= target@);
    }
    while i < n
        invariant
            n == digest@.len() == target@.len(),
            0 <= i <= n,
            le_bytes(digest@, target@) == le_bytes(
                digest@.skip(i as int),
                target@.skip(i as int),
            ),
            forall|j: int| 0 <= j < i ==> digest@[j] == target@[j],
        decreases n - i,
    {
        if digest[i] < target[i] {
            proof {
                lemma_le_bytes_first_lt(digest@.skip(i as int), target@.skip(i as int));
            }
            return true;
        }
        if digest[i] > target[i] {
            proof {
                lemma_le_bytes_first_gt(digest@.skip(i as int), target@.skip(i as int));
            }
            return false;
        }
        proof {
            assert(digest@.skip(i as int).drop_first() =~= digest@.skip(i + 1));
            assert(target@.skip(i as int).drop_first() =~= target@.skip(i + 1));
        }
        i = i + 1;
    }
    proof {
        assert(digest@.skip(n as int).len() == 0);
    }
    true
}

/// Full-length comparison: a digest that exceeds the target in the very
/// last byte alone, with every earlier byte equal, does not qualify — no
/// byte is exempt from the comparison.
pub proof fn lemma_last_byte_decides(a: Seq<u8>, b: Seq<u8>)
    requires
        a.len() == b.len(),
        a.len() > 0,
        forall|i: int| 0 <= i < a.len() - 1 ==> a[i] == b[i],
        a[a.len() - 1] > b[b.len() - 1],
    ensures
        !le_bytes(a, b),
    decreases a.len(),
{
    if a.len() == 1 {
    } else {
        assert(a[0] == b[0]);
        assert forall|i: int| 0 <= i < a.drop_first().len() - 1 implies a.drop_first()[i]
            == b.drop_first()[i] by {
            assert(a[i + 1] == b[i + 1]);
        }
        lemma_last_byte_decides(a.drop_first(), b.drop_first());
    }
}

/// A target of all 0xFF bytes — the maximal target — accepts every digest
/// of the same length.
pub proof fn lemma_max_target_accepts(a: Seq<u8>, b: Seq<u8>)
    requires
        a.len() == b.len(),
        forall|i: int| 0 <= i < b.len() ==> b[i] == 0xff,
    ensures
        le_bytes(a, b),
    decreases a.len(),
{
    if a.len() > 0 {
        assert(b[0] == 0xff);
        if a[0] == 0xff {
            assert forall|i: int| 0 <= i < b.drop_first().len() implies b.drop_first()[i]
                == 0xff by {
                assert(b[i + 1] == 0xff);
            }
            lemma_max_target_accepts(a.drop_first(), b.drop_first());
        }
    }
}

/// An all-zero target accepts exactly the all-zero digest: a digest
/// qualifies against it if and only if it equals the target.
pub proof fn lemma_zero_target_exact(a: Seq<u8>, b: Seq<u8>)
    requires
        a.len() == b.len(),
        forall|i: int| 0 <= i < b.len() ==> b[i] == 0,
    ensures
        le_bytes(a, b) <==> a == b,
    decreases a.len(),
{
    if a.len() == 0 {
        assert(a =~= b);
    } else {
        assert(b[0] == 0);
        if a[0] == 0 {
            assert forall|i: int| 0 <= i < b.drop_first().len() implies b.drop_first()[i]
                == 0 by {
                assert(b[i + 1] == 0);
            }
            lemma_zero_target_exact(a.drop_first(), b.drop_first());
            if le_bytes(a, b) {
                assert(le_bytes(a.drop_first(), b.drop_first()));
                assert(a.drop_first() == b.drop_first());
                assert forall|i: int| 0 <= i < a.len() implies a[i] == b[i] by {
                    if i > 0 {
                        assert(a[i] == a.drop_first()[i - 1]);
                        assert(b[i] == b.drop_first()[i - 1]);
                    }
                }
                assert(a =~= b);
            }
            if a == b {
                assert(a.drop_first() =~= b.drop_first());
            }
        } else {
            assert(a[0] > b[0]);
            assert(!le_bytes(a, b));
            assert(a[0] != b[0]);
        }
    }
}

proof fn lemma_le_bytes_first_lt(a: Seq<u8>, b: Seq<u8>)
    requires
        a.len() > 0,
        b.len() > 0,
        a[0] < b[0],
    ensures
        le_bytes(a, b),
{
}

proof fn lemma_le_bytes_first_gt(a: Seq<u8>, b: Seq<u8>)
    requires
        a.len() > 0,
        b.len() > 0,
        a[0] > b[0],
    ensures
        !le_bytes(a, b),
{
}

} // verus!

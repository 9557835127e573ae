//! Decimal rendering of nonces.
//!
//! A candidate is the prefix followed by the base-10 text of the nonce, and
//! the winning nonce is returned as that same text, so both the byte and
//! the character form of the rendering are specified here: most significant
//! digit first, no leading zeros, `"0"` for zero.

use vstd::prelude::*;

verus! {

/// The ASCII bytes of the base-10 rendering of `n`.
pub open spec fn dec_bytes(n: nat) -> Seq<u8>
    decreases n,
{
    if n < 10 {
        seq![(48 + n) as u8]
    } else {
        dec_bytes(n / 10).push((48 + n % 10) as u8)
    }
}

/// The characters of the base-10 rendering of `n`.
pub open spec fn dec_chars(n: nat) -> Seq<char>
    decreases n,
{
    if n < 10 {
        seq![((48 + n) as u8) as char]
    } else {
        dec_chars(n / 10).push(((48 + n % 10) as u8) as char)
    }
}

/// The two renderings agree: the characters of the decimal rendering are
/// exactly its ASCII bytes, position for position — the string a search
/// returns spells the digits that were hashed in its winning candidate.
pub proof fn lemma_dec_chars_are_dec_bytes(n: nat)
    ensures
        dec_chars(n).len() == dec_bytes(n).len(),
        forall|i: int| 0 <= i < dec_bytes(n).len() ==> dec_chars(n)[i] == (#[trigger] dec_bytes(
            n,
        )[i]) as char,
    decreases n,
{
    if n >= 10 {
        lemma_dec_chars_are_dec_bytes(n / 10);
    }
}

/// Appends the ASCII decimal rendering of `n` to `out`.
pub fn append_dec_bytes(out: &mut Vec<u8>, n: u64)
    ensures
        final(out)@ == old(out)@ + dec_bytes(n as nat),
    decreases n,
{
    if n < 10 {
        out.push(48 + (n as u8));
        proof {
            assert(out@ =~= old(out)@ + dec_bytes(n as nat));
        }
    } else {
        append_dec_bytes(out, n / 10);
        out.push(48 + ((n % 10) as u8));
        proof {
            assert(out@ =~= old(out)@ + dec_bytes(n as nat));
        }
    }
}

/// The base-10 rendering of `n` as an owned string.
pub fn dec_string(n: u64) -> (s: String)
    ensures
        s@ == dec_chars(n as nat),
    decreases n,
{
    if n < 10 {
        let s = String::from_str(digit_str(n as u8));
        proof {
            assert(s@ =~= dec_chars(n as nat));
        }
        s
    } else {
        let mut s = dec_string(n / 10);
        s.append(digit_str((n % 10) as u8));
        proof {
            assert(s@ =~= dec_chars(n as nat));
        }
        s
    }
}

/// The one-character string slice for a single decimal digit.
fn digit_str(d: u8) -> (s: &'static str)
    requires
        d < 10,
    ensures
        s@ == seq![((48 + d) as u8) as char],
{
    proof {
        reveal_strlit("0");
        reveal_strlit("1");
        reveal_strlit("2");
        reveal_strlit("3");
        reveal_strlit("4");
        reveal_strlit("5");
        reveal_strlit("6");
        reveal_strlit("7");
        reveal_strlit("8");
        reveal_strlit("9");
    }
    let s = match d {
        0 => "0",
        1 => "1",
        2 => "2",
        3 => "3",
        4 => "4",
        5 => "5",
        6 => "6",
        7 => "7",
        8 => "8",
        _ => "9",
    };
    proof {
        assert(s@ =~= seq![((48 + d) as u8) as char]);
    }
    s
}

} // verus!

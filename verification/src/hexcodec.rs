//! Hexadecimal decoding of the target threshold.
//!
//! The target arrives as a hexadecimal string. Decoding accepts upper and
//! lower case digits and fails on any other character and on input of odd
//! length; the decoded bytes are the threshold the digests are compared
//! against.

use vstd::prelude::*;

verus! {

/// Whether `b` is the ASCII code of a hexadecimal digit, either case.
pub open spec fn is_hex_digit(b: u8) -> bool {
    (48 <= b && b <= 57) || (65 <= b && b <= 70) || (97 <= b && b <= 102)
}

/// The value of the hexadecimal digit with ASCII code `b`.
pub open spec fn hex_digit_val(b: u8) -> nat
    recommends
        is_hex_digit(b),
{
    if 48 <= b && b <= 57 {
        (b - 48) as nat
    } else if 65 <= b && b <= 70 {
        (b - 55) as nat
    } else {
        (b - 87) as nat
    }
}

/// Whether `s` is a decodable hexadecimal string: even length, every byte
/// a hexadecimal digit.
pub open spec fn is_hex(s: Seq<u8>) -> bool {
    s.len() % 2 == 0 && (forall|i: int| 0 <= i < s.len() ==> is_hex_digit(s[i]))
}

/// The bytes a decodable hexadecimal string denotes: each pair of digits,
/// high digit first, becomes one byte.
pub open spec fn hex_bytes(s: Seq<u8>) -> Seq<u8>
    recommends
        is_hex(s),
{
    Seq::new(s.len() / 2, |k: int| (hex_digit_val(s[2 * k]) * 16 + hex_digit_val(s[2 * k + 1])) as u8)
}

/// The value of one hexadecimal digit byte, or `None` when it is not one.
fn hex_val(b: u8) -> (r: Option<u8>)
    ensures
        r is Some <==> is_hex_digit(b),
        r is Some ==> r->Some_0 == hex_digit_val(b),
{
    if 48 <= b && b <= 57 {
        Some(b - 48)
    } else if 65 <= b && b <= 70 {
        Some(b - 55)
    } else if 97 <= b && b <= 102 {
        Some(b - 87)
    } else {
        None
    }
}

/// Decodes a hexadecimal string given as bytes. Returns the decoded bytes
/// exactly when the input is decodable: even length, hexadecimal digits
/// only, either case accepted.
pub fn hex_decode(s: &[u8]) -> (r: Option<Vec<u8>>)
    ensures
        r is Some <==> is_hex(s@),
        r is Some ==> r->Some_0@ == hex_bytes(s@),
{
    let n = s.len();
    if n % 2 != 0 {
        return None;
    }
    let mut out: Vec<u8> = Vec::new();
    let mut i: usize = 0;
    while i < n
        invariant
            n == s@.len(),
            n % 2 == 0,
            i % 2 == 0,
            0 <= i <= n,
            forall|j: int| 0 <= j < i ==> is_hex_digit(s@[j]),
            out@.len() == i / 2,
            forall|k: int|
                0 <= k < i / 2 ==> out@[k] == (hex_digit_val(s@[2 * k]) * 16 + hex_digit_val(
                    s@[2 * k + 1],
                )) as u8,
        decreases n - i,
    {
        let hi = match hex_val(s[i]) {
            Some(v) => v,
            None => {
                return None;
            },
        };
        let lo = match hex_val(s[i + 1]) {
            Some(v) => v,
            None => {
                return None;
            },
        };
        out.push(hi * 16 + lo);
        i = i + 2;
    }
    proof {
        assert(out@ =~= hex_bytes(s@));
    }
    Some(out)
}

} // verus!

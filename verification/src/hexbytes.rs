//! Hexadecimal parsing and printing over raw byte buffers.

use vstd::prelude::*;
use crate::errors::DecodeError;

verus! {

/// `c` is an ASCII hexadecimal digit.
pub open spec fn is_hex_digit(c: u8) -> bool {
    (48 <= c <= 57) || (97 <= c <= 102) || (65 <= c <= 70)
}

/// The value of the hexadecimal digit `c`.
pub open spec fn hex_digit_value(c: u8) -> u8
    recommends
        is_hex_digit(c),
{
    if 48 <= c <= 57 {
        (c - 48) as u8
    } else if 97 <= c <= 102 {
        (c - 87) as u8
    } else {
        (c - 55) as u8
    }
}

/// The lowercase digit of a value below 16.
pub open spec fn hex_digit_char(v: u8) -> u8
    recommends
        v < 16,
{
    if v < 10 {
        (v + 48) as u8
    } else {
        (v + 87) as u8
    }
}

/// `s` is a well-formed hexadecimal text: even length, digits throughout.
pub open spec fn hex_text_ok(s: Seq<u8>) -> bool {
    s.len() % 2 == 0 && (forall|i: int| 0 <= i < s.len() ==> is_hex_digit(#[trigger] s[i]))
}

/// The bytes spelled by a well-formed hexadecimal text.
pub open spec fn spec_hex_decode(s: Seq<u8>) -> Seq<u8>
    recommends
        hex_text_ok(s),
{
    Seq::new(
        (s.len() / 2) as nat,
        |i: int| (hex_digit_value(s[2 * i]) * 16 + hex_digit_value(s[2 * i + 1])) as u8,
    )
}

/// The lowercase hexadecimal text that spells `b`: two digits per byte.
pub open spec fn spec_hex_encode(b: Seq<u8>) -> Seq<u8> {
    Seq::new(
        (b.len() * 2) as nat,
        |i: int|
            if i % 2 == 0 {
                hex_digit_char(b[i / 2] / 16)
            } else {
                hex_digit_char(b[i / 2] % 16)
            },
    )
}

fn hex_digit_of(c: u8) -> (r: Option<u8>)
    ensures
        r is Some <==> is_hex_digit(c),
        r is Some ==> r.unwrap() == hex_digit_value(c),
{
    if 48 <= c && c <= 57 {
        Some(c - 48)
    } else if 97 <= c && c <= 102 {
        Some(c - 87)
    } else if 65 <= c && c <= 70 {
        Some(c - 55)
    } else {
        None
    }
}

/// Decodes hexadecimal text into the bytes it spells.
///
/// Succeeds exactly on texts of even length made of hexadecimal digits; any
/// other input is `Malformed`.
pub fn hex_decode(s: &Vec<u8>) -> (r: Result<Vec<u8>, DecodeError>)
    ensures
        r is Ok <==> hex_text_ok(s@),
        r is Ok ==> r.unwrap()@ == spec_hex_decode(s@),
        r is Err ==> r.unwrap_err() == DecodeError::Malformed,
{
    let n = s.len();
    if n % 2 != 0 {
        return Err(DecodeError::Malformed);
    }
    let mut out: Vec<u8> = Vec::new();
    let mut i: usize = 0;
    while i < n
        invariant
            i <= n,
            n == s@.len(),
            n % 2 == 0,
            i % 2 == 0,
            forall|j: int| 0 <= j < i ==> is_hex_digit(#[trigger] s@[j]),
            out@ == Seq::new(
                (i / 2) as nat,
                |k: int| (hex_digit_value(s@[2 * k]) * 16 + hex_digit_value(s@[2 * k + 1])) as u8,
            ),
        decreases n - i,
    {
        let hi = match hex_digit_of(s[i]) {
            Some(v) => v,
            None => {
                return Err(DecodeError::Malformed);
            },
        };
        let lo = match hex_digit_of(s[i + 1]) {
            Some(v) => v,
            None => {
                return Err(DecodeError::Malformed);
            },
        };
        out.push(hi * 16 + lo);
        i = i + 2;
        proof {
            assert(out@ =~= Seq::new(
                (i / 2) as nat,
                |k: int| (hex_digit_value(s@[2 * k]) * 16 + hex_digit_value(s@[2 * k + 1])) as u8,
            ));
        }
    }
    proof {
        assert(out@ =~= spec_hex_decode(s@));
    }
    Ok(out)
}

/// Prints `b` as lowercase hexadecimal text, two digits per byte.
pub fn hex_encode(b: &Vec<u8>) -> (r: Vec<u8>)
    ensures
        r@ == spec_hex_encode(b@),
{
    let n = b.len();
    let mut out: Vec<u8> = Vec::new();
    let mut i: usize = 0;
    while i < n
        invariant
            i <= n,
            n == b@.len(),
            out@ == spec_hex_encode(b@.subrange(0, i as int)),
        decreases n - i,
    {
        let hi = b[i] / 16;
        let lo = b[i] % 16;
        out.push(if hi < 10 {
            hi + 48
        } else {
            hi + 87
        });
        out.push(if lo < 10 {
            lo + 48
        } else {
            lo + 87
        });
        i = i + 1;
        proof {
            assert(out@ =~= spec_hex_encode(b@.subrange(0, i as int)));
        }
    }
    proof {
        assert(b@.subrange(0, n as int) =~= b@);
    }
    out
}

/// Parses a `0x`-prefixed 40-digit account address into its 20 raw bytes.
///
/// Succeeds exactly when the text is `0x` followed by 40 hexadecimal digits.
pub fn parse_address_hex(s: &Vec<u8>) -> (r: Result<Vec<u8>, DecodeError>)
    ensures
        r is Ok <==> (s@.len() == 42 && s@[0] == 48 && s@[1] == 120 && hex_text_ok(s@.skip(2))),
        r is Ok ==> r.unwrap()@ == spec_hex_decode(s@.skip(2)) && r.unwrap()@.len() == 20,
        r is Err ==> r.unwrap_err() == DecodeError::Malformed,
{
    if s.len() != 42 {
        return Err(DecodeError::Malformed);
    }
    if s[0] != 48 || s[1] != 120 {
        return Err(DecodeError::Malformed);
    }
    let digits = crate::bytesutil::copy_range(s, 2, 42);
    proof {
        assert(digits@ =~= s@.skip(2));
    }
    hex_decode(&digits)
}

} // verus!

//! Hex decoding (through the `hex` crate), verified uppercase hex
//! encoding, and the byte-wise XOR of two byte sequences.

use crate::chars::{all_hex_digits, hex_char, hex_char_of, hex_digit_val, is_hex_digit};
use crate::strutil::push_char;
use vstd::prelude::*;

verus! {

/// The byte one pair of hex characters stands for, high nibble first.
pub open spec fn byte_of_hex_pair(hi: char, lo: char) -> u8
    recommends
        is_hex_digit(hi),
        is_hex_digit(lo),
{
    (hex_digit_val(hi) * 16 + hex_digit_val(lo)) as u8
}

/// The bytes a hex string of even length decodes to.
pub open spec fn hex_decode_spec(s: Seq<char>) -> Seq<u8>
    recommends
        s.len() % 2 == 0,
        all_hex_digits(s),
{
    Seq::new(s.len() / 2, |i: int| byte_of_hex_pair(s[2 * i], s[2 * i + 1]))
}

/// Uppercase hex rendering of a byte sequence, two characters per byte,
/// most significant nibble first.
pub open spec fn hex_encode_upper_spec(b: Seq<u8>) -> Seq<char> {
    Seq::new(
        b.len() * 2,
        |i: int|
            if i % 2 == 0 {
                hex_char(b[i / 2] / 16)
            } else {
                hex_char(b[i / 2] % 16)
            },
    )
}

/// Relies on hex::decode: it succeeds exactly on strings of even length
/// made of hex digits, and then turns each pair of characters into one
/// byte, high nibble first. Its error is rendered as text.
#[verifier::external_body]
pub(crate) fn hex_decode(s: &str) -> (r: Result<Vec<u8>, String>)
    ensures
        r is Ok <==> (s@.len() % 2 == 0 && all_hex_digits(s@)),
        r matches Ok(b) ==> b@ == hex_decode_spec(s@),
{
    hex::decode(s).map_err(|error| error.to_string())
}

/// Render a byte sequence as uppercase hex, two characters per byte.
pub fn hex_encode_upper(bytes: &Vec<u8>) -> (r: String)
    ensures
        r@ == hex_encode_upper_spec(bytes@),
{
    let mut out = String::new();
    let mut i: usize = 0;
    while i < bytes.len()
        invariant
            i <= bytes@.len(),
            out@ =~= hex_encode_upper_spec(bytes@.subrange(0, i as int)),
        decreases bytes@.len() - i,
    {
        let b = bytes[i];
        let hi = hex_char_of(b / 16);
        let lo = hex_char_of(b % 16);
        push_char(&mut out, hi);
        push_char(&mut out, lo);
        i = i + 1;
        assert(out@ =~= hex_encode_upper_spec(bytes@.subrange(0, i as int)));
    }
    assert(bytes@.subrange(0, bytes@.len() as int) =~= bytes@);
    out
}

/// XOR two equally long byte sequences position by position.
pub open spec fn xor_bytes(a: Seq<u8>, b: Seq<u8>) -> Seq<u8>
    recommends
        a.len() == b.len(),
{
    Seq::new(a.len(), |i: int| a[i] ^ b[i])
}

/// Executable twin of `xor_bytes`.
pub fn xor_zip(a: &Vec<u8>, b: &Vec<u8>) -> (r: Vec<u8>)
    requires
        a@.len() == b@.len(),
    ensures
        r@ == xor_bytes(a@, b@),
{
    let mut r: Vec<u8> = Vec::new();
    let mut i: usize = 0;
    while i < a.len()
        invariant
            a@.len() == b@.len(),
            i <= a@.len(),
            r@.len() == i,
            forall|j: int| 0 <= j < i ==> r@[j] == (a@[j] ^ b@[j]),
        decreases a@.len() - i,
    {
        r.push(a[i] ^ b[i]);
        i = i + 1;
    }
    assert(r@ =~= xor_bytes(a@, b@));
    r
}

} // verus!

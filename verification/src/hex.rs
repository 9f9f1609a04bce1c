//! Decoding of hexadecimal digits into bytes.

use vstd::prelude::*;

verus! {

/// The value of the hexadecimal digit `c`, if it is one; both cases of letters count.
pub open spec fn hex_digit_value(c: char) -> Option<nat> {
    if '0' <= c && c <= '9' {
        Some((c as nat - '0' as nat) as nat)
    } else if 'a' <= c && c <= 'f' {
        Some((c as nat - 'a' as nat + 10) as nat)
    } else if 'A' <= c && c <= 'F' {
        Some((c as nat - 'A' as nat + 10) as nat)
    } else {
        None
    }
}

/// Every character of `s` is a hexadecimal digit.
pub open spec fn all_hex_digits(s: Seq<char>) -> bool {
    forall|i: int| 0 <= i < s.len() ==> (#[trigger] hex_digit_value(s[i])) is Some
}

/// The bytes that the hexadecimal digits `s` stand for: each pair of digits,
/// the first one the high half, is one byte.
pub open spec fn hex_decoded(s: Seq<char>) -> Seq<u8> {
    Seq::new(
        s.len() / 2,
        |j: int| (16 * hex_digit_value(s[2 * j]).unwrap() + hex_digit_value(s[2 * j + 1]).unwrap()) as u8,
    )
}

/// The message of the error that decoding a text that is no hexadecimal bytes gives.
pub open spec fn hex_error_message() -> Seq<char> {
    "failed to decode hex"@
}

/// Decodes the hexadecimal digits `digits` into bytes.
///
/// Calls `simplicity::elements::hex::decode_to_vec` of the `hex-conservative` crate, which
/// fails on a text of an odd number of bytes or with a character that is not a hexadecimal
/// digit, and otherwise turns each pair of digits into one byte. What is claimed of it: it
/// succeeds exactly when the text has an even number of characters, all hexadecimal
/// digits, and then gives the bytes they stand for; on failure, the message of its error
/// is the fixed text that the crate writes for both kinds of error when its `std` feature
/// is on, as `elements` builds it.
#[verifier::external_body]
pub(crate) fn decode_hex(digits: &str) -> (res: Result<Vec<u8>, String>)
    ensures
        res is Ok <==> (digits@.len() % 2 == 0 && all_hex_digits(digits@)),
        res matches Ok(bytes) ==> bytes@ == hex_decoded(digits@),
        res matches Err(m) ==> m@ == hex_error_message(),
{
    match simplicity::elements::hex::decode_to_vec(digits) {
        Ok(bytes) => Ok(bytes),
        Err(e) => Err(e.to_string()),
    }
}

} // verus!

//! Text rendering helpers: bytes as UTF-8 text, and integers as decimal
//! or binary digit strings for diagnostic messages.

use vstd::prelude::*;
use vstd::utf8::{decode_utf8, pop_first_scalar, valid_first_scalar, valid_utf8};

verus! {

/// Relies on `String::from_utf8`: returns the decoded text exactly when
/// the bytes are a valid UTF-8 encoding.
#[verifier::external_body]
pub(crate) fn utf8_to_string(bytes: &[u8]) -> (r: Option<String>)
    ensures
        r is Some <==> valid_utf8(bytes@),
        r matches Some(s) ==> s@ == decode_utf8(bytes@),
{
    String::from_utf8(bytes.to_vec()).ok()
}

/// Every sequence of bytes below 0x80 is a valid UTF-8 encoding and
/// decodes to one character per byte, each of the byte's own value.
pub proof fn lemma_ascii_utf8(bytes: Seq<u8>)
    requires
        forall|i: int| 0 <= i < bytes.len() ==> #[trigger] bytes[i] < 0x80,
    ensures
        valid_utf8(bytes),
        decode_utf8(bytes).len() == bytes.len(),
        forall|i: int| 0 <= i < bytes.len() ==> #[trigger] decode_utf8(bytes)[i] == bytes[i] as char,
    decreases bytes.len(),
{
    if bytes.len() > 0 {
        let b0 = bytes[0];
        assert(b0 & 0x7f == b0) by (bit_vector)
            requires
                b0 < 0x80,
        ;
        assert(valid_first_scalar(bytes));
        assert(pop_first_scalar(bytes) =~= bytes.skip(1));
        lemma_ascii_utf8(bytes.skip(1));
        assert forall|i: int| 0 <= i < bytes.len() implies #[trigger] decode_utf8(bytes)[i]
            == bytes[i] as char by {
            if i > 0 {
                assert(decode_utf8(bytes)[i] == decode_utf8(bytes.skip(1))[i - 1]);
                assert(bytes.skip(1)[i - 1] == bytes[i]);
            }
        }
    }
}

/// Render bytes that are all below 0x80 as text, one character per byte.
pub(crate) fn ascii_to_string(bytes: &[u8]) -> (r: String)
    requires
        forall|i: int| 0 <= i < bytes@.len() ==> #[trigger] bytes@[i] < 0x80,
    ensures
        r@.len() == bytes@.len(),
        forall|i: int| 0 <= i < bytes@.len() ==> #[trigger] r@[i] == bytes@[i] as char,
{
    proof {
        lemma_ascii_utf8(bytes@);
    }
    match utf8_to_string(bytes) {
        Some(s) => s,
        None => vstd::pervasive::unreached(),
    }
}

/// The character of a single digit value below 10.
pub open spec fn spec_digit_char(d: nat) -> char
    recommends
        d < 10,
{
    ((48 + d) as u8) as char
}

/// The decimal rendering of a number, most-significant digit first, with
/// no leading zeros (a lone zero renders as one digit).
pub open spec fn spec_decimal(n: nat) -> Seq<char>
    decreases n,
{
    if n < 10 {
        seq![spec_digit_char(n)]
    } else {
        spec_decimal(n / 10) + seq![spec_digit_char(n % 10)]
    }
}

/// The binary rendering of a number, most-significant digit first, with
/// no leading zeros (a lone zero renders as one digit).
pub open spec fn spec_binary(n: nat) -> Seq<char>
    decreases n,
{
    if n < 2 {
        seq![spec_digit_char(n)]
    } else {
        spec_binary(n / 2) + seq![spec_digit_char(n % 2)]
    }
}

/// The decimal digits of a number as ASCII bytes.
fn decimal_digit_bytes(n: u64) -> (r: Vec<u8>)
    ensures
        r@.len() == spec_decimal(n as nat).len(),
        forall|i: int| 0 <= i < r@.len() ==> #[trigger] r@[i] < 0x80,
        forall|i: int| 0 <= i < r@.len() ==> #[trigger] (r@[i] as char) == spec_decimal(
            n as nat,
        )[i],
    decreases n,
{
    if n < 10 {
        let mut v: Vec<u8> = Vec::new();
        v.push(48 + n as u8);
        v
    } else {
        let mut v = decimal_digit_bytes(n / 10);
        v.push(48 + (n % 10) as u8);
        v
    }
}

/// The binary digits of a number as ASCII bytes.
fn binary_digit_bytes(n: u64) -> (r: Vec<u8>)
    ensures
        r@.len() == spec_binary(n as nat).len(),
        forall|i: int| 0 <= i < r@.len() ==> #[trigger] r@[i] < 0x80,
        forall|i: int| 0 <= i < r@.len() ==> #[trigger] (r@[i] as char) == spec_binary(
            n as nat,
        )[i],
    decreases n,
{
    if n < 2 {
        let mut v: Vec<u8> = Vec::new();
        v.push(48 + n as u8);
        v
    } else {
        let mut v = binary_digit_bytes(n / 2);
        v.push(48 + (n % 2) as u8);
        v
    }
}

/// Render a number in decimal.
pub fn decimal_string(n: u64) -> (r: String)
    ensures
        r@ == spec_decimal(n as nat),
{
    let v = decimal_digit_bytes(n);
    let s = ascii_to_string(v.as_slice());
    proof {
        assert(s@ =~= spec_decimal(n as nat));
    }
    s
}

/// Render a number in binary.
pub fn binary_string(n: u64) -> (r: String)
    ensures
        r@ == spec_binary(n as nat),
{
    let v = binary_digit_bytes(n);
    let s = ascii_to_string(v.as_slice());
    proof {
        assert(s@ =~= spec_binary(n as nat));
    }
    s
}

} // verus!

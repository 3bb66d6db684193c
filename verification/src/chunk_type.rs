//! The 4-byte type code that classifies a PNG chunk.
//!
//! A type code consists of four ASCII letters; any other byte makes the code
//! unconstructible. Bit 5 of each byte carries one of four flags: critical,
//! public, reserved-bit-valid, and safe-to-copy (the last with inverted
//! sense).

use vstd::prelude::*;
use vstd::string::StringExecFns;
use vstd::string::StringSliceAdditionalSpecFns;

use crate::text::{ascii_to_string, binary_string, decimal_string, spec_binary, spec_decimal};

verus! {

/// A chunk-type byte must be an ASCII letter: uppercase (65..=90) or
/// lowercase (97..=122).
pub open spec fn is_letter_byte(b: u8) -> bool {
    (65 <= b && b <= 90) || (97 <= b && b <= 122)
}

/// Every byte of the sequence is an ASCII letter.
pub open spec fn all_letters(s: Seq<u8>) -> bool {
    forall|i: int| 0 <= i < s.len() ==> is_letter_byte(#[trigger] s[i])
}

/// The first byte of the sequence that is not an ASCII letter; meaningful
/// only when `!all_letters(s)`.
pub open spec fn spec_first_non_letter(s: Seq<u8>) -> u8
    decreases s.len(),
{
    if s.len() == 0 {
        0
    } else if !is_letter_byte(s[0]) {
        s[0]
    } else {
        spec_first_non_letter(s.skip(1))
    }
}

/// Bit 5 (counting from the least-significant end, starting at 0) of the
/// byte is zero.
pub open spec fn spec_bit5_zero(b: u8) -> bool {
    b & 0x20 == 0
}

/// A failure while constructing a [`ChunkType`].
#[derive(Debug, PartialEq, Eq, Structural)]
pub enum ChunkTypeDecodingError {
    /// A byte outside the ASCII-letter range; carries the first such byte.
    BadByte(u8),
    /// A textual code whose length is not exactly 4 bytes; carries the
    /// actual length.
    BadLength(usize),
}

/// What constructing a chunk type from a byte sequence returns: the bytes
/// themselves when they form a valid code, or the exact error otherwise.
pub open spec fn spec_code_from_bytes(s: Seq<u8>) -> Result<Seq<u8>, ChunkTypeDecodingError> {
    if s.len() != 4 {
        Err(ChunkTypeDecodingError::BadLength(s.len() as usize))
    } else if all_letters(s) {
        Ok(s)
    } else {
        Err(ChunkTypeDecodingError::BadByte(spec_first_non_letter(s)))
    }
}

/// A 4-byte PNG chunk type code.
///
/// Construction is the sole validation gate: every byte of a constructed
/// code is an ASCII letter. The code is immutable afterwards, and equality
/// is byte-wise.
#[derive(Debug)]
pub struct ChunkType {
    bytes: [u8; 4],
}

impl PartialEq for ChunkType {
    fn eq(&self, other: &ChunkType) -> (r: bool) {
        let r = self.bytes[0] == other.bytes[0] && self.bytes[1] == other.bytes[1]
            && self.bytes[2] == other.bytes[2] && self.bytes[3] == other.bytes[3];
        proof {
            if r {
                assert(self@ =~= other@);
            }
        }
        r
    }
}

impl Eq for ChunkType {}

impl vstd::std_specs::cmp::PartialEqSpecImpl for ChunkType {
    open spec fn obeys_eq_spec() -> bool {
        true
    }

    open spec fn eq_spec(&self, other: &ChunkType) -> bool {
        self@ == other@
    }
}

impl View for ChunkType {
    type V = Seq<u8>;

    closed spec fn view(&self) -> Seq<u8> {
        self.bytes@
    }
}

impl ChunkType {
    /// Each byte of the code is an ASCII letter; established at
    /// construction and preserved forever after.
    #[verifier::type_invariant]
    pub open spec fn wf(self) -> bool {
        self@.len() == 4 && all_letters(self@)
    }

    /// Construct a chunk type from 4 raw bytes, validating each byte left
    /// to right.
    pub fn try_from(bytes: [u8; 4]) -> (r: Result<ChunkType, ChunkTypeDecodingError>)
        ensures
            r matches Ok(t) ==> t@ == bytes@,
            r is Ok <==> spec_code_from_bytes(bytes@) is Ok,
            r matches Err(e) ==> spec_code_from_bytes(bytes@) == Err::<Seq<u8>, _>(e),
    {
        let mut index: usize = 0;
        while index < 4
            invariant
                index <= 4,
                forall|j: int| 0 <= j < index ==> is_letter_byte(#[trigger] bytes@[j]),
            decreases 4 - index,
        {
            if !Self::is_valid_byte(bytes[index]) {
                proof {
                    lemma_first_non_letter_at(bytes@, index as int);
                }
                return Err(ChunkTypeDecodingError::BadByte(bytes[index]));
            }
            index += 1;
        }
        Ok(ChunkType { bytes })
    }

    /// Construct a chunk type from a textual code of exactly 4 characters.
    pub fn from_str(s: &str) -> (r: Result<ChunkType, ChunkTypeDecodingError>)
        ensures
            r matches Ok(t) ==> t@ == s.spec_bytes(),
            r is Ok <==> spec_code_from_bytes(s.spec_bytes()) is Ok,
            r matches Err(e) ==> spec_code_from_bytes(s.spec_bytes()) == Err::<Seq<u8>, _>(e),
    {
        let len: usize = s.len();
        if len != 4 {
            return Err(ChunkTypeDecodingError::BadLength(len));
        }
        let raw = s.as_bytes();
        let code: [u8; 4] = [raw[0], raw[1], raw[2], raw[3]];
        proof {
            assert(code@ =~= s.spec_bytes());
        }
        Self::try_from(code)
    }

    /// The 4 bytes underlying the chunk type.
    pub fn bytes(&self) -> (r: [u8; 4])
        ensures
            r@ == self@,
    {
        self.bytes
    }

    /// Whether a byte may appear in a chunk type code: it must be an ASCII
    /// uppercase or lowercase letter.
    pub fn is_valid_byte(byte: u8) -> (r: bool)
        ensures
            r == is_letter_byte(byte),
    {
        (65 <= byte && byte <= 90) || (97 <= byte && byte <= 122)
    }

    /// Whether bit `n` (counting from the least-significant end, starting
    /// at 0) of the byte is zero.
    pub fn is_indicator_zero(byte: u8, n: u8) -> (r: bool)
        requires
            n < 8,
        ensures
            r == (byte & (1u8 << n) == 0),
    {
        (byte & (1 << n)) == 0
    }

    /// A critical chunk is required to render the image: bit 5 of byte 0
    /// is zero.
    pub fn is_critical(&self) -> (r: bool)
        ensures
            r == spec_bit5_zero(self@[0]),
    {
        proof {
            assert(1u8 << 5 == 0x20) by (bit_vector);
        }
        Self::is_indicator_zero(self.bytes[0], 5)
    }

    /// A public chunk type is part of the open specification: bit 5 of
    /// byte 1 is zero.
    pub fn is_public(&self) -> (r: bool)
        ensures
            r == spec_bit5_zero(self@[1]),
    {
        proof {
            assert(1u8 << 5 == 0x20) by (bit_vector);
        }
        Self::is_indicator_zero(self.bytes[1], 5)
    }

    /// The reserved bit, bit 5 of byte 2, must be zero under the current
    /// format revision. A violation is reported here, never rejected at
    /// construction.
    pub fn is_reserved_bit_valid(&self) -> (r: bool)
        ensures
            r == spec_bit5_zero(self@[2]),
    {
        proof {
            assert(1u8 << 5 == 0x20) by (bit_vector);
        }
        Self::is_indicator_zero(self.bytes[2], 5)
    }

    /// An unrecognized chunk may be carried over when the image is
    /// re-encoded exactly when bit 5 of byte 3 is one (the sense is
    /// inverted relative to the other three flags).
    pub fn is_safe_to_copy(&self) -> (r: bool)
        ensures
            r == !spec_bit5_zero(self@[3]),
    {
        proof {
            assert(1u8 << 5 == 0x20) by (bit_vector);
        }
        !Self::is_indicator_zero(self.bytes[3], 5)
    }

    /// Overall validity of a constructed code is the reserved-bit flag
    /// alone; the other three flags are informational.
    pub fn is_valid(&self) -> (r: bool)
        ensures
            r == spec_bit5_zero(self@[2]),
    {
        self.is_reserved_bit_valid()
    }

    /// Render the 4 code bytes as text, one character per byte.
    /// Construction restricted every byte to the ASCII letter range, so
    /// this cannot fail.
    pub fn to_text(&self) -> (r: String)
        ensures
            r@.len() == 4,
            forall|i: int| 0 <= i < 4 ==> #[trigger] r@[i] == self@[i] as char,
    {
        proof {
            use_type_invariant(self);
        }
        ascii_to_string(self.bytes.as_slice())
    }
}

/// The diagnostic message that a [`ChunkTypeDecodingError`] renders to.
pub open spec fn spec_type_error_message(e: ChunkTypeDecodingError) -> Seq<char> {
    match e {
        ChunkTypeDecodingError::BadByte(b) => "Bad byte: "@ + spec_decimal(b as nat) + " ("@
            + spec_binary(b as nat) + ")"@,
        ChunkTypeDecodingError::BadLength(l) => "Bad length: "@ + spec_decimal(l as nat)
            + " (expected 4)"@,
    }
}

impl ChunkTypeDecodingError {
    /// The diagnostic message: the offending byte in decimal and binary,
    /// or the offending length.
    pub fn message(&self) -> (r: String)
        ensures
            r@ == spec_type_error_message(*self),
    {
        match self {
            ChunkTypeDecodingError::BadByte(b) => {
                let mut s = String::from_str("Bad byte: ");
                s.append(decimal_string(*b as u64).as_str());
                s.append(" (");
                s.append(binary_string(*b as u64).as_str());
                s.append(")");
                s
            },
            ChunkTypeDecodingError::BadLength(l) => {
                let mut s = String::from_str("Bad length: ");
                s.append(decimal_string(*l as u64).as_str());
                s.append(" (expected 4)");
                s
            },
        }
    }
}

/// For a letter byte, bit 5 is the case bit: it is zero exactly for the
/// uppercase letters (65..=90) and one exactly for the lowercase letters
/// (97..=122). Each flag query therefore reads the case of one letter of
/// the code.
pub proof fn lemma_bit5_is_case(b: u8)
    requires
        is_letter_byte(b),
    ensures
        spec_bit5_zero(b) <==> (65 <= b && b <= 90),
{
    assert(((65 <= b && b <= 90) || (97 <= b && b <= 122)) ==> ((b & 0x20 == 0) <==> (65 <= b && b
        <= 90))) by (bit_vector);
}

/// When the first `index` bytes are letters and the byte at `index` is
/// not, that byte is the first non-letter of the sequence.
proof fn lemma_first_non_letter_at(s: Seq<u8>, index: int)
    requires
        0 <= index < s.len(),
        forall|j: int| 0 <= j < index ==> is_letter_byte(#[trigger] s[j]),
        !is_letter_byte(s[index]),
    ensures
        spec_first_non_letter(s) == s[index],
    decreases index,
{
    if index == 0 {
    } else {
        lemma_first_non_letter_at(s.skip(1), index - 1);
    }
}

} // verus!

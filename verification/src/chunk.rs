//! One complete PNG chunk record and its byte-level codec.
//!
//! A chunk serializes as a 4-byte big-endian data length, the 4 type-code
//! bytes, the data bytes, and a 4-byte big-endian CRC-32 checksum
//! computed over the type code and the data.

use vstd::prelude::*;

use crate::chunk_type::{
    all_letters, spec_code_from_bytes, spec_type_error_message, ChunkType, ChunkTypeDecodingError,
};
use crate::crc32::{crc32_png, crc32_png_of};
use crate::text::{decimal_string, spec_decimal, utf8_to_string};
use vstd::string::StringExecFns;
use vstd::utf8::{decode_utf8, valid_utf8};

verus! {

/// The PNG format reserves 2^31 as a hard ceiling for a chunk's data
/// length.
pub const MAXIMUM_LENGTH: u32 = 0x8000_0000;

/// The 4-byte big-endian rendering of an unsigned 32-bit integer.
pub open spec fn spec_u32_to_be(x: u32) -> Seq<u8> {
    seq![
        ((x >> 24) & 0xff) as u8,
        ((x >> 16) & 0xff) as u8,
        ((x >> 8) & 0xff) as u8,
        (x & 0xff) as u8,
    ]
}

/// The unsigned 32-bit integer read big-endian from a 4-byte sequence.
pub open spec fn spec_u32_from_be(s: Seq<u8>) -> u32
    recommends
        s.len() == 4,
{
    ((s[0] as u32) << 24) | ((s[1] as u32) << 16) | ((s[2] as u32) << 8) | (s[3] as u32)
}

/// Rendering an integer big-endian and reading it back is the identity.
pub proof fn lemma_u32_to_from_be(x: u32)
    ensures
        spec_u32_to_be(x).len() == 4,
        spec_u32_from_be(spec_u32_to_be(x)) == x,
{
    assert(((((x >> 24) & 0xff) as u8 as u32) << 24) | ((((x >> 16) & 0xff) as u8 as u32) << 16)
        | ((((x >> 8) & 0xff) as u8 as u32) << 8) | (((x & 0xff) as u8 as u32)) == x)
        by (bit_vector);
}

/// Reading 4 bytes big-endian and rendering the integer back yields the
/// same 4 bytes.
pub proof fn lemma_u32_from_to_be(s: Seq<u8>)
    requires
        s.len() == 4,
    ensures
        spec_u32_to_be(spec_u32_from_be(s)) == s,
{
    let a = s[0];
    let b = s[1];
    let c = s[2];
    let d = s[3];
    let x = spec_u32_from_be(s);
    assert(x == ((a as u32) << 24) | ((b as u32) << 16) | ((c as u32) << 8) | (d as u32));
    assert({
        let y = ((a as u32) << 24) | ((b as u32) << 16) | ((c as u32) << 8) | (d as u32);
        ((y >> 24) & 0xff) as u8 == a && ((y >> 16) & 0xff) as u8 == b && ((y >> 8) & 0xff) as u8
            == c && (y & 0xff) as u8 == d
    }) by (bit_vector);
    assert(spec_u32_to_be(x) =~= s);
}

/// Read the 4 bytes at `offset` as a big-endian unsigned 32-bit integer.
fn read_u32_be(bytes: &[u8], offset: usize) -> (r: u32)
    requires
        offset + 4 <= bytes@.len(),
    ensures
        r == spec_u32_from_be(bytes@.subrange(offset as int, offset as int + 4)),
{
    let r = ((bytes[offset] as u32) << 24) | ((bytes[offset + 1] as u32) << 16) | ((bytes[offset
        + 2] as u32) << 8) | (bytes[offset + 3] as u32);
    proof {
        let s = bytes@.subrange(offset as int, offset as int + 4);
        assert(s[0] == bytes@[offset as int]);
        assert(s[1] == bytes@[offset as int + 1]);
        assert(s[2] == bytes@[offset as int + 2]);
        assert(s[3] == bytes@[offset as int + 3]);
    }
    r
}

/// Append the big-endian rendering of `x` to `out`.
fn push_u32_be(out: &mut Vec<u8>, x: u32)
    ensures
        final(out)@ == old(out)@ + spec_u32_to_be(x),
{
    proof {
        assert((x >> 24) & 0xff < 256 && (x >> 16) & 0xff < 256 && (x >> 8) & 0xff < 256 && x
            & 0xff < 256) by (bit_vector);
    }
    out.push(((x >> 24) & 0xff) as u8);
    out.push(((x >> 16) & 0xff) as u8);
    out.push(((x >> 8) & 0xff) as u8);
    out.push((x & 0xff) as u8);
    proof {
        assert(final(out)@ =~= old(out)@ + spec_u32_to_be(x));
    }
}

/// Append every byte of `src` to `out`.
fn extend_from(out: &mut Vec<u8>, src: &[u8])
    ensures
        final(out)@ == old(out)@ + src@,
{
    let mut i: usize = 0;
    while i < src.len()
        invariant
            i <= src@.len(),
            out@ == old(out)@ + src@.subrange(0, i as int),
        decreases src@.len() - i,
    {
        out.push(src[i]);
        i += 1;
        proof {
            assert(out@ =~= old(out)@ + src@.subrange(0, i as int));
        }
    }
    proof {
        assert(src@.subrange(0, src@.len() as int) =~= src@);
    }
}

/// The mathematical image of a [`Chunk`]: its four fields, with the byte
/// buffers as sequences.
#[verifier::ext_equal]
pub struct ChunkView {
    pub length: u32,
    pub type_code: Seq<u8>,
    pub data: Seq<u8>,
    pub crc: u32,
}

/// A well-formed chunk: 4 type-code bytes, all ASCII letters, a length
/// that counts exactly the data bytes and stays under the format's 2^31
/// ceiling, and a checksum equal to the CRC of type code and data.
pub open spec fn chunk_wf(v: ChunkView) -> bool {
    &&& v.type_code.len() == 4
    &&& all_letters(v.type_code)
    &&& v.data.len() == v.length
    &&& v.length < MAXIMUM_LENGTH
    &&& v.crc == crc32_png(v.type_code + v.data)
}

/// The exact byte layout of a chunk: big-endian length, type code, data,
/// big-endian checksum.
pub open spec fn spec_encode(v: ChunkView) -> Seq<u8> {
    spec_u32_to_be(v.length) + v.type_code + v.data + spec_u32_to_be(v.crc)
}

/// A failure while decoding a PNG chunk from raw bytes, or while reading
/// its data as text.
#[derive(Debug, PartialEq, Eq, Structural)]
pub enum ChunkDecodingError {
    /// The supplied CRC did not match the computed CRC; carries both, in
    /// that order.
    BadCrc(u32, u32),
    /// The buffer holds fewer bytes than a declared field needs; carries
    /// the bytes available and the bytes needed.
    BadLength(usize, usize),
    /// The declared data length reaches the format's 2^31 ceiling; carries
    /// the declared length.
    LongLength(usize),
    /// The 4 type-code bytes do not form a valid chunk type.
    BadType(ChunkTypeDecodingError),
    /// The data bytes were requested as text but are not valid UTF-8.
    NotUtf8,
}

/// The diagnostic message that a [`ChunkDecodingError`] renders to.
pub open spec fn spec_chunk_error_message(e: ChunkDecodingError) -> Seq<char> {
    match e {
        ChunkDecodingError::BadCrc(provided, expected) => "Bad chunk: Invalid CRC (received "@
            + spec_decimal(provided as nat) + ", expected "@ + spec_decimal(expected as nat)
            + ")"@,
        ChunkDecodingError::BadLength(provided, expected) =>
            "Bad chunk: Invalid length (received "@ + spec_decimal(provided as nat)
            + ", expected "@ + spec_decimal(expected as nat) + ")"@,
        ChunkDecodingError::LongLength(length) => "Bad chunk: Length too long ("@ + spec_decimal(
            length as nat,
        ) + " >= 2^31)"@,
        ChunkDecodingError::BadType(inner) => "Bad chunk: Invalid type: "@
            + spec_type_error_message(inner),
        ChunkDecodingError::NotUtf8 => "Bad chunk: Data is not valid UTF-8"@,
    }
}

impl ChunkDecodingError {
    /// The diagnostic message: which check failed, with the values
    /// involved in decimal.
    pub fn message(&self) -> (r: String)
        ensures
            r@ == spec_chunk_error_message(*self),
    {
        match self {
            ChunkDecodingError::BadCrc(provided, expected) => {
                let mut s = String::from_str("Bad chunk: Invalid CRC (received ");
                s.append(decimal_string(*provided as u64).as_str());
                s.append(", expected ");
                s.append(decimal_string(*expected as u64).as_str());
                s.append(")");
                s
            },
            ChunkDecodingError::BadLength(provided, expected) => {
                let mut s = String::from_str("Bad chunk: Invalid length (received ");
                s.append(decimal_string(*provided as u64).as_str());
                s.append(", expected ");
                s.append(decimal_string(*expected as u64).as_str());
                s.append(")");
                s
            },
            ChunkDecodingError::LongLength(length) => {
                let mut s = String::from_str("Bad chunk: Length too long (");
                s.append(decimal_string(*length as u64).as_str());
                s.append(" >= 2^31)");
                s
            },
            ChunkDecodingError::BadType(inner) => {
                let mut s = String::from_str("Bad chunk: Invalid type: ");
                s.append(inner.message().as_str());
                s
            },
            ChunkDecodingError::NotUtf8 => String::from_str("Bad chunk: Data is not valid UTF-8"),
        }
    }
}

/// What decoding a byte buffer returns: the chunk read from the buffer's
/// front (trailing bytes are allowed and ignored), or the exact error.
///
/// The checks run in the order the byte layout dictates: the length field
/// must be present, the declared length must be under the 2^31 ceiling,
/// the type code must be present and valid, the data and checksum bytes
/// must be present, and the supplied checksum must equal the computed one.
pub open spec fn spec_decode(b: Seq<u8>) -> Result<ChunkView, ChunkDecodingError> {
    if b.len() < 4 {
        Err(ChunkDecodingError::BadLength(b.len() as usize, 4))
    } else {
        let length = spec_u32_from_be(b.subrange(0, 4));
        if length >= MAXIMUM_LENGTH {
            Err(ChunkDecodingError::LongLength(length as usize))
        } else if b.len() < 8 {
            Err(ChunkDecodingError::BadLength(b.len() as usize, 8))
        } else {
            match spec_code_from_bytes(b.subrange(4, 8)) {
                Err(e) => Err(ChunkDecodingError::BadType(e)),
                Ok(type_code) => {
                    if b.len() < 12 + length {
                        Err(ChunkDecodingError::BadLength(
                            b.len() as usize,
                            (12 + length) as usize,
                        ))
                    } else {
                        let data = b.subrange(8, 8 + length);
                        let supplied = spec_u32_from_be(
                            b.subrange(8 + length, 12 + length),
                        );
                        let expected = crc32_png(type_code + data);
                        if supplied != expected {
                            Err(ChunkDecodingError::BadCrc(supplied, expected))
                        } else {
                            Ok(ChunkView { length, type_code, data, crc: supplied })
                        }
                    }
                }
            }
        }
    }
}

/// Round trip, decoding after encoding: every well-formed chunk, when
/// serialized to its byte layout, decodes back to exactly itself.
pub proof fn lemma_encode_decode(v: ChunkView)
    requires
        chunk_wf(v),
    ensures
        spec_decode(spec_encode(v)) == Ok::<ChunkView, ChunkDecodingError>(v),
{
    let e = spec_encode(v);
    lemma_u32_to_from_be(v.length);
    lemma_u32_to_from_be(v.crc);
    assert(e.len() == 12 + v.length);
    assert(e.subrange(0, 4) =~= spec_u32_to_be(v.length));
    assert(e.subrange(4, 8) =~= v.type_code);
    assert(e.subrange(8, 8 + v.length as int) =~= v.data);
    assert(e.subrange(8 + v.length as int, 12 + v.length as int) =~= spec_u32_to_be(v.crc));
    assert(spec_decode(e) matches Ok(w) && w =~= v);
}

/// Round trip, encoding after decoding: a chunk decoded from a buffer is
/// well-formed and re-serializes to exactly the bytes it came from; when
/// the buffer holds no trailing bytes beyond the chunk, that is the whole
/// buffer.
pub proof fn lemma_decode_encode(b: Seq<u8>, v: ChunkView)
    requires
        spec_decode(b) == Ok::<ChunkView, ChunkDecodingError>(v),
    ensures
        chunk_wf(v),
        b.len() >= 12 + v.length,
        spec_encode(v) == b.subrange(0, 12 + v.length as int),
        b.len() == 12 + v.length ==> spec_encode(v) == b,
{
    lemma_u32_from_to_be(b.subrange(0, 4));
    lemma_u32_from_to_be(b.subrange(8 + v.length as int, 12 + v.length as int));
    assert(spec_encode(v) =~= b.subrange(0, 12 + v.length as int));
    if b.len() == 12 + v.length {
        assert(b.subrange(0, 12 + v.length as int) =~= b);
    }
}

/// Checksum determinism: the checksum of a well-formed chunk is a
/// function of its type-code bytes and data bytes alone, so two chunks
/// that agree on both carry the same checksum.
pub proof fn lemma_checksum_deterministic(a: ChunkView, b: ChunkView)
    requires
        chunk_wf(a),
        chunk_wf(b),
        a.type_code == b.type_code,
        a.data == b.data,
    ensures
        a.crc == b.crc,
{
}

/// One PNG chunk record: length, type code, data, and checksum.
///
/// Immutable once constructed; both constructors establish the well-
/// formedness invariant [`chunk_wf`], so the checksum always equals the
/// CRC of type code and data.
#[derive(Debug)]
pub struct Chunk {
    length: u32,
    chunk_type: ChunkType,
    chunk_data: Vec<u8>,
    crc: u32,
}

impl View for Chunk {
    type V = ChunkView;

    closed spec fn view(&self) -> ChunkView {
        ChunkView {
            length: self.length,
            type_code: self.chunk_type@,
            data: self.chunk_data@,
            crc: self.crc,
        }
    }
}

impl Chunk {
    /// Every chunk is well-formed; established at construction and
    /// preserved forever after.
    #[verifier::type_invariant]
    pub open spec fn wf(self) -> bool {
        chunk_wf(self@)
    }

    /// Build a chunk from a type code and a data payload, computing the
    /// checksum over both.
    ///
    /// The format's 2^31 ceiling on the data length is enforced here as a
    /// precondition, so both construction paths admit exactly the lengths
    /// the decoder accepts, and every chunk serializes to a buffer it can
    /// be decoded from again.
    pub fn new(chunk_type: ChunkType, chunk_data: Vec<u8>) -> (c: Chunk)
        requires
            chunk_data@.len() < MAXIMUM_LENGTH,
        ensures
            c@.type_code == chunk_type@,
            c@.data == chunk_data@,
            c@.length == chunk_data@.len(),
            c@.crc == crc32_png(chunk_type@ + chunk_data@),
    {
        proof {
            use_type_invariant(&chunk_type);
        }
        let code: [u8; 4] = chunk_type.bytes();
        let mut joined: Vec<u8> = Vec::new();
        joined.push(code[0]);
        joined.push(code[1]);
        joined.push(code[2]);
        joined.push(code[3]);
        extend_from(&mut joined, chunk_data.as_slice());
        proof {
            assert(joined@ =~= chunk_type@ + chunk_data@);
        }
        let crc: u32 = crc32_png_of(joined.as_slice());
        let length: u32 = chunk_data.len() as u32;
        Chunk { length, chunk_type, chunk_data, crc }
    }

    /// Decode one chunk from the front of a byte buffer; bytes beyond the
    /// chunk's own 12 + length are allowed and ignored.
    pub fn try_from(bytes: &[u8]) -> (r: Result<Chunk, ChunkDecodingError>)
        ensures
            r matches Ok(c) ==> spec_decode(bytes@) == Ok::<ChunkView, ChunkDecodingError>(c@),
            r matches Err(e) ==> spec_decode(bytes@) == Err::<ChunkView, ChunkDecodingError>(e),
    {
        if bytes.len() < 4 {
            return Err(ChunkDecodingError::BadLength(bytes.len(), 4));
        }
        let declared: u32 = read_u32_be(bytes, 0);
        if declared >= MAXIMUM_LENGTH {
            return Err(ChunkDecodingError::LongLength(declared as usize));
        }
        if bytes.len() < 8 {
            return Err(ChunkDecodingError::BadLength(bytes.len(), 8));
        }
        let code: [u8; 4] = [bytes[4], bytes[5], bytes[6], bytes[7]];
        proof {
            assert(code@ =~= bytes@.subrange(4, 8));
        }
        let chunk_type = match ChunkType::try_from(code) {
            Ok(t) => t,
            Err(e) => {
                return Err(ChunkDecodingError::BadType(e));
            },
        };
        let needed: usize = 12 + declared as usize;
        if bytes.len() < needed {
            return Err(ChunkDecodingError::BadLength(bytes.len(), needed));
        }
        let data_slice: &[u8] = &bytes[8..8 + declared as usize];
        let chunk_data: Vec<u8> = vstd::slice::slice_to_vec(data_slice);
        let supplied: u32 = read_u32_be(bytes, 8 + declared as usize);
        let mut joined: Vec<u8> = Vec::new();
        joined.push(code[0]);
        joined.push(code[1]);
        joined.push(code[2]);
        joined.push(code[3]);
        extend_from(&mut joined, chunk_data.as_slice());
        proof {
            assert(joined@ =~= bytes@.subrange(4, 8) + bytes@.subrange(
                8,
                8 + declared as int,
            ));
        }
        let expected: u32 = crc32_png_of(joined.as_slice());
        if supplied != expected {
            return Err(ChunkDecodingError::BadCrc(supplied, expected));
        }
        let c = Chunk { length: declared, chunk_type, chunk_data, crc: supplied };
        proof {
            assert(spec_decode(bytes@) matches Ok(v) && v =~= c@);
        }
        Ok(c)
    }

    /// The number of bytes in the chunk's data field alone; the serialized
    /// chunk holds 12 more.
    pub fn length(&self) -> (r: u32)
        ensures
            r == self@.length,
    {
        self.length
    }

    /// The chunk's type code.
    pub fn chunk_type(&self) -> (r: &ChunkType)
        ensures
            r@ == self@.type_code,
    {
        &self.chunk_type
    }

    /// The chunk's data bytes, borrowed.
    pub fn data(&self) -> (r: &[u8])
        ensures
            r@ == self@.data,
    {
        self.chunk_data.as_slice()
    }

    /// The chunk's checksum, as computed at construction.
    pub fn crc(&self) -> (r: u32)
        ensures
            r == self@.crc,
    {
        self.crc
    }

    /// The data payload interpreted as UTF-8 text; fails exactly when the
    /// data bytes are not a valid UTF-8 encoding.
    pub fn data_as_string(&self) -> (r: Result<String, ChunkDecodingError>)
        ensures
            r is Ok <==> valid_utf8(self@.data),
            r matches Ok(s) ==> s@ == decode_utf8(self@.data),
            r matches Err(e) ==> e == ChunkDecodingError::NotUtf8,
    {
        match utf8_to_string(self.chunk_data.as_slice()) {
            Some(s) => Ok(s),
            None => Err(ChunkDecodingError::NotUtf8),
        }
    }

    /// Render the chunk for diagnostics: its type code as text. The data
    /// payload may be arbitrary binary, so it is not rendered.
    pub fn to_text(&self) -> (r: String)
        ensures
            r@.len() == 4,
            forall|i: int| 0 <= i < 4 ==> #[trigger] r@[i] == self@.type_code[i] as char,
    {
        self.chunk_type.to_text()
    }

    /// Serialize the chunk into its exact byte layout: big-endian length,
    /// type code, data, big-endian checksum.
    pub fn as_bytes(&self) -> (r: Vec<u8>)
        ensures
            r@ == spec_encode(self@),
    {
        let mut out: Vec<u8> = Vec::new();
        push_u32_be(&mut out, self.length);
        let code: [u8; 4] = self.chunk_type.bytes();
        out.push(code[0]);
        out.push(code[1]);
        out.push(code[2]);
        out.push(code[3]);
        extend_from(&mut out, self.chunk_data.as_slice());
        push_u32_be(&mut out, self.crc);
        proof {
            assert(out@ =~= spec_encode(self@));
        }
        out
    }
}

} // verus!

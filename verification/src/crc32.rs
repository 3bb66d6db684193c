//! The CRC-32 checksum that guards a chunk's integrity.

use vstd::prelude::*;

verus! {

/// The CRC-32 checksum of a byte sequence, in the parameterization the
/// PNG format prescribes (the `CRC_32_ISO_HDLC` entry of the crc crate's
/// catalog: polynomial 0x04c11db7, initial value 0xffffffff, reflected
/// input and output, final xor 0xffffffff). The checksum is a function of
/// the bytes alone.
pub uninterp spec fn crc32_png(bytes: Seq<u8>) -> u32;

/// Relies on `crc::Crc::<u32>::checksum` with `crc::CRC_32_ISO_HDLC`: a
/// table-driven computation over the input bytes alone, deterministic on
/// every machine.
#[verifier::external_body]
pub(crate) fn crc32_png_of(bytes: &[u8]) -> (r: u32)
    ensures
        r == crc32_png(bytes@),
{
    crc::Crc::<u32>::new(&crc::CRC_32_ISO_HDLC).checksum(bytes)
}

} // verus!

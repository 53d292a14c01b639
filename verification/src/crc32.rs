use crate::bytes::push_all;
use vstd::prelude::*;

verus! {

/// The CRC-32 of a byte sequence under the ISO-HDLC (IEEE 802.3) polynomial,
/// the checksum the `crc` crate computes for `CRC_32_ISO_HDLC`. The value is
/// a function of the bytes alone, so it carries no definition here: every
/// fact about a concrete checksum enters through `crc32_iso_hdlc`.
pub uninterp spec fn crc32_of(bytes: Seq<u8>) -> u32;

/// Relies on `crc::Crc::<u32>::checksum` with the `CRC_32_ISO_HDLC`
/// algorithm: a table-driven computation whose result depends on the input
/// bytes alone.
#[verifier::external_body]
fn crc32_iso_hdlc(bytes: &[u8]) -> (r: u32)
    ensures
        r == crc32_of(bytes@),
{
    crc::Crc::<u32>::new(&crc::CRC_32_ISO_HDLC).checksum(bytes)
}

/// The checksum of a chunk: CRC-32 over the type code followed by the payload.
pub fn generate_crc(chunk_bytes: &[u8], data: &[u8]) -> (r: u32)
    ensures
        r == crc32_of(chunk_bytes@ + data@),
{
    let mut combined: Vec<u8> = Vec::new();
    push_all(&mut combined, chunk_bytes);
    push_all(&mut combined, data);
    proof {
        assert(combined@ =~= chunk_bytes@ + data@);
    }
    crc32_iso_hdlc(combined.as_slice())
}

/// Whether a stored checksum agrees with the one recomputed over the
/// type code and payload.
pub fn check_crc(chunk_bytes: &[u8], data: &Vec<u8>, crc_to_check: u32) -> (r: bool)
    ensures
        r == (crc32_of(chunk_bytes@ + data@) == crc_to_check),
{
    let calculated = generate_crc(chunk_bytes, data.as_slice());
    calculated == crc_to_check
}

} // verus!

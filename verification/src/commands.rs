use crate::chunk::{Chunk, ChunkView};
use crate::chunk_type::{wf_type_bytes, ChunkType};
use crate::crc32::crc32_of;
use crate::error::PngError;
use crate::png::{spec_parse_png, spec_png_bytes, Png};
use vstd::prelude::*;
use vstd::slice::slice_to_vec;
use vstd::string::StringSliceAdditionalSpecFns;

verus! {

/// Embeds a message in a file buffer: the buffer is parsed, a chunk holding
/// the message under the given type code is appended at the end, and the new
/// buffer is returned. Fails with the parse error when the buffer is not a
/// well-formed file, and with `InvalidChunkType` when the type code text is
/// rejected, in that order.
pub fn encode_message(buffer: &[u8], chunk_type: &str, message: &str) -> (r: Result<
    Vec<u8>,
    PngError,
>)
    requires
        message.spec_bytes().len() <= u32::MAX,
    ensures
        match r {
            Ok(out) => {
                &&& spec_parse_png(buffer@) matches Ok(cs) && out@ == spec_png_bytes(
                    cs.push(
                        ChunkView {
                            ctype: chunk_type.spec_bytes(),
                            data: message.spec_bytes(),
                            crc: crc32_of(chunk_type.spec_bytes() + message.spec_bytes()),
                        },
                    ),
                )
                &&& wf_type_bytes(chunk_type.spec_bytes())
            },
            Err(e) => match spec_parse_png(buffer@) {
                Ok(_) => !wf_type_bytes(chunk_type.spec_bytes()) && e == PngError::InvalidChunkType,
                Err(pe) => e == pe,
            },
        },
{
    let mut png = match Png::try_from(buffer) {
        Ok(p) => p,
        Err(e) => {
            return Err(e);
        },
    };
    let ct = match ChunkType::from_str(chunk_type) {
        Ok(t) => t,
        Err(e) => {
            return Err(e);
        },
    };
    let data = slice_to_vec(message.as_bytes());
    let chunk = Chunk::new(ct, data);
    png.append_chunk(chunk);
    Ok(png.as_bytes())
}

} // verus!

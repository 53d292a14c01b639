use crate::bytes::{
    be32_bytes, be32_val, be32_val_at, flip_bit, lemma_be32_injective, lemma_be32_roundtrip,
    lemma_flip_bit_changes, push_be32, read_be32,
};
use crate::chunk_type::{wf_type_bytes, ChunkType};
use crate::crc32::{check_crc, crc32_of, generate_crc};
use crate::error::PngError;
use crate::text::utf8_to_string;
use vstd::prelude::*;
use vstd::utf8::{decode_utf8, valid_utf8};

verus! {

/// The mathematical content of a chunk: its type code, its payload, and the
/// checksum it carries.
#[verifier::ext_equal]
pub ghost struct ChunkView {
    pub ctype: Seq<u8>,
    pub data: Seq<u8>,
    pub crc: u32,
}

/// A well-formed chunk: a well-formed type code, a payload whose length fits
/// the four-byte length field, and a checksum computed over the type code
/// followed by the payload.
pub open spec fn wf_chunk_view(cv: ChunkView) -> bool {
    &&& wf_type_bytes(cv.ctype)
    &&& cv.data.len() <= u32::MAX
    &&& cv.crc == crc32_of(cv.ctype + cv.data)
}

/// The serialized form of a chunk: big-endian length, type code, payload,
/// big-endian checksum.
pub open spec fn spec_chunk_bytes(cv: ChunkView) -> Seq<u8> {
    be32_bytes(cv.data.len() as u32) + cv.ctype + cv.data + be32_bytes(cv.crc)
}

/// What parsing one chunk region from the front of a buffer yields: the
/// chunk, or the first failure among truncation, an invalid type code, and
/// a checksum mismatch, in that order.
pub open spec fn spec_parse_chunk(s: Seq<u8>) -> Result<ChunkView, PngError> {
    if s.len() < 12 {
        Err(PngError::TruncatedChunk)
    } else {
        let len = be32_val_at(s, 0) as int;
        if s.len() - 12 < len {
            Err(PngError::TruncatedChunk)
        } else {
            let t = s.subrange(4, 8);
            if !wf_type_bytes(t) {
                Err(PngError::InvalidChunkType)
            } else {
                let data = s.subrange(8, 8 + len);
                let stored = be32_val_at(s, 8 + len);
                let computed = crc32_of(t + data);
                if stored != computed {
                    Err(PngError::ChecksumMismatch { expected: stored, computed })
                } else {
                    Ok(ChunkView { ctype: t, data, crc: stored })
                }
            }
        }
    }
}

/// One PNG chunk: a length, a validated type code, an owned payload, and a
/// checksum over type code and payload. Immutable once built.
#[derive(Debug)]
pub struct Chunk {
    length: u32,
    chunk_type: ChunkType,
    data: Vec<u8>,
    crc: u32,
}

impl View for Chunk {
    type V = ChunkView;

    closed spec fn view(&self) -> ChunkView {
        ChunkView { ctype: self.chunk_type@, data: self.data@, crc: self.crc }
    }
}

impl Chunk {
    #[verifier::type_invariant]
    pub(crate) closed spec fn wf(self) -> bool {
        &&& wf_chunk_view(self@)
        &&& self.length == self.data@.len()
    }

    /// A chunk satisfying its type invariant has a well-formed view.
    pub(crate) proof fn lemma_wf_view(self)
        requires
            self.wf(),
        ensures
            wf_chunk_view(self@),
    {
    }

    /// Builds a chunk from a validated type code and any payload; the
    /// checksum is computed fresh, so the result is always well formed.
    pub fn new(chunk_type: ChunkType, data: Vec<u8>) -> (r: Chunk)
        requires
            data@.len() <= u32::MAX,
        ensures
            r@ == (ChunkView {
                ctype: chunk_type@,
                data: data@,
                crc: crc32_of(chunk_type@ + data@),
            }),
    {
        proof {
            use_type_invariant(&chunk_type);
        }
        let type_bytes = chunk_type.bytes();
        let crc = generate_crc(type_bytes.as_slice(), data.as_slice());
        let length = data.len() as u32;
        Chunk { length, chunk_type, data, crc }
    }

    /// The payload length.
    pub fn length(&self) -> (r: u32)
        ensures
            r == self@.data.len(),
    {
        proof {
            use_type_invariant(&*self);
        }
        self.length
    }

    /// The payload, verbatim.
    pub fn data(&self) -> (r: &[u8])
        ensures
            r@ == self@.data,
    {
        self.data.as_slice()
    }

    /// The stored checksum, which always equals the CRC-32 of the type code
    /// followed by the payload.
    pub fn crc(&self) -> (r: u32)
        ensures
            r == self@.crc,
            r == crc32_of(self@.ctype + self@.data),
    {
        proof {
            use_type_invariant(&*self);
        }
        self.crc
    }

    /// The chunk's type code.
    pub fn chunk_type(&self) -> (r: &ChunkType)
        ensures
            r@ == self@.ctype,
    {
        &self.chunk_type
    }

    /// The payload read as UTF-8 text; fails with `InvalidText` when the
    /// payload is not a valid encoding.
    pub fn data_as_string(&self) -> (r: Result<String, PngError>)
        ensures
            match r {
                Ok(s) => valid_utf8(self@.data) && s@ == decode_utf8(self@.data),
                Err(e) => !valid_utf8(self@.data) && e == PngError::InvalidText,
            },
    {
        match utf8_to_string(self.data.as_slice()) {
            Some(s) => Ok(s),
            None => Err(PngError::InvalidText),
        }
    }

    /// Serializes the chunk: big-endian length, type code, payload,
    /// big-endian checksum.
    pub fn as_bytes(&self) -> (r: Vec<u8>)
        ensures
            r@ == spec_chunk_bytes(self@),
    {
        proof {
            use_type_invariant(&*self);
        }
        let mut out: Vec<u8> = Vec::new();
        push_be32(&mut out, self.length);
        let tb = self.chunk_type.bytes();
        out.push(tb[0]);
        out.push(tb[1]);
        out.push(tb[2]);
        out.push(tb[3]);
        proof {
            assert(out@ =~= be32_bytes(self.length) + self.chunk_type@);
        }
        let mut i: usize = 0;
        while i < self.data.len()
            invariant
                i <= self.data@.len(),
                out@ == be32_bytes(self.length) + self.chunk_type@ + self.data@.subrange(
                    0,
                    i as int,
                ),
            decreases self.data@.len() - i,
        {
            out.push(self.data[i]);
            i = i + 1;
            proof {
                assert(out@ =~= be32_bytes(self.length) + self.chunk_type@ + self.data@.subrange(
                    0,
                    i as int,
                ));
            }
        }
        push_be32(&mut out, self.crc);
        proof {
            assert(self.data@.subrange(0, self.data@.len() as int) =~= self.data@);
            assert(out@ =~= spec_chunk_bytes(self@));
        }
        out
    }

    /// Parses one chunk region from the front of a buffer, in four steps:
    /// at least twelve bytes must be present, the declared payload and the
    /// checksum must fit in what remains, the type code must validate, and
    /// the stored checksum must match the recomputed one. Bytes after the
    /// chunk region are ignored.
    pub fn try_from(value: &[u8]) -> (r: Result<Chunk, PngError>)
        ensures
            match r {
                Ok(c) => spec_parse_chunk(value@) == Ok::<ChunkView, PngError>(c@) && 12
                    + c@.data.len() <= value@.len(),
                Err(e) => spec_parse_chunk(value@) == Err::<ChunkView, PngError>(e),
            },
    {
        if value.len() < 12 {
            return Err(PngError::TruncatedChunk);
        }
        let length = read_be32(value[0], value[1], value[2], value[3]);
        let len = length as usize;
        if value.len() - 12 < len {
            return Err(PngError::TruncatedChunk);
        }
        let type_arr = [value[4], value[5], value[6], value[7]];
        proof {
            assert(type_arr@ =~= value@.subrange(4, 8));
        }
        let chunk_type = match ChunkType::try_from(type_arr) {
            Ok(t) => t,
            Err(_) => {
                return Err(PngError::InvalidChunkType);
            },
        };
        let mut data: Vec<u8> = Vec::new();
        let mut i: usize = 0;
        while i < len
            invariant
                i <= len,
                len + 12 <= value@.len() <= usize::MAX,
                data@ == value@.subrange(8, 8 + i as int),
            decreases len - i,
        {
            data.push(value[8 + i]);
            i = i + 1;
            proof {
                assert(data@ =~= value@.subrange(8, 8 + i as int));
            }
        }
        let stored = read_be32(
            value[8 + len],
            value[8 + len + 1],
            value[8 + len + 2],
            value[8 + len + 3],
        );
        let type_bytes = chunk_type.bytes();
        if !check_crc(type_bytes.as_slice(), &data, stored) {
            let computed = generate_crc(type_bytes.as_slice(), data.as_slice());
            return Err(PngError::ChecksumMismatch { expected: stored, computed });
        }
        let c = Chunk { length, chunk_type, data, crc: stored };
        proof {
            assert(spec_parse_chunk(value@) == Ok::<ChunkView, PngError>(c@));
        }
        Ok(c)
    }
}

/// Law: the serialized form of a well-formed chunk parses back to the chunk
/// itself, whatever bytes follow it in the buffer.
pub proof fn lemma_chunk_round_trip(cv: ChunkView, rest: Seq<u8>)
    requires
        wf_chunk_view(cv),
    ensures
        spec_parse_chunk(spec_chunk_bytes(cv) + rest) == Ok::<ChunkView, PngError>(cv),
{
    let s = spec_chunk_bytes(cv) + rest;
    let n = cv.data.len() as int;
    let lenb = be32_bytes(cv.data.len() as u32);
    let crcb = be32_bytes(cv.crc);
    assert(s.len() == 12 + n + rest.len());
    assert(be32_val_at(s, 0) == be32_val(lenb[0], lenb[1], lenb[2], lenb[3]));
    lemma_be32_roundtrip(cv.data.len() as u32);
    assert(be32_val_at(s, 0) as int == n);
    assert(s.subrange(4, 8) =~= cv.ctype);
    assert(s.subrange(8, 8 + n) =~= cv.data);
    assert(be32_val_at(s, 8 + n) == be32_val(crcb[0], crcb[1], crcb[2], crcb[3]));
    lemma_be32_roundtrip(cv.crc);
    assert(be32_val_at(s, 8 + n) == cv.crc);
    assert(spec_parse_chunk(s) == Ok::<ChunkView, PngError>(cv));
}

/// Law: flipping any single bit of the checksum field of a serialized chunk
/// makes parsing fail with a checksum mismatch; the recomputed value is the
/// true checksum and the stored one no longer agrees with it.
pub proof fn lemma_checksum_bit_flip(cv: ChunkView, i: int, k: u8)
    requires
        wf_chunk_view(cv),
        8 + cv.data.len() <= i < 12 + cv.data.len(),
        k < 8,
    ensures
        spec_parse_chunk(flip_bit(spec_chunk_bytes(cv), i, k)) matches Err(
            PngError::ChecksumMismatch { expected, computed },
        ) && computed == cv.crc && expected != cv.crc,
{
    let orig = spec_chunk_bytes(cv);
    let s = flip_bit(orig, i, k);
    let n = cv.data.len() as int;
    let lenb = be32_bytes(cv.data.len() as u32);
    let crcb = be32_bytes(cv.crc);
    assert(s.len() == orig.len() == 12 + n);
    lemma_flip_bit_changes(orig[i], k);
    assert(s[i] != orig[i]);
    assert(forall|j: int| 0 <= j < s.len() && j != i ==> s[j] == orig[j]);
    assert(be32_val_at(s, 0) == be32_val(lenb[0], lenb[1], lenb[2], lenb[3]));
    lemma_be32_roundtrip(cv.data.len() as u32);
    assert(be32_val_at(s, 0) as int == n);
    assert(s.subrange(4, 8) =~= cv.ctype);
    assert(s.subrange(8, 8 + n) =~= cv.data);
    let stored = be32_val_at(s, 8 + n);
    assert(stored != cv.crc) by {
        lemma_be32_roundtrip(cv.crc);
        assert(be32_val(crcb[0], crcb[1], crcb[2], crcb[3]) == cv.crc);
        if stored == cv.crc {
            lemma_be32_injective(
                s[8 + n],
                s[8 + n + 1],
                s[8 + n + 2],
                s[8 + n + 3],
                crcb[0],
                crcb[1],
                crcb[2],
                crcb[3],
            );
        }
    }
    assert(spec_parse_chunk(s) == Err::<ChunkView, PngError>(
        PngError::ChecksumMismatch { expected: stored, computed: cv.crc },
    ));
}

/// Law: a buffer of fewer than twelve bytes, or one whose declared payload
/// length exceeds what the remaining bytes can supply, parses to a
/// truncation error.
pub proof fn lemma_truncated_chunk(s: Seq<u8>)
    requires
        s.len() < 12 || (s.len() >= 12 && s.len() - 12 < be32_val_at(s, 0)),
    ensures
        spec_parse_chunk(s) == Err::<ChunkView, PngError>(PngError::TruncatedChunk),
{
}

} // verus!

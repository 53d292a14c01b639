use crate::error::PngError;
use crate::text::{lemma_ascii_valid_utf8, utf8_to_string};
use vstd::pervasive::unreached;
use vstd::prelude::*;
use vstd::string::StringSliceAdditionalSpecFns;
use vstd::utf8::{decode_utf8, decode_utf8_encode_utf8, encode_utf8};

verus! {

/// An ASCII uppercase letter.
pub open spec fn is_upper(b: u8) -> bool {
    65 <= b <= 90
}

/// An ASCII lowercase letter.
pub open spec fn is_lower(b: u8) -> bool {
    97 <= b <= 122
}

/// An ASCII letter.
pub open spec fn is_alpha(b: u8) -> bool {
    is_upper(b) || is_lower(b)
}

/// A well-formed type code: exactly four ASCII letters whose third letter is
/// uppercase (the reserved bit must be clear).
pub open spec fn wf_type_bytes(t: Seq<u8>) -> bool {
    &&& t.len() == 4
    &&& forall|i: int| 0 <= i < 4 ==> is_alpha(#[trigger] t[i])
    &&& is_upper(t[2])
}

/// A validated four-byte chunk type code. The case of each letter encodes one
/// boolean property; the third letter is always uppercase by construction.
#[derive(Debug, Clone, Copy, PartialEq, Eq)]
pub struct ChunkType {
    bytes: [u8; 4],
}

impl View for ChunkType {
    type V = Seq<u8>;

    closed spec fn view(&self) -> Seq<u8> {
        self.bytes@
    }
}

impl ChunkType {
    #[verifier::type_invariant]
    pub(crate) open spec fn wf(self) -> bool {
        wf_type_bytes(self@)
    }

    /// The four raw bytes of the type code, verbatim.
    pub fn bytes(&self) -> (r: [u8; 4])
        ensures
            r@ == self@,
    {
        self.bytes
    }

    /// Critical bit: the first letter is uppercase for a critical chunk,
    /// lowercase for an ancillary one.
    pub fn is_critical(&self) -> (r: bool)
        ensures
            r == is_upper(self@[0]),
    {
        65 <= self.bytes[0] && self.bytes[0] <= 90
    }

    /// Private bit: the second letter is uppercase for a public chunk,
    /// lowercase for a private one.
    pub fn is_public(&self) -> (r: bool)
        ensures
            r == is_upper(self@[1]),
    {
        65 <= self.bytes[1] && self.bytes[1] <= 90
    }

    /// Reserved bit: the third letter must be uppercase.
    pub fn is_reserved_bit_valid(&self) -> (r: bool)
        ensures
            r == is_upper(self@[2]),
    {
        65 <= self.bytes[2] && self.bytes[2] <= 90
    }

    /// Safe-to-copy bit: the fourth letter is lowercase when the chunk is
    /// safe to copy, uppercase when it is not.
    pub fn is_safe_to_copy(&self) -> (r: bool)
        ensures
            r == is_lower(self@[3]),
    {
        97 <= self.bytes[3] && self.bytes[3] <= 122
    }

    /// Whether every byte is an ASCII letter and the reserved bit is clear.
    pub fn is_valid(&self) -> (r: bool)
        ensures
            r == wf_type_bytes(self@),
    {
        all_alpha(&self.bytes) && self.is_reserved_bit_valid()
    }

    /// Builds a type code from four raw bytes. Fails with `InvalidChunkType`
    /// when a byte is not an ASCII letter or the reserved bit is set.
    pub fn try_from(value: [u8; 4]) -> (r: Result<ChunkType, PngError>)
        ensures
            match r {
                Ok(t) => wf_type_bytes(value@) && t@ == value@,
                Err(e) => !wf_type_bytes(value@) && e == PngError::InvalidChunkType,
            },
    {
        if all_alpha(&value) && 65 <= value[2] && value[2] <= 90 {
            Ok(ChunkType { bytes: value })
        } else {
            Err(PngError::InvalidChunkType)
        }
    }

    /// Builds a type code from a four-character string. Fails with
    /// `InvalidChunkType` when the string is not exactly four bytes long or
    /// its bytes fail the checks of `try_from`.
    pub fn from_str(s: &str) -> (r: Result<ChunkType, PngError>)
        ensures
            match r {
                Ok(t) => wf_type_bytes(s.spec_bytes()) && t@ == s.spec_bytes(),
                Err(e) => !wf_type_bytes(s.spec_bytes()) && e == PngError::InvalidChunkType,
            },
    {
        match str_to_bytes(s) {
            Ok(arr) => ChunkType::try_from(arr),
            Err(e) => Err(e),
        }
    }

    /// The type code as text, four ASCII letters.
    pub fn to_string(&self) -> (r: String)
        ensures
            r@ == decode_utf8(self@),
            encode_utf8(r@) == self@,
    {
        proof {
            use_type_invariant(&*self);
        }
        let mut v: Vec<u8> = Vec::new();
        v.push(self.bytes[0]);
        v.push(self.bytes[1]);
        v.push(self.bytes[2]);
        v.push(self.bytes[3]);
        proof {
            assert(v@ =~= self@);
            lemma_ascii_valid_utf8(self@);
        }
        match utf8_to_string(v.as_slice()) {
            Some(s) => {
                proof {
                    decode_utf8_encode_utf8(self@);
                }
                s
            },
            None => unreached(),
        }
    }
}

/// Whether all four bytes are ASCII letters.
fn all_alpha(value: &[u8; 4]) -> (r: bool)
    ensures
        r == forall|i: int| 0 <= i < 4 ==> is_alpha(#[trigger] value@[i]),
{
    let mut i: usize = 0;
    while i < 4
        invariant
            i <= 4,
            forall|j: int| 0 <= j < i ==> is_alpha(#[trigger] value@[j]),
        decreases 4 - i,
    {
        if !is_valid_byte(value[i]) {
            return false;
        }
        i = i + 1;
    }
    true
}

/// Whether a byte is an ASCII letter, `A`-`Z` or `a`-`z`.
pub fn is_valid_byte(byte: u8) -> (r: bool)
    ensures
        r == is_alpha(byte),
{
    (65 <= byte && byte <= 90) || (97 <= byte && byte <= 122)
}

/// The four bytes of a string, when it is exactly four bytes long.
fn str_to_bytes(s: &str) -> (r: Result<[u8; 4], PngError>)
    ensures
        match r {
            Ok(b) => s.spec_bytes().len() == 4 && b@ == s.spec_bytes(),
            Err(e) => s.spec_bytes().len() != 4 && e == PngError::InvalidChunkType,
        },
{
    let bytes = s.as_bytes();
    if bytes.len() != 4 {
        return Err(PngError::InvalidChunkType);
    }
    let arr = [bytes[0], bytes[1], bytes[2], bytes[3]];
    proof {
        assert(arr@ =~= s.spec_bytes());
    }
    Ok(arr)
}

} // verus!

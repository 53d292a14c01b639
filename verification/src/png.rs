use crate::bytes::push_all;
use crate::chunk::{
    lemma_chunk_round_trip, spec_chunk_bytes, spec_parse_chunk, wf_chunk_view, Chunk, ChunkView,
};
use crate::chunk_type::ChunkType;
use crate::error::PngError;
use vstd::prelude::*;
use vstd::slice::slice_subrange;
use vstd::string::StringSliceAdditionalSpecFns;

verus! {

/// The fixed eight-byte PNG file signature.
pub open spec fn spec_signature() -> Seq<u8> {
    seq![137u8, 80u8, 78u8, 71u8, 13u8, 10u8, 26u8, 10u8]
}

/// The serialized form of a sequence of chunks, back to back.
pub open spec fn spec_chunks_bytes(s: Seq<ChunkView>) -> Seq<u8>
    decreases s.len(),
{
    if s.len() == 0 {
        Seq::empty()
    } else {
        spec_chunk_bytes(s[0]) + spec_chunks_bytes(s.skip(1))
    }
}

/// The serialized form of a whole file: the signature, then every chunk.
pub open spec fn spec_png_bytes(s: Seq<ChunkView>) -> Seq<u8> {
    spec_signature() + spec_chunks_bytes(s)
}

/// What parsing a run of chunks until the buffer is exhausted yields: the
/// chunks in encounter order, or the first chunk failure.
pub open spec fn spec_parse_chunks(s: Seq<u8>) -> Result<Seq<ChunkView>, PngError>
    decreases s.len(),
{
    if s.len() == 0 {
        Ok(Seq::empty())
    } else {
        match spec_parse_chunk(s) {
            Err(e) => Err(e),
            Ok(cv) => match spec_parse_chunks(s.skip(12 + cv.data.len() as int)) {
                Err(e) => Err(e),
                Ok(rest) => Ok(seq![cv] + rest),
            },
        }
    }
}

/// What parsing a whole buffer yields: the chunk sequence after the
/// signature, or `BadSignature` when the first eight bytes are wrong, or the
/// first chunk failure.
pub open spec fn spec_parse_png(s: Seq<u8>) -> Result<Seq<ChunkView>, PngError> {
    if s.len() < 8 || s.subrange(0, 8) != spec_signature() {
        Err(PngError::BadSignature)
    } else {
        spec_parse_chunks(s.skip(8))
    }
}

/// Every chunk of the sequence is well formed.
pub open spec fn wf_chunk_seq(s: Seq<ChunkView>) -> bool {
    forall|i: int| 0 <= i < s.len() ==> wf_chunk_view(#[trigger] s[i])
}

/// The chunk at `i` has type code `t` and no earlier chunk does.
pub open spec fn first_match(s: Seq<ChunkView>, t: Seq<u8>, i: int) -> bool {
    &&& 0 <= i < s.len()
    &&& s[i].ctype == t
    &&& forall|j: int| 0 <= j < i ==> (#[trigger] s[j]).ctype != t
}

/// No chunk of the sequence has type code `t`.
pub open spec fn no_match(s: Seq<ChunkView>, t: Seq<u8>) -> bool {
    forall|j: int| 0 <= j < s.len() ==> (#[trigger] s[j]).ctype != t
}

/// A chunk prefix put in front of the outcome of parsing the rest.
pub open spec fn prepend_chunks(
    prefix: Seq<ChunkView>,
    r: Result<Seq<ChunkView>, PngError>,
) -> Result<Seq<ChunkView>, PngError> {
    match r {
        Ok(s) => Ok(prefix + s),
        Err(e) => Err(e),
    }
}

/// Prefixes compose: prepending one prefix and then another is prepending
/// their concatenation.
proof fn lemma_prepend_prepend(
    p1: Seq<ChunkView>,
    p2: Seq<ChunkView>,
    r: Result<Seq<ChunkView>, PngError>,
)
    ensures
        prepend_chunks(p1, prepend_chunks(p2, r)) == prepend_chunks(p1 + p2, r),
{
    match r {
        Ok(s) => {
            assert(p1 + (p2 + s) =~= (p1 + p2) + s);
        },
        Err(_) => {},
    }
}

/// The whole PNG file abstraction: the fixed signature followed by an
/// ordered sequence of chunks. Its view is that sequence.
#[derive(Debug)]
pub struct Png {
    chunks: Vec<Chunk>,
}

impl View for Png {
    type V = Seq<ChunkView>;

    closed spec fn view(&self) -> Seq<ChunkView> {
        Seq::new(self.chunks@.len(), |i: int| self.chunks@[i]@)
    }
}

impl Png {
    /// A container holding the signature and no chunks.
    pub fn new() -> (r: Png)
        ensures
            r@ == Seq::<ChunkView>::empty(),
    {
        let r = Png { chunks: Vec::new() };
        proof {
            assert(r@ =~= Seq::<ChunkView>::empty());
        }
        r
    }

    /// Parses a whole file buffer: the signature must match, and chunks are
    /// then parsed until the buffer is exhausted. Any chunk failure aborts
    /// the whole parse.
    pub fn try_from(value: &[u8]) -> (r: Result<Png, PngError>)
        ensures
            match r {
                Ok(png) => spec_parse_png(value@) == Ok::<Seq<ChunkView>, PngError>(png@),
                Err(e) => spec_parse_png(value@) == Err::<Seq<ChunkView>, PngError>(e),
            },
    {
        if value.len() < 8 {
            return Err(PngError::BadSignature);
        }
        if !(value[0] == 137 && value[1] == 80 && value[2] == 78 && value[3] == 71 && value[4]
            == 13 && value[5] == 10 && value[6] == 26 && value[7] == 10) {
            return Err(PngError::BadSignature);
        }
        proof {
            assert(value@.subrange(0, 8) =~= spec_signature());
        }
        let ghost tail = value@.skip(8);
        let mut chunks: Vec<Chunk> = Vec::new();
        let mut offset: usize = 8;
        while offset < value.len()
            invariant
                8 <= offset <= value@.len() <= usize::MAX,
                value@.subrange(0, 8) == spec_signature(),
                spec_parse_chunks(tail) == prepend_chunks(
                    Seq::new(chunks@.len(), |i: int| chunks@[i]@),
                    spec_parse_chunks(value@.skip(offset as int)),
                ),
                tail == value@.skip(8),
            decreases value@.len() - offset,
        {
            let ghost views = Seq::new(chunks@.len(), |i: int| chunks@[i]@);
            let rest = slice_subrange(value, offset, value.len());
            proof {
                assert(value@.skip(offset as int) =~= rest@);
            }
            match Chunk::try_from(rest) {
                Ok(c) => {
                    let ghost cv = c@;
                    let step = 12usize + (c.length() as usize);
                    proof {
                        assert(rest@.len() != 0);
                        assert(value@.skip(offset as int + step as int) =~= rest@.skip(
                            step as int,
                        ));
                        assert(spec_parse_chunks(rest@) == prepend_chunks(
                            seq![cv],
                            spec_parse_chunks(rest@.skip(step as int)),
                        ));
                        lemma_prepend_prepend(
                            views,
                            seq![cv],
                            spec_parse_chunks(rest@.skip(step as int)),
                        );
                    }
                    chunks.push(c);
                    proof {
                        assert(Seq::new(chunks@.len(), |i: int| chunks@[i]@) =~= views + seq![cv]);
                    }
                    offset = offset + step;
                },
                Err(e) => {
                    proof {
                        assert(rest@.len() != 0);
                        assert(spec_parse_chunks(rest@) == Err::<Seq<ChunkView>, PngError>(e));
                        assert(spec_parse_chunks(tail) == Err::<Seq<ChunkView>, PngError>(e));
                        assert(spec_parse_png(value@) == Err::<Seq<ChunkView>, PngError>(e));
                    }
                    return Err(e);
                },
            }
        }
        let png = Png { chunks };
        proof {
            assert(value@.skip(offset as int).len() == 0);
            assert(spec_parse_chunks(value@.skip(offset as int)) == Ok::<
                Seq<ChunkView>,
                PngError,
            >(Seq::empty()));
            assert(png@ =~= Seq::new(png.chunks@.len(), |i: int| png.chunks@[i]@) + Seq::empty());
            assert(spec_parse_png(value@) == Ok::<Seq<ChunkView>, PngError>(png@));
        }
        Ok(png)
    }

    /// Adds a chunk at the end of the sequence; existing chunks keep their
    /// order, and duplicate type codes are allowed.
    pub fn append_chunk(&mut self, chunk: Chunk)
        ensures
            final(self)@ == old(self)@.push(chunk@),
    {
        self.chunks.push(chunk);
        proof {
            assert(self@ =~= old(self)@.push(chunk@));
        }
    }

    /// A read-only view of the chunk sequence, in order.
    pub fn chunks(&self) -> (r: &[Chunk])
        ensures
            r@.len() == self@.len(),
            forall|i: int| 0 <= i < r@.len() ==> (#[trigger] r@[i])@ == self@[i],
    {
        self.chunks.as_slice()
    }

    /// The first chunk, in sequence order, whose type code equals the given
    /// text, or `None` when no chunk has that type.
    pub fn chunk_by_type(&self, chunk_type: &str) -> (r: Option<&Chunk>)
        ensures
            match r {
                Some(c) => exists|i: int|
                    #[trigger] first_match(self@, chunk_type.spec_bytes(), i) && c@ == self@[i],
                None => no_match(self@, chunk_type.spec_bytes()),
            },
    {
        let target = chunk_type.as_bytes();
        let mut j: usize = 0;
        while j < self.chunks.len()
            invariant
                j <= self.chunks@.len(),
                target@ == chunk_type.spec_bytes(),
                self@.len() == self.chunks@.len(),
                forall|i: int| 0 <= i < j ==> (#[trigger] self@[i]).ctype != target@,
            decreases self.chunks@.len() - j,
        {
            let c = &self.chunks[j];
            if type_matches(c.chunk_type(), target) {
                proof {
                    assert(first_match(self@, chunk_type.spec_bytes(), j as int));
                }
                return Some(c);
            }
            j = j + 1;
        }
        None
    }

    /// Removes and returns the first chunk whose type code equals the given
    /// text; later chunks keep their order. Fails with `ChunkNotFound`, and
    /// leaves the container unchanged, when no chunk has that type.
    pub fn remove_chunk(&mut self, chunk_type: &str) -> (r: Result<Chunk, PngError>)
        ensures
            match r {
                Ok(c) => exists|i: int|
                    #[trigger] first_match(old(self)@, chunk_type.spec_bytes(), i) && c@ == old(
                        self,
                    )@[i] && final(self)@ == old(self)@.remove(i),
                Err(e) => e == PngError::ChunkNotFound && no_match(
                    old(self)@,
                    chunk_type.spec_bytes(),
                ) && final(self)@ == old(self)@,
            },
    {
        let target = chunk_type.as_bytes();
        let mut j: usize = 0;
        while j < self.chunks.len()
            invariant
                j <= self.chunks@.len(),
                target@ == chunk_type.spec_bytes(),
                self@.len() == self.chunks@.len(),
                self == old(self),
                forall|i: int| 0 <= i < j ==> (#[trigger] self@[i]).ctype != target@,
            decreases self.chunks@.len() - j,
        {
            if type_matches(self.chunks[j].chunk_type(), target) {
                let c = self.chunks.remove(j);
                proof {
                    assert(first_match(old(self)@, chunk_type.spec_bytes(), j as int));
                    assert(self@ =~= old(self)@.remove(j as int));
                }
                return Ok(c);
            }
            j = j + 1;
        }
        Err(PngError::ChunkNotFound)
    }

    /// Serializes the container: the signature, then every chunk in order.
    /// The chunk sequence of a container is always well formed, which the
    /// second clause records for the round-trip law.
    pub fn as_bytes(&self) -> (r: Vec<u8>)
        ensures
            r@ == spec_png_bytes(self@),
            wf_chunk_seq(self@),
    {
        let mut out: Vec<u8> = Vec::new();
        out.push(137);
        out.push(80);
        out.push(78);
        out.push(71);
        out.push(13);
        out.push(10);
        out.push(26);
        out.push(10);
        proof {
            assert(out@ =~= spec_signature());
            assert(self@.take(0) =~= Seq::<ChunkView>::empty());
        }
        let mut j: usize = 0;
        while j < self.chunks.len()
            invariant
                j <= self.chunks@.len(),
                self@.len() == self.chunks@.len(),
                out@ == spec_signature() + spec_chunks_bytes(self@.take(j as int)),
                forall|i: int| 0 <= i < j ==> wf_chunk_view(#[trigger] self@[i]),
            decreases self.chunks@.len() - j,
        {
            let c = &self.chunks[j];
            proof {
                use_type_invariant(c);
                c.lemma_wf_view();
            }
            let cb = c.as_bytes();
            push_all(&mut out, cb.as_slice());
            proof {
                lemma_chunks_bytes_snoc(self@.take(j as int), self@[j as int]);
                assert(self@.take(j + 1) =~= self@.take(j as int).push(self@[j as int]));
            }
            j = j + 1;
        }
        proof {
            assert(self@.take(self@.len() as int) =~= self@);
        }
        out
    }
}

/// Whether a validated type code spells the same four bytes as `target`.
fn type_matches(c: &ChunkType, target: &[u8]) -> (r: bool)
    ensures
        r == (c@ == target@),
{
    proof {
        use_type_invariant(&*c);
    }
    let b = c.bytes();
    if target.len() != 4 {
        return false;
    }
    let r = b[0] == target[0] && b[1] == target[1] && b[2] == target[2] && b[3] == target[3];
    proof {
        if r {
            assert(c@ =~= target@);
        }
    }
    r
}

/// Serialization distributes over appending one chunk at the end.
proof fn lemma_chunks_bytes_snoc(s: Seq<ChunkView>, cv: ChunkView)
    ensures
        spec_chunks_bytes(s.push(cv)) == spec_chunks_bytes(s) + spec_chunk_bytes(cv),
    decreases s.len(),
{
    let p = s.push(cv);
    if s.len() == 0 {
        assert(p.len() == 1 && p[0] == cv);
        assert(p.skip(1) =~= Seq::<ChunkView>::empty());
        assert(spec_chunks_bytes(p.skip(1)) == Seq::<u8>::empty());
        assert(spec_chunks_bytes(p) == spec_chunk_bytes(cv) + Seq::<u8>::empty());
        assert(spec_chunk_bytes(cv) + Seq::<u8>::empty() =~= spec_chunk_bytes(cv));
        assert(spec_chunks_bytes(s) == Seq::<u8>::empty());
        assert(Seq::<u8>::empty() + spec_chunk_bytes(cv) =~= spec_chunk_bytes(cv));
    } else {
        assert(p.len() == s.len() + 1 && p[0] == s[0]);
        assert(p.skip(1) =~= s.skip(1).push(cv));
        lemma_chunks_bytes_snoc(s.skip(1), cv);
        assert(spec_chunks_bytes(p) == spec_chunk_bytes(s[0]) + (spec_chunks_bytes(s.skip(1))
            + spec_chunk_bytes(cv)));
        assert(spec_chunk_bytes(s[0]) + (spec_chunks_bytes(s.skip(1)) + spec_chunk_bytes(cv)) =~= (
        spec_chunk_bytes(s[0]) + spec_chunks_bytes(s.skip(1))) + spec_chunk_bytes(cv));
    }
}

/// Parsing a run of chunks whose first region is the serialized form of a
/// well-formed chunk yields that chunk in front of whatever the rest parses
/// to.
#[verifier::spinoff_prover]
#[verifier::rlimit(100)]
proof fn lemma_parse_chunks_cons(cv: ChunkView, rest_bytes: Seq<u8>)
    requires
        wf_chunk_view(cv),
    ensures
        spec_parse_chunks(spec_chunk_bytes(cv) + rest_bytes) == prepend_chunks(
            seq![cv],
            spec_parse_chunks(rest_bytes),
        ),
{
    let bytes = spec_chunk_bytes(cv) + rest_bytes;
    lemma_chunk_round_trip(cv, rest_bytes);
    assert(bytes.len() != 0);
    assert(bytes.skip(12 + cv.data.len() as int) =~= rest_bytes) by {
        assert(spec_chunk_bytes(cv).len() == 12 + cv.data.len());
    }
}

/// Law: serializing any run of well-formed chunks and parsing it back yields
/// exactly those chunks.
proof fn lemma_chunks_round_trip(s: Seq<ChunkView>)
    requires
        wf_chunk_seq(s),
    ensures
        spec_parse_chunks(spec_chunks_bytes(s)) == Ok::<Seq<ChunkView>, PngError>(s),
    decreases s.len(),
{
    if s.len() == 0 {
        assert(s =~= Seq::<ChunkView>::empty());
        assert(spec_chunks_bytes(s) == Seq::<u8>::empty());
    } else {
        let cv = s[0];
        let rest = s.skip(1);
        assert(wf_chunk_view(cv));
        lemma_parse_chunks_cons(cv, spec_chunks_bytes(rest));
        assert(spec_chunks_bytes(s) == spec_chunk_bytes(cv) + spec_chunks_bytes(rest));
        assert(wf_chunk_seq(rest)) by {
            assert(forall|i: int| 0 <= i < rest.len() ==> #[trigger] rest[i] == s[i + 1]);
        }
        lemma_chunks_round_trip(rest);
        assert(spec_parse_chunks(spec_chunks_bytes(s)) == prepend_chunks(
            seq![cv],
            Ok::<Seq<ChunkView>, PngError>(rest),
        ));
        assert(prepend_chunks(seq![cv], Ok::<Seq<ChunkView>, PngError>(rest)) == Ok::<
            Seq<ChunkView>,
            PngError,
        >(seq![cv] + rest));
        assert(seq![cv] + rest =~= s);
    }
}

/// Law: parsing the serialized form of any container state yields that state
/// back — the identical signature and the identical ordered chunk sequence.
pub proof fn lemma_round_trip(s: Seq<ChunkView>)
    requires
        wf_chunk_seq(s),
    ensures
        spec_parse_png(spec_png_bytes(s)) == Ok::<Seq<ChunkView>, PngError>(s),
{
    let b = spec_png_bytes(s);
    assert(b.subrange(0, 8) =~= spec_signature());
    assert(b.skip(8) =~= spec_chunks_bytes(s));
    lemma_chunks_round_trip(s);
}

} // verus!

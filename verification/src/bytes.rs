use vstd::prelude::*;

verus! {

/// The four big-endian bytes of a 32-bit value, most significant first.
pub open spec fn be32_bytes(x: u32) -> Seq<u8> {
    seq![
        ((x >> 24) & 0xff) as u8,
        ((x >> 16) & 0xff) as u8,
        ((x >> 8) & 0xff) as u8,
        (x & 0xff) as u8,
    ]
}

/// The 32-bit value that four big-endian bytes encode.
pub open spec fn be32_val(b0: u8, b1: u8, b2: u8, b3: u8) -> u32 {
    ((b0 as u32) << 24) | ((b1 as u32) << 16) | ((b2 as u32) << 8) | (b3 as u32)
}

/// `be32_val` read off the first four bytes of a sequence.
pub open spec fn be32_val_at(s: Seq<u8>, pos: int) -> u32 {
    be32_val(s[pos], s[pos + 1], s[pos + 2], s[pos + 3])
}

/// Decoding the big-endian bytes of a value gives the value back.
pub proof fn lemma_be32_roundtrip(x: u32)
    ensures
        be32_val(
            ((x >> 24) & 0xff) as u8,
            ((x >> 16) & 0xff) as u8,
            ((x >> 8) & 0xff) as u8,
            (x & 0xff) as u8,
        ) == x,
        be32_val_at(be32_bytes(x), 0) == x,
{
    assert((((((x >> 24) & 0xff) as u8) as u32) << 24) | (((((x >> 16) & 0xff) as u8) as u32)
        << 16) | (((((x >> 8) & 0xff) as u8) as u32) << 8) | (((x & 0xff) as u8) as u32) == x)
        by (bit_vector);
}

/// Two distinct byte quadruples decode to two distinct 32-bit values.
pub proof fn lemma_be32_injective(b0: u8, b1: u8, b2: u8, b3: u8, c0: u8, c1: u8, c2: u8, c3: u8)
    requires
        be32_val(b0, b1, b2, b3) == be32_val(c0, c1, c2, c3),
    ensures
        b0 == c0 && b1 == c1 && b2 == c2 && b3 == c3,
{
    assert((((b0 as u32) << 24) | ((b1 as u32) << 16) | ((b2 as u32) << 8) | (b3 as u32) == ((
    c0 as u32) << 24) | ((c1 as u32) << 16) | ((c2 as u32) << 8) | (c3 as u32)) ==> (b0 == c0 && b1
        == c1 && b2 == c2 && b3 == c3)) by (bit_vector);
}

/// The sequence with bit `k` of the byte at `i` inverted.
pub open spec fn flip_bit(s: Seq<u8>, i: int, k: u8) -> Seq<u8> {
    s.update(i, s[i] ^ (1u8 << k))
}

/// Flipping a bit of a byte changes the byte.
pub proof fn lemma_flip_bit_changes(b: u8, k: u8)
    requires
        k < 8,
    ensures
        b ^ (1u8 << k) != b,
{
    assert(k < 8 ==> b ^ (1u8 << k) != b) by (bit_vector);
}

/// Appends every byte of `src` to `out`, in order.
pub fn push_all(out: &mut Vec<u8>, src: &[u8])
    ensures
        final(out)@ == old(out)@ + src@,
{
    let mut i: usize = 0;
    while i < src.len()
        invariant
            i <= src@.len(),
            out@ == old(out)@ + src@.subrange(0, i as int),
        decreases src@.len() - i,
    {
        out.push(src[i]);
        i = i + 1;
        proof {
            assert(out@ =~= old(out)@ + src@.subrange(0, i as int));
        }
    }
    proof {
        assert(src@.subrange(0, src@.len() as int) =~= src@);
        assert(out@ =~= old(out)@ + src@);
    }
}

/// Appends the four big-endian bytes of `x` to `out`.
pub fn push_be32(out: &mut Vec<u8>, x: u32)
    ensures
        final(out)@ == old(out)@ + be32_bytes(x),
{
    out.push(((x >> 24) & 0xff) as u8);
    out.push(((x >> 16) & 0xff) as u8);
    out.push(((x >> 8) & 0xff) as u8);
    out.push((x & 0xff) as u8);
    proof {
        assert(out@ =~= old(out)@ + be32_bytes(x));
    }
}

/// Combines four big-endian bytes into the 32-bit value they encode.
pub fn read_be32(b0: u8, b1: u8, b2: u8, b3: u8) -> (r: u32)
    ensures
        r == be32_val(b0, b1, b2, b3),
{
    ((b0 as u32) << 24) | ((b1 as u32) << 16) | ((b2 as u32) << 8) | (b3 as u32)
}

} // verus!

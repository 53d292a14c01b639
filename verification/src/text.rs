use vstd::prelude::*;
use vstd::utf8::{
    decode_utf8, is_leading_byte_width_1, length_of_first_scalar, pop_first_scalar,
    valid_first_scalar, valid_utf8,
};

verus! {

/// Relies on std's `String::from_utf8`: it returns the decoded text exactly
/// when the bytes are a valid UTF-8 encoding, and an error otherwise.
#[verifier::external_body]
pub(crate) fn utf8_to_string(bytes: &[u8]) -> (r: Option<String>)
    ensures
        match r {
            Some(s) => valid_utf8(bytes@) && s@ == decode_utf8(bytes@),
            None => !valid_utf8(bytes@),
        },
{
    match String::from_utf8(bytes.to_vec()) {
        Ok(s) => Some(s),
        Err(_) => None,
    }
}

/// A sequence of bytes below 128 is a valid UTF-8 encoding, and decodes
/// one character per byte.
pub proof fn lemma_ascii_valid_utf8(bytes: Seq<u8>)
    requires
        forall|i: int| 0 <= i < bytes.len() ==> bytes[i] < 128,
    ensures
        valid_utf8(bytes),
        decode_utf8(bytes).len() == bytes.len(),
        forall|i: int| 0 <= i < bytes.len() ==> decode_utf8(bytes)[i] == bytes[i] as char,
    decreases bytes.len(),
{
    if bytes.len() != 0 {
        let b0 = bytes[0];
        assert(is_leading_byte_width_1(b0));
        assert(valid_first_scalar(bytes));
        assert(length_of_first_scalar(bytes) == 1);
        let rest = pop_first_scalar(bytes);
        assert(rest =~= bytes.skip(1));
        lemma_ascii_valid_utf8(rest);
        assert((b0 & 0x7f) == b0) by (bit_vector)
            requires
                b0 < 128,
        ;
        assert(decode_utf8(bytes) =~= seq![b0 as char] + decode_utf8(rest));
        assert forall|i: int| 0 <= i < bytes.len() implies decode_utf8(bytes)[i] == bytes[i]
            as char by {
            if i > 0 {
                assert(decode_utf8(bytes)[i] == decode_utf8(rest)[i - 1]);
                assert(rest[i - 1] == bytes[i]);
            }
        }
    }
}

} // verus!

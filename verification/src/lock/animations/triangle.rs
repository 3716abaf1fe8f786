//! A triangle of one colour.

use vstd::prelude::*;

use crate::bytes;

verus! {

/// The colour uniform: red, green, blue and alpha. Each scalar is passed by its bits.
pub fn rgba_bytes(values: &[u32; 4]) -> (encoded: Vec<u8>)
    ensures
        encoded@.len() == 16,
        bytes::holds_words(encoded@, values@),
{
    bytes::encode_words(values.as_slice())
}

} // verus!

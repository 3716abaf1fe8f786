//! Scalars as the graphics buffers hold them. A floating-point scalar is passed by its bits.

use vstd::prelude::*;

verus! {

/// A word with its least significant byte first.
pub open spec fn le_bytes(word: u32) -> Seq<u8> {
    seq![
        (word % 256) as u8,
        (word / 256 % 256) as u8,
        (word / 65_536 % 256) as u8,
        (word / 16_777_216) as u8,
    ]
}

/// A word with its most significant byte first.
pub open spec fn be_bytes(word: u32) -> Seq<u8> {
    le_bytes(word).reverse()
}

/// Whether the four bytes at `at` hold a word in the byte order of a machine.
pub open spec fn holds_word(bytes: Seq<u8>, at: int, word: u32) -> bool {
    &&& 0 <= at && at + 4 <= bytes.len()
    &&& bytes.subrange(at, at + 4) == le_bytes(word) || bytes.subrange(at, at + 4) == be_bytes(word)
}

/// Whether the bytes hold these words, one after the other, and nothing else.
pub open spec fn holds_words(bytes: Seq<u8>, words: Seq<u32>) -> bool {
    &&& bytes.len() == 4 * words.len()
    &&& forall|i: int| 0 <= i < words.len() ==> holds_word(bytes, 4 * i, #[trigger] words[i])
}

/// Calls `u32::to_ne_bytes`. The bytes are those of the word in the byte order of the machine,
/// least or most significant first; which of the two is left open.
#[verifier::external_body]
fn native_bytes(word: u32) -> (bytes: [u8; 4])
    ensures
        bytes@ == le_bytes(word) || bytes@ == be_bytes(word),
{
    word.to_ne_bytes()
}

/// Writes a word in the byte order of the machine.
pub fn write_u32(bytes: &mut Vec<u8>, offset: usize, value: u32)
    requires
        offset + 4 <= old(bytes)@.len(),
    ensures
        final(bytes)@.len() == old(bytes)@.len(),
        holds_word(final(bytes)@, offset as int, value),
        forall|i: int|
            0 <= i < old(bytes)@.len() && !(offset <= i < offset + 4) ==> #[trigger] final(bytes)@[i]
                == old(bytes)@[i],
{
    let len: usize = bytes.len();
    assert(offset + 4 <= len);
    let word = native_bytes(value);
    bytes[offset] = word[0];
    bytes[offset + 1] = word[1];
    bytes[offset + 2] = word[2];
    bytes[offset + 3] = word[3];
    assert(bytes@.subrange(offset as int, offset + 4) == word@);
}

/// Lays words out one after the other, in the byte order of the machine.
pub fn encode_words(words: &[u32]) -> (bytes: Vec<u8>)
    requires
        4 * words@.len() <= usize::MAX,
    ensures
        holds_words(bytes@, words@),
{
    let mut bytes: Vec<u8> = vec![0u8; words.len() * 4];
    let mut index: usize = 0;
    while index < words.len()
        invariant
            index <= words@.len(),
            bytes@.len() == 4 * words@.len(),
            4 * words@.len() <= usize::MAX,
            forall|i: int| 0 <= i < index ==> holds_word(bytes@, 4 * i, #[trigger] words@[i]),
        decreases words@.len() - index,
    {
        let ghost before = bytes@;
        write_u32(&mut bytes, index * 4, words[index]);
        proof {
            assert forall|i: int| 0 <= i < index implies holds_word(
                bytes@,
                4 * i,
                #[trigger] words@[i],
            ) by {
                lemma_word_is_kept(before, bytes@, 4 * i, words@[i]);
            }
        }
        index = index + 1;
    }
    bytes
}

/// A word stays where it is as long as its bytes do.
pub proof fn lemma_word_is_kept(before: Seq<u8>, after: Seq<u8>, at: int, word: u32)
    requires
        holds_word(before, at, word),
        after.len() == before.len(),
        forall|i: int| at <= i < at + 4 ==> #[trigger] after[i] == before[i],
    ensures
        holds_word(after, at, word),
{
    assert(after.subrange(at, at + 4) == before.subrange(at, at + 4));
}

/// Four bytes hold at most one word in a given byte order.
pub proof fn lemma_words_are_readable(first: u32, second: u32)
    requires
        le_bytes(first) == le_bytes(second) || be_bytes(first) == be_bytes(second),
    ensures
        first == second,
{
    let a = le_bytes(first);
    let b = le_bytes(second);
    if be_bytes(first) == be_bytes(second) {
        assert(a =~= a.reverse().reverse());
        assert(b =~= b.reverse().reverse());
    }
    assert(a == b);
    assert(a[0] == b[0] && a[1] == b[1] && a[2] == b[2] && a[3] == b[3]);
}

/// Writes a word with its least significant byte first.
pub fn write_le(bytes: &mut Vec<u8>, offset: usize, value: u32)
    requires
        offset + 4 <= old(bytes)@.len(),
    ensures
        final(bytes)@.len() == old(bytes)@.len(),
        final(bytes)@.subrange(offset as int, offset + 4) == le_bytes(value),
        forall|i: int|
            0 <= i < old(bytes)@.len() && !(offset <= i < offset + 4) ==> #[trigger] final(bytes)@[i]
                == old(bytes)@[i],
{
    let len: usize = bytes.len();
    assert(offset + 4 <= len);
    bytes[offset] = (value % 256) as u8;
    bytes[offset + 1] = (value / 256 % 256) as u8;
    bytes[offset + 2] = (value / 65_536 % 256) as u8;
    bytes[offset + 3] = (value / 16_777_216) as u8;
    assert(bytes@.subrange(offset as int, offset + 4) == le_bytes(value));
}

/// Whether the bytes hold these words, each with its least significant byte first, and nothing
/// else.
pub open spec fn holds_le_words(bytes: Seq<u8>, words: Seq<u32>) -> bool {
    &&& bytes.len() == 4 * words.len()
    &&& forall|i: int|
        0 <= i < words.len() ==> bytes.subrange(4 * i, 4 * i + 4) == le_bytes(#[trigger] words[i])
}

/// Lays words out one after the other, each with its least significant byte first.
pub fn encode_le_words(words: &[u32]) -> (bytes: Vec<u8>)
    requires
        4 * words@.len() <= usize::MAX,
    ensures
        holds_le_words(bytes@, words@),
{
    let mut bytes: Vec<u8> = vec![0u8; words.len() * 4];
    let mut index: usize = 0;
    while index < words.len()
        invariant
            index <= words@.len(),
            bytes@.len() == 4 * words@.len(),
            4 * words@.len() <= usize::MAX,
            forall|i: int|
                0 <= i < index ==> bytes@.subrange(4 * i, 4 * i + 4) == le_bytes(
                    #[trigger] words@[i],
                ),
        decreases words@.len() - index,
    {
        let ghost before = bytes@;
        write_le(&mut bytes, index * 4, words[index]);
        proof {
            assert forall|i: int| 0 <= i < index implies bytes@.subrange(4 * i, 4 * i + 4)
                == le_bytes(#[trigger] words@[i]) by {
                assert(bytes@.subrange(4 * i, 4 * i + 4) == before.subrange(4 * i, 4 * i + 4));
            }
        }
        index = index + 1;
    }
    bytes
}

/// Lays out a matrix of four columns, one after the other. Each scalar is passed by its bits.
pub fn matrix_bytes(matrix: &[u32; 16]) -> (bytes: Vec<u8>)
    ensures
        bytes@.len() == 64,
        holds_words(bytes@, matrix@),
{
    encode_words(matrix.as_slice())
}

} // verus!

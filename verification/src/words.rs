//! Splitting a byte buffer into little-endian 32-bit words.

use vstd::prelude::*;

verus! {

/// The 32-bit value whose little-endian encoding is `b0 b1 b2 b3`.
pub open spec fn le_word(b0: u8, b1: u8, b2: u8, b3: u8) -> u32 {
    (b0 as int + b1 as int * 0x100 + b2 as int * 0x1_0000 + b3 as int * 0x100_0000) as u32
}

/// The `i`-th word of `bytes`: the four bytes that start at offset `4 * i`.
pub open spec fn word_at(bytes: Seq<u8>, i: int) -> u32 {
    le_word(bytes[4 * i], bytes[4 * i + 1], bytes[4 * i + 2], bytes[4 * i + 3])
}

/// All complete words of `bytes`, left to right. A trailing remainder of
/// fewer than four bytes belongs to no word.
pub open spec fn words_of(bytes: Seq<u8>) -> Seq<u32> {
    Seq::new((bytes.len() / 4) as nat, |i: int| word_at(bytes, i))
}

/// Reads the four bytes at `offset` as one little-endian word.
pub fn read_word(data: &[u8], offset: usize) -> (word: u32)
    requires
        offset + 4 <= data.len(),
    ensures
        word == le_word(
            data[offset as int],
            data[offset + 1],
            data[offset + 2],
            data[offset + 3],
        ),
{
    let b0: u32 = data[offset] as u32;
    let b1: u32 = data[offset + 1] as u32;
    let b2: u32 = data[offset + 2] as u32;
    let b3: u32 = data[offset + 3] as u32;
    b0 + b1 * 0x100 + b2 * 0x1_0000 + b3 * 0x100_0000
}

/// Splits `data` into its words.
pub fn chunk_words(data: &[u8]) -> (words: Vec<u32>)
    ensures
        words@ == words_of(data@),
{
    let count: usize = data.len() / 4;
    let mut words: Vec<u32> = Vec::new();
    let mut i: usize = 0;
    while i < count
        invariant
            count == data.len() / 4,
            i <= count,
            words.len() == i,
            forall|k: int| 0 <= k < i ==> words[k] == word_at(data@, k),
        decreases count - i,
    {
        let word = read_word(data, 4 * i);
        words.push(word);
        i = i + 1;
    }
    words
}

/// The number of words is the length divided by four, rounded down, and the
/// bytes behind the last complete word have no part in any word: cutting
/// them off leaves the words as they are.
pub proof fn lemma_trailing_bytes_ignored(bytes: Seq<u8>)
    ensures
        words_of(bytes).len() == bytes.len() / 4,
        words_of(bytes) == words_of(bytes.take(4 * (bytes.len() as int / 4))),
{
    let whole = bytes.take(4 * (bytes.len() as int / 4));
    assert(whole.len() / 4 == bytes.len() / 4);
    assert(words_of(bytes) =~= words_of(whole));
}

/// A buffer shorter than one word, the empty buffer included, has no words.
pub proof fn lemma_short_buffer_has_no_words(bytes: Seq<u8>)
    requires
        bytes.len() < 4,
    ensures
        words_of(bytes) == Seq::<u32>::empty(),
{
    assert(words_of(bytes) =~= Seq::<u32>::empty());
}

/// Behind a buffer of whole words, the words of what follows come after
/// the words of the buffer.
pub proof fn lemma_words_of_concat(first: Seq<u8>, second: Seq<u8>)
    requires
        first.len() % 4 == 0,
    ensures
        words_of(first + second) == words_of(first) + words_of(second),
{
    let both = first + second;
    let n = first.len() / 4;
    assert(both.len() / 4 == n + second.len() / 4);
    assert forall|i: int| 0 <= i < both.len() / 4 implies word_at(both, i) == (words_of(first)
        + words_of(second))[i] by {
        if i < n {
            assert(word_at(both, i) == word_at(first, i));
        } else {
            assert(both[4 * i] == second[4 * (i - n)]);
            assert(both[4 * i + 1] == second[4 * (i - n) + 1]);
            assert(both[4 * i + 2] == second[4 * (i - n) + 2]);
            assert(both[4 * i + 3] == second[4 * (i - n) + 3]);
            assert(word_at(both, i) == word_at(second, i - n));
        }
    }
    assert(words_of(both) =~= words_of(first) + words_of(second));
}

} // verus!

//! Byte-level serialization of 32-bit words, little-endian: how buffer
//! contents and compiled shader words are laid out in host-visible memory.
//!
//! The byte order is fixed little-endian rather than taken from the machine,
//! so the byte image the contracts speak of is the same everywhere; on the
//! little-endian targets this layer drives it coincides with the in-memory
//! order the driver sees.

use vstd::prelude::*;

verus! {

/// The four little-endian bytes of a word.
pub open spec fn word_bytes(w: u32) -> Seq<u8> {
    seq![
        (w & 0xff) as u8,
        ((w >> 8) & 0xff) as u8,
        ((w >> 16) & 0xff) as u8,
        ((w >> 24) & 0xff) as u8,
    ]
}

/// The word denoted by four little-endian bytes.
pub open spec fn word_of_bytes(b0: u8, b1: u8, b2: u8, b3: u8) -> u32 {
    (b0 as u32) | ((b1 as u32) << 8) | ((b2 as u32) << 16) | ((b3 as u32) << 24)
}

/// A word's little-endian bytes denote the word again.
pub proof fn lemma_word_roundtrip(w: u32)
    ensures
        word_of_bytes(
            word_bytes(w)[0],
            word_bytes(w)[1],
            word_bytes(w)[2],
            word_bytes(w)[3],
        ) == w,
{
    assert((((w & 0xff) as u8) as u32) | ((((w >> 8) & 0xff) as u8) as u32) << 8 | ((((w >> 16)
        & 0xff) as u8) as u32) << 16 | ((((w >> 24) & 0xff) as u8) as u32) << 24 == w)
        by (bit_vector);
}

/// The little-endian byte image of a word sequence.
pub open spec fn words_bytes(ws: Seq<u32>) -> Seq<u8>
    decreases ws.len(),
{
    if ws.len() == 0 {
        Seq::empty()
    } else {
        words_bytes(ws.drop_last()) + word_bytes(ws.last())
    }
}

/// The words denoted by a byte sequence, four bytes each, little-endian;
/// trailing bytes beyond the last whole word are ignored.
pub open spec fn bytes_words(bs: Seq<u8>) -> Seq<u32> {
    Seq::new(
        (bs.len() / 4) as nat,
        |i: int| word_of_bytes(bs[4 * i], bs[4 * i + 1], bs[4 * i + 2], bs[4 * i + 3]),
    )
}

/// A word sequence's byte image is four bytes per word.
pub proof fn lemma_words_bytes_len(ws: Seq<u32>)
    ensures
        words_bytes(ws).len() == 4 * ws.len(),
    decreases ws.len(),
{
    if ws.len() > 0 {
        lemma_words_bytes_len(ws.drop_last());
    }
}

/// Appending one word appends its four bytes.
pub proof fn lemma_words_bytes_push(ws: Seq<u32>, w: u32)
    ensures
        words_bytes(ws.push(w)) == words_bytes(ws) + word_bytes(w),
{
    assert(ws.push(w).drop_last() =~= ws);
    assert(ws.push(w).last() == w);
}

/// Reading a word sequence's byte image back gives the original words: the
/// serialization round-trips.
pub proof fn lemma_words_roundtrip(ws: Seq<u32>)
    ensures
        bytes_words(words_bytes(ws)) =~= ws,
    decreases ws.len(),
{
    lemma_words_bytes_len(ws);
    if ws.len() > 0 {
        let prefix = ws.drop_last();
        let bs = words_bytes(ws);
        let pbs = words_bytes(prefix);
        lemma_words_bytes_len(prefix);
        lemma_words_roundtrip(prefix);
        assert forall|i: int| 0 <= i < ws.len() implies bytes_words(bs)[i] == ws[i] by {
            if i < ws.len() - 1 {
                assert(bs[4 * i] == pbs[4 * i]);
                assert(bs[4 * i + 1] == pbs[4 * i + 1]);
                assert(bs[4 * i + 2] == pbs[4 * i + 2]);
                assert(bs[4 * i + 3] == pbs[4 * i + 3]);
                assert(bytes_words(pbs)[i] == prefix[i]);
            } else {
                let w = ws.last();
                assert(bs[4 * i] == word_bytes(w)[0]);
                assert(bs[4 * i + 1] == word_bytes(w)[1]);
                assert(bs[4 * i + 2] == word_bytes(w)[2]);
                assert(bs[4 * i + 3] == word_bytes(w)[3]);
                lemma_word_roundtrip(w);
            }
        }
    }
}

/// Turns words into their little-endian byte image.
pub fn encode_words(words: &[u32]) -> (r: Vec<u8>)
    ensures
        r@ == words_bytes(words@),
{
    let n = words.len();
    let mut r: Vec<u8> = Vec::new();
    let mut i: usize = 0;
    proof {
        assert(words@.take(0) =~= Seq::<u32>::empty());
    }
    while i < n
        invariant
            n == words@.len(),
            i <= n,
            r@ == words_bytes(words@.take(i as int)),
        decreases n - i,
    {
        let w = words[i];
        r.push((w & 0xff) as u8);
        r.push(((w >> 8) & 0xff) as u8);
        r.push(((w >> 16) & 0xff) as u8);
        r.push(((w >> 24) & 0xff) as u8);
        proof {
            assert(words@.take(i + 1) =~= words@.take(i as int).push(w));
            lemma_words_bytes_push(words@.take(i as int), w);
            assert(r@ =~= words_bytes(words@.take(i as int)) + word_bytes(w));
        }
        i = i + 1;
    }
    proof {
        assert(words@.take(n as int) =~= words@);
    }
    r
}

/// Reads the whole words out of a little-endian byte image; trailing bytes
/// beyond the last whole word are ignored.
pub fn decode_words(bytes: &[u8]) -> (r: Vec<u32>)
    ensures
        r@ == bytes_words(bytes@),
{
    let mut r: Vec<u32> = Vec::new();
    let mut o: usize = 0;
    let n = bytes.len();
    while n - o >= 4
        invariant
            n == bytes@.len(),
            o == 4 * r@.len(),
            o <= n,
            forall|i: int|
                0 <= i < r@.len() ==> #[trigger] r@[i] == word_of_bytes(
                    bytes@[4 * i],
                    bytes@[4 * i + 1],
                    bytes@[4 * i + 2],
                    bytes@[4 * i + 3],
                ),
        decreases n - o,
    {
        let b0 = bytes[o];
        let b1 = bytes[o + 1];
        let b2 = bytes[o + 2];
        let b3 = bytes[o + 3];
        let w: u32 = (b0 as u32) | ((b1 as u32) << 8) | ((b2 as u32) << 16) | ((b3 as u32) << 24);
        r.push(w);
        o = o + 4;
    }
    proof {
        assert(r@.len() == bytes@.len() / 4);
        assert(r@ =~= bytes_words(bytes@));
    }
    r
}

} // verus!

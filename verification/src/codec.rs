//! Word-level serialization.
//!
//! The input stream and the journal are ordered sequences of 32-bit words.
//! A 64-bit value occupies two words, low word first; the reader must consume
//! values in the exact order and with the exact types the writer used.

use vstd::prelude::*;

verus! {

/// Low word of the two-word encoding of a 64-bit value.
pub open spec fn u64_low(v: u64) -> u32 {
    (v & 0xFFFF_FFFF) as u32
}

/// High word of the two-word encoding of a 64-bit value.
pub open spec fn u64_high(v: u64) -> u32 {
    (v >> 32) as u32
}

/// The two-word encoding of a 64-bit value, low word first.
pub open spec fn u64_words(v: u64) -> Seq<u32> {
    seq![u64_low(v), u64_high(v)]
}

/// The 64-bit value held by a low and a high word.
pub open spec fn word_pair(low: u32, high: u32) -> u64 {
    low as u64 | ((high as u64) << 32)
}

/// Decoding the two-word encoding of a value gives that value back.
pub proof fn lemma_words_of_u64(v: u64)
    ensures
        word_pair(u64_low(v), u64_high(v)) == v,
{
    assert(word_pair(u64_low(v), u64_high(v)) == v) by (bit_vector);
}

/// Appends the two-word encoding of `v` to `out`.
pub fn encode_u64(v: u64, out: &mut Vec<u32>)
    ensures
        final(out)@ == old(out)@ + u64_words(v),
{
    let low: u32 = (v & 0xFFFF_FFFF) as u32;
    let high: u32 = (v >> 32) as u32;
    out.push(low);
    out.push(high);
    proof {
        assert(out@ =~= old(out)@ + u64_words(v));
    }
}

/// Reads the 64-bit value held at word position `pos`.
pub fn decode_u64(words: &Vec<u32>, pos: usize) -> (r: u64)
    requires
        pos + 2 <= words@.len(),
    ensures
        r == word_pair(words@[pos as int], words@[pos as int + 1]),
{
    let _n: usize = words.len();
    let low: u32 = words[pos];
    let high: u32 = words[pos + 1];
    low as u64 | ((high as u64) << 32)
}

/// Compares two word sequences for equality.
pub fn words_eq(a: &Vec<u32>, b: &Vec<u32>) -> (r: bool)
    ensures
        r == (a@ == b@),
{
    if a.len() != b.len() {
        return false;
    }
    let mut i: usize = 0;
    while i < a.len()
        invariant
            i <= a@.len(),
            a@.len() == b@.len(),
            forall|k: int| 0 <= k < i ==> a@[k] == b@[k],
        decreases a@.len() - i,
    {
        if a[i] != b[i] {
            return false;
        }
        i += 1;
    }
    proof {
        assert(a@ =~= b@);
    }
    true
}

/// Returns a copy of a word sequence.
pub fn copy_words(src: &Vec<u32>) -> (r: Vec<u32>)
    ensures
        r@ == src@,
{
    let mut out: Vec<u32> = Vec::new();
    let mut i: usize = 0;
    while i < src.len()
        invariant
            i <= src@.len(),
            out@ == src@.take(i as int),
        decreases src@.len() - i,
    {
        out.push(src[i]);
        proof {
            assert(src@.take(i as int).push(src@[i as int]) =~= src@.take(i as int + 1));
        }
        i += 1;
    }
    proof {
        assert(src@.take(src@.len() as int) =~= src@);
    }
    out
}

/// Returns a copy of the words of `src` from position `from` up to `to`.
pub fn copy_range(src: &Vec<u32>, from: usize, to: usize) -> (r: Vec<u32>)
    requires
        from <= to,
        to <= src@.len(),
    ensures
        r@ == src@.subrange(from as int, to as int),
{
    let mut out: Vec<u32> = Vec::new();
    let mut i: usize = from;
    while i < to
        invariant
            from <= i <= to,
            to <= src@.len(),
            out@ == src@.subrange(from as int, i as int),
        decreases to - i,
    {
        out.push(src[i]);
        proof {
            assert(src@.subrange(from as int, i as int).push(src@[i as int]) =~= src@.subrange(
                from as int,
                i as int + 1,
            ));
        }
        i += 1;
    }
    out
}

} // verus!

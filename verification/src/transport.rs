//! The transport boundary.
//!
//! A receipt can be handed to a physically separate verifier, so it must go
//! to a byte sequence and come back without loss. The layout is
//! little-endian: a 32-bit word count, the journal words, a second word
//! count, the seal words — nothing else, and nothing left over.

use vstd::prelude::*;
use crate::codec::copy_range;
use crate::errors::PipelineError;
use crate::receipt::MAX_SECTION_WORDS;
use crate::receipt::Receipt;
use crate::receipt::ReceiptView;

verus! {

/// The four little-endian bytes of one word.
pub open spec fn word_bytes(w: u32) -> Seq<u8> {
    seq![
        (w & 0xFF) as u8,
        ((w >> 8) & 0xFF) as u8,
        ((w >> 16) & 0xFF) as u8,
        ((w >> 24) & 0xFF) as u8,
    ]
}

/// The word held by four little-endian bytes.
pub open spec fn word_of_bytes(b0: u8, b1: u8, b2: u8, b3: u8) -> u32 {
    b0 as u32 | ((b1 as u32) << 8) | ((b2 as u32) << 16) | ((b3 as u32) << 24)
}

/// Reading the four bytes of a word gives the word back.
pub proof fn lemma_bytes_of_word(w: u32)
    ensures
        word_of_bytes(word_bytes(w)[0], word_bytes(w)[1], word_bytes(w)[2], word_bytes(w)[3]) == w,
{
    assert(word_of_bytes(
        (w & 0xFF) as u8,
        ((w >> 8) & 0xFF) as u8,
        ((w >> 16) & 0xFF) as u8,
        ((w >> 24) & 0xFF) as u8,
    ) == w) by (bit_vector);
}

/// The little-endian bytes of a word sequence, in order.
pub open spec fn words_bytes(ws: Seq<u32>) -> Seq<u8>
    decreases ws.len(),
{
    if ws.len() == 0 {
        Seq::empty()
    } else {
        word_bytes(ws[0]) + words_bytes(ws.drop_first())
    }
}

/// A word sequence takes four bytes per word.
pub proof fn lemma_words_bytes_len(ws: Seq<u32>)
    ensures
        words_bytes(ws).len() == 4 * ws.len(),
    decreases ws.len(),
{
    if ws.len() > 0 {
        lemma_words_bytes_len(ws.drop_first());
    }
}

/// The bytes of a concatenation are the concatenated bytes.
pub proof fn lemma_words_bytes_append(a: Seq<u32>, b: Seq<u32>)
    ensures
        words_bytes(a + b) == words_bytes(a) + words_bytes(b),
    decreases a.len(),
{
    if a.len() == 0 {
        assert(a + b =~= b);
        assert(words_bytes(a) + words_bytes(b) =~= words_bytes(b));
    } else {
        assert((a + b)[0] == a[0]);
        assert((a + b).drop_first() =~= a.drop_first() + b);
        lemma_words_bytes_append(a.drop_first(), b);
        assert(words_bytes(a + b) == word_bytes(a[0]) + (words_bytes(a.drop_first())
            + words_bytes(b)));
        assert(words_bytes(a + b) =~= words_bytes(a) + words_bytes(b));
    }
}

/// The words held by a byte sequence, read four bytes at a time.
pub open spec fn bytes_words(bs: Seq<u8>) -> Seq<u32>
    decreases bs.len(),
{
    if bs.len() < 4 {
        Seq::empty()
    } else {
        seq![word_of_bytes(bs[0], bs[1], bs[2], bs[3])] + bytes_words(bs.skip(4))
    }
}

/// Reading back the bytes of a word sequence gives the words back.
pub proof fn lemma_bytes_words_inverse(ws: Seq<u32>)
    ensures
        bytes_words(words_bytes(ws)) == ws,
    decreases ws.len(),
{
    let bs = words_bytes(ws);
    if ws.len() == 0 {
        assert(bytes_words(bs) =~= ws);
    } else {
        lemma_words_bytes_len(ws);
        lemma_words_bytes_len(ws.drop_first());
        assert(bs.len() >= 4);
        assert(bs[0] == word_bytes(ws[0])[0]);
        assert(bs[1] == word_bytes(ws[0])[1]);
        assert(bs[2] == word_bytes(ws[0])[2]);
        assert(bs[3] == word_bytes(ws[0])[3]);
        lemma_bytes_of_word(ws[0]);
        assert(word_of_bytes(bs[0], bs[1], bs[2], bs[3]) == ws[0]);
        assert(bs.skip(4) =~= words_bytes(ws.drop_first()));
        lemma_bytes_words_inverse(ws.drop_first());
        assert(bytes_words(bs) == seq![ws[0]] + ws.drop_first());
        assert(seq![ws[0]] + ws.drop_first() =~= ws);
    }
}

/// The framed word sequence of a receipt: each section comes behind its
/// length.
pub open spec fn receipt_words(journal: Seq<u32>, seal: Seq<u32>) -> Seq<u32> {
    seq![journal.len() as u32] + journal + seq![seal.len() as u32] + seal
}

/// Splits a framed word sequence back into its two sections. Nothing may be
/// missing and nothing may be left over.
pub open spec fn parse_frame(ws: Seq<u32>) -> Option<(Seq<u32>, Seq<u32>)> {
    if ws.len() == 0 {
        None
    } else {
        let jlen = ws[0] as int;
        if ws.len() < 2 + jlen {
            None
        } else {
            let slen = ws[1 + jlen] as int;
            if 2 + jlen + slen != ws.len() {
                None
            } else {
                Some((ws.subrange(1, 1 + jlen), ws.subrange(2 + jlen, ws.len() as int)))
            }
        }
    }
}

/// Parsing the frame of a receipt gives both sections back.
pub proof fn lemma_parse_of_receipt_words(journal: Seq<u32>, seal: Seq<u32>)
    requires
        journal.len() <= MAX_SECTION_WORDS,
        seal.len() <= MAX_SECTION_WORDS,
    ensures
        parse_frame(receipt_words(journal, seal)) == Some((journal, seal)),
{
    let ws = receipt_words(journal, seal);
    assert(ws.len() == 2 + journal.len() + seal.len());
    assert(ws[0] == journal.len() as u32);
    assert(ws[0] as int == journal.len());
    assert(ws[1 + journal.len() as int] == seal.len() as u32);
    assert(ws.subrange(1, 1 + journal.len() as int) =~= journal);
    assert(ws.subrange(2 + journal.len() as int, ws.len() as int) =~= seal);
}

/// What a byte sequence holds, if it is a whole receipt and nothing else.
pub open spec fn decoded(bytes: Seq<u8>) -> Option<ReceiptView> {
    if bytes.len() % 4 != 0 {
        None
    } else {
        match parse_frame(bytes_words(bytes)) {
            Some(sections) => Some(ReceiptView { journal: sections.0, seal: sections.1 }),
            None => None,
        }
    }
}

/// Transport is lossless: the bytes of a receipt decode to that receipt.
pub proof fn lemma_transport_round_trip(journal: Seq<u32>, seal: Seq<u32>)
    requires
        journal.len() <= MAX_SECTION_WORDS,
        seal.len() <= MAX_SECTION_WORDS,
    ensures
        decoded(words_bytes(receipt_words(journal, seal))) == Some(
            ReceiptView { journal, seal },
        ),
{
    let ws = receipt_words(journal, seal);
    let bytes = words_bytes(ws);
    lemma_words_bytes_len(ws);
    assert(bytes.len() % 4 == 0) by {
        assert((4 * ws.len()) % 4 == 0) by (nonlinear_arith);
    }
    lemma_bytes_words_inverse(ws);
    lemma_parse_of_receipt_words(journal, seal);
}

/// Appends the four little-endian bytes of `w` to `out`.
fn push_word_bytes(w: u32, out: &mut Vec<u8>)
    ensures
        final(out)@ == old(out)@ + word_bytes(w),
{
    out.push((w & 0xFF) as u8);
    out.push(((w >> 8) & 0xFF) as u8);
    out.push(((w >> 16) & 0xFF) as u8);
    out.push(((w >> 24) & 0xFF) as u8);
    proof {
        assert(out@ =~= old(out)@ + word_bytes(w));
    }
}

/// Appends the bytes of every word of `ws`, in order, to `out`.
fn push_words_bytes(ws: &Vec<u32>, out: &mut Vec<u8>)
    ensures
        final(out)@ == old(out)@ + words_bytes(ws@),
{
    let mut i: usize = 0;
    proof {
        assert(old(out)@ + words_bytes(ws@.take(0)) =~= old(out)@);
    }
    while i < ws.len()
        invariant
            i <= ws@.len(),
            out@ == old(out)@ + words_bytes(ws@.take(i as int)),
        decreases ws@.len() - i,
    {
        push_word_bytes(ws[i], out);
        proof {
            assert(ws@.take(i as int + 1) =~= ws@.take(i as int) + seq![ws@[i as int]]);
            lemma_words_bytes_append(ws@.take(i as int), seq![ws@[i as int]]);
            assert(seq![ws@[i as int]][0] == ws@[i as int]);
            assert(seq![ws@[i as int]].drop_first() =~= Seq::<u32>::empty());
            assert(words_bytes(Seq::<u32>::empty()) == Seq::<u8>::empty());
            assert(words_bytes(seq![ws@[i as int]]) =~= word_bytes(ws@[i as int]));
            assert(out@ =~= old(out)@ + words_bytes(ws@.take(i as int + 1)));
        }
        i += 1;
    }
    proof {
        assert(ws@.take(ws@.len() as int) =~= ws@);
    }
}

/// Reads the word whose four bytes start at `i`.
fn read_word(bytes: &Vec<u8>, i: usize) -> (r: u32)
    requires
        i + 4 <= bytes@.len(),
    ensures
        r == word_of_bytes(
            bytes@[i as int],
            bytes@[i as int + 1],
            bytes@[i as int + 2],
            bytes@[i as int + 3],
        ),
{
    let _n: usize = bytes.len();
    let b0: u8 = bytes[i];
    let b1: u8 = bytes[i + 1];
    let b2: u8 = bytes[i + 2];
    let b3: u8 = bytes[i + 3];
    b0 as u32 | ((b1 as u32) << 8) | ((b2 as u32) << 16) | ((b3 as u32) << 24)
}

/// Reads every word of a byte sequence of whole words.
fn bytes_to_words(bytes: &Vec<u8>) -> (r: Vec<u32>)
    requires
        bytes@.len() % 4 == 0,
    ensures
        r@ == bytes_words(bytes@),
{
    let n: usize = bytes.len();
    let mut out: Vec<u32> = Vec::new();
    let mut i: usize = 0;
    proof {
        assert(bytes@.skip(0) =~= bytes@);
    }
    while i < n
        invariant
            i <= n,
            n == bytes@.len(),
            i % 4 == 0,
            n % 4 == 0,
            out@ + bytes_words(bytes@.skip(i as int)) == bytes_words(bytes@),
        decreases n - i,
    {
        proof {
            assert((n - i) % 4 == 0) by (nonlinear_arith)
                requires
                    i % 4 == 0,
                    n % 4 == 0,
                    0 <= i <= n,
            ;
            assert(n - i >= 4);
        }
        let w: u32 = read_word(bytes, i);
        proof {
            let rest = bytes@.skip(i as int);
            assert(rest[0] == bytes@[i as int]);
            assert(rest[1] == bytes@[i as int + 1]);
            assert(rest[2] == bytes@[i as int + 2]);
            assert(rest[3] == bytes@[i as int + 3]);
            assert(rest.skip(4) =~= bytes@.skip(i as int + 4));
            assert(bytes_words(rest) == seq![w] + bytes_words(bytes@.skip(i as int + 4)));
            assert(out@.push(w) + bytes_words(bytes@.skip(i as int + 4)) =~= out@ + bytes_words(
                rest,
            ));
        }
        out.push(w);
        i += 4;
    }
    proof {
        assert(bytes@.skip(n as int) =~= Seq::<u8>::empty());
        assert(out@ + Seq::<u32>::empty() =~= out@);
    }
    out
}

/// Serializes a receipt for transport.
pub fn encode_receipt(receipt: &Receipt) -> (r: Vec<u8>)
    ensures
        r@ == words_bytes(receipt_words(receipt@.journal, receipt@.seal)),
{
    proof {
        use_type_invariant(receipt);
    }
    let journal: &Vec<u32> = receipt.journal();
    let seal: &Vec<u32> = receipt.seal();
    let mut words: Vec<u32> = Vec::new();
    words.push(journal.len() as u32);
    append_words(&mut words, journal);
    words.push(seal.len() as u32);
    append_words(&mut words, seal);
    proof {
        assert(words@ =~= receipt_words(receipt@.journal, receipt@.seal));
    }
    let mut out: Vec<u8> = Vec::new();
    push_words_bytes(&words, &mut out);
    proof {
        assert(Seq::<u8>::empty() + words_bytes(words@) =~= words_bytes(words@));
    }
    out
}

/// Appends every word of `src`, in order, to `dst`.
fn append_words(dst: &mut Vec<u32>, src: &Vec<u32>)
    ensures
        final(dst)@ == old(dst)@ + src@,
{
    let mut i: usize = 0;
    proof {
        assert(old(dst)@ + src@.take(0) =~= old(dst)@);
    }
    while i < src.len()
        invariant
            i <= src@.len(),
            dst@ == old(dst)@ + src@.take(i as int),
        decreases src@.len() - i,
    {
        dst.push(src[i]);
        proof {
            assert((old(dst)@ + src@.take(i as int)).push(src@[i as int]) =~= old(dst)@
                + src@.take(i as int + 1));
        }
        i += 1;
    }
    proof {
        assert(old(dst)@ + src@.take(src@.len() as int) =~= old(dst)@ + src@);
    }
}

/// Deserializes a receipt from transport bytes. Fails exactly when the bytes
/// are not the whole encoding of one receipt: a truncated, padded or
/// reframed byte sequence is rejected, never silently accepted.
pub fn decode_receipt(bytes: &Vec<u8>) -> (r: Result<Receipt, PipelineError>)
    ensures
        (match decoded(bytes@) {
            Some(v) => r matches Ok(rec) && rec@.journal == v.journal && rec@.seal == v.seal,
            None => r == Err::<Receipt, PipelineError>(PipelineError::Deserialization),
        }),
{
    let n_bytes: usize = bytes.len();
    if n_bytes % 4 != 0 {
        return Err(PipelineError::Deserialization);
    }
    let ws: Vec<u32> = bytes_to_words(bytes);
    let n: usize = ws.len();
    if n == 0 {
        return Err(PipelineError::Deserialization);
    }
    let jlen: usize = ws[0] as usize;
    if n < 2 || jlen > n - 2 {
        return Err(PipelineError::Deserialization);
    }
    let slen: usize = ws[1 + jlen] as usize;
    if slen != n - 2 - jlen {
        return Err(PipelineError::Deserialization);
    }
    let journal: Vec<u32> = copy_range(&ws, 1, 1 + jlen);
    let seal: Vec<u32> = copy_range(&ws, 2 + jlen, n);
    Ok(Receipt::assemble(journal, seal))
}

} // verus!

//! The multiply guest.
//!
//! Reads two 64-bit factors from the input stream, in that order. Refuses
//! trivial factors — a factor equal to one would let anyone "prove" knowledge
//! of a factorization — and refuses a product that does not fit 64 bits, so
//! the committed quantity is never a silently wrapped one. On success it
//! commits exactly one value: the product.

use vstd::prelude::*;
use crate::codec::decode_u64;
use crate::codec::encode_u64;
use crate::codec::u64_words;
use crate::codec::word_pair;
use crate::codec::lemma_words_of_u64;
use crate::errors::TrapReason;
use crate::guest::Guest;
use crate::guest::GuestOutcome;
use crate::guest::OutcomeView;
use crate::ident::ID_WORDS;
use crate::ident::ProgramId;

verus! {

/// The identity words of the multiply guest, fixed at build time.
pub open spec fn multiply_id_words() -> Seq<u32> {
    seq![
        0x7d1a42c9u32,
        0x0b6e9f33u32,
        0xc4587ad1u32,
        0x92e0b5f7u32,
        0x3f6c881eu32,
        0xa95d2704u32,
        0x58c3e6b2u32,
        0x16f4d09au32,
    ]
}

/// The outcome of the multiply guest on the given input words: it reads two
/// 64-bit values and either traps or commits their product.
pub open spec fn multiply_semantics(input: Seq<u32>) -> OutcomeView {
    if input.len() < 4 {
        OutcomeView::Trapped(TrapReason::InputExhausted)
    } else {
        let a = word_pair(input[0], input[1]);
        let b = word_pair(input[2], input[3]);
        if a == 1 || b == 1 {
            OutcomeView::Trapped(TrapReason::InvalidInput)
        } else if a * b > u64::MAX {
            OutcomeView::Trapped(TrapReason::Overflow)
        } else {
            OutcomeView::Committed(u64_words((a * b) as u64))
        }
    }
}

/// The multiply guest program.
pub struct MultiplyGuest;

/// The program identity of the multiply guest.
pub fn multiply_id() -> (r: ProgramId)
    ensures
        r@ == multiply_id_words(),
{
    let mut words: Vec<u32> = Vec::new();
    words.push(0x7d1a42c9);
    words.push(0x0b6e9f33);
    words.push(0xc4587ad1);
    words.push(0x92e0b5f7);
    words.push(0x3f6c881e);
    words.push(0xa95d2704);
    words.push(0x58c3e6b2);
    words.push(0x16f4d09a);
    proof {
        assert(words@ =~= multiply_id_words());
    }
    ProgramId::of_words(words)
}

impl Guest for MultiplyGuest {
    open spec fn id_spec(&self) -> Seq<u32> {
        multiply_id_words()
    }

    open spec fn semantics(&self, input: Seq<u32>) -> OutcomeView {
        multiply_semantics(input)
    }

    proof fn lemma_well_formed(&self, input: Seq<u32>) {
    }

    fn identity(&self) -> (r: ProgramId) {
        multiply_id()
    }

    fn execute(&self, input: &Vec<u32>) -> (r: GuestOutcome) {
        if input.len() < 4 {
            return GuestOutcome::Trapped(TrapReason::InputExhausted);
        }
        let a: u64 = decode_u64(input, 0);
        let b: u64 = decode_u64(input, 2);
        if a == 1 || b == 1 {
            return GuestOutcome::Trapped(TrapReason::InvalidInput);
        }
        match a.checked_mul(b) {
            Some(product) => {
                let mut journal: Vec<u32> = Vec::new();
                encode_u64(product, &mut journal);
                proof {
                    assert(journal@ =~= u64_words(product));
                }
                GuestOutcome::Committed(journal)
            },
            None => GuestOutcome::Trapped(TrapReason::Overflow),
        }
    }
}

/// Round-trip: for any two non-trivial factors whose product fits 64 bits,
/// the multiply guest commits a journal of exactly one value, the product.
pub proof fn lemma_round_trip(a: u64, b: u64)
    requires
        a != 1,
        b != 1,
        a * b <= u64::MAX,
    ensures
        multiply_semantics(u64_words(a) + u64_words(b)) == OutcomeView::Committed(
            u64_words((a * b) as u64),
        ),
        word_pair(u64_words((a * b) as u64)[0], u64_words((a * b) as u64)[1]) == a * b,
{
    let input = u64_words(a) + u64_words(b);
    assert(input[0] == u64_words(a)[0]);
    assert(input[1] == u64_words(a)[1]);
    assert(input[2] == u64_words(b)[0]);
    assert(input[3] == u64_words(b)[1]);
    lemma_words_of_u64(a);
    lemma_words_of_u64(b);
    lemma_words_of_u64((a * b) as u64);
}

/// Trap on invalid input: a trivial factor ends the run in a trap; no journal
/// is committed and so no receipt can exist.
pub proof fn lemma_trivial_factor_traps(a: u64, b: u64)
    requires
        a == 1 || b == 1,
    ensures
        multiply_semantics(u64_words(a) + u64_words(b)) == OutcomeView::Trapped(
            TrapReason::InvalidInput,
        ),
{
    let input = u64_words(a) + u64_words(b);
    assert(input[0] == u64_words(a)[0]);
    assert(input[1] == u64_words(a)[1]);
    assert(input[2] == u64_words(b)[0]);
    assert(input[3] == u64_words(b)[1]);
    lemma_words_of_u64(a);
    lemma_words_of_u64(b);
}

/// Overflow rejection: a product that does not fit 64 bits ends the run in a
/// trap rather than committing a wrapped value.
pub proof fn lemma_overflow_traps(a: u64, b: u64)
    requires
        a != 1,
        b != 1,
        a * b > u64::MAX,
    ensures
        multiply_semantics(u64_words(a) + u64_words(b)) == OutcomeView::Trapped(
            TrapReason::Overflow,
        ),
{
    let input = u64_words(a) + u64_words(b);
    assert(input[0] == u64_words(a)[0]);
    assert(input[1] == u64_words(a)[1]);
    assert(input[2] == u64_words(b)[0]);
    assert(input[3] == u64_words(b)[1]);
    lemma_words_of_u64(a);
    lemma_words_of_u64(b);
}

} // verus!

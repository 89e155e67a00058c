//! The host orchestrator.
//!
//! The host builds the input stream, opens a proving session, extracts the
//! committed outputs of the receipt, and verifies. It holds no mutable state
//! across sessions: each call to [`run_session`] is an independent session.

use vstd::prelude::*;
use crate::codec::word_pair;
use crate::codec::u64_words;
use crate::codec::copy_words;
use crate::codec::decode_u64;
use crate::codec::encode_u64;
use crate::errors::PipelineError;
use crate::guest::Guest;
use crate::guest::OutcomeView;
use crate::ident::ProgramId;
use crate::prover::Prover;
use crate::receipt::Receipt;
use crate::seal::seal_of;

verus! {

/// A typed value the host can write to an input stream. Every variant has a
/// defined encoding, so serializing a stream of these never fails.
#[derive(Clone, Copy, Debug, PartialEq, Eq, Structural)]
pub enum InputValue {
    /// One 32-bit word.
    U32(u32),
    /// A 64-bit value: two words, low word first.
    U64(u64),
}

/// The encoding of one typed value.
pub open spec fn value_words(v: InputValue) -> Seq<u32> {
    match v {
        InputValue::U32(w) => seq![w],
        InputValue::U64(x) => u64_words(x),
    }
}

/// The encoding of a stream of typed values, in write order.
pub open spec fn stream_words(vs: Seq<InputValue>) -> Seq<u32>
    decreases vs.len(),
{
    if vs.len() == 0 {
        Seq::empty()
    } else {
        value_words(vs[0]) + stream_words(vs.drop_first())
    }
}

/// Appending a value to a stream appends its encoding.
proof fn lemma_stream_words_snoc(vs: Seq<InputValue>, v: InputValue)
    ensures
        stream_words(vs.push(v)) == stream_words(vs) + value_words(v),
    decreases vs.len(),
{
    if vs.len() == 0 {
        assert(vs.push(v)[0] == v);
        assert(vs.push(v).drop_first() =~= Seq::<InputValue>::empty());
        assert(stream_words(Seq::<InputValue>::empty()) == Seq::<u32>::empty());
        assert(stream_words(vs.push(v)) == value_words(v) + Seq::<u32>::empty());
        assert(stream_words(vs.push(v)) =~= stream_words(vs) + value_words(v));
    } else {
        assert(vs.push(v)[0] == vs[0]);
        assert(vs.push(v).drop_first() =~= vs.drop_first().push(v));
        lemma_stream_words_snoc(vs.drop_first(), v);
        assert(stream_words(vs.push(v)) == value_words(vs[0]) + (stream_words(vs.drop_first())
            + value_words(v)));
        assert(stream_words(vs.push(v)) =~= stream_words(vs) + value_words(v));
    }
}

/// Serializes each value in call order into one input stream.
pub fn prepare_inputs(values: &Vec<InputValue>) -> (r: Vec<u32>)
    ensures
        r@ == stream_words(values@),
{
    let mut out: Vec<u32> = Vec::new();
    let mut i: usize = 0;
    while i < values.len()
        invariant
            i <= values@.len(),
            out@ == stream_words(values@.take(i as int)),
        decreases values@.len() - i,
    {
        match values[i] {
            InputValue::U32(w) => out.push(w),
            InputValue::U64(x) => encode_u64(x, &mut out),
        }
        proof {
            assert(values@.take(i as int).push(values@[i as int]) =~= values@.take(i as int + 1));
            lemma_stream_words_snoc(values@.take(i as int), values@[i as int]);
            assert(out@ =~= stream_words(values@.take(i as int)) + value_words(
                values@[i as int],
            ));
        }
        i += 1;
    }
    proof {
        assert(values@.take(values@.len() as int) =~= values@);
    }
    out
}

/// One whole session: opens a prover for `guest` under `identity`, feeds it
/// the input stream, and runs it to completion. Fails exactly when the
/// identity does not match the guest, or the guest traps; otherwise the
/// receipt's journal is the guest's committed output for this input stream
/// and its seal binds `identity` to that journal.
pub fn run_session<G: Guest>(guest: G, identity: ProgramId, input: &Vec<u32>) -> (r: Result<
    Receipt,
    PipelineError,
>)
    ensures
        identity@ != guest.id_spec() ==> r == Err::<Receipt, PipelineError>(
            PipelineError::InvalidProgram,
        ),
        identity@ == guest.id_spec() ==> (match guest.semantics(input@) {
            OutcomeView::Committed(journal) => r matches Ok(rec) && rec@.journal == journal
                && rec@.seal == seal_of(identity@, journal),
            OutcomeView::Trapped(reason) => r == Err::<Receipt, PipelineError>(
                PipelineError::ExecutionTrap(reason),
            ),
        }),
{
    let mut prover: Prover<G> = match Prover::new(guest, identity) {
        Ok(p) => p,
        Err(e) => {
            return Err(e);
        },
    };
    prover.add_input(input);
    proof {
        assert(Seq::<u32>::empty() + input@ =~= input@);
    }
    prover.run()
}

/// A sequential reader over a receipt's journal: values come out in the order
/// they were committed, and must be read with the types they were written
/// with.
pub struct JournalReader {
    words: Vec<u32>,
    pos: usize,
}

impl JournalReader {
    /// Holds of every reader value: the position never passes the end.
    #[verifier::type_invariant]
    pub open spec fn wf(self) -> bool {
        self.pos_spec() <= self.words_spec().len()
    }

    /// The journal words being read.
    pub closed spec fn words_spec(&self) -> Seq<u32> {
        self.words@
    }

    /// How many words have been consumed.
    pub closed spec fn pos_spec(&self) -> int {
        self.pos as int
    }

    /// Opens a reader at the start of the receipt's journal.
    pub fn new(receipt: &Receipt) -> (r: JournalReader)
        ensures
            r.words_spec() == receipt@.journal,
            r.pos_spec() == 0,
    {
        JournalReader { words: copy_words(receipt.journal()), pos: 0 }
    }

    /// Reads the next committed word. Fails exactly when no word remains,
    /// and consumes nothing in that case.
    pub fn read_u32(&mut self) -> (r: Result<u32, PipelineError>)
        ensures
            old(self).pos_spec() + 1 <= old(self).words_spec().len() ==> (r == Ok::<
                u32,
                PipelineError,
            >(old(self).words_spec()[old(self).pos_spec()]) && final(self).words_spec() == old(
                self,
            ).words_spec() && final(self).pos_spec() == old(self).pos_spec() + 1),
            old(self).pos_spec() + 1 > old(self).words_spec().len() ==> (r == Err::<
                u32,
                PipelineError,
            >(PipelineError::Deserialization) && final(self).words_spec() == old(
                self,
            ).words_spec() && final(self).pos_spec() == old(self).pos_spec()),
    {
        proof {
            use_type_invariant(&*self);
        }
        if self.words.len() - self.pos >= 1 {
            let v: u32 = self.words[self.pos];
            self.pos = self.pos + 1;
            Ok(v)
        } else {
            Err(PipelineError::Deserialization)
        }
    }

    /// Reads the next committed 64-bit value. Fails exactly when fewer than
    /// two words remain — the read order or type sequence then no longer
    /// matches what the guest committed — and consumes nothing in that case.
    pub fn read_u64(&mut self) -> (r: Result<u64, PipelineError>)
        ensures
            old(self).pos_spec() + 2 <= old(self).words_spec().len() ==> (r matches Ok(v)
                && v == word_pair(
                old(self).words_spec()[old(self).pos_spec()],
                old(self).words_spec()[old(self).pos_spec() + 1],
            ) && final(self).words_spec() == old(self).words_spec() && final(self).pos_spec()
                == old(self).pos_spec() + 2),
            old(self).pos_spec() + 2 > old(self).words_spec().len() ==> (r == Err::<
                u64,
                PipelineError,
            >(PipelineError::Deserialization) && final(self).words_spec() == old(
                self,
            ).words_spec() && final(self).pos_spec() == old(self).pos_spec()),
    {
        proof {
            use_type_invariant(&*self);
        }
        if self.words.len() - self.pos >= 2 {
            let v: u64 = decode_u64(&self.words, self.pos);
            self.pos = self.pos + 2;
            Ok(v)
        } else {
            Err(PipelineError::Deserialization)
        }
    }
}

} // verus!

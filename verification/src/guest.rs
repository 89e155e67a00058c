//! The guest program boundary.
//!
//! A guest is a deterministic, sandboxed unit of computation: it consumes
//! ordered input words, may halt fatally on invalid input, and commits an
//! ordered sequence of output words — its journal. Only committed words are
//! ever visible outside the guest; everything else of a run stays hidden.
//! Any deterministic payload meeting this read/commit contract can serve as
//! a guest: the pipeline is agnostic to what the payload computes.

use vstd::prelude::*;
use crate::errors::TrapReason;
use crate::ident::ID_WORDS;
use crate::ident::ProgramId;

verus! {

/// Upper bound on the words a guest may commit in one run: part of the fixed
/// resource budget of a run. A guest that would exceed it must trap instead.
pub const MAX_JOURNAL_WORDS: usize = 0x0100_0000;

/// How a guest run ended: a complete committed journal, or a trap with no
/// journal at all. There is no partial outcome — a trapped run discloses
/// nothing.
#[derive(Debug)]
pub enum GuestOutcome {
    /// The run completed; these are the committed words, in commit order.
    Committed(Vec<u32>),
    /// The run halted before committing a complete journal.
    Trapped(TrapReason),
}

/// The mathematical form of a run's outcome.
pub enum OutcomeView {
    /// The committed words, in commit order.
    Committed(Seq<u32>),
    /// The reason the run halted.
    Trapped(TrapReason),
}

impl View for GuestOutcome {
    type V = OutcomeView;

    open spec fn view(&self) -> OutcomeView {
        match self {
            GuestOutcome::Committed(journal) => OutcomeView::Committed(journal@),
            GuestOutcome::Trapped(reason) => OutcomeView::Trapped(*reason),
        }
    }
}

/// A guest program.
///
/// `semantics` is the program's meaning: a function of the input words alone.
/// Determinism of the whole pipeline rests on it — two runs on the same input
/// stream have the same outcome by construction, which `execute` is verified
/// to realize.
pub trait Guest: Sized {
    /// The identity words of this program's compiled form.
    spec fn id_spec(&self) -> Seq<u32>;

    /// The outcome of running this program on the given input words.
    spec fn semantics(&self, input: Seq<u32>) -> OutcomeView;

    /// The program's identity has the fixed size, and a committed journal
    /// fits the resource budget of a run.
    proof fn lemma_well_formed(&self, input: Seq<u32>)
        ensures
            self.id_spec().len() == ID_WORDS,
            (self.semantics(input) matches OutcomeView::Committed(journal) ==> journal.len()
                <= MAX_JOURNAL_WORDS),
    ;

    /// The identity bound to this program's compiled form.
    fn identity(&self) -> (r: ProgramId)
        ensures
            r@ == self.id_spec(),
    ;

    /// Runs the program on the given input words.
    fn execute(&self, input: &Vec<u32>) -> (r: GuestOutcome)
        ensures
            r@ == self.semantics(input@),
    ;
}

/// Two runs of one program on identical input streams commit identical
/// journals: a guest's outcome is a function of its input words alone.
pub proof fn lemma_deterministic<G: Guest>(guest: &G, input: Seq<u32>, j1: Seq<u32>, j2: Seq<u32>)
    requires
        guest.semantics(input) == OutcomeView::Committed(j1),
        guest.semantics(input) == OutcomeView::Committed(j2),
    ensures
        j1 == j2,
{
}

} // verus!

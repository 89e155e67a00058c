//! The prover.
//!
//! A prover owns one proving session: it is constructed for one guest program
//! and its claimed identity, accumulates the input stream in write order, and
//! runs the guest to completion exactly once. A session that traps is over —
//! rerunning a deterministic guest on the same inputs would trap again — and
//! sessions share no state, so independent sessions may run side by side.

use vstd::prelude::*;
use crate::errors::PipelineError;
use crate::guest::Guest;
use crate::guest::GuestOutcome;
use crate::guest::OutcomeView;
use crate::guest::MAX_JOURNAL_WORDS;
use crate::ident::ProgramId;
use crate::receipt::Receipt;
use crate::seal::make_seal;
use crate::seal::seal_of;

verus! {

/// One proving session: a guest program, the identity it is claimed to have,
/// and the input stream accumulated so far.
pub struct Prover<G: Guest> {
    guest: G,
    identity: ProgramId,
    input: Vec<u32>,
}

impl<G: Guest> Prover<G> {
    /// The guest this session runs.
    pub closed spec fn guest_spec(&self) -> G {
        self.guest
    }

    /// The identity words this session proves under.
    pub closed spec fn identity_spec(&self) -> Seq<u32> {
        self.identity@
    }

    /// The input words accumulated so far, in write order.
    pub closed spec fn input_spec(&self) -> Seq<u32> {
        self.input@
    }

    /// Opens a session for `guest` under the claimed `identity`. Fails
    /// exactly when the identity is not the one bound to the guest's
    /// compiled form: a mismatched pair must not be proved under a false
    /// identity.
    pub fn new(guest: G, identity: ProgramId) -> (r: Result<Prover<G>, PipelineError>)
        ensures
            identity@ == guest.id_spec() ==> (r matches Ok(p) && p.guest_spec() == guest
                && p.identity_spec() == identity@ && p.input_spec() == Seq::<u32>::empty()),
            identity@ != guest.id_spec() ==> r == Err::<Prover<G>, PipelineError>(
                PipelineError::InvalidProgram,
            ),
    {
        let actual: ProgramId = guest.identity();
        if identity.same_as(&actual) {
            Ok(Prover { guest, identity, input: Vec::new() })
        } else {
            Err(PipelineError::InvalidProgram)
        }
    }

    /// Appends words to the pending input stream. The order of calls defines
    /// the guest's read order.
    pub fn add_input(&mut self, words: &Vec<u32>)
        ensures
            final(self).input_spec() == old(self).input_spec() + words@,
            final(self).guest_spec() == old(self).guest_spec(),
            final(self).identity_spec() == old(self).identity_spec(),
    {
        let mut i: usize = 0;
        proof {
            assert(old(self).input@ + words@.take(0) =~= old(self).input@);
        }
        while i < words.len()
            invariant
                i <= words@.len(),
                self.input@ == old(self).input@ + words@.take(i as int),
                self.guest == old(self).guest,
                self.identity == old(self).identity,
            decreases words@.len() - i,
        {
            self.input.push(words[i]);
            proof {
                assert((old(self).input@ + words@.take(i as int)).push(words@[i as int])
                    =~= old(self).input@ + words@.take(i as int + 1));
            }
            i += 1;
        }
        proof {
            assert(old(self).input@ + words@.take(words@.len() as int) =~= old(self).input@
                + words@);
        }
    }

    /// Runs the guest to completion on the accumulated input stream. On a
    /// guest trap the session fails with the trap's reason and no receipt
    /// exists. On success the receipt's journal equals the guest's committed
    /// words in commit order, and its seal binds this session's identity to
    /// exactly that journal.
    pub fn run(self) -> (r: Result<Receipt, PipelineError>)
        ensures
            (match self.guest_spec().semantics(self.input_spec()) {
                OutcomeView::Committed(journal) => r matches Ok(rec) && rec@.journal == journal
                    && rec@.seal == seal_of(self.identity_spec(), journal),
                OutcomeView::Trapped(reason) => r == Err::<Receipt, PipelineError>(
                    PipelineError::ExecutionTrap(reason),
                ),
            }),
    {
        let outcome: GuestOutcome = self.guest.execute(&self.input);
        match outcome {
            GuestOutcome::Committed(journal) => {
                proof {
                    use_type_invariant(&self.identity);
                    self.guest.lemma_well_formed(self.input@);
                    assert(journal@.len() <= MAX_JOURNAL_WORDS);
                }
                let seal: Vec<u32> = make_seal(&self.identity, &journal);
                Ok(Receipt::assemble(journal, seal))
            },
            GuestOutcome::Trapped(reason) => Err(PipelineError::ExecutionTrap(reason)),
        }
    }
}

} // verus!

//! Receipts and their verification.
//!
//! A receipt is the immutable artifact of a successful proving run: the
//! committed journal plus the seal that binds the journal to the identity of
//! the program that produced it. Until verification succeeds the journal is
//! an untrusted claim; a caller must refuse to act on the values of a receipt
//! that failed to verify.

use vstd::prelude::*;
use crate::codec::copy_words;
use crate::codec::words_eq;
use crate::errors::PipelineError;
use crate::ident::ProgramId;
use crate::seal::make_seal;
use crate::seal::seal_of;

verus! {

/// Upper bound on the words of a journal or a seal that the byte transport
/// can carry: each length must fit its 32-bit length prefix.
pub const MAX_SECTION_WORDS: usize = 0xFFFF_FFFF;

/// The mathematical form of a receipt.
pub struct ReceiptView {
    /// The committed words, in commit order.
    pub journal: Seq<u32>,
    /// The seal over the producing program's identity and the journal.
    pub seal: Seq<u32>,
}

/// The journal a guest run committed, with the seal attesting which program
/// committed it. Created by the prover at the end of a successful run and
/// immutable thereafter.
#[derive(Debug)]
pub struct Receipt {
    journal: Vec<u32>,
    seal: Vec<u32>,
}

impl View for Receipt {
    type V = ReceiptView;

    closed spec fn view(&self) -> ReceiptView {
        ReceiptView { journal: self.journal@, seal: self.seal@ }
    }
}

impl Receipt {
    /// Holds of every receipt value: both sections fit the byte transport.
    #[verifier::type_invariant]
    pub open spec fn wf(self) -> bool {
        self@.journal.len() <= MAX_SECTION_WORDS && self@.seal.len() <= MAX_SECTION_WORDS
    }

    /// Assembles the receipt of a completed run.
    pub(crate) fn assemble(journal: Vec<u32>, seal: Vec<u32>) -> (r: Receipt)
        requires
            journal@.len() <= MAX_SECTION_WORDS,
            seal@.len() <= MAX_SECTION_WORDS,
        ensures
            r@.journal == journal@,
            r@.seal == seal@,
    {
        Receipt { journal, seal }
    }

    /// The committed words, in commit order: an untrusted claim until
    /// [`Receipt::verify`] succeeds.
    pub fn journal(&self) -> (r: &Vec<u32>)
        ensures
            r@ == self@.journal,
    {
        &self.journal
    }

    /// The seal: opaque proof data, meaningful only to [`Receipt::verify`].
    pub fn seal(&self) -> (r: &Vec<u32>)
        ensures
            r@ == self@.seal,
    {
        &self.seal
    }

    /// Checks the seal against the supplied program identity and this
    /// receipt's journal, without re-running the guest. Succeeds exactly when
    /// the seal binds that identity to this journal; a corrupted receipt and
    /// a dishonest prover are indistinguishable and both are rejected.
    pub fn verify(&self, identity: &ProgramId) -> (r: Result<(), PipelineError>)
        ensures
            r is Ok <==> self@.seal == seal_of(identity@, self@.journal),
            r is Err ==> r == Err::<(), PipelineError>(PipelineError::Verification),
    {
        let expected: Vec<u32> = make_seal(identity, &self.journal);
        if words_eq(&self.seal, &expected) {
            Ok(())
        } else {
            Err(PipelineError::Verification)
        }
    }

    /// A receipt equal to this one, by value.
    pub fn duplicate(&self) -> (r: Receipt)
        ensures
            r@.journal == self@.journal,
            r@.seal == self@.seal,
    {
        proof {
            use_type_invariant(self);
        }
        Receipt { journal: copy_words(&self.journal), seal: copy_words(&self.seal) }
    }
}

} // verus!

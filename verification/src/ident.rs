//! Program identity.
//!
//! A fixed-size value derived at build time from a guest program's compiled
//! form. Prover and verifier agree on "which program" a receipt is about by
//! comparing identities by value; the protocol itself offers no way to derive
//! a trustworthy identity from a receipt, so a verifier must obtain it through
//! a channel it trusts independently.

use vstd::prelude::*;
use crate::codec::words_eq;
use crate::codec::copy_words;

verus! {

/// Number of 32-bit words in a program identity.
pub const ID_WORDS: usize = 8;

/// The fixed-size identifier of one guest program binary.
#[derive(Debug)]
pub struct ProgramId {
    words: Vec<u32>,
}

impl View for ProgramId {
    type V = Seq<u32>;

    closed spec fn view(&self) -> Seq<u32> {
        self.words@
    }
}

impl ProgramId {
    /// Holds of every identity value: it has exactly [`ID_WORDS`] words.
    #[verifier::type_invariant]
    pub open spec fn wf(self) -> bool {
        self@.len() == ID_WORDS
    }

    /// Builds an identity from exactly [`ID_WORDS`] words; any other length
    /// is not an identity.
    pub fn from_words(words: Vec<u32>) -> (r: Option<ProgramId>)
        ensures
            r is Some <==> words@.len() == ID_WORDS,
            r matches Some(id) ==> id@ == words@,
    {
        if words.len() == ID_WORDS {
            Some(ProgramId { words })
        } else {
            None
        }
    }

    /// Builds an identity from words already known to have the right length.
    pub(crate) fn of_words(words: Vec<u32>) -> (r: ProgramId)
        requires
            words@.len() == ID_WORDS,
        ensures
            r@ == words@,
    {
        ProgramId { words }
    }

    /// The identity's words, in order.
    pub fn words(&self) -> (r: &Vec<u32>)
        ensures
            r@ == self@,
    {
        &self.words
    }

    /// A copy of the identity's words, in order.
    pub fn to_words(&self) -> (r: Vec<u32>)
        ensures
            r@ == self@,
    {
        copy_words(&self.words)
    }

    /// An identity equal to this one, by value.
    pub fn duplicate(&self) -> (r: ProgramId)
        ensures
            r@ == self@,
    {
        proof {
            use_type_invariant(self);
        }
        ProgramId { words: copy_words(&self.words) }
    }

    /// Identities are compared by value.
    pub fn same_as(&self, other: &ProgramId) -> (r: bool)
        ensures
            r == (self@ == other@),
    {
        words_eq(&self.words, &other.words)
    }
}

} // verus!

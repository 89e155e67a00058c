//! The proving backend's seal.
//!
//! The proof system proper is out of scope here: it is consumed as a black
//! box whose whole contract is "a seal binds a program identity and a journal
//! together". This module is the reference backend for that contract — the
//! seal embeds both bound values, so the binding is exact by construction and
//! the verifier can check a receipt by recomputation, without re-running the
//! guest and in time independent of the guest's execution cost. A deployment
//! wanting succinctness or secrecy of the seal substitutes a cryptographic
//! backend behind the same interface.

use vstd::prelude::*;
use crate::codec::copy_words;
use crate::ident::ID_WORDS;
use crate::ident::ProgramId;

verus! {

/// The seal that binds `id` and `journal`: the one value `verify` accepts for
/// this pair.
pub open spec fn seal_of(id: Seq<u32>, journal: Seq<u32>) -> Seq<u32> {
    id + journal
}

/// A seal determines the identity and the journal it binds: two identity /
/// journal pairs with the same seal are the same pair.
pub proof fn lemma_seal_binds(id1: Seq<u32>, j1: Seq<u32>, id2: Seq<u32>, j2: Seq<u32>)
    requires
        id1.len() == ID_WORDS,
        id2.len() == ID_WORDS,
        seal_of(id1, j1) == seal_of(id2, j2),
    ensures
        id1 == id2,
        j1 == j2,
{
    assert(id1 =~= id2) by {
        assert forall|k: int| 0 <= k < ID_WORDS implies id1[k] == id2[k] by {
            assert(seal_of(id1, j1)[k] == id1[k]);
            assert(seal_of(id2, j2)[k] == id2[k]);
        }
    }
    assert((id1 + j1).len() == id1.len() + j1.len());
    assert((id2 + j2).len() == id2.len() + j2.len());
    assert(j1.len() == j2.len());
    assert(j1 =~= j2) by {
        assert forall|k: int| 0 <= k < j1.len() implies j1[k] == j2[k] by {
            assert(seal_of(id1, j1)[ID_WORDS + k] == j1[k]);
            assert(seal_of(id2, j2)[ID_WORDS + k] == j2[k]);
        }
    }
}

/// Tamper detection: any change to a journal makes its seal no longer match,
/// so a mutated journal can never verify under the original seal.
pub proof fn lemma_tamper_detected(id: Seq<u32>, j1: Seq<u32>, j2: Seq<u32>)
    requires
        id.len() == ID_WORDS,
        j1 != j2,
    ensures
        seal_of(id, j1) != seal_of(id, j2),
{
    if seal_of(id, j1) == seal_of(id, j2) {
        lemma_seal_binds(id, j1, id, j2);
    }
}

/// Identity binding: a seal produced under one program identity does not
/// match any distinct identity, even for a word-identical journal.
pub proof fn lemma_identity_binding(id1: Seq<u32>, id2: Seq<u32>, j: Seq<u32>)
    requires
        id1.len() == ID_WORDS,
        id2.len() == ID_WORDS,
        id1 != id2,
    ensures
        seal_of(id1, j) != seal_of(id2, j),
{
    if seal_of(id1, j) == seal_of(id2, j) {
        lemma_seal_binds(id1, j, id2, j);
    }
}

/// Computes the seal binding `identity` and `journal`.
pub(crate) fn make_seal(identity: &ProgramId, journal: &Vec<u32>) -> (r: Vec<u32>)
    ensures
        r@ == seal_of(identity@, journal@),
{
    let mut out: Vec<u32> = copy_words(identity.words());
    let mut i: usize = 0;
    proof {
        assert(identity@ + journal@.take(0) =~= identity@);
    }
    while i < journal.len()
        invariant
            i <= journal@.len(),
            out@ == identity@ + journal@.take(i as int),
        decreases journal@.len() - i,
    {
        out.push(journal[i]);
        proof {
            assert((identity@ + journal@.take(i as int)).push(journal@[i as int]) =~= identity@
                + journal@.take(i as int + 1));
        }
        i += 1;
    }
    proof {
        assert(identity@ + journal@.take(journal@.len() as int) =~= seal_of(identity@, journal@));
    }
    out
}

} // verus!

//! Error taxonomy of the pipeline.
//!
//! Guest traps are reframed as a tagged outcome rather than an abort, so a
//! caller can tell "no receipt because the guest refused the input" apart from
//! other failures. Every error is returned as a typed value; none is swallowed.

use vstd::prelude::*;

verus! {

/// Why a guest run halted without committing a complete journal.
#[derive(Clone, Copy, Debug, PartialEq, Eq, Structural)]
pub enum TrapReason {
    /// The guest tried to read past the end of its input stream.
    InputExhausted,
    /// The guest refused a semantically invalid input: this encodes the
    /// guest's own precondition as an execution-level assertion.
    InvalidInput,
    /// A checked arithmetic operation inside the guest overflowed.
    Overflow,
}

/// Every failure the pipeline reports to a caller.
#[derive(Clone, Copy, Debug, PartialEq, Eq, Structural)]
pub enum PipelineError {
    /// A value could not be read back from a journal or a byte stream:
    /// the read order or type sequence does not match what was written.
    Deserialization,
    /// The program identity handed to the prover does not correspond to the
    /// guest program it was asked to load; proving must not proceed.
    InvalidProgram,
    /// The guest halted before committing a complete journal; the session is
    /// over and no receipt exists. Deterministic: the same inputs trap again.
    ExecutionTrap(TrapReason),
    /// The receipt's proof does not check against the supplied identity and
    /// journal; the journal must not be acted upon.
    Verification,
}

} // verus!

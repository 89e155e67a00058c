//! A minimal verifiable-computation pipeline.
//!
//! A host delegates a deterministic computation to an isolated guest program,
//! obtains a receipt attesting that the computation was executed by a specific,
//! identified program, and later verifies that receipt without re-executing the
//! computation. The proving backend is kept behind a narrow seal interface so
//! that a deployment can substitute a succinct cryptographic proof system
//! without touching the protocol logic.
//!
//! The pieces, in dependency order: [`codec`] serializes values to the words
//! of input streams and journals; [`ident`] fixes what a program identity is;
//! [`guest`] states the read/commit contract a guest program must meet, and
//! [`multiply`] is the one guest shipped here; [`seal`] is the proving
//! backend's binding of identity and journal; [`prover`] runs one proving
//! session to a [`receipt`], which [`transport`] carries to a remote
//! verifier as bytes; [`host`] orchestrates whole sessions and reads
//! journals back. [`errors`] names every failure the pipeline reports.

pub mod codec;
pub mod errors;
pub mod guest;
pub mod host;
pub mod ident;
pub mod multiply;
pub mod prover;
pub mod receipt;
pub mod seal;
pub mod transport;

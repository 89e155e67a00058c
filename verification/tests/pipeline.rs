//! End-to-end sessions: proving, journal extraction and verification.

use zkpipe::errors::PipelineError;
use zkpipe::errors::TrapReason;
use zkpipe::host::InputValue;
use zkpipe::host::JournalReader;
use zkpipe::host::prepare_inputs;
use zkpipe::host::run_session;
use zkpipe::ident::ProgramId;
use zkpipe::multiply::MultiplyGuest;
use zkpipe::multiply::multiply_id;
use zkpipe::prover::Prover;

fn factor_inputs(a: u64, b: u64) -> Vec<u32> {
    prepare_inputs(&vec![InputValue::U64(a), InputValue::U64(b)])
}

fn altered_id() -> ProgramId {
    let mut words = multiply_id().to_words();
    words[0] ^= 1;
    ProgramId::from_words(words).expect("eight words are an identity")
}

#[test]
fn concrete_scenario_17_times_23() {
    let input = factor_inputs(17, 23);
    let receipt = run_session(MultiplyGuest, multiply_id(), &input).expect("an honest session completes");
    let mut reader = JournalReader::new(&receipt);
    assert_eq!(reader.read_u64(), Ok(391));
    assert!(receipt.verify(&multiply_id()).is_ok());
    assert_eq!(receipt.verify(&altered_id()), Err(PipelineError::Verification));
}

#[test]
fn round_trip_large_factors() {
    let a: u64 = 0x1_0000_0001;
    let b: u64 = 0xFFFF_FFFF;
    let input = factor_inputs(a, b);
    let receipt = run_session(MultiplyGuest, multiply_id(), &input).expect("an honest session completes");
    let mut reader = JournalReader::new(&receipt);
    assert_eq!(reader.read_u64(), Ok(a.checked_mul(b).unwrap()));
    assert!(receipt.verify(&multiply_id()).is_ok());
}

#[test]
fn trivial_factor_a_traps() {
    let input = factor_inputs(1, 23);
    let r = run_session(MultiplyGuest, multiply_id(), &input);
    assert_eq!(r.err(), Some(PipelineError::ExecutionTrap(TrapReason::InvalidInput)));
}

#[test]
fn trivial_factor_b_traps() {
    let input = factor_inputs(17, 1);
    let r = run_session(MultiplyGuest, multiply_id(), &input);
    assert_eq!(r.err(), Some(PipelineError::ExecutionTrap(TrapReason::InvalidInput)));
}

#[test]
fn overflowing_product_traps() {
    let input = factor_inputs(1 << 32, 1 << 32);
    let r = run_session(MultiplyGuest, multiply_id(), &input);
    assert_eq!(r.err(), Some(PipelineError::ExecutionTrap(TrapReason::Overflow)));
}

#[test]
fn missing_input_traps() {
    let input = prepare_inputs(&vec![InputValue::U64(17)]);
    let r = run_session(MultiplyGuest, multiply_id(), &input);
    assert_eq!(r.err(), Some(PipelineError::ExecutionTrap(TrapReason::InputExhausted)));
}

#[test]
fn mismatched_identity_refuses_to_prove() {
    let r = Prover::new(MultiplyGuest, altered_id());
    assert!(matches!(r, Err(PipelineError::InvalidProgram)));
}

#[test]
fn prover_inputs_accumulate_in_call_order() {
    let mut prover = Prover::new(MultiplyGuest, multiply_id()).expect("identity matches");
    prover.add_input(&prepare_inputs(&vec![InputValue::U64(17)]));
    prover.add_input(&prepare_inputs(&vec![InputValue::U64(23)]));
    let receipt = prover.run().expect("an honest session completes");
    let mut reader = JournalReader::new(&receipt);
    assert_eq!(reader.read_u64(), Ok(391));
}

#[test]
fn identity_binding() {
    let input = factor_inputs(17, 23);
    let receipt = run_session(MultiplyGuest, multiply_id(), &input).expect("an honest session completes");
    assert!(receipt.verify(&multiply_id()).is_ok());
    assert_eq!(receipt.verify(&altered_id()), Err(PipelineError::Verification));
}

#[test]
fn determinism_identical_sessions_identical_journals() {
    let input = factor_inputs(123_456_789, 987_654_321);
    let r1 = run_session(MultiplyGuest, multiply_id(), &input).expect("an honest session completes");
    let r2 = run_session(MultiplyGuest, multiply_id(), &input).expect("an honest session completes");
    assert_eq!(r1.journal(), r2.journal());
    assert_eq!(zkpipe::transport::encode_receipt(&r1), zkpipe::transport::encode_receipt(&r2));
}

#[test]
fn journal_read_past_end_fails_and_consumes_nothing() {
    let input = factor_inputs(17, 23);
    let receipt = run_session(MultiplyGuest, multiply_id(), &input).expect("an honest session completes");
    let mut reader = JournalReader::new(&receipt);
    assert_eq!(reader.read_u64(), Ok(391));
    assert_eq!(reader.read_u64(), Err(PipelineError::Deserialization));
    assert_eq!(reader.read_u64(), Err(PipelineError::Deserialization));
}

#[test]
fn journal_reads_are_typed_and_sequential() {
    let input = factor_inputs(17, 23);
    let receipt = run_session(MultiplyGuest, multiply_id(), &input).expect("an honest session completes");
    let mut reader = JournalReader::new(&receipt);
    assert_eq!(reader.read_u32(), Ok(391));
    assert_eq!(reader.read_u32(), Ok(0));
    assert_eq!(reader.read_u32(), Err(PipelineError::Deserialization));
    // Reading with the wrong type sequence: after one word is taken as a
    // 32-bit value, no whole 64-bit value remains.
    let mut wrong = JournalReader::new(&receipt);
    assert_eq!(wrong.read_u32(), Ok(391));
    assert_eq!(wrong.read_u64(), Err(PipelineError::Deserialization));
}

#[test]
fn input_stream_encoding_is_word_exact() {
    let words = prepare_inputs(&vec![InputValue::U64(0x1_0000_0002), InputValue::U32(7)]);
    assert_eq!(words, vec![2, 1, 7]);
}

#[test]
fn identity_needs_exactly_eight_words() {
    assert!(ProgramId::from_words(vec![1, 2, 3]).is_none());
    assert!(ProgramId::from_words(vec![0; 9]).is_none());
    let id = ProgramId::from_words(vec![0; 8]).expect("eight words are an identity");
    assert_eq!(id.words().len(), 8);
    assert!(!id.same_as(&multiply_id()));
    assert!(id.same_as(&id.duplicate()));
}

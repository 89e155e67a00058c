//! The transport boundary: serialization, loss-free decoding, tampering.

use zkpipe::errors::PipelineError;
use zkpipe::host::InputValue;
use zkpipe::host::JournalReader;
use zkpipe::host::prepare_inputs;
use zkpipe::host::run_session;
use zkpipe::ident::ProgramId;
use zkpipe::multiply::MultiplyGuest;
use zkpipe::multiply::multiply_id;
use zkpipe::receipt::Receipt;
use zkpipe::transport::decode_receipt;
use zkpipe::transport::encode_receipt;

fn proven_receipt() -> Receipt {
    let input = prepare_inputs(&vec![InputValue::U64(17), InputValue::U64(23)]);
    run_session(MultiplyGuest, multiply_id(), &input).expect("an honest session completes")
}

#[test]
fn receipt_survives_transport() {
    let receipt = proven_receipt();
    let bytes = encode_receipt(&receipt);
    let back = decode_receipt(&bytes).expect("the encoding decodes");
    assert_eq!(back.journal(), receipt.journal());
    assert_eq!(back.seal(), receipt.seal());
    assert!(back.verify(&multiply_id()).is_ok());
    let mut reader = JournalReader::new(&back);
    assert_eq!(reader.read_u64(), Ok(391));
}

#[test]
fn tampering_with_any_journal_byte_is_detected() {
    let receipt = proven_receipt();
    let bytes = encode_receipt(&receipt);
    // The journal's words sit right behind the leading length word.
    let journal_bytes = 4 * receipt.journal().len();
    for i in 4..4 + journal_bytes {
        for flip in [0x01u8, 0x80u8] {
            let mut mutated = bytes.clone();
            mutated[i] ^= flip;
            let rec = decode_receipt(&mutated).expect("the framing is untouched");
            assert_eq!(rec.verify(&multiply_id()), Err(PipelineError::Verification));
        }
    }
}

#[test]
fn tampering_with_any_byte_never_verifies() {
    let receipt = proven_receipt();
    let bytes = encode_receipt(&receipt);
    for i in 0..bytes.len() {
        let mut mutated = bytes.clone();
        mutated[i] ^= 0xFF;
        match decode_receipt(&mutated) {
            Ok(rec) => {
                assert_eq!(rec.verify(&multiply_id()), Err(PipelineError::Verification));
            }
            Err(e) => assert_eq!(e, PipelineError::Deserialization),
        }
    }
}

#[test]
fn truncated_or_padded_bytes_are_rejected() {
    let receipt = proven_receipt();
    let bytes = encode_receipt(&receipt);
    let mut truncated = bytes.clone();
    truncated.pop();
    assert_eq!(decode_receipt(&truncated).err(), Some(PipelineError::Deserialization));
    let mut shorter = bytes.clone();
    shorter.truncate(bytes.len() - 4);
    assert_eq!(decode_receipt(&shorter).err(), Some(PipelineError::Deserialization));
    let mut padded = bytes.clone();
    padded.extend_from_slice(&[0, 0, 0, 0]);
    assert_eq!(decode_receipt(&padded).err(), Some(PipelineError::Deserialization));
    assert_eq!(decode_receipt(&Vec::new()).err(), Some(PipelineError::Deserialization));
}

#[test]
fn decoded_receipt_is_still_untrusted() {
    // A byte sequence that frames correctly decodes, but its journal stays a
    // claim: without a matching seal it must not verify.
    let forged_words: Vec<u32> = vec![2, 391, 0, 0];
    let mut forged = Vec::new();
    for w in forged_words {
        forged.extend_from_slice(&w.to_le_bytes());
    }
    let rec = decode_receipt(&forged).expect("the framing is well formed");
    assert_eq!(rec.journal(), &vec![391, 0]);
    assert_eq!(rec.verify(&multiply_id()), Err(PipelineError::Verification));
}

#[test]
fn verification_needs_only_bytes_and_identity() {
    // A remote verifier holds nothing but the received bytes and an identity
    // obtained through a channel it trusts.
    let bytes = encode_receipt(&proven_receipt());
    let trusted_identity =
        ProgramId::from_words(multiply_id().to_words()).expect("eight words are an identity");
    let rec = decode_receipt(&bytes).expect("the encoding decodes");
    assert!(rec.verify(&trusted_identity).is_ok());
}

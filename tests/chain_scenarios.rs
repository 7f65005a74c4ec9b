use cycler::artifact::{ProofArtifact, ProofKind};
use cycler::chain::{Chain, ChainError, StepRequest};
use cycler::commitment::{Commitment, Fingerprint};
use cycler::extract::{cycle_verdict, dedup_sorted, sorted_copy, Verdict};
use cycler::step::{run_step, StepFailure};
use sha2::{Digest, Sha256};

// A stand-in engine: a "proof" is the SHA-256 of the fingerprint and the
// public commitment, so it verifies exactly when neither was altered.
fn seal(fingerprint: &Fingerprint, commitment: &[u8]) -> Vec<u8> {
    let mut h = Sha256::new();
    for w in fingerprint.words.iter() {
        h.update(w.to_le_bytes());
    }
    h.update(commitment);
    h.finalize().to_vec()
}

fn engine_verify(artifact: &ProofArtifact) -> bool {
    match &artifact.proof {
        ProofKind::Compressed(blob) => {
            *blob == seal(&artifact.fingerprint, &artifact.commitment.to_bytes())
        }
        ProofKind::Other(_) => false,
    }
}

fn engine_prove(
    request: StepRequest,
    tamper: bool,
) -> Result<ProofArtifact, StepFailure> {
    let mut input = request.input;
    if tamper {
        let mut bytes = input.incoming.to_bytes();
        bytes[0] ^= 0xff;
        input.incoming = Commitment::from_bytes(bytes);
    }
    let fingerprint = input.fingerprint;
    let blob_valid = match &request.predecessor {
        Some(p) => engine_verify(p),
        None => false,
    };
    let out = run_step(input, request.predecessor.as_ref(), blob_valid)?;
    let proof = ProofKind::Compressed(seal(&fingerprint, &out.to_bytes()));
    Ok(ProofArtifact { commitment: out, proof, fingerprint })
}

fn fp(seed: u32) -> Fingerprint {
    Fingerprint { words: [seed, 1, 2, 3, 4, 5, 6, 7] }
}

// Drives a chain to its end; `tamper_at` alters that step's incoming bytes.
fn build(ids: Vec<u8>, tamper_at: Option<usize>) -> Chain {
    let mut chain = Chain::new(fp(9), ids);
    loop {
        match chain.next_request() {
            Ok(Some(req)) => {
                let tamper = tamper_at == Some(req.step_index);
                let outcome = engine_prove(req, tamper);
                if chain.record(outcome).is_err() {
                    return chain;
                }
            }
            Ok(None) | Err(_) => return chain,
        }
    }
}

#[test]
fn scenario_no_repeat_is_no_cycle() {
    let chain = build(vec![1, 2, 3], None);
    let last = chain.final_artifact().unwrap();
    let bytes = last.commitment.to_bytes();
    assert_eq!(bytes, vec![1, 2, 3]);
    let sorted = sorted_copy(&bytes);
    assert_eq!(sorted, vec![1, 2, 3]);
    assert_eq!(dedup_sorted(&sorted), vec![1, 2, 3]);
    assert_eq!(cycle_verdict(&last.commitment, engine_verify(last)), Verdict::NoCycle);
}

#[test]
fn scenario_closing_repeat_is_cycle() {
    let chain = build(vec![1, 2, 3, 1], None);
    let last = chain.final_artifact().unwrap();
    let bytes = last.commitment.to_bytes();
    assert_eq!(bytes, vec![1, 2, 3, 1]);
    let sorted = sorted_copy(&bytes);
    assert_eq!(sorted, vec![1, 1, 2, 3]);
    let deduped = dedup_sorted(&sorted);
    assert_eq!(deduped, vec![1, 2, 3]);
    assert_eq!(sorted.len(), 4);
    assert_eq!(deduped.len(), 3);
    assert_eq!(
        cycle_verdict(&last.commitment, engine_verify(last)),
        Verdict::CycleDetected
    );
}

#[test]
fn scenario_tampered_incoming_halts_at_step_two() {
    let chain = build(vec![1, 2, 3, 1], Some(2));
    let expected = ChainError::ProvingFailure {
        step_index: 2,
        cause: StepFailure::EmbeddedVerificationFailure,
    };
    assert_eq!(chain.halted(), Some(expected));
    assert_eq!(chain.completed(), 1);
    assert!(chain.final_artifact().is_none());
    assert_eq!(chain.next_request().err(), Some(expected));
}

#[test]
fn scenario_corrupted_final_blob_is_invalid() {
    let chain = build(vec![1, 2, 3, 1], None);
    let mut last = chain.final_artifact().unwrap().duplicate();
    if let ProofKind::Compressed(blob) = &mut last.proof {
        blob[0] ^= 1;
    }
    let valid = engine_verify(&last);
    assert!(!valid);
    assert_eq!(cycle_verdict(&last.commitment, valid), Verdict::InvalidProof);
}

#[test]
fn length_grows_by_one_per_step() {
    let ids = vec![5, 6, 7, 8, 5];
    let mut chain = Chain::new(fp(1), ids.clone());
    let mut k = 0;
    while let Ok(Some(req)) = chain.next_request() {
        chain.record(engine_prove(req, false)).unwrap();
        k += 1;
        let out = chain.last_artifact().unwrap().commitment.to_bytes();
        assert_eq!(out.len(), k);
        assert_eq!(out, ids[..k].to_vec());
    }
    assert_eq!(chain.completed(), 5);
}

#[test]
fn step_is_deterministic() {
    let chain = build(vec![4, 2], None);
    let pred = chain.final_artifact().unwrap();
    let run = || {
        let input = cycler::step::StepInput {
            identity: 7,
            fingerprint: fp(9),
            incoming: pred.commitment.duplicate(),
        };
        run_step(input, Some(pred), engine_verify(pred)).unwrap().to_bytes()
    };
    let first = run();
    let second = run();
    assert_eq!(first, second);
    assert_eq!(first, vec![4, 2, 7]);
}

#[test]
fn other_fingerprint_is_rejected() {
    let mut producer = Chain::new(fp(1), vec![1, 2]);
    while let Ok(Some(req)) = producer.next_request() {
        producer.record(engine_prove(req, false)).unwrap();
    }
    let pred = producer.final_artifact().unwrap();
    assert!(engine_verify(pred));
    let input = cycler::step::StepInput {
        identity: 3,
        fingerprint: fp(2),
        incoming: pred.commitment.duplicate(),
    };
    let r = run_step(input, Some(pred), true);
    assert_eq!(r.err(), Some(StepFailure::EmbeddedVerificationFailure));
}

#[test]
fn record_rejects_foreign_fingerprint() {
    let mut chain = Chain::new(fp(1), vec![1, 2]);
    let req = chain.next_request().unwrap().unwrap();
    assert_eq!(req.step_index, 1);
    let mut art = engine_prove(req, false).unwrap();
    art.fingerprint = fp(2);
    assert_eq!(
        chain.record(Ok(art)),
        Err(ChainError::FingerprintMismatch { step_index: 1 })
    );
    assert_eq!(chain.completed(), 0);
}

#[test]
fn record_rejects_wrong_output() {
    let mut chain = Chain::new(fp(1), vec![1, 2]);
    let req = chain.next_request().unwrap().unwrap();
    let mut art = engine_prove(req, false).unwrap();
    art.commitment = Commitment::from_bytes(vec![2]);
    let expected = ChainError::ProvingFailure { step_index: 1, cause: StepFailure::EngineFault };
    assert_eq!(chain.record(Ok(art)), Err(expected));
    assert_eq!(chain.halted(), Some(expected));
}

#[test]
fn engine_failure_is_reported_with_step() {
    let mut chain = Chain::new(fp(1), vec![1, 2, 3]);
    let req = chain.next_request().unwrap().unwrap();
    chain.record(engine_prove(req, false)).unwrap();
    let req = chain.next_request().unwrap().unwrap();
    assert_eq!(req.step_index, 2);
    assert_eq!(req.input.incoming.to_bytes(), vec![1]);
    let expected = ChainError::ProvingFailure { step_index: 2, cause: StepFailure::EngineFault };
    assert_eq!(chain.record(Err(StepFailure::EngineFault)), Err(expected));
    assert_eq!(chain.next_request().err(), Some(expected));
}

#[test]
fn uncompressed_predecessor_is_unsupported() {
    let mut chain = Chain::new(fp(1), vec![1, 2]);
    let req = chain.next_request().unwrap().unwrap();
    let mut art = engine_prove(req, false).unwrap();
    art.proof = ProofKind::Other(vec![0]);
    chain.record(Ok(art)).unwrap();
    assert_eq!(
        chain.next_request().err(),
        Some(ChainError::UnsupportedProofKind { step_index: 2 })
    );
}

#[test]
fn empty_plan_has_no_request() {
    let chain = Chain::new(fp(1), vec![]);
    assert!(matches!(chain.next_request(), Ok(None)));
    assert!(chain.final_artifact().is_none());
}

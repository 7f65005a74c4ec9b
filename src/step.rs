use crate::artifact::ProofArtifact;
use crate::commitment::{bytes_equal, Commitment, Fingerprint, Identity};
use crate::digest::{sha256, sha256_of};
use vstd::prelude::*;

verus! {

/// The inputs of one step, in the order the step program reads them.
#[derive(Debug)]
pub struct StepInput {
    pub identity: Identity,
    pub fingerprint: Fingerprint,
    pub incoming: Commitment,
}

/// What a step asks the engine to verify before it may extend: a proof under
/// `fingerprint` whose public commitment has SHA-256 digest `digest`.
#[derive(Debug)]
pub struct EmbeddedCheck {
    pub fingerprint: Fingerprint,
    pub digest: Vec<u8>,
}

/// Why a step produced no artifact.
#[derive(Clone, Copy, Debug, PartialEq, Eq, Structural)]
pub enum StepFailure {
    /// The predecessor's proof did not verify against the incoming
    /// commitment's digest under the step's fingerprint.
    EmbeddedVerificationFailure,
    /// The engine could not produce the artifact for another reason, or
    /// produced one that is not this step's output.
    EngineFault,
}

/// The digest and fingerprint a step checks, or none at genesis.
pub open spec fn check_of(fingerprint: Fingerprint, incoming: Seq<u8>) -> Option<
    (Fingerprint, Seq<u8>),
> {
    if incoming.len() == 0 {
        None
    } else {
        Some((fingerprint, sha256_of(incoming)))
    }
}

/// Whether embedded verification accepts a predecessor produced under
/// `produced_under` with public commitment `public`, for a step that checks
/// `check`. `blob_valid` is the engine's own verdict on the proof data.
pub open spec fn accepts(
    check: (Fingerprint, Seq<u8>),
    produced_under: Fingerprint,
    public: Seq<u8>,
    blob_valid: bool,
) -> bool {
    blob_valid && produced_under.words@ == check.0.words@ && sha256_of(public) == check.1
}

/// The outgoing commitment of a step, or none when it aborts.
pub open spec fn step_output_of(
    identity: Identity,
    incoming: Seq<u8>,
    predecessor_verified: bool,
) -> Option<Seq<u8>> {
    if incoming.len() == 0 || predecessor_verified {
        Some(incoming.push(identity))
    } else {
        None
    }
}

/// The whole step on plain values: the outgoing commitment, or none when the
/// predecessor (its fingerprint, its public commitment, and the engine's verdict
/// on its proof data) does not pass embedded verification.
pub open spec fn step_result(
    identity: Identity,
    fingerprint: Fingerprint,
    incoming: Seq<u8>,
    predecessor: Option<(Fingerprint, Seq<u8>)>,
    blob_valid: bool,
) -> Option<Seq<u8>> {
    let verified = match (check_of(fingerprint, incoming), predecessor) {
        (Some(c), Some(p)) => accepts(c, p.0, p.1, blob_valid),
        _ => false,
    };
    step_output_of(identity, incoming, verified)
}

/// The check a step makes before extending: none at genesis, else the step's
/// fingerprint and the digest of the incoming commitment.
pub fn embedded_check(input: &StepInput) -> (r: Option<EmbeddedCheck>)
    ensures
        r is None <==> check_of(input.fingerprint, input.incoming@) is None,
        r matches Some(c) ==> check_of(input.fingerprint, input.incoming@) == Some(
            (c.fingerprint, c.digest@),
        ),
{
    if input.incoming.is_genesis() {
        None
    } else {
        Some(EmbeddedCheck { fingerprint: input.fingerprint, digest: input.incoming.digest() })
    }
}

/// Embedded verification of a predecessor: the engine's verdict on the proof
/// data, bound to the requested fingerprint and to the requested digest of the
/// predecessor's public commitment.
pub fn embedded_verdict(check: &EmbeddedCheck, predecessor: &ProofArtifact, blob_valid: bool) -> (r:
    bool)
    ensures
        r == accepts(
            (check.fingerprint, check.digest@),
            predecessor.fingerprint,
            predecessor.commitment@,
            blob_valid,
        ),
{
    if !blob_valid || !predecessor.fingerprint.matches(&check.fingerprint) {
        return false;
    }
    let public_digest = predecessor.commitment.digest();
    bytes_equal(&public_digest, &check.digest)
}

/// Finish a step: append the identity to the incoming commitment, unless the
/// step is not genesis and its predecessor was not verified.
pub fn step_output(input: StepInput, predecessor_verified: bool) -> (r: Result<
    Commitment,
    StepFailure,
>)
    ensures
        r is Ok <==> step_output_of(input.identity, input.incoming@, predecessor_verified) is Some,
        r matches Ok(c) ==> Some(c@) == step_output_of(
            input.identity,
            input.incoming@,
            predecessor_verified,
        ),
        r matches Err(e) ==> e == StepFailure::EmbeddedVerificationFailure,
{
    if !input.incoming.is_genesis() && !predecessor_verified {
        return Err(StepFailure::EmbeddedVerificationFailure);
    }
    Ok(input.incoming.extend(input.identity))
}

/// The step function as run by an engine that was handed `predecessor`, with
/// `blob_valid` the engine's verdict on that predecessor's proof data.
pub fn run_step(input: StepInput, predecessor: Option<&ProofArtifact>, blob_valid: bool) -> (r:
    Result<Commitment, StepFailure>)
    ensures
        r is Ok <==> step_result(
            input.identity,
            input.fingerprint,
            input.incoming@,
            predecessor_view(predecessor),
            blob_valid,
        ) is Some,
        r matches Ok(c) ==> Some(c@) == step_result(
            input.identity,
            input.fingerprint,
            input.incoming@,
            predecessor_view(predecessor),
            blob_valid,
        ),
        r matches Err(e) ==> e == StepFailure::EmbeddedVerificationFailure,
{
    let verified = match (embedded_check(&input), predecessor) {
        (Some(check), Some(p)) => embedded_verdict(&check, p, blob_valid),
        _ => false,
    };
    step_output(input, verified)
}

/// The fingerprint and public commitment of a predecessor, if any.
pub open spec fn predecessor_view(predecessor: Option<&ProofArtifact>) -> Option<
    (Fingerprint, Seq<u8>),
> {
    match predecessor {
        Some(p) => Some((p.fingerprint, p.commitment@)),
        None => None,
    }
}

/// A step is deterministic: the same identity, fingerprint, incoming
/// commitment and predecessor give the same outcome, byte for byte.
pub proof fn lemma_step_deterministic(
    first: (Identity, Fingerprint, Seq<u8>),
    second: (Identity, Fingerprint, Seq<u8>),
    predecessor: Option<(Fingerprint, Seq<u8>)>,
    blob_valid: bool,
)
    requires
        first == second,
    ensures
        step_result(first.0, first.1, first.2, predecessor, blob_valid) == step_result(
            second.0,
            second.1,
            second.2,
            predecessor,
            blob_valid,
        ),
        check_of(first.1, first.2) == check_of(second.1, second.2),
{
}

/// An extending step succeeds only when the digest of its incoming commitment
/// equals the digest of its predecessor's output; where the two digests
/// differ, as after corrupting the incoming bytes, the step aborts.
pub proof fn lemma_digest_round_trip(
    identity: Identity,
    fingerprint: Fingerprint,
    incoming: Seq<u8>,
    produced_under: Fingerprint,
    predecessor_output: Seq<u8>,
    blob_valid: bool,
)
    requires
        incoming.len() > 0,
    ensures
        step_result(
            identity,
            fingerprint,
            incoming,
            Some((produced_under, predecessor_output)),
            blob_valid,
        ) is Some ==> sha256_of(incoming) == sha256_of(predecessor_output),
        sha256_of(incoming) != sha256_of(predecessor_output) ==> step_result(
            identity,
            fingerprint,
            incoming,
            Some((produced_under, predecessor_output)),
            blob_valid,
        ) is None,
        step_result(identity, fingerprint, incoming, None, blob_valid) is None,
{
}

/// A predecessor produced under one fingerprint fails embedded verification
/// in a step that expects another: the step aborts.
pub proof fn lemma_cross_fingerprint_rejection(
    identity: Identity,
    expected: Fingerprint,
    incoming: Seq<u8>,
    produced_under: Fingerprint,
    predecessor_output: Seq<u8>,
    blob_valid: bool,
)
    requires
        incoming.len() > 0,
        produced_under.words@ != expected.words@,
    ensures
        step_result(
            identity,
            expected,
            incoming,
            Some((produced_under, predecessor_output)),
            blob_valid,
        ) is None,
{
}

/// A step that succeeds outputs its incoming commitment with its identity
/// appended, so the output is one longer.
pub proof fn lemma_step_appends(
    identity: Identity,
    fingerprint: Fingerprint,
    incoming: Seq<u8>,
    predecessor: Option<(Fingerprint, Seq<u8>)>,
    blob_valid: bool,
)
    ensures
        step_result(identity, fingerprint, incoming, predecessor, blob_valid) matches Some(out)
            ==> out == incoming.push(identity) && out.len() == incoming.len() + 1,
        incoming.len() == 0 ==> step_result(identity, fingerprint, incoming, predecessor, blob_valid)
            == Some(seq![identity]),
{
    if incoming.len() == 0 {
        assert(incoming.push(identity) =~= seq![identity]);
    }
}

} // verus!

use crate::artifact::ProofArtifact;
use crate::commitment::{Commitment, Fingerprint, Identity};
use crate::step::{StepFailure, StepInput};
use vstd::prelude::*;

verus! {

/// Why chain construction stopped.
#[derive(Clone, Copy, Debug, PartialEq, Eq, Structural)]
pub enum ChainError {
    /// The artifact of a step was produced under another fingerprint.
    FingerprintMismatch { step_index: usize },
    /// The engine produced no artifact for a step, or not this step's output.
    ProvingFailure { step_index: usize, cause: StepFailure },
    /// The predecessor of a step holds a proof that cannot be verified
    /// inside a step.
    UnsupportedProofKind { step_index: usize },
}

/// One proving call for the engine to make. Steps are numbered from 1.
#[derive(Debug)]
pub struct StepRequest {
    pub step_index: usize,
    pub input: StepInput,
    pub predecessor: Option<ProofArtifact>,
}

/// The commitment after the first `k` of `identities` have each extended it,
/// starting from genesis.
pub open spec fn commitment_after(identities: Seq<u8>, k: nat) -> Seq<u8>
    decreases k,
{
    if k == 0 || k > identities.len() {
        Seq::empty()
    } else {
        commitment_after(identities, (k - 1) as nat).push(identities[k - 1])
    }
}

/// A chain of `k` successful steps from genesis commits to exactly the
/// identities of those steps, in order, so its length is `k`.
pub proof fn lemma_length_invariant(identities: Seq<u8>, k: nat)
    requires
        k <= identities.len(),
    ensures
        commitment_after(identities, k) == identities.take(k as int),
        commitment_after(identities, k).len() == k,
    decreases k,
{
    if k == 0 {
        assert(identities.take(0) =~= Seq::<u8>::empty());
    } else {
        lemma_length_invariant(identities, (k - 1) as nat);
        assert(identities.take(k as int) =~= identities.take(k - 1).push(identities[k - 1]));
    }
}

/// The builder of one chain: it hands out a proving request per planned
/// identity, and records what the engine returns.
#[derive(Debug)]
pub struct Chain {
    fingerprint: Fingerprint,
    identities: Vec<Identity>,
    last: Option<ProofArtifact>,
    completed: usize,
    halted: Option<ChainError>,
}

impl Chain {
    /// The identities to be applied, in order.
    pub closed spec fn planned(&self) -> Seq<u8> {
        self.identities@
    }

    /// The fingerprint every step runs under.
    pub closed spec fn chain_fingerprint(&self) -> Fingerprint {
        self.fingerprint
    }

    /// Number of steps that produced an accepted artifact.
    pub closed spec fn completed_steps(&self) -> nat {
        self.completed as nat
    }

    /// The error that stopped construction, if any.
    pub closed spec fn halted_with(&self) -> Option<ChainError> {
        self.halted
    }

    /// The public commitment of the last accepted artifact, empty before any.
    pub closed spec fn output(&self) -> Seq<u8> {
        match self.last {
            Some(a) => a.commitment@,
            None => Seq::empty(),
        }
    }

    /// Whether the last accepted artifact holds a compressed proof.
    pub closed spec fn output_compressed(&self) -> bool {
        match self.last {
            Some(a) => a.proof is Compressed,
            None => false,
        }
    }

    /// The chain's invariant: the accepted artifacts are the steps of the
    /// planned identities, in order, from genesis.
    pub closed spec fn wf(&self) -> bool {
        &&& self.completed <= self.identities@.len()
        &&& (self.last is Some) == (self.completed > 0)
        &&& self.output() == commitment_after(self.identities@, self.completed as nat)
        &&& (self.last matches Some(a) ==> a.fingerprint.words@ == self.fingerprint.words@)
    }

    /// After `k` accepted steps the chain's output commitment holds the first
    /// `k` planned identities in order, so its length is `k`.
    pub proof fn lemma_output_length(&self)
        requires
            self.wf(),
        ensures
            self.output() == self.planned().take(self.completed_steps() as int),
            self.output().len() == self.completed_steps(),
    {
        lemma_length_invariant(self.identities@, self.completed as nat);
    }

    /// A chain that will apply `identities` in order under `fingerprint`.
    pub fn new(fingerprint: Fingerprint, identities: Vec<Identity>) -> (r: Chain)
        ensures
            r.wf(),
            r.planned() == identities@,
            r.chain_fingerprint() == fingerprint,
            r.completed_steps() == 0,
            r.halted_with() is None,
            r.output() == Seq::<u8>::empty(),
    {
        Chain { fingerprint, identities, last: None, completed: 0, halted: None }
    }

    /// Number of steps that produced an accepted artifact.
    pub fn completed(&self) -> (r: usize)
        ensures
            r == self.completed_steps(),
    {
        self.completed
    }

    /// The error that stopped construction, if any.
    pub fn halted(&self) -> (r: Option<ChainError>)
        ensures
            r == self.halted_with(),
    {
        self.halted
    }

    /// The last accepted artifact, if any.
    pub fn last_artifact(&self) -> (r: Option<&ProofArtifact>)
        requires
            self.wf(),
        ensures
            r is Some <==> self.completed_steps() > 0,
            r matches Some(a) ==> a.commitment@ == self.output() && a.fingerprint.words@
                == self.chain_fingerprint().words@ && (a.proof is Compressed)
                == self.output_compressed(),
    {
        self.last.as_ref()
    }

    /// The artifact of the final step, once every planned step succeeded.
    pub fn final_artifact(&self) -> (r: Option<&ProofArtifact>)
        requires
            self.wf(),
        ensures
            r is Some <==> (self.halted_with() is None && self.planned().len() > 0
                && self.completed_steps() == self.planned().len()),
            r matches Some(a) ==> a.commitment@ == self.planned() && a.fingerprint.words@
                == self.chain_fingerprint().words@,
    {
        if self.halted.is_some() || self.completed != self.identities.len() {
            return None;
        }
        proof {
            if self.completed > 0 {
                lemma_length_invariant(self.identities@, self.completed as nat);
                assert(self.identities@.take(self.completed as int) =~= self.identities@);
            }
        }
        self.last.as_ref()
    }

    /// The next proving call: the next planned identity, the chain's
    /// fingerprint, the last accepted commitment (empty at genesis) and the
    /// artifact that carries it. Nothing once construction halted or every
    /// planned step succeeded.
    pub fn next_request(&self) -> (r: Result<Option<StepRequest>, ChainError>)
        requires
            self.wf(),
        ensures
            self.halted_with() matches Some(e) ==> r == Err::<Option<StepRequest>, ChainError>(e),
            self.halted_with() is None && self.completed_steps() == self.planned().len() ==> r
                matches Ok(None),
            self.halted_with() is None && 0 < self.completed_steps() < self.planned().len()
                && !self.output_compressed() ==> r == Err::<Option<StepRequest>, ChainError>(
                ChainError::UnsupportedProofKind { step_index: (self.completed_steps() + 1) as usize },
            ),
            r matches Ok(Some(req)) ==> {
                &&& self.halted_with() is None
                &&& self.completed_steps() < self.planned().len()
                &&& req.step_index == self.completed_steps() + 1
                &&& req.input.identity == self.planned()[self.completed_steps() as int]
                &&& req.input.fingerprint == self.chain_fingerprint()
                &&& req.input.incoming@ == self.output()
                &&& (req.predecessor is None <==> self.completed_steps() == 0)
                &&& (req.predecessor matches Some(p) ==> p.commitment@ == self.output()
                    && p.fingerprint.words@ == self.chain_fingerprint().words@
                    && p.proof is Compressed)
            },
            self.halted_with() is None && (self.completed_steps() == 0 || self.output_compressed())
                && self.completed_steps() < self.planned().len() ==> r matches Ok(Some(_)),
    {
        if let Some(e) = self.halted {
            return Err(e);
        }
        if self.completed == self.identities.len() {
            return Ok(None);
        }
        let step_index = self.completed + 1;
        let identity = self.identities[self.completed];
        match &self.last {
            None => {
                let input = StepInput {
                    identity,
                    fingerprint: self.fingerprint,
                    incoming: Commitment::genesis(),
                };
                Ok(Some(StepRequest { step_index, input, predecessor: None }))
            },
            Some(a) => {
                if !a.proof.is_compressed() {
                    return Err(ChainError::UnsupportedProofKind { step_index });
                }
                let input = StepInput {
                    identity,
                    fingerprint: self.fingerprint,
                    incoming: a.commitment.duplicate(),
                };
                Ok(Some(StepRequest { step_index, input, predecessor: Some(a.duplicate()) }))
            },
        }
    }

    /// Record the engine's outcome for the pending step. An artifact is
    /// accepted only if it was produced under the chain's fingerprint and
    /// commits to the last commitment with the step's identity appended; any
    /// other outcome halts construction at this step.
    pub fn record(&mut self, outcome: Result<ProofArtifact, StepFailure>) -> (r: Result<
        (),
        ChainError,
    >)
        requires
            old(self).wf(),
            old(self).halted_with() is None,
            old(self).completed_steps() < old(self).planned().len(),
        ensures
            final(self).wf(),
            final(self).planned() == old(self).planned(),
            final(self).chain_fingerprint() == old(self).chain_fingerprint(),
            final(self).halted_with() == match r {
                Ok(_) => None,
                Err(e) => Some(e),
            },
            ({
                let k = (old(self).completed_steps() + 1) as usize;
                let expected = old(self).output().push(
                    old(self).planned()[old(self).completed_steps() as int],
                );
                match outcome {
                    Err(f) => r == Err::<(), ChainError>(
                        ChainError::ProvingFailure { step_index: k, cause: f },
                    ),
                    Ok(a) => if a.fingerprint.words@ != old(self).chain_fingerprint().words@ {
                        r == Err::<(), ChainError>(ChainError::FingerprintMismatch { step_index: k })
                    } else if a.commitment@ != expected {
                        r == Err::<(), ChainError>(
                            ChainError::ProvingFailure {
                                step_index: k,
                                cause: StepFailure::EngineFault,
                            },
                        )
                    } else {
                        r is Ok
                    },
                }
            }),
            r is Ok ==> final(self).completed_steps() == old(self).completed_steps() + 1
                && final(self).output() == old(self).output().push(
                old(self).planned()[old(self).completed_steps() as int],
            ) && (outcome matches Ok(a) && final(self).output_compressed() == (
                a.proof is Compressed)),
            r is Err ==> final(self).completed_steps() == old(self).completed_steps()
                && final(self).output() == old(self).output(),
    {
        let planned_len = self.identities.len();
        assert(self.completed < planned_len);
        let step_index = self.completed + 1;
        let identity = self.identities[self.completed];
        assert(commitment_after(self.identities@, step_index as nat) == commitment_after(
            self.identities@,
            self.completed as nat,
        ).push(identity));
        let expected = match &self.last {
            None => Commitment::genesis().extend(identity),
            Some(a) => a.commitment.extend(identity),
        };
        match outcome {
            Err(cause) => {
                let e = ChainError::ProvingFailure { step_index, cause };
                self.halted = Some(e);
                Err(e)
            },
            Ok(a) => {
                if !a.fingerprint.matches(&self.fingerprint) {
                    let e = ChainError::FingerprintMismatch { step_index };
                    self.halted = Some(e);
                    return Err(e);
                }
                if !a.commitment.same_bytes(&expected) {
                    let e = ChainError::ProvingFailure {
                        step_index,
                        cause: StepFailure::EngineFault,
                    };
                    self.halted = Some(e);
                    return Err(e);
                }
                self.last = Some(a);
                self.completed = step_index;
                Ok(())
            },
        }
    }
}

} // verus!

use crate::commitment::{Commitment, Fingerprint};
use vstd::prelude::*;

verus! {

/// The proof data of an artifact, tagged by the form the engine produced.
///
/// Only compressed proofs can be handed to a following step for embedded
/// verification.
#[derive(Debug)]
pub enum ProofKind {
    Compressed(Vec<u8>),
    Other(Vec<u8>),
}

impl ProofKind {
    /// The proof bytes, whatever the form.
    pub open spec fn blob(&self) -> Seq<u8> {
        match self {
            ProofKind::Compressed(b) => b@,
            ProofKind::Other(b) => b@,
        }
    }

    /// The same proof data.
    pub fn duplicate(&self) -> (r: ProofKind)
        ensures
            r.blob() == self.blob(),
            (r is Compressed) == (self is Compressed),
    {
        match self {
            ProofKind::Compressed(blob) => {
                let b = blob.clone();
                assert(b@ =~= blob@);
                ProofKind::Compressed(b)
            },
            ProofKind::Other(blob) => {
                let b = blob.clone();
                assert(b@ =~= blob@);
                ProofKind::Other(b)
            },
        }
    }

    /// Whether this is a compressed proof.
    pub fn is_compressed(&self) -> (r: bool)
        ensures
            r == (self is Compressed),
    {
        matches!(self, ProofKind::Compressed(_))
    }
}

/// What one proving call produced: the public commitment, the proof data, and
/// the fingerprint of the program it was produced under.
#[derive(Debug)]
pub struct ProofArtifact {
    pub commitment: Commitment,
    pub proof: ProofKind,
    pub fingerprint: Fingerprint,
}

impl ProofArtifact {
    /// The same artifact.
    pub fn duplicate(&self) -> (r: ProofArtifact)
        ensures
            r.commitment@ == self.commitment@,
            r.proof.blob() == self.proof.blob(),
            (r.proof is Compressed) == (self.proof is Compressed),
            r.fingerprint == self.fingerprint,
    {
        ProofArtifact {
            commitment: self.commitment.duplicate(),
            proof: self.proof.duplicate(),
            fingerprint: self.fingerprint,
        }
    }
}

} // verus!

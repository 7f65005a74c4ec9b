//! Recursive proof chaining for cycle detection.
//!
//! Each participant runs the same step function: it checks the proof of its
//! predecessor against the digest of the incoming commitment, then appends its
//! own identity. A chain orchestrator threads commitments and proofs from one
//! step to the next, and a cycle extractor decides whether the final
//! commitment repeats an identity.
pub mod artifact;
pub mod chain;
pub mod commitment;
pub mod digest;
pub mod extract;
pub mod step;

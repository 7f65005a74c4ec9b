use crate::digest::{sha256, sha256_of};
use vstd::prelude::*;

verus! {

/// A participant's identity: a single byte chosen by the orchestrator.
pub type Identity = u8;

/// Digest of the verifying key of a step program: eight 32-bit words.
///
/// Two proofs can verify one another only under the same fingerprint.
#[derive(Clone, Copy, Debug)]
pub struct Fingerprint {
    pub words: [u32; 8],
}

impl Fingerprint {
    /// Word-by-word equality of two fingerprints.
    pub fn matches(&self, other: &Fingerprint) -> (r: bool)
        ensures
            r == (self.words@ == other.words@),
    {
        let mut i: usize = 0;
        while i < 8
            invariant
                0 <= i <= 8,
                self.words@.len() == 8,
                other.words@.len() == 8,
                forall|j: int| 0 <= j < i ==> self.words@[j] == other.words@[j],
            decreases 8 - i,
        {
            if self.words[i] != other.words[i] {
                return false;
            }
            i = i + 1;
        }
        assert(self.words@ =~= other.words@);
        true
    }
}

/// Byte-exact equality of two byte vectors.
pub fn bytes_equal(a: &Vec<u8>, b: &Vec<u8>) -> (r: bool)
    ensures
        r == (a@ == b@),
{
    if a.len() != b.len() {
        return false;
    }
    let mut i: usize = 0;
    while i < a.len()
        invariant
            a@.len() == b@.len(),
            0 <= i <= a@.len(),
            forall|j: int| 0 <= j < i ==> a@[j] == b@[j],
        decreases a@.len() - i,
    {
        if a[i] != b[i] {
            return false;
        }
        i = i + 1;
    }
    assert(a@ =~= b@);
    true
}

/// The append-only sequence of identities that contributed to a chain, in
/// the order in which they appended themselves.
#[derive(Debug)]
pub struct Commitment {
    bytes: Vec<u8>,
}

impl View for Commitment {
    type V = Seq<u8>;

    closed spec fn view(&self) -> Seq<u8> {
        self.bytes@
    }
}

impl Commitment {
    /// The empty commitment that a chain starts from.
    pub fn genesis() -> (r: Commitment)
        ensures
            r@ == Seq::<u8>::empty(),
    {
        Commitment { bytes: Vec::new() }
    }

    /// A commitment holding exactly the given bytes, as received from a peer.
    pub fn from_bytes(bytes: Vec<u8>) -> (r: Commitment)
        ensures
            r@ == bytes@,
    {
        Commitment { bytes }
    }

    /// The raw bytes of the commitment.
    pub fn to_bytes(&self) -> (r: Vec<u8>)
        ensures
            r@ == self@,
    {
        self.bytes.clone()
    }

    /// A second commitment with the same bytes.
    pub fn duplicate(&self) -> (r: Commitment)
        ensures
            r@ == self@,
    {
        Commitment { bytes: self.bytes.clone() }
    }

    /// Number of identities in the commitment.
    pub fn len(&self) -> (r: usize)
        ensures
            r == self@.len(),
    {
        self.bytes.len()
    }

    /// Whether this is the genesis (empty) commitment.
    pub fn is_genesis(&self) -> (r: bool)
        ensures
            r == (self@.len() == 0),
    {
        self.bytes.len() == 0
    }

    /// Byte-exact equality of two commitments.
    pub fn same_bytes(&self, other: &Commitment) -> (r: bool)
        ensures
            r == (self@ == other@),
    {
        bytes_equal(&self.bytes, &other.bytes)
    }

    /// The commitment with `identity` appended: the only way a commitment grows.
    pub fn extend(&self, identity: Identity) -> (r: Commitment)
        ensures
            r@ == self@.push(identity),
    {
        let mut bytes = self.bytes.clone();
        bytes.push(identity);
        Commitment { bytes }
    }

    /// The SHA-256 digest of the commitment's bytes.
    pub fn digest(&self) -> (r: Vec<u8>)
        ensures
            r@ == sha256_of(self@),
    {
        sha256(self.bytes.as_slice())
    }
}

} // verus!

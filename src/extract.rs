use crate::commitment::Commitment;
use vstd::prelude::*;
use vstd::seq_lib::{to_multiset_build, to_multiset_insert};

verus! {

/// Every element is at most every later one.
pub open spec fn is_sorted(s: Seq<u8>) -> bool {
    forall|i: int, j: int| 0 <= i < j < s.len() ==> s[i] <= s[j]
}

/// Every element is below every later one.
pub open spec fn is_strictly_increasing(s: Seq<u8>) -> bool {
    forall|i: int, j: int| 0 <= i < j < s.len() ==> s[i] < s[j]
}

/// Some identity occurs at two positions of the sequence.
pub open spec fn has_repeat(s: Seq<u8>) -> bool {
    !s.no_duplicates()
}

/// Outcome of inspecting a final proof.
#[derive(Clone, Copy, Debug, PartialEq, Eq, Structural)]
pub enum Verdict {
    /// The proof verified and its commitment repeats an identity.
    CycleDetected,
    /// The proof verified and all identities in its commitment are distinct.
    NoCycle,
    /// The proof did not verify: nothing can be said of its commitment.
    InvalidProof,
}

/// The verdict owed for a commitment, given whether its proof verified.
pub open spec fn verdict_of(commitment: Seq<u8>, proof_valid: bool) -> Verdict {
    if !proof_valid {
        Verdict::InvalidProof
    } else if has_repeat(commitment) {
        Verdict::CycleDetected
    } else {
        Verdict::NoCycle
    }
}

impl Verdict {
    /// The sentence reported to the user for this verdict.
    pub fn message(&self) -> (r: String)
        ensures
            *self == Verdict::CycleDetected ==> r@ == "There is indeed a cycle."@,
            *self == Verdict::NoCycle ==> r@ == "Proof is valid but no cycle."@,
            *self == Verdict::InvalidProof ==> r@ == "Invalid proof."@,
    {
        match self {
            Verdict::CycleDetected => String::from_str("There is indeed a cycle."),
            Verdict::NoCycle => String::from_str("Proof is valid but no cycle."),
            Verdict::InvalidProof => String::from_str("Invalid proof."),
        }
    }
}

/// A sorted copy of `s`, holding the same identities the same number of times.
pub fn sorted_copy(s: &Vec<u8>) -> (r: Vec<u8>)
    ensures
        is_sorted(r@),
        r@.to_multiset() == s@.to_multiset(),
{
    let mut r: Vec<u8> = Vec::new();
    let mut i: usize = 0;
    proof {
        broadcast use vstd::seq_lib::group_to_multiset_ensures;

        assert(s@.subrange(0, 0) =~= r@);
    }
    while i < s.len()
        invariant
            0 <= i <= s@.len(),
            is_sorted(r@),
            r@.to_multiset() == s@.subrange(0, i as int).to_multiset(),
        decreases s@.len() - i,
    {
        let x = s[i];
        let mut pos: usize = 0;
        while pos < r.len() && r[pos] <= x
            invariant
                0 <= pos <= r@.len(),
                forall|k: int| 0 <= k < pos ==> r@[k] <= x,
            decreases r@.len() - pos,
        {
            pos = pos + 1;
        }
        proof {
            to_multiset_insert(r@, pos as int, x);
            to_multiset_build(s@.subrange(0, i as int), x);
            assert(s@.subrange(0, i + 1) =~= s@.subrange(0, i as int).push(x));
        }
        let ghost before = r@;
        r.insert(pos, x);
        assert(is_sorted(r@)) by {
            assert forall|a: int, b: int| 0 <= a < b < r@.len() implies r@[a] <= r@[b] by {
                if pos < before.len() {
                    assert(before[pos as int] > x);
                }
            }
        }
        i = i + 1;
    }
    assert(s@.subrange(0, s@.len() as int) =~= s@);
    r
}

/// `s` with each run of equal neighbours kept once.
pub fn dedup_sorted(s: &Vec<u8>) -> (r: Vec<u8>)
    requires
        is_sorted(s@),
    ensures
        is_strictly_increasing(r@),
        r@.to_set() == s@.to_set(),
        r@.len() <= s@.len(),
        r@.len() == s@.len() <==> is_strictly_increasing(s@),
{
    let mut r: Vec<u8> = Vec::new();
    if s.len() == 0 {
        assert(r@.to_set() =~= s@.to_set());
        return r;
    }
    r.push(s[0]);
    let mut i: usize = 1;
    assert(r@[0] == s@[0]);
    assert(s@.subrange(0, 1)[0] == r@[0]);
    while i < s.len()
        invariant
            1 <= i <= s@.len(),
            is_sorted(s@),
            1 <= r@.len() <= i,
            r@.last() == s@[i - 1],
            is_strictly_increasing(r@),
            forall|k: int| 0 <= k < i ==> r@.contains(#[trigger] s@[k]),
            forall|k: int| 0 <= k < r@.len() ==> s@.subrange(0, i as int).contains(#[trigger] r@[k]),
            r@.len() == i <==> forall|k: int| 1 <= k < i ==> s@[k - 1] < #[trigger] s@[k],
        decreases s@.len() - i,
    {
        let ghost before = r@;
        if s[i] != s[i - 1] {
            r.push(s[i]);
            assert(r@[r@.len() - 1] == s@[i as int]);
        } else {
            assert(s@[i as int] == before.last());
        }
        assert forall|k: int| 0 <= k <= i implies r@.contains(#[trigger] s@[k]) by {
            if k < i {
                let w = choose|w: int| 0 <= w < before.len() && before[w] == s@[k];
                assert(r@[w] == s@[k]);
            } else {
                assert(r@[r@.len() - 1] == s@[k]);
            }
        }
        assert forall|k: int| 0 <= k < r@.len() implies s@.subrange(0, i + 1).contains(
            #[trigger] r@[k],
        ) by {
            if k < before.len() {
                let w = choose|w: int|
                    0 <= w < i && s@.subrange(0, i as int)[w] == before[k];
                assert(s@.subrange(0, i + 1)[w] == r@[k]);
            } else {
                assert(s@.subrange(0, i + 1)[i as int] == r@[k]);
            }
        }
        i = i + 1;
    }
    assert(r@.to_set() =~= s@.to_set()) by {
        assert(s@.subrange(0, s@.len() as int) =~= s@);
    }
    proof {
        if r@.len() == s@.len() {
            lemma_adjacent_increasing(s@);
        }
    }
    r
}

/// Two sequences holding the same identities the same number of times
/// repeat an identity alike.
pub proof fn lemma_permutation_keeps_repeats(a: Seq<u8>, b: Seq<u8>)
    requires
        a.to_multiset() == b.to_multiset(),
    ensures
        has_repeat(a) == has_repeat(b),
{
    if a.no_duplicates() {
        a.lemma_multiset_has_no_duplicates();
        b.lemma_multiset_has_no_duplicates_conv();
    }
    if b.no_duplicates() {
        b.lemma_multiset_has_no_duplicates();
        a.lemma_multiset_has_no_duplicates_conv();
    }
}

/// Decide whether the commitment of a final proof witnesses a cycle.
///
/// `proof_valid` is the engine's verdict on the final proof under the chain's
/// verifying key. On a valid proof the commitment is sorted, the sorted copy
/// deduplicated, and the two lengths compared.
pub fn cycle_verdict(commitment: &Commitment, proof_valid: bool) -> (r: Verdict)
    ensures
        r == verdict_of(commitment@, proof_valid),
        r == Verdict::InvalidProof <==> !proof_valid,
        r == Verdict::CycleDetected <==> proof_valid && has_repeat(commitment@),
        r == Verdict::NoCycle <==> proof_valid && commitment@.no_duplicates(),
{
    if !proof_valid {
        return Verdict::InvalidProof;
    }
    let bytes = commitment.to_bytes();
    let sorted = sorted_copy(&bytes);
    let deduped = dedup_sorted(&sorted);
    proof {
        lemma_permutation_keeps_repeats(sorted@, bytes@);
        if is_strictly_increasing(sorted@) {
            assert(sorted@.no_duplicates());
        }
        if sorted@.no_duplicates() {
            assert forall|i: int, j: int| 0 <= i < j < sorted@.len() implies sorted@[i]
                < sorted@[j] by {
                assert(sorted@[i] <= sorted@[j]);
            }
        }
    }
    if sorted.len() != deduped.len() {
        Verdict::CycleDetected
    } else {
        Verdict::NoCycle
    }
}

/// A sequence whose neighbours increase is strictly increasing.
proof fn lemma_adjacent_increasing(s: Seq<u8>)
    requires
        forall|k: int| 1 <= k < s.len() ==> s[k - 1] < #[trigger] s[k],
    ensures
        is_strictly_increasing(s),
    decreases s.len(),
{
    if s.len() > 1 {
        let t = s.drop_last();
        assert forall|k: int| 1 <= k < t.len() implies t[k - 1] < #[trigger] t[k] by {
            assert(t[k] == s[k] && t[k - 1] == s[k - 1]);
        }
        lemma_adjacent_increasing(t);
        assert forall|i: int, j: int| 0 <= i < j < s.len() implies s[i] < s[j] by {
            if j < s.len() - 1 {
                assert(t[i] < t[j]);
            } else if i < j - 1 {
                assert(t[i] < t[j - 1]);
                assert(s[j - 1] < s[j]);
            } else {
                assert(s[j - 1] < s[j]);
            }
        }
    }
}

} // verus!

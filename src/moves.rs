use std::collections::HashSet;
use vstd::prelude::*;

use crate::text::{decimal, decimal_string};

verus! {

/// Probabilities of choosing each move kind, in tenths: a sampler draws an
/// Add with probability `add / 10`, and so on. The three always sum to ten.
#[derive(Clone, Copy, Debug, PartialEq, Eq, Structural)]
pub struct MoveProbs {
    pub add: u32,
    pub remove: u32,
    pub swap: u32,
}

/// The move-kind probabilities for `present` taxa out of `total`: only Add
/// from the empty set, only Remove from a full one, else 0.4 / 0.4 / 0.2.
pub open spec fn move_probs_of(present: int, total: int) -> MoveProbs {
    if present <= 0 {
        MoveProbs { add: 10, remove: 0, swap: 0 }
    } else if present >= total {
        MoveProbs { add: 0, remove: 10, swap: 0 }
    } else {
        MoveProbs { add: 4, remove: 4, swap: 2 }
    }
}

/// A proposed change to a chain's set of present taxa.
#[derive(Clone, Copy, Debug, PartialEq, Eq, Structural)]
pub enum MoveType {
    Add(usize),
    Remove(usize),
    /// Remove the first taxon, then add the second.
    Swap(usize, usize),
    NoMove,
}

impl MoveType {
    /// The set of present taxa after this move.
    pub open spec fn next_set(self, s: Set<usize>) -> Set<usize> {
        match self {
            MoveType::Add(id) => s.insert(id),
            MoveType::Remove(id) => s.remove(id),
            MoveType::Swap(rem, add) => s.remove(rem).insert(add),
            MoveType::NoMove => s,
        }
    }

    /// How the move is written in a chain's history.
    pub open spec fn label_of(self) -> Seq<char> {
        match self {
            MoveType::Add(id) => "Add("@ + decimal(id as nat) + ")"@,
            MoveType::Remove(id) => "Remove("@ + decimal(id as nat) + ")"@,
            MoveType::Swap(rem, add) => "Swap("@ + decimal(rem as nat) + "->"@ + decimal(
                add as nat,
            ) + ")"@,
            MoveType::NoMove => "None"@,
        }
    }

    pub fn label(&self) -> (r: String)
        ensures
            r@ == self.label_of(),
    {
        match self {
            MoveType::Add(id) => {
                let mut s = "Add(".to_owned();
                s.append(decimal_string(*id).as_str());
                s.append(")");
                s
            },
            MoveType::Remove(id) => {
                let mut s = "Remove(".to_owned();
                s.append(decimal_string(*id).as_str());
                s.append(")");
                s
            },
            MoveType::Swap(rem, add) => {
                let mut s = "Swap(".to_owned();
                s.append(decimal_string(*rem).as_str());
                s.append("->");
                s.append(decimal_string(*add).as_str());
                s.append(")");
                s
            },
            MoveType::NoMove => "None".to_owned(),
        }
    }

    /// Applies the move to a set of present taxa.
    pub fn apply_to(&self, set: &mut HashSet<usize>)
        ensures
            final(set)@ == self.next_set(old(set)@),
    {
        match self {
            MoveType::Add(id) => {
                set.insert(*id);
            },
            MoveType::Remove(id) => {
                set.remove(id);
            },
            MoveType::Swap(rem, add) => {
                set.remove(rem);
                set.insert(*add);
            },
            MoveType::NoMove => {},
        }
    }
}

/// The taxa that an Add move may propose: the columns below `total` that are
/// not present.
pub open spec fn add_candidate_set(total: int, present: Set<usize>) -> Set<usize> {
    Set::new(|j: usize| j < total && !present.contains(j))
}

/// Move-kind probabilities and proposal supports of the subset sampler.
pub struct McmcLogic;

impl McmcLogic {
    pub fn get_move_probs(num_present_species: usize, num_total_species: usize) -> (r: MoveProbs)
        ensures
            r == move_probs_of(num_present_species as int, num_total_species as int),
            r.add + r.remove + r.swap == 10,
    {
        let can_add = num_present_species < num_total_species;
        let can_remove = num_present_species > 0;
        if !can_remove {
            MoveProbs { add: 10, remove: 0, swap: 0 }
        } else if !can_add {
            MoveProbs { add: 0, remove: 10, swap: 0 }
        } else {
            MoveProbs { add: 4, remove: 4, swap: 2 }
        }
    }

    /// The candidates of an Add move in increasing order: every column below
    /// `total` that `present` lacks.
    pub fn add_candidates(total: usize, present: &HashSet<usize>) -> (r: Vec<usize>)
        ensures
            forall|i: int, j: int| 0 <= i < j < r.len() ==> r@[i] < r@[j],
            forall|x: usize| r@.contains(x) <==> add_candidate_set(total as int, present@).contains(x),
    {
        let mut r: Vec<usize> = Vec::new();
        for id in 0..total
            invariant
                forall|i: int, j: int| 0 <= i < j < r.len() ==> r@[i] < r@[j],
                forall|i: int| 0 <= i < r.len() ==> r@[i] < id,
                forall|x: usize|
                    r@.contains(x) <==> (x < id && !present@.contains(x)),
        {
            let ghost before = r@;
            if !present.contains(&id) {
                r.push(id);
            }
            proof {
                assert forall|x: usize| r@.contains(x) <==> (x < id + 1 && !present@.contains(x)) by {
                    if r@.contains(x) {
                        let k = choose|k: int| 0 <= k < r.len() && r@[k] == x;
                        if k < before.len() {
                            assert(before[k] == x);
                        }
                    }
                    if x < id && !present@.contains(x) {
                        assert(before.contains(x));
                        let k = choose|k: int| 0 <= k < before.len() && before[k] == x;
                        assert(r@[k] == x);
                    }
                    if x == id && !present@.contains(x) {
                        assert(r@[r.len() - 1] == x);
                    }
                }
            }
        }
        r
    }

    /// The members of `present` in increasing order, for a set whose members
    /// are all below `total`.
    pub fn sorted_members(total: usize, present: &HashSet<usize>) -> (r: Vec<usize>)
        requires
            forall|x: usize| present@.contains(x) ==> x < total,
        ensures
            forall|i: int, j: int| 0 <= i < j < r.len() ==> r@[i] < r@[j],
            forall|x: usize| r@.contains(x) <==> present@.contains(x),
    {
        let mut r: Vec<usize> = Vec::new();
        for id in 0..total
            invariant
                forall|x: usize| present@.contains(x) ==> x < total,
                forall|i: int, j: int| 0 <= i < j < r.len() ==> r@[i] < r@[j],
                forall|i: int| 0 <= i < r.len() ==> r@[i] < id,
                forall|x: usize| r@.contains(x) <==> (x < id && present@.contains(x)),
        {
            let ghost before = r@;
            if present.contains(&id) {
                r.push(id);
            }
            proof {
                assert forall|x: usize| r@.contains(x) <==> (x < id + 1 && present@.contains(x)) by {
                    if r@.contains(x) {
                        let k = choose|k: int| 0 <= k < r.len() && r@[k] == x;
                        if k < before.len() {
                            assert(before[k] == x);
                        }
                    }
                    if x < id && present@.contains(x) {
                        assert(before.contains(x));
                        let k = choose|k: int| 0 <= k < before.len() && before[k] == x;
                        assert(r@[k] == x);
                    }
                    if x == id && present@.contains(x) {
                        assert(r@[r.len() - 1] == x);
                    }
                }
            }
        }
        r
    }
}

/// Positions of the 20th and the 80th percentile among the `len` sorted
/// inverse abundances that a Remove proposal clamps its weights to:
/// `floor(0.2 * len)` and `floor(0.8 * len)`.
pub fn clamp_positions(len: usize) -> (r: (usize, usize))
    requires
        len > 0,
    ensures
        r.0 == len / 5,
        r.1 == (4 * len) / 5,
        r.0 < len,
        r.1 < len,
{
    let q = len / 5;
    let rem = len % 5;
    let hi = 4 * q + (4 * rem) / 5;
    assert(hi == (4 * len) / 5) by (nonlinear_arith)
        requires
            q == len / 5,
            rem == len % 5,
            hi == 4 * q + (4 * rem) / 5,
            len > 0,
    ;
    (q, hi)
}

proof fn lemma_columns_below_len(n: usize)
    ensures
        Set::new(|j: usize| j < n).finite(),
        Set::new(|j: usize| j < n).len() == n,
    decreases n,
{
    if n == 0 {
        assert(Set::new(|j: usize| j < n) =~= Set::<usize>::empty());
    } else {
        let m = (n - 1) as usize;
        lemma_columns_below_len(m);
        assert(Set::new(|j: usize| j < m).insert(m) =~= Set::new(|j: usize| j < n));
    }
}

/// When every column is present an Add cannot be proposed: its probability
/// is zero and it has no candidate.
pub proof fn lemma_full_set_has_no_add(total: usize, present: Set<usize>)
    requires
        total > 0,
        forall|j: usize| present.contains(j) <==> j < total,
    ensures
        present.finite(),
        present.len() == total,
        move_probs_of(present.len() as int, total as int).add == 0,
        add_candidate_set(total as int, present).is_empty(),
{
    lemma_columns_below_len(total);
    assert(present =~= Set::new(|j: usize| j < total));
    assert(add_candidate_set(total as int, present) =~= Set::<usize>::empty());
}

/// An Add of an absent column can be undone: in the proposed set the added
/// taxon is present, so a Remove has positive probability and the taxon is
/// among the taxa it picks from.
pub proof fn lemma_add_is_reversible(total: usize, present: Set<usize>, id: usize)
    requires
        present.finite(),
        forall|j: usize| present.contains(j) ==> j < total,
        id < total,
        !present.contains(id),
    ensures
        MoveType::Add(id).next_set(present).contains(id),
        MoveType::Add(id).next_set(present).len() == present.len() + 1,
        move_probs_of(MoveType::Add(id).next_set(present).len() as int, total as int).remove > 0,
{
}

} // verus!

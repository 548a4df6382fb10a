use std::collections::{HashMap, HashSet};
use vstd::prelude::*;

verus! {

/// The taxa that a chain holds present, each with its abundance. The set of
/// present taxa is always the key set of the abundances.
pub struct PresentTaxa<V> {
    species: HashSet<usize>,
    abundances: HashMap<usize, V>,
}

impl<V> PresentTaxa<V> {
    #[verifier::type_invariant]
    spec fn keys_are_species(&self) -> bool {
        self.species@ == self.abundances@.dom()
    }

    /// The present taxa.
    pub closed spec fn species_view(&self) -> Set<usize> {
        self.species@
    }

    /// The abundance of each present taxon.
    pub closed spec fn abundance_view(&self) -> Map<usize, V> {
        self.abundances@
    }
}

impl<V: Copy> PresentTaxa<V> {
    pub fn empty() -> (r: Self)
        ensures
            r.species_view() == Set::<usize>::empty(),
            r.abundance_view() == Map::<usize, V>::empty(),
    {
        PresentTaxa { species: HashSet::new(), abundances: HashMap::new() }
    }

    /// The taxa listed in `keys`, each with the value at the same position.
    pub fn keyed(keys: &Vec<usize>, values: &Vec<V>) -> (r: Self)
        requires
            keys.len() == values.len(),
            keys@.no_duplicates(),
        ensures
            r.species_view() == keys@.to_set(),
            forall|k: int| 0 <= k < keys.len() ==> r.abundance_view()[keys@[k]] == values@[k],
    {
        let mut species: HashSet<usize> = HashSet::new();
        let mut abundances: HashMap<usize, V> = HashMap::new();
        for i in 0..keys.len()
            invariant
                keys.len() == values.len(),
                keys@.no_duplicates(),
                species@ == keys@.take(i as int).to_set(),
                abundances@.dom() == keys@.take(i as int).to_set(),
                forall|k: int| 0 <= k < i ==> abundances@[keys@[k]] == values@[k],
        {
            species.insert(keys[i]);
            abundances.insert(keys[i], values[i]);
            proof {
                assert(keys@.take(i + 1) =~= keys@.take(i as int).push(keys@[i as int]));
                keys@.take(i as int).lemma_push_to_set_commute(keys@[i as int]);
                assert forall|k: int| 0 <= k < i + 1 implies abundances@[keys@[k]]
                    == values@[k] by {
                    if k < i {
                        assert(keys@[k] != keys@[i as int]);
                    }
                }
            }
        }
        assert(keys@.take(keys.len() as int) =~= keys@);
        PresentTaxa { species, abundances }
    }

    /// The present taxa, which are always the keys of the abundances.
    pub fn species(&self) -> (r: &HashSet<usize>)
        ensures
            r@ == self.species_view(),
            self.species_view() == self.abundance_view().dom(),
    {
        proof {
            use_type_invariant(self);
        }
        &self.species
    }

    /// The abundances, keyed by exactly the present taxa.
    pub fn abundances(&self) -> (r: &HashMap<usize, V>)
        ensures
            r@ == self.abundance_view(),
            r@.dom() == self.species_view(),
    {
        proof {
            use_type_invariant(self);
        }
        &self.abundances
    }
}

} // verus!

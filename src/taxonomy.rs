use std::collections::HashMap;
use vstd::prelude::*;

use crate::text::{chars_of, find_from, next_bar};

verus! {

pub open spec fn has_ti_prefix(name: Seq<char>) -> bool {
    name.len() >= 3 && name[0] == 't' && name[1] == 'i' && name[2] == '|'
}

/// The taxon identifier carried by a reference name: for a name of the form
/// `ti|<id>|...` the field between the first and the second `|`, otherwise
/// the whole name.
pub open spec fn taxon_id_of(name: Seq<char>) -> Seq<char> {
    if has_ti_prefix(name) {
        name.subrange(3, find_from(name, '|', 3))
    } else {
        name
    }
}

/// Extracts the taxon identifier from a reference name.
pub fn taxon_id_part(name: &str) -> (r: &str)
    ensures
        r@ == taxon_id_of(name@),
{
    let cs = chars_of(name);
    if cs.len() >= 3 && cs[0] == 't' && cs[1] == 'i' && cs[2] == '|' {
        let j = next_bar(&cs, 3);
        name.substring_char(3, j)
    } else {
        name
    }
}

/// Relies on `HashMap::get` with a `&str` key on a map keyed by `String`:
/// `String` borrows as `str` with the same hashing and equality, so the entry
/// found is the one whose key has the same characters, and none is found when
/// no key has them.
#[verifier::external_body]
fn lookup_id(map: &HashMap<String, usize>, key: &str) -> (r: Option<usize>)
    ensures
        r matches Some(i) ==> exists|k: String| #[trigger]
            map@.contains_key(k) && k@ == key@ && map@[k] == i,
        r is None ==> forall|k: String| #[trigger] map@.contains_key(k) ==> k@ != key@,
{
    map.get(key).copied()
}

/// Relies on `HashMap::insert`: a key that no present key equals is added
/// with its value, and nothing else changes.
#[verifier::external_body]
fn insert_id(map: &mut HashMap<String, usize>, key: String, value: usize)
    requires
        forall|k: String| #[trigger] old(map)@.contains_key(k) ==> k@ != key@,
    ensures
        final(map)@ == old(map)@.insert(key, value),
{
    map.insert(key, value);
}

/// Interns taxon identifiers as contiguous column indices, in order of first
/// appearance.
pub struct TaxonomyParser {
    pub name_to_id: HashMap<String, usize>,
    pub index_to_id: Vec<String>,
}

impl TaxonomyParser {
    /// The identifiers, by index.
    pub open spec fn ids(&self) -> Seq<Seq<char>> {
        self.index_to_id@.map_values(|s: String| s@)
    }

    /// The map and the list describe one bijection between identifiers and
    /// the indices `0..index_to_id.len()`.
    pub open spec fn wf(&self) -> bool {
        &&& forall|i: int|
            0 <= i < self.index_to_id.len() ==> #[trigger] self.name_to_id@.contains_key(
                self.index_to_id@[i],
            ) && self.name_to_id@[self.index_to_id@[i]] == i
        &&& forall|k: String| #[trigger]
            self.name_to_id@.contains_key(k) ==> self.name_to_id@[k] < self.index_to_id.len()
                && self.index_to_id@[self.name_to_id@[k] as int]@ == k@
        &&& forall|i: int, j: int|
            0 <= i < j < self.index_to_id.len() ==> #[trigger] self.index_to_id@[i]@
                != #[trigger] self.index_to_id@[j]@
    }

    pub fn new() -> (r: Self)
        ensures
            r.wf(),
            r.ids() == Seq::<Seq<char>>::empty(),
    {
        let r = TaxonomyParser { name_to_id: HashMap::new(), index_to_id: Vec::new() };
        assert(r.ids() =~= Seq::<Seq<char>>::empty());
        r
    }

    /// The column index of the taxon that `name` refers to; an identifier
    /// not seen before gets the next free index.
    pub fn get_taxon_index(&mut self, name: &str) -> (r: Option<usize>)
        requires
            old(self).wf(),
        ensures
            final(self).wf(),
            r matches Some(i) && i < final(self).ids().len() && final(self).ids()[i as int]
                == taxon_id_of(name@),
            old(self).ids().contains(taxon_id_of(name@)) ==> final(self).ids() == old(
                self,
            ).ids(),
            !old(self).ids().contains(taxon_id_of(name@)) ==> final(self).ids() == old(
                self,
            ).ids().push(taxon_id_of(name@)),
    {
        let id_part = taxon_id_part(name);
        match lookup_id(&self.name_to_id, id_part) {
            Some(idx) => {
                let ghost k = choose|k: String|
                    self.name_to_id@.contains_key(k) && k@ == id_part@ && self.name_to_id@[k]
                        == idx;
                assert(self.ids()[idx as int] == id_part@);
                Some(idx)
            },
            None => {
                proof {
                    assert forall|i: int| 0 <= i < self.ids().len() implies self.ids()[i]
                        != id_part@ by {
                        assert(self.name_to_id@.contains_key(self.index_to_id@[i]));
                    }
                }
                let idx = self.index_to_id.len();
                let key = id_part.to_owned();
                insert_id(&mut self.name_to_id, key.clone(), idx);
                self.index_to_id.push(key);
                assert(self.ids() =~= old(self).ids().push(id_part@));
                proof {
                    let m = self.name_to_id@;
                    let v = self.index_to_id@;
                    assert forall|i: int| 0 <= i < v.len() implies #[trigger] m.contains_key(
                        v[i],
                    ) && m[v[i]] == i by {
                        if i < idx {
                            assert(old(self).name_to_id@.contains_key(v[i]));
                            assert(v[i]@ != id_part@);
                        }
                    }
                    assert forall|k: String| #[trigger] m.contains_key(k) implies m[k] < v.len()
                        && v[m[k] as int]@ == k@ by {
                        if k != key {
                            assert(old(self).name_to_id@.contains_key(k));
                        }
                    }
                    assert forall|i: int, j: int| 0 <= i < j < v.len() implies #[trigger] v[i]@
                        != #[trigger] v[j]@ by {
                        if j == idx {
                            assert(self.ids()[i] != id_part@);
                        } else {
                            assert(old(self).index_to_id@[i] == v[i]);
                        }
                    }
                }
                Some(idx)
            },
        }
    }

    /// The identifiers of the retained columns, where column `c` of the
    /// reduced matrix stands for taxon index `present[c]`.
    pub fn ids_of(&self, present: &[usize], retained: &[usize]) -> (r: Vec<String>)
        requires
            forall|c: int| 0 <= c < present@.len() ==> present@[c] < self.index_to_id.len(),
            forall|k: int| 0 <= k < retained@.len() ==> retained@[k] < present@.len(),
        ensures
            r.len() == retained@.len(),
            forall|k: int|
                0 <= k < r.len() ==> r@[k]@ == self.ids()[present@[retained@[k] as int] as int],
    {
        let mut r: Vec<String> = Vec::new();
        for k in 0..retained.len()
            invariant
                forall|c: int| 0 <= c < present@.len() ==> present@[c] < self.index_to_id.len(),
                forall|j: int| 0 <= j < retained@.len() ==> retained@[j] < present@.len(),
                r.len() == k,
                forall|j: int|
                    0 <= j < k ==> r@[j]@ == self.ids()[present@[retained@[j] as int] as int],
        {
            let id = self.index_to_id[present[retained[k]]].clone();
            r.push(id);
        }
        r
    }
}

} // verus!

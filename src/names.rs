use vstd::prelude::*;

use crate::text::{chars_of, find_from, next_bar, trim_bounds, trimmed};

verus! {

/// Start of field `k` when `s` is split at every `|`; past `s.len()` when
/// `s` has no such field.
pub open spec fn field_start(s: Seq<char>, k: nat) -> int
    decreases k,
{
    if k == 0 {
        0
    } else {
        find_from(s, '|', field_start(s, (k - 1) as nat)) + 1
    }
}

/// End of field `k` when `s` is split at every `|`.
pub open spec fn field_end(s: Seq<char>, k: nat) -> int {
    find_from(s, '|', field_start(s, k))
}

/// Whether splitting `s` at every `|` gives more than `k` fields.
pub open spec fn has_field(s: Seq<char>, k: nat) -> bool {
    field_start(s, k) <= s.len()
}

/// Field `k` of `s` split at every `|`, with surrounding white space trimmed.
pub open spec fn trimmed_field(s: Seq<char>, k: nat) -> Seq<char> {
    trimmed(s, field_start(s, k), field_end(s, k))
}

/// The entry that a line of a taxonomy names file gives: lines read
/// `id | name | unique name | class | ...`, and only those of class
/// `scientific name` give the pair (id, name).
pub open spec fn names_entry(line: Seq<char>) -> Option<(Seq<char>, Seq<char>)> {
    if has_field(line, 3) && trimmed_field(line, 3) == "scientific name"@ {
        Some((trimmed_field(line, 0), trimmed_field(line, 1)))
    } else {
        None
    }
}

fn chars_match(cs: &Vec<char>, lo: usize, hi: usize, target: &Vec<char>) -> (r: bool)
    requires
        lo <= hi <= cs@.len(),
    ensures
        r == (cs@.subrange(lo as int, hi as int) == target@),
{
    if hi - lo != target.len() {
        return false;
    }
    let mut i: usize = 0;
    while i < target.len()
        invariant
            lo <= hi <= cs@.len(),
            hi - lo == target@.len(),
            i <= target@.len(),
            forall|k: int| 0 <= k < i ==> cs@[lo + k] == target@[k],
        decreases target@.len() - i,
    {
        if cs[lo + i] != target[i] {
            assert(cs@.subrange(lo as int, hi as int)[i as int] != target@[i as int]);
            return false;
        }
        i += 1;
    }
    assert(cs@.subrange(lo as int, hi as int) =~= target@);
    true
}

/// Reads one line of a taxonomy names file: the taxon id and its scientific
/// name, or `None` for a line of another class or with fewer than four
/// fields.
pub fn parse_names_line(line: &str) -> (r: Option<(String, String)>)
    ensures
        match names_entry(line@) {
            Some((id, name)) => r matches Some((a, b)) && a@ == id && b@ == name,
            None => r is None,
        },
{
    let cs = chars_of(line);
    let len = cs.len();
    let e0 = next_bar(&cs, 0);
    assert(field_start(line@, 1) == e0 + 1);
    if e0 == len {
        assert(field_start(line@, 2) == len + 1);
        assert(field_start(line@, 3) == len + 1);
        return None;
    }
    let e1 = next_bar(&cs, e0 + 1);
    assert(field_start(line@, 2) == e1 + 1);
    if e1 == len {
        assert(field_start(line@, 3) == len + 1);
        return None;
    }
    let e2 = next_bar(&cs, e1 + 1);
    assert(field_start(line@, 3) == e2 + 1);
    if e2 == len {
        return None;
    }
    let e3 = next_bar(&cs, e2 + 1);
    let (c0, c1) = trim_bounds(&cs, e2 + 1, e3);
    let target = chars_of("scientific name");
    if !chars_match(&cs, c0, c1, &target) {
        return None;
    }
    let (a0, a1) = trim_bounds(&cs, 0, e0);
    let (b0, b1) = trim_bounds(&cs, e0 + 1, e1);
    let id = line.substring_char(a0, a1).to_owned();
    let name = line.substring_char(b0, b1).to_owned();
    Some((id, name))
}

} // verus!

use vstd::prelude::*;

use crate::text::{decimal, decimal_string};

verus! {

/// The neighbouring chains offered an exchange after block `block` of a run
/// with `num_chains` chains: the pairs `(c, c + 1)` for
/// `c = block % 2, block % 2 + 2, ...` while `c + 1 < num_chains`.
pub fn swap_pairs(block: usize, num_chains: usize) -> (r: Vec<(usize, usize)>)
    ensures
        r.len() == if num_chains > block % 2 {
            (num_chains - block % 2) / 2
        } else {
            0
        },
        forall|i: int|
            0 <= i < r.len() ==> r@[i] == ((block % 2 + 2 * i) as usize, (block % 2 + 2 * i
                + 1) as usize),
{
    let start = block % 2;
    let mut r: Vec<(usize, usize)> = Vec::new();
    let mut c = start;
    while c < num_chains && num_chains - c > 1
        invariant
            start == block % 2,
            c == start + 2 * r.len(),
            c <= num_chains || (num_chains <= start && c == start),
            forall|i: int|
                0 <= i < r.len() ==> r@[i] == ((start + 2 * i) as usize, (start + 2 * i
                    + 1) as usize),
        decreases num_chains - c,
    {
        r.push((c, c + 1));
        c = c + 2;
    }
    r
}

/// The history entry of a chain that took over the state of chain `other`
/// in an exchange.
pub fn swap_label(other: usize) -> (r: String)
    ensures
        r@ == "Swapped from Chain "@ + decimal(other as nat),
{
    let mut s = "Swapped from Chain ".to_owned();
    s.append(decimal_string(other).as_str());
    s
}

} // verus!

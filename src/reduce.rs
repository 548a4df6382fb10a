use vstd::prelude::*;

use crate::matrix::{kept_positions, lemma_keep_all_columns, pattern_wf};

verus! {

/// The columns whose entries appear in `taxa`, in increasing order and each
/// once: the columns that the reduction runs on, before renumbering.
pub fn present_columns(taxa: &[usize], num_taxa: usize) -> (r: Vec<usize>)
    requires
        forall|e: int| 0 <= e < taxa@.len() ==> taxa@[e] < num_taxa,
    ensures
        forall|i: int, j: int| 0 <= i < j < r.len() ==> r@[i] < r@[j],
        forall|x: usize| r@.contains(x) <==> taxa@.contains(x),
{
    let mut seen: Vec<bool> = Vec::new();
    for c in 0..num_taxa
        invariant
            seen.len() == c,
            forall|x: int| 0 <= x < c ==> !seen@[x],
    {
        seen.push(false);
    }
    for e in 0..taxa.len()
        invariant
            seen.len() == num_taxa,
            forall|f: int| 0 <= f < taxa@.len() ==> taxa@[f] < num_taxa,
            forall|x: int|
                0 <= x < num_taxa ==> (#[trigger] seen@[x] <==> taxa@.take(e as int).contains(
                    x as usize,
                )),
    {
        let t = taxa[e];
        seen.set(t, true);
        proof {
            assert forall|x: int| 0 <= x < num_taxa implies (#[trigger] seen@[x]
                <==> taxa@.take(e + 1).contains(x as usize)) by {
                assert(taxa@.take(e + 1) =~= taxa@.take(e as int).push(t));
                assert(taxa@.take(e + 1)[e as int] == t);
                if taxa@.take(e as int).contains(x as usize) {
                    let w = choose|w: int|
                        0 <= w < e && #[trigger] taxa@.take(e as int)[w] == x as usize;
                    assert(taxa@.take(e + 1)[w] == x as usize);
                }
                if taxa@.take(e + 1).contains(x as usize) {
                    let w = choose|w: int|
                        0 <= w < e + 1 && #[trigger] taxa@.take(e + 1)[w] == x as usize;
                    if w < e {
                        assert(taxa@.take(e as int)[w] == x as usize);
                    }
                }
            }
        }
    }
    assert(taxa@.take(taxa@.len() as int) =~= taxa@);
    let mut r: Vec<usize> = Vec::new();
    for c in 0..num_taxa
        invariant
            seen.len() == num_taxa,
            forall|f: int| 0 <= f < taxa@.len() ==> taxa@[f] < num_taxa,
            forall|x: int| 0 <= x < num_taxa ==> (#[trigger] seen@[x] <==> taxa@.contains(x as usize)),
            forall|i: int, j: int| 0 <= i < j < r.len() ==> r@[i] < r@[j],
            forall|i: int| 0 <= i < r.len() ==> r@[i] < c,
            forall|x: usize| r@.contains(x) <==> (x < c && taxa@.contains(x)),
    {
        let ghost before = r@;
        if seen[c] {
            r.push(c);
        }
        proof {
            assert forall|x: usize| r@.contains(x) <==> (x < c + 1 && taxa@.contains(x)) by {
                if r@.contains(x) {
                    let k = choose|k: int| 0 <= k < r.len() && r@[k] == x;
                    if k < before.len() {
                        assert(before[k] == x);
                    }
                }
                if x < c && taxa@.contains(x) {
                    assert(before.contains(x));
                    let k = choose|k: int| 0 <= k < before.len() && before[k] == x;
                    assert(r@[k] == x);
                }
                if x == c && taxa@.contains(x) {
                    assert(seen@[x as int]);
                    assert(r@[r.len() - 1] == x);
                }
            }
        }
    }
    proof {
        assert forall|x: usize| taxa@.contains(x) implies x < num_taxa by {
            let w = choose|w: int| 0 <= w < taxa@.len() && taxa@[w] == x;
        }
    }
    r
}

/// The columns below `hi`, in increasing order, whose effective read count
/// reaches `cutoff`.
pub open spec fn retained(effective_counts: Seq<u64>, cutoff: u64, hi: int) -> Seq<usize>
    decreases hi,
{
    if hi <= 0 {
        Seq::empty()
    } else {
        let prev = retained(effective_counts, cutoff, hi - 1);
        if effective_counts[hi - 1] >= cutoff {
            prev.push((hi - 1) as usize)
        } else {
            prev
        }
    }
}

/// The columns that survive the reduction: those whose effective read count
/// (abundance times the number of reads, rounded) is at least `cutoff`, in
/// column order.
pub fn retained_columns(effective_counts: &[u64], cutoff: u64) -> (r: Vec<usize>)
    ensures
        r@ == retained(effective_counts@, cutoff, effective_counts@.len() as int),
{
    let mut r: Vec<usize> = Vec::new();
    for j in 0..effective_counts.len()
        invariant
            r@ == retained(effective_counts@, cutoff, j as int),
    {
        if effective_counts[j] >= cutoff {
            r.push(j);
        }
    }
    r
}

/// When every column reaches the cutoff, the reduction keeps all of them, in
/// their own order.
pub proof fn lemma_all_columns_retained(effective_counts: Seq<u64>, cutoff: u64)
    requires
        forall|j: int| 0 <= j < effective_counts.len() ==> effective_counts[j] >= cutoff,
    ensures
        retained(effective_counts, cutoff, effective_counts.len() as int) == Seq::new(
            effective_counts.len(),
            |j: int| j as usize,
        ),
{
    lemma_retained_prefix(effective_counts, cutoff, effective_counts.len() as int);
}

proof fn lemma_retained_prefix(effective_counts: Seq<u64>, cutoff: u64, h: int)
    requires
        0 <= h <= effective_counts.len(),
        forall|j: int| 0 <= j < effective_counts.len() ==> effective_counts[j] >= cutoff,
    ensures
        retained(effective_counts, cutoff, h) == Seq::new(h as nat, |j: int| j as usize),
    decreases h,
{
    if h > 0 {
        lemma_retained_prefix(effective_counts, cutoff, h - 1);
    }
    assert(retained(effective_counts, cutoff, h) =~= Seq::new(h as nat, |j: int| j as usize));
}

/// When every column of a matrix already reaches the cutoff, the reduction
/// gives the matrix back: all columns are retained in their own order, and
/// keeping them keeps every entry in place under its own column.
pub proof fn lemma_reduction_keeps_matrix(
    nrows: usize,
    ncols: usize,
    offsets: Seq<usize>,
    cols: Seq<usize>,
    effective_counts: Seq<u64>,
    cutoff: u64,
)
    requires
        pattern_wf(nrows as int, ncols as int, offsets, cols),
        effective_counts.len() == ncols,
        forall|j: int| 0 <= j < ncols ==> effective_counts[j] >= cutoff,
    ensures
        ({
            let keep = retained(effective_counts, cutoff, ncols as int);
            &&& keep.len() == ncols
            &&& kept_positions(cols, keep, cols.len() as int) == Seq::new(
                cols.len(),
                |p: int| p as usize,
            )
            &&& forall|i: int|
                0 <= i <= nrows ==> kept_positions(cols, keep, offsets[i] as int).len()
                    == offsets[i]
            &&& forall|p: int| 0 <= p < cols.len() ==> keep[cols[p] as int] == cols[p]
        }),
{
    lemma_all_columns_retained(effective_counts, cutoff);
    let keep = retained(effective_counts, cutoff, ncols as int);
    lemma_keep_all_columns(nrows, ncols, offsets, cols, keep);
}

} // verus!

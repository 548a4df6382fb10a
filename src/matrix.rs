use vstd::prelude::*;

verus! {

/// A compressed-row sparsity pattern of `nrows` rows and `ncols` columns: row
/// `i` holds the entries at positions `offsets[i]..offsets[i + 1]`, and entry
/// `p` lies in column `cols[p]`.
pub open spec fn pattern_wf(nrows: int, ncols: int, offsets: Seq<usize>, cols: Seq<usize>) -> bool {
    &&& offsets.len() == nrows + 1
    &&& offsets[0] == 0
    &&& offsets[nrows] == cols.len()
    &&& forall|i: int, j: int| 0 <= i <= j <= nrows ==> offsets[i] <= offsets[j]
    &&& forall|p: int| 0 <= p < cols.len() ==> cols[p] < ncols
}

/// The positions below `hi`, in increasing order, of the entries whose column
/// is one of `keep`.
pub open spec fn kept_positions(cols: Seq<usize>, keep: Seq<usize>, hi: int) -> Seq<usize>
    decreases hi,
{
    if hi <= 0 {
        Seq::empty()
    } else {
        let prev = kept_positions(cols, keep, hi - 1);
        if keep.contains(cols[hi - 1]) {
            prev.push((hi - 1) as usize)
        } else {
            prev
        }
    }
}

proof fn lemma_kept_len_monotonic(cols: Seq<usize>, keep: Seq<usize>, a: int, b: int)
    requires
        0 <= a <= b,
    ensures
        kept_positions(cols, keep, a).len() <= kept_positions(cols, keep, b).len(),
    decreases b - a,
{
    if a < b {
        lemma_kept_len_monotonic(cols, keep, a, b - 1);
    }
}

/// For each column below `n`, its position in `keep`, if it is listed there.
pub fn position_lookup(keep: &[usize], n: usize) -> (r: Vec<Option<usize>>)
    requires
        keep@.no_duplicates(),
        forall|k: int| 0 <= k < keep@.len() ==> keep@[k] < n,
    ensures
        r.len() == n,
        forall|x: int|
            0 <= x < n ==> match #[trigger] r@[x] {
                Some(j) => j < keep@.len() && keep@[j as int] == x,
                None => !keep@.contains(x as usize),
            },
{
    let mut lookup: Vec<Option<usize>> = Vec::new();
    for c in 0..n
        invariant
            lookup.len() == c,
            forall|x: int| 0 <= x < c ==> lookup@[x] is None,
    {
        lookup.push(None);
    }
    for k in 0..keep.len()
        invariant
            lookup.len() == n,
            keep@.no_duplicates(),
            forall|j: int| 0 <= j < keep@.len() ==> keep@[j] < n,
            forall|x: int|
                0 <= x < n ==> match #[trigger] lookup@[x] {
                    Some(j) => j < k && keep@[j as int] == x,
                    None => forall|j: int| 0 <= j < k ==> keep@[j] != x,
                },
    {
        let c = keep[k];
        lookup.set(c, Some(k));
    }
    lookup
}

/// The pattern that keeps some columns of another, with the positions that
/// its entries had there.
pub struct ColumnSubset {
    pub row_offsets: Vec<usize>,
    pub col_indices: Vec<usize>,
    /// For each kept entry, its position among the entries of the input.
    pub source: Vec<usize>,
}

/// Keeps the entries whose column is listed in `keep_cols`, renumbering
/// column `keep_cols[k]` as `k` and keeping every row and the order of the
/// entries within each row.
pub fn subset_columns(
    nrows: usize,
    ncols: usize,
    row_offsets: &[usize],
    col_indices: &[usize],
    keep_cols: &[usize],
) -> (r: ColumnSubset)
    requires
        pattern_wf(nrows as int, ncols as int, row_offsets@, col_indices@),
        keep_cols@.no_duplicates(),
        forall|k: int| 0 <= k < keep_cols@.len() ==> keep_cols@[k] < ncols,
    ensures
        pattern_wf(nrows as int, keep_cols@.len() as int, r.row_offsets@, r.col_indices@),
        r.source@ == kept_positions(col_indices@, keep_cols@, col_indices@.len() as int),
        forall|i: int|
            0 <= i <= nrows ==> r.row_offsets@[i] == kept_positions(
                col_indices@,
                keep_cols@,
                row_offsets@[i] as int,
            ).len(),
        r.col_indices@.len() == r.source@.len(),
        forall|k: int|
            0 <= k < r.source@.len() ==> keep_cols@[r.col_indices@[k] as int]
                == col_indices@[r.source@[k] as int],
{
    let ghost cols = col_indices@;
    let ghost keep = keep_cols@;
    let lookup = position_lookup(keep_cols, ncols);
    let mut offsets_out: Vec<usize> = Vec::new();
    let mut cols_out: Vec<usize> = Vec::new();
    let mut source: Vec<usize> = Vec::new();
    offsets_out.push(0);
    for row in 0..nrows
        invariant
            cols == col_indices@,
            keep == keep_cols@,
            pattern_wf(nrows as int, ncols as int, row_offsets@, col_indices@),
            lookup.len() == ncols,
            forall|x: int|
                0 <= x < ncols ==> match #[trigger] lookup@[x] {
                    Some(j) => j < keep.len() && keep[j as int] == x,
                    None => !keep.contains(x as usize),
                },
            offsets_out.len() == row + 1,
            forall|i: int|
                0 <= i <= row ==> offsets_out@[i] == kept_positions(
                    cols,
                    keep,
                    row_offsets@[i] as int,
                ).len(),
            source@ == kept_positions(cols, keep, row_offsets@[row as int] as int),
            cols_out.len() == source.len(),
            forall|k: int|
                0 <= k < source.len() ==> cols_out@[k] < keep.len() && keep[cols_out@[k] as int]
                    == cols[source@[k] as int],
    {
        let lo = row_offsets[row];
        let hi = row_offsets[row + 1];
        let mut p = lo;
        while p < hi
            invariant
                cols == col_indices@,
                keep == keep_cols@,
                pattern_wf(nrows as int, ncols as int, row_offsets@, col_indices@),
                row < nrows,
                lo == row_offsets@[row as int],
                hi == row_offsets@[row + 1],
                lo <= p <= hi,
                lookup.len() == ncols,
                forall|x: int|
                    0 <= x < ncols ==> match #[trigger] lookup@[x] {
                        Some(j) => j < keep.len() && keep[j as int] == x,
                        None => !keep.contains(x as usize),
                    },
                source@ == kept_positions(cols, keep, p as int),
                cols_out.len() == source.len(),
                forall|k: int|
                    0 <= k < source.len() ==> cols_out@[k] < keep.len() && keep[cols_out@[k] as int]
                        == cols[source@[k] as int],
            decreases hi - p,
        {
            assert(row_offsets@[nrows as int] == cols.len());
            let c = col_indices[p];
            if let Some(k) = lookup[c] {
                cols_out.push(k);
                source.push(p);
            }
            p += 1;
        }
        offsets_out.push(source.len());
    }
    proof {
        let n = nrows as int;
        assert forall|i: int, j: int| 0 <= i <= j <= n implies offsets_out@[i]
            <= offsets_out@[j] by {
            lemma_kept_len_monotonic(cols, keep, row_offsets@[i] as int, row_offsets@[j] as int);
        }
        assert(offsets_out@[0] == 0);
    }
    ColumnSubset { row_offsets: offsets_out, col_indices: cols_out, source }
}

/// Keeping every column in its own place returns the pattern unchanged: all
/// entries are kept, each at its own position and under its own column.
pub proof fn lemma_keep_all_columns(
    nrows: usize,
    ncols: usize,
    offsets: Seq<usize>,
    cols: Seq<usize>,
    keep: Seq<usize>,
)
    requires
        pattern_wf(nrows as int, ncols as int, offsets, cols),
        keep.len() == ncols,
        forall|k: int| 0 <= k < ncols ==> keep[k] == k,
    ensures
        kept_positions(cols, keep, cols.len() as int) == Seq::new(cols.len(), |p: int| p as usize),
        forall|i: int|
            0 <= i <= nrows ==> kept_positions(cols, keep, offsets[i] as int).len() == offsets[i],
        forall|p: int| 0 <= p < cols.len() ==> keep[cols[p] as int] == cols[p],
{
    assert forall|h: int| 0 <= h <= cols.len() implies kept_positions(cols, keep, h) == Seq::new(
        h as nat,
        |p: int| p as usize,
    ) by {
        lemma_keep_all_prefix(cols, keep, ncols as int, h);
    }
    assert forall|i: int| 0 <= i <= nrows implies kept_positions(cols, keep, offsets[i] as int).len()
        == offsets[i] by {
        assert(offsets[i] <= offsets[nrows as int]);
        lemma_keep_all_prefix(cols, keep, ncols as int, offsets[i] as int);
    }
}

proof fn lemma_keep_all_prefix(cols: Seq<usize>, keep: Seq<usize>, ncols: int, h: int)
    requires
        0 <= h <= cols.len(),
        keep.len() == ncols,
        forall|k: int| 0 <= k < ncols ==> keep[k] == k,
        forall|p: int| 0 <= p < cols.len() ==> cols[p] < ncols,
    ensures
        kept_positions(cols, keep, h) == Seq::new(h as nat, |p: int| p as usize),
    decreases h,
{
    if h == 0 {
        assert(kept_positions(cols, keep, h) =~= Seq::new(h as nat, |p: int| p as usize));
    } else {
        lemma_keep_all_prefix(cols, keep, ncols, h - 1);
        let c = cols[h - 1];
        assert(keep[c as int] == c);
        assert(keep.contains(c));
        assert(kept_positions(cols, keep, h) =~= Seq::new(h as nat, |p: int| p as usize));
    }
}

} // verus!

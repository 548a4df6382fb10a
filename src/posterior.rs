use vstd::prelude::*;

verus! {

/// Positions of the 2.5th and the 97.5th percentile among `iterations`
/// sorted samples: `round(0.025 * iterations)` and
/// `round(0.975 * iterations)`, each kept inside `0..iterations`.
pub fn credible_positions(iterations: usize) -> (r: (usize, usize))
    requires
        iterations > 0,
    ensures
        r.0 == if (iterations + 20) / 40 < iterations {
            (iterations + 20) / 40
        } else {
            (iterations - 1) as int
        },
        r.1 == if (39 * iterations + 20) / 40 < iterations {
            (39 * iterations + 20) / 40
        } else {
            (iterations - 1) as int
        },
        r.0 < iterations,
        r.1 < iterations,
{
    let n = iterations as u128;
    let lo = (n + 20) / 40;
    let hi = (39 * n + 20) / 40;
    let lo = if lo < n {
        lo as usize
    } else {
        iterations - 1
    };
    let hi = if hi < n {
        hi as usize
    } else {
        iterations - 1
    };
    (lo, hi)
}

} // verus!

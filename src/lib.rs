//! Discrete core of a metagenomic abundance estimator that infers which taxa
//! are present in a sample, and in what proportions, from reads aligned to a
//! reference database.
//!
//! - `taxonomy`, `names`: taxon identifiers from reference names, interned as
//!   matrix columns; entries of a taxonomy names file.
//! - `alignment`: numbering of reads in a name-sorted alignment stream, read
//!   lengths from CIGAR operations, the median reference length.
//! - `matrix`, `reduce`: the sparsity pattern of the read-by-taxon matrix, its
//!   column subsets, and which columns the reduction keeps.
//! - `moves`, `chain`: Add / Remove / Swap moves of the subset sampler, their
//!   probabilities and candidates, and a chain's present taxa.
//! - `tempering`, `posterior`: the exchange schedule of parallel tempering and
//!   the percentile positions of the posterior summaries.
pub mod alignment;
pub mod chain;
pub mod matrix;
pub mod moves;
pub mod names;
pub mod posterior;
pub mod reduce;
pub mod taxonomy;
pub mod tempering;
pub mod text;

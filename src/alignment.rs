use vstd::prelude::*;
use vstd::slice::slice_to_vec;

verus! {

/// Numbers the reads of a name-sorted alignment stream: consecutive records
/// with the same read name belong to one read, and each change of name
/// starts the next read.
pub struct ReadIndexer {
    pub last_name: Vec<u8>,
    pub next_index: usize,
    pub current_row: usize,
}

/// What one record means for the read numbering.
#[derive(Clone, Copy, Debug, PartialEq, Eq, Structural)]
pub struct ReadStep {
    /// The read (matrix row) that the record belongs to.
    pub row: usize,
    /// Whether the record starts a new read.
    pub new_read: bool,
    /// A finished read whose collected scores are now complete.
    pub flush_row: Option<usize>,
}

impl ReadIndexer {
    pub fn new() -> (r: Self)
        ensures
            r.last_name@ == Seq::<u8>::empty(),
            r.next_index == 0,
            r.current_row == 0,
    {
        ReadIndexer { last_name: Vec::new(), next_index: 0, current_row: 0 }
    }

    /// Takes the name of the next record.
    pub fn observe(&mut self, name: &[u8]) -> (r: ReadStep)
        requires
            old(self).next_index < usize::MAX,
        ensures
            r.new_read == (name@ != old(self).last_name@),
            r.new_read ==> r.row == old(self).next_index && final(self).next_index == old(
                self,
            ).next_index + 1 && final(self).current_row == r.row && final(self).last_name@
                == name@ && r.flush_row == if old(self).last_name@.len() > 0 {
                Some(old(self).current_row)
            } else {
                None
            },
            !r.new_read ==> r.row == old(self).current_row && r.flush_row is None && *final(self)
                == *old(self),
    {
        if bytes_equal(name, self.last_name.as_slice()) {
            ReadStep { row: self.current_row, new_read: false, flush_row: None }
        } else {
            let flush_row = if self.last_name.len() > 0 {
                Some(self.current_row)
            } else {
                None
            };
            self.current_row = self.next_index;
            self.next_index = self.next_index + 1;
            self.last_name = slice_to_vec(name);
            ReadStep { row: self.current_row, new_read: true, flush_row }
        }
    }
}

fn bytes_equal(a: &[u8], b: &[u8]) -> (r: bool)
    ensures
        r == (a@ == b@),
{
    if a.len() != b.len() {
        return false;
    }
    let mut i: usize = 0;
    while i < a.len()
        invariant
            a@.len() == b@.len(),
            i <= a@.len(),
            forall|k: int| 0 <= k < i ==> a@[k] == b@[k],
        decreases a@.len() - i,
    {
        if a[i] != b[i] {
            return false;
        }
        i += 1;
    }
    assert(a@ =~= b@);
    true
}

/// The kinds of CIGAR operations.
#[derive(Clone, Copy, Debug, PartialEq, Eq, Structural)]
pub enum CigarKind {
    Match,
    Insertion,
    Deletion,
    Skip,
    SoftClip,
    HardClip,
    Pad,
    SequenceMatch,
    SequenceMismatch,
}

impl CigarKind {
    /// Whether the operation covers bases of the read itself.
    pub open spec fn covers_read(self) -> bool {
        match self {
            CigarKind::Match | CigarKind::Insertion | CigarKind::SoftClip
            | CigarKind::SequenceMatch | CigarKind::SequenceMismatch => true,
            _ => false,
        }
    }

    pub fn consumes_read(&self) -> (r: bool)
        ensures
            r == self.covers_read(),
    {
        match self {
            CigarKind::Match | CigarKind::Insertion | CigarKind::SoftClip
            | CigarKind::SequenceMatch | CigarKind::SequenceMismatch => true,
            _ => false,
        }
    }
}

#[derive(Clone, Copy, Debug, PartialEq, Eq, Structural)]
pub struct CigarOp {
    pub kind: CigarKind,
    pub len: usize,
}

/// The number of read bases that the operations cover.
pub open spec fn read_bases(ops: Seq<CigarOp>) -> int
    decreases ops.len(),
{
    if ops.len() == 0 {
        0
    } else {
        read_bases(ops.drop_last()) + if ops.last().kind.covers_read() {
            ops.last().len as int
        } else {
            0
        }
    }
}

/// The length of a read: that of its stored sequence, or, when none is
/// stored, the read bases that its CIGAR covers (`None` when that sum does not
/// fit in a `u64`).
pub fn read_length(sequence_len: usize, ops: &[CigarOp]) -> (r: Option<u64>)
    ensures
        sequence_len > 0 ==> r == Some(sequence_len as u64),
        sequence_len == 0 ==> r == if read_bases(ops@) <= u64::MAX {
            Some(read_bases(ops@) as u64)
        } else {
            None
        },
{
    if sequence_len > 0 {
        return Some(sequence_len as u64);
    }
    let mut total: u64 = 0;
    let mut i: usize = 0;
    while i < ops.len()
        invariant
            sequence_len == 0,
            i <= ops@.len(),
            total == read_bases(ops@.take(i as int)),
        decreases ops@.len() - i,
    {
        assert(ops@.take(i + 1).drop_last() =~= ops@.take(i as int));
        let op = ops[i];
        if op.kind.consumes_read() {
            let n = op.len as u64;
            if total > u64::MAX - n {
                proof {
                    lemma_read_bases_prefix(ops@, i + 1);
                }
                return None;
            }
            total = total + n;
        }
        i += 1;
    }
    assert(ops@.take(ops@.len() as int) =~= ops@);
    Some(total)
}

proof fn lemma_read_bases_prefix(ops: Seq<CigarOp>, k: int)
    requires
        0 <= k <= ops.len(),
    ensures
        read_bases(ops.take(k)) <= read_bases(ops),
    decreases ops.len() - k,
{
    if k < ops.len() {
        lemma_read_bases_prefix(ops, k + 1);
        assert(ops.take(k + 1).drop_last() =~= ops.take(k));
    } else {
        assert(ops.take(k) =~= ops);
    }
}

pub open spec fn is_sorted(s: Seq<u64>) -> bool {
    forall|i: int, j: int| 0 <= i <= j < s.len() ==> s[i] <= s[j]
}

/// Position of the lower of the two middle values among `n` sorted values
/// (the middle one when `n` is odd).
pub open spec fn lower_middle(n: int) -> int {
    if n % 2 == 0 {
        n / 2 - 1
    } else {
        n / 2
    }
}

/// Position of the upper of the two middle values among `n` sorted values.
pub open spec fn upper_middle(n: int) -> int {
    n / 2
}

/// Relies on `slice::sort_unstable`: the values end up in non-decreasing
/// order, and they are the same values.
#[verifier::external_body]
fn sort_values(v: &mut Vec<u64>)
    ensures
        final(v)@.to_multiset() == old(v)@.to_multiset(),
        is_sorted(final(v)@),
{
    v.sort_unstable();
}

/// The two middle values of the sorted reference lengths (one value twice
/// when their number is odd), whose mean is the median genome length; `None`
/// when there is no reference.
pub fn median_pair(lengths: Vec<u64>) -> (r: Option<(u64, u64)>)
    ensures
        r is None <==> lengths@.len() == 0,
        r matches Some((lo, hi)) ==> exists|s: Seq<u64>|
            #![trigger s.to_multiset()]
            is_sorted(s) && s.to_multiset() == lengths@.to_multiset() && lo == s[lower_middle(
                s.len() as int,
            )] && hi == s[upper_middle(s.len() as int)],
{
    let mut v = lengths;
    if v.len() == 0 {
        return None;
    }
    sort_values(&mut v);
    proof {
        v@.to_multiset_ensures();
        lengths@.to_multiset_ensures();
    }
    let mid = v.len() / 2;
    let lo = if v.len() % 2 == 0 {
        v[mid - 1]
    } else {
        v[mid]
    };
    Some((lo, v[mid]))
}

} // verus!

use metamix::alignment::{median_pair, read_length, CigarKind, CigarOp, ReadIndexer, ReadStep};
use metamix::posterior::credible_positions;
use metamix::tempering::{swap_label, swap_pairs};

#[test]
fn even_and_odd_blocks_alternate_pairs() {
    assert_eq!(swap_pairs(0, 5), vec![(0, 1), (2, 3)]);
    assert_eq!(swap_pairs(1, 5), vec![(1, 2), (3, 4)]);
    assert_eq!(swap_pairs(3, 4), vec![(1, 2)]);
    assert_eq!(swap_pairs(1, 1), vec![]);
    assert_eq!(swap_pairs(0, 1), vec![]);
    assert_eq!(swap_pairs(2, 2), vec![(0, 1)]);
}

#[test]
fn swap_records_name_the_partner() {
    assert_eq!(swap_label(11), "Swapped from Chain 11");
    assert_eq!(swap_label(0), "Swapped from Chain 0");
}

#[test]
fn credible_positions_round_and_clamp() {
    assert_eq!(credible_positions(100), (3, 98));
    assert_eq!(credible_positions(1000), (25, 975));
    assert_eq!(credible_positions(1), (0, 0));
    assert_eq!(credible_positions(20), (1, 19));
    assert_eq!(credible_positions(39), (1, 38));
    // round(0.025 * (2^64 - 1)) and round(0.975 * (2^64 - 1))
    assert_eq!(
        credible_positions(usize::MAX),
        (461_168_601_842_738_790, 17_985_575_471_866_812_825)
    );
}

#[test]
fn reads_are_numbered_by_name_changes() {
    let mut ix = ReadIndexer::new();
    assert_eq!(ix.observe(b"r1"), ReadStep { row: 0, new_read: true, flush_row: None });
    assert_eq!(ix.observe(b"r1"), ReadStep { row: 0, new_read: false, flush_row: None });
    assert_eq!(ix.observe(b"r2"), ReadStep { row: 1, new_read: true, flush_row: Some(0) });
    assert_eq!(ix.observe(b"r3"), ReadStep { row: 2, new_read: true, flush_row: Some(1) });
    assert_eq!(ix.next_index, 3);
    assert_eq!(ix.current_row, 2);
}

#[test]
fn read_length_falls_back_to_the_cigar() {
    let ops = [
        CigarOp { kind: CigarKind::SoftClip, len: 5 },
        CigarOp { kind: CigarKind::Match, len: 40 },
        CigarOp { kind: CigarKind::Deletion, len: 3 },
        CigarOp { kind: CigarKind::Insertion, len: 2 },
        CigarOp { kind: CigarKind::HardClip, len: 9 },
        CigarOp { kind: CigarKind::SequenceMismatch, len: 1 },
    ];
    assert_eq!(read_length(0, &ops), Some(48));
    assert_eq!(read_length(150, &ops), Some(150));
    assert_eq!(read_length(0, &[]), Some(0));
}

#[test]
fn read_length_reports_an_overflowing_cigar() {
    let huge = [
        CigarOp { kind: CigarKind::Match, len: usize::MAX },
        CigarOp { kind: CigarKind::Deletion, len: usize::MAX },
        CigarOp { kind: CigarKind::Insertion, len: usize::MAX },
    ];
    assert_eq!(read_length(0, &huge), None);
    assert_eq!(read_length(0, &huge[..2]), Some(usize::MAX as u64));
}

#[test]
fn median_of_reference_lengths() {
    assert_eq!(median_pair(vec![]), None);
    assert_eq!(median_pair(vec![300, 100, 200]), Some((200, 200)));
    assert_eq!(median_pair(vec![400, 100, 300, 200]), Some((200, 300)));
    assert_eq!(median_pair(vec![7]), Some((7, 7)));
}

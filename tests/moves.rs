use std::collections::HashSet;

use metamix::chain::PresentTaxa;
use metamix::moves::{clamp_positions, McmcLogic, MoveProbs, MoveType};

fn probs(add: u32, remove: u32, swap: u32) -> MoveProbs {
    MoveProbs { add, remove, swap }
}

#[test]
fn move_probabilities_depend_on_how_full_the_set_is() {
    assert_eq!(McmcLogic::get_move_probs(0, 5), probs(10, 0, 0));
    assert_eq!(McmcLogic::get_move_probs(2, 5), probs(4, 4, 2));
    assert_eq!(McmcLogic::get_move_probs(5, 5), probs(0, 10, 0));
    assert_eq!(McmcLogic::get_move_probs(0, 0), probs(10, 0, 0));
}

#[test]
fn full_set_cannot_grow() {
    let all: HashSet<usize> = (0..4).collect();
    assert_eq!(McmcLogic::get_move_probs(all.len(), 4).add, 0);
    assert!(McmcLogic::add_candidates(4, &all).is_empty());
}

#[test]
fn add_move_densities_use_the_right_sets() {
    // S = {a} among T = 3: forward Add has 0.4, the reverse Remove from
    // S' = {a, b} has 0.4; among T = 2 the reverse Remove has 1.0.
    assert_eq!(McmcLogic::get_move_probs(1, 3).add, 4);
    assert_eq!(McmcLogic::get_move_probs(2, 3).remove, 4);
    assert_eq!(McmcLogic::get_move_probs(1, 2).add, 4);
    assert_eq!(McmcLogic::get_move_probs(2, 2).remove, 10);
}

#[test]
fn add_candidates_are_the_absent_columns_in_order() {
    let present: HashSet<usize> = [1, 3].into_iter().collect();
    assert_eq!(McmcLogic::add_candidates(5, &present), vec![0, 2, 4]);
    assert_eq!(McmcLogic::add_candidates(0, &present), Vec::<usize>::new());
}

#[test]
fn members_come_out_sorted() {
    let present: HashSet<usize> = [7, 2, 5, 0].into_iter().collect();
    assert_eq!(McmcLogic::sorted_members(8, &present), vec![0, 2, 5, 7]);
}

#[test]
fn moves_change_the_set() {
    let mut s: HashSet<usize> = [1, 2].into_iter().collect();
    MoveType::Add(4).apply_to(&mut s);
    assert_eq!(s, [1, 2, 4].into_iter().collect());
    MoveType::Remove(1).apply_to(&mut s);
    assert_eq!(s, [2, 4].into_iter().collect());
    MoveType::Swap(2, 0).apply_to(&mut s);
    assert_eq!(s, [0, 4].into_iter().collect());
    MoveType::NoMove.apply_to(&mut s);
    assert_eq!(s, [0, 4].into_iter().collect());
}

#[test]
fn add_then_remove_is_possible() {
    let mut s: HashSet<usize> = [0].into_iter().collect();
    MoveType::Add(2).apply_to(&mut s);
    assert!(s.contains(&2));
    assert!(McmcLogic::get_move_probs(s.len(), 3).remove > 0);
}

#[test]
fn clamp_positions_are_floors_of_fifths() {
    assert_eq!(clamp_positions(1), (0, 0));
    assert_eq!(clamp_positions(4), (0, 3));
    assert_eq!(clamp_positions(5), (1, 4));
    assert_eq!(clamp_positions(12), (2, 9));
    // usize::MAX is a multiple of five
    assert_eq!(clamp_positions(usize::MAX), (usize::MAX / 5, usize::MAX / 5 * 4));
}

#[test]
fn move_labels() {
    assert_eq!(MoveType::Add(12).label(), "Add(12)");
    assert_eq!(MoveType::Remove(0).label(), "Remove(0)");
    assert_eq!(MoveType::Swap(3, 45).label(), "Swap(3->45)");
    assert_eq!(MoveType::NoMove.label(), "None");
}

#[test]
fn abundances_are_keyed_by_the_present_taxa() {
    let keys = vec![2, 5, 9];
    let p = PresentTaxa::keyed(&keys, &vec![0.5f64, 0.25, 0.25]);
    assert_eq!(p.abundances().len(), 3);
    assert_eq!(p.abundances()[&5], 0.25);
    assert_eq!(p.abundances()[&2], 0.5);
    let keyset: HashSet<usize> = p.abundances().keys().copied().collect();
    assert_eq!(&keyset, p.species());
    assert_eq!(keyset, keys.into_iter().collect());
    let empty: PresentTaxa<f64> = PresentTaxa::empty();
    assert!(empty.species().is_empty() && empty.abundances().is_empty());
}

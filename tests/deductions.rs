use sudoku::bitset::{DigitSet, LineSet, PositionSet};
use sudoku::board::{Candidate, Cell, Digit, House, HouseType, Line, MiniLine, Position};
use sudoku::deduction::{Deduction, Deductions};
use sudoku::strategy::Strategy;

fn cand(cell: u8, digit: u8) -> Candidate {
    Candidate::new(Cell::new(cell), Digit::new(digit))
}

fn positions(ps: &[u8]) -> PositionSet {
    let mut set = PositionSet::new();
    for &p in ps {
        set.insert(Position::new(p));
    }
    set
}

fn digits(ds: &[u8]) -> DigitSet {
    let mut set = DigitSet::new();
    for &d in ds {
        set.insert(Digit::new(d));
    }
    set
}

fn lines(ls: &[u8]) -> LineSet {
    let mut set = LineSet::new();
    for &l in ls {
        set.insert(Line::new(l));
    }
    set
}

fn fish(n_positions: &[u8]) -> Deduction<()> {
    Deduction::BasicFish {
        digit: Digit::new(3),
        lines: lines(&[1, 4]),
        positions: positions(n_positions),
        conflicts: (),
    }
}

fn subset(house: House, ps: &[u8]) -> Deduction<()> {
    Deduction::Subsets {
        house,
        positions: positions(ps),
        digits: digits(&[1, 2]),
        conflicts: (),
    }
}

fn strategy_at(ledger: &Deductions, index: usize) -> Strategy {
    ledger.get(index).expect("record present").strategy()
}

#[test]
fn naked_single_reads_back_as_naked_singles() {
    let mut ledger = Deductions::new();
    ledger.add(Deduction::NakedSingles(cand(0, 5)), &[]);
    assert_eq!(ledger.len(), 1);
    assert_eq!(strategy_at(&ledger, 0), Strategy::NakedSingles);
    assert_eq!(ledger.get(0), Some(Deduction::NakedSingles(cand(0, 5))));
}

#[test]
fn hidden_single_and_locked_candidates_are_classified() {
    let mut ledger = Deductions::new();
    ledger.add(Deduction::HiddenSingles(cand(40, 7), HouseType::Block(sudoku::board::Block(4))), &[]);
    ledger.add(
        Deduction::LockedCandidates {
            digit: Digit::new(2),
            miniline: MiniLine::new(10),
            is_pointing: true,
            conflicts: (),
        },
        &[cand(5, 2), cand(6, 2)],
    );
    ledger.add(
        Deduction::LockedCandidates {
            digit: Digit::new(2),
            miniline: MiniLine::new(11),
            is_pointing: false,
            conflicts: (),
        },
        &[cand(9, 2)],
    );
    assert_eq!(strategy_at(&ledger, 0), Strategy::HiddenSingles);
    assert_eq!(strategy_at(&ledger, 1), Strategy::LockedCandidates);
    assert_eq!(strategy_at(&ledger, 2), Strategy::LockedCandidates);
}

#[test]
fn x_wing_scenario() {
    let mut ledger = Deductions::new();
    ledger.add(Deduction::NakedSingles(cand(0, 5)), &[]);
    let conflicts = [cand(11, 3), cand(20, 3)];
    ledger.add(fish(&[2, 6]), &conflicts);
    assert_eq!(strategy_at(&ledger, 1), Strategy::XWing);
    match ledger.get(1) {
        Some(Deduction::BasicFish { conflicts: c, .. }) => assert_eq!(c, &conflicts[..]),
        other => panic!("unexpected record {:?}", other),
    }
}

#[test]
fn fish_size_picks_the_strategy() {
    let mut ledger = Deductions::new();
    ledger.add(fish(&[0, 8]), &[cand(1, 3)]);
    ledger.add(fish(&[0, 4, 8]), &[cand(1, 3)]);
    ledger.add(fish(&[0, 3, 4, 8]), &[cand(1, 3)]);
    assert_eq!(strategy_at(&ledger, 0), Strategy::XWing);
    assert_eq!(strategy_at(&ledger, 1), Strategy::Swordfish);
    assert_eq!(strategy_at(&ledger, 2), Strategy::Jellyfish);
}

#[test]
fn fish_strategy_ignores_digit_and_lines() {
    let mut ledger = Deductions::new();
    ledger.add(
        Deduction::BasicFish {
            digit: Digit::new(9),
            lines: lines(&[9, 12, 17]),
            positions: positions(&[1, 2, 3]),
            conflicts: (),
        },
        &[],
    );
    assert_eq!(strategy_at(&ledger, 0), Strategy::Swordfish);
}

#[test]
fn row_subset_hidden_and_naked_pairs() {
    let mut ledger = Deductions::new();
    // row 2 starts at cell 18: cell 19 lies in column 1, cell 25 in column 7
    ledger.add(subset(House::row(2), &[0, 1]), &[cand(19, 4)]);
    ledger.add(subset(House::row(2), &[0, 1]), &[cand(25, 4)]);
    assert_eq!(strategy_at(&ledger, 0), Strategy::HiddenPairs);
    assert_eq!(strategy_at(&ledger, 1), Strategy::NakedPairs);
}

#[test]
fn row_subset_triples_and_quads() {
    let mut ledger = Deductions::new();
    ledger.add(subset(House::row(0), &[2, 3, 4]), &[cand(3, 1)]);
    ledger.add(subset(House::row(0), &[2, 3, 4]), &[cand(8, 1)]);
    ledger.add(subset(House::row(0), &[2, 3, 4, 5]), &[cand(5, 1)]);
    ledger.add(subset(House::row(0), &[2, 3, 4, 5]), &[cand(0, 1)]);
    assert_eq!(strategy_at(&ledger, 0), Strategy::HiddenTriples);
    assert_eq!(strategy_at(&ledger, 1), Strategy::NakedTriples);
    assert_eq!(strategy_at(&ledger, 2), Strategy::HiddenQuads);
    assert_eq!(strategy_at(&ledger, 3), Strategy::NakedQuads);
}

#[test]
fn only_the_first_conflict_decides_the_subset_kind() {
    let mut ledger = Deductions::new();
    ledger.add(subset(House::row(0), &[0, 1]), &[cand(7, 3), cand(1, 3)]);
    assert_eq!(strategy_at(&ledger, 0), Strategy::NakedPairs);
}

#[test]
fn column_subset_uses_the_row_number() {
    let mut ledger = Deductions::new();
    // cell 21 is row 2, column 3; in column 3 it is at position 2
    ledger.add(subset(House::col(3), &[2, 5]), &[cand(21, 6)]);
    ledger.add(subset(House::col(3), &[4, 5]), &[cand(21, 6)]);
    assert_eq!(strategy_at(&ledger, 0), Strategy::HiddenPairs);
    assert_eq!(strategy_at(&ledger, 1), Strategy::NakedPairs);
}

#[test]
fn block_subset_uses_the_position_in_the_block() {
    let mut ledger = Deductions::new();
    // cell 40 is row 4, column 4: the centre of block 4, position 4
    ledger.add(subset(House::block(4), &[4, 8]), &[cand(40, 9)]);
    ledger.add(subset(House::block(4), &[0, 8]), &[cand(40, 9)]);
    assert_eq!(strategy_at(&ledger, 0), Strategy::HiddenPairs);
    assert_eq!(strategy_at(&ledger, 1), Strategy::NakedPairs);
}

#[test]
fn conflicts_read_back_in_append_order() {
    let mut ledger = Deductions::new();
    let first = [cand(1, 1), cand(2, 1), cand(3, 1)];
    let second = [cand(70, 9)];
    ledger.add(fish(&[0, 1]), &first);
    ledger.add(Deduction::NakedSingles(cand(10, 2)), &[cand(10, 3)]);
    ledger.add(subset(House::row(8), &[0, 1]), &second);
    match ledger.get(0) {
        Some(Deduction::BasicFish { conflicts, .. }) => assert_eq!(conflicts, &first[..]),
        other => panic!("unexpected record {:?}", other),
    }
    match ledger.get(2) {
        Some(Deduction::Subsets { conflicts, .. }) => assert_eq!(conflicts, &second[..]),
        other => panic!("unexpected record {:?}", other),
    }
    assert_eq!(ledger.eliminated_entries(), &[cand(1, 1), cand(2, 1), cand(3, 1), cand(10, 3), cand(70, 9)][..]);
}

#[test]
fn get_past_the_end_is_none() {
    let mut ledger = Deductions::new();
    assert_eq!(ledger.get(0), None);
    ledger.add(Deduction::NakedSingles(cand(0, 5)), &[]);
    ledger.add(fish(&[0, 1]), &[cand(2, 3)]);
    assert_eq!(ledger.get(ledger.len()), None);
    assert_eq!(ledger.get(ledger.len() + 1), None);
    assert_eq!(ledger.get(usize::MAX), None);
}

#[test]
fn empty_ledger() {
    let ledger = Deductions::new();
    assert_eq!(ledger.len(), 0);
    assert!(ledger.iter().next().is_none());
    assert!(ledger.deduced_entries().is_empty());
    assert!(ledger.eliminated_entries().is_empty());
}

#[test]
fn reading_twice_gives_equal_records() {
    let mut ledger = Deductions::new();
    ledger.add(Deduction::NakedSingles(cand(0, 5)), &[]);
    ledger.add(fish(&[2, 6]), &[cand(11, 3), cand(20, 3)]);
    ledger.add(subset(House::row(2), &[0, 1]), &[cand(19, 4)]);
    for i in 0..ledger.len() {
        assert_eq!(ledger.get(i), ledger.get(i));
    }
    let mut first = Vec::new();
    let mut it = ledger.iter();
    while let Some(d) = it.next() {
        first.push(d);
    }
    let mut second = Vec::new();
    let mut it = ledger.iter();
    while let Some(d) = it.next() {
        second.push(d);
    }
    assert_eq!(first.len(), 3);
    assert_eq!(first, second);
    for (i, d) in first.iter().enumerate() {
        assert_eq!(Some(*d), ledger.get(i));
    }
    assert!(it.next().is_none());
}

#[test]
fn deduced_entries_keep_their_order() {
    let mut ledger = Deductions::new();
    ledger.push_deduced(cand(0, 5));
    ledger.push_deduced(cand(80, 1));
    assert_eq!(ledger.deduced_entries(), &[cand(0, 5), cand(80, 1)][..]);
    assert_eq!(ledger.len(), 0);
}

#[test]
fn cell_positions() {
    let c = Cell::new(50); // row 5, column 5
    assert_eq!(c.get(), 50);
    assert_eq!(c.row_pos().get(), 5);
    assert_eq!(c.col_pos().get(), 5);
    assert_eq!(c.block_pos().get(), 8);
    let c = Cell::new(30); // row 3, column 3
    assert_eq!(c.block_pos().get(), 0);
    assert_eq!(Cell::new(80).block_pos().get(), 8);
}

#[test]
fn houses_categorize() {
    assert_eq!(House::new(0).categorize(), HouseType::Row(sudoku::board::Row(0)));
    assert_eq!(House::new(12).categorize(), HouseType::Col(sudoku::board::Col(3)));
    assert_eq!(House::new(26).categorize(), HouseType::Block(sudoku::board::Block(8)));
    assert_eq!(House::col(3), House::new(12));
    assert_eq!(House::block(8), House::new(26));
}

#[test]
fn sets_count_distinct_members() {
    let mut p = positions(&[0, 8, 8]);
    assert_eq!(p.len(), 2);
    assert!(p.contains(Position::new(8)));
    assert!(!p.contains(Position::new(4)));
    p.insert(Position::new(4));
    assert_eq!(p.len(), 3);
    let d = digits(&[1, 9]);
    assert_eq!(d.len(), 2);
    assert!(d.contains(Digit::new(9)));
    assert!(!d.contains(Digit::new(5)));
    let l = lines(&[0, 17, 9]);
    assert_eq!(l.len(), 3);
    assert!(l.contains(Line::new(17)));
    assert_eq!(LineSet::new().len(), 0);
}

//! Results of strategy applications and the ledger that stores them.

use vstd::prelude::*;
use vstd::pervasive::unreached;
use vstd::slice::slice_subrange;
use crate::bitset::{DigitSet, LineSet, PositionSet};
use crate::board::{Candidate, Cell, Digit, House, HouseType, MiniLine};
use crate::strategy::Strategy;

verus! {

/// A half-open range `[start, end)` of indices into the ledger's buffer of
/// eliminated candidates.
#[derive(Debug, Clone, Copy, PartialEq, Eq, Hash)]
pub struct IndexRange {
    pub start: usize,
    pub end: usize,
}

/// Result of a single, successful strategy application.
///
/// The record holds the data needed to explain why the step could be taken.
/// `T` is how the eliminated candidates (the conflicts) are held: an
/// `IndexRange` inside the ledger, a borrowed slice once read out of it, or
/// `()` for a record that has not been given its conflicts yet.
#[derive(Debug, Clone, Copy, PartialEq, Eq, Hash)]
pub enum Deduction<T> {
    /// Result of `Strategy::NakedSingles`.
    NakedSingles(Candidate),
    /// Result of `Strategy::HiddenSingles`, with the kind of house that showed it.
    HiddenSingles(Candidate, HouseType),
    /// Result of `Strategy::LockedCandidates`.
    LockedCandidates {
        digit: Digit,
        /// The only miniline of the block or line that still holds `digit`.
        miniline: MiniLine,
        /// Pointing: the block confines the digit and the rest of the line loses it.
        /// Claiming: the line confines the digit and the rest of the block loses it.
        is_pointing: bool,
        conflicts: T,
    },
    /// Result of naked or hidden pairs, triples or quads.
    Subsets {
        /// A house that holds all cells of the locked set.
        house: House,
        /// The cells of the locked set: 2 to 4 positions within `house`.
        positions: PositionSet,
        /// The digits of the locked set, as many as there are positions.
        digits: DigitSet,
        conflicts: T,
    },
    /// Result of `Strategy::XWing`, `Strategy::Swordfish` or `Strategy::Jellyfish`.
    BasicFish {
        digit: Digit,
        /// The lines that hold the fish: 2 to 4 of them.
        lines: LineSet,
        /// The union of the possible positions of `digit` in `lines`, as many as
        /// there are lines.
        positions: PositionSet,
        conflicts: T,
    },
    /// Kept free for strategies to come; no strategy produces it.
    Reserved,
}

/// The record `d` with its conflicts replaced by `c`.
pub open spec fn attach<T, U>(d: Deduction<T>, c: U) -> Deduction<U> {
    match d {
        Deduction::NakedSingles(cand) => Deduction::NakedSingles(cand),
        Deduction::HiddenSingles(cand, h) => Deduction::HiddenSingles(cand, h),
        Deduction::LockedCandidates { digit, miniline, is_pointing, .. } =>
            Deduction::LockedCandidates { digit, miniline, is_pointing, conflicts: c },
        Deduction::Subsets { house, positions, digits, .. } =>
            Deduction::Subsets { house, positions, digits, conflicts: c },
        Deduction::BasicFish { digit, lines, positions, .. } =>
            Deduction::BasicFish { digit, lines, positions, conflicts: c },
        Deduction::Reserved => Deduction::Reserved,
    }
}

/// The range of eliminated candidates that a stored record refers to, if its
/// variant has conflicts.
pub open spec fn range_of(d: Deduction<IndexRange>) -> Option<IndexRange> {
    match d {
        Deduction::LockedCandidates { conflicts, .. } => Some(conflicts),
        Deduction::Subsets { conflicts, .. } => Some(conflicts),
        Deduction::BasicFish { conflicts, .. } => Some(conflicts),
        _ => None,
    }
}

/// Whether the range of a stored record lies within a buffer of `len` entries.
pub open spec fn range_within(d: Deduction<IndexRange>, len: nat) -> bool {
    match range_of(d) {
        Some(r) => r.start <= r.end && r.end <= len,
        None => true,
    }
}

/// A stored record with its range resolved against the eliminated candidates.
pub open spec fn resolve(d: Deduction<IndexRange>, eliminated: Seq<Candidate>) -> Deduction<Seq<Candidate>> {
    match range_of(d) {
        Some(r) => attach(d, eliminated.subrange(r.start as int, r.end as int)),
        None => attach(d, Seq::empty()),
    }
}

impl<'a> View for Deduction<&'a [Candidate]> {
    type V = Deduction<Seq<Candidate>>;

    open spec fn view(&self) -> Deduction<Seq<Candidate>> {
        match *self {
            Deduction::LockedCandidates { conflicts, .. } => attach(*self, conflicts@),
            Deduction::Subsets { conflicts, .. } => attach(*self, conflicts@),
            Deduction::BasicFish { conflicts, .. } => attach(*self, conflicts@),
            _ => attach(*self, Seq::empty()),
        }
    }
}

/// The position of `cell` within the houses of the same kind as `house`.
pub open spec fn position_in_kind(house: House, cell: Cell) -> nat {
    match house.spec_categorize() {
        HouseType::Row(_) => cell.spec_row_pos(),
        HouseType::Col(_) => cell.spec_col_pos(),
        HouseType::Block(_) => cell.spec_block_pos(),
    }
}

/// The fish strategy for a fish over `n` lines.
pub open spec fn fish_strategy(n: nat) -> Strategy {
    if n == 2 {
        Strategy::XWing
    } else if n == 3 {
        Strategy::Swordfish
    } else {
        Strategy::Jellyfish
    }
}

/// The subset strategy for a locked set of `n` cells, hidden or naked.
pub open spec fn subset_strategy(hidden: bool, n: nat) -> Strategy {
    if hidden {
        if n == 2 {
            Strategy::HiddenPairs
        } else if n == 3 {
            Strategy::HiddenTriples
        } else {
            Strategy::HiddenQuads
        }
    } else {
        if n == 2 {
            Strategy::NakedPairs
        } else if n == 3 {
            Strategy::NakedTriples
        } else {
            Strategy::NakedQuads
        }
    }
}

/// Whether a subset record is hidden: the first conflict lies on one of the
/// subset's own positions.
pub open spec fn is_hidden_subset(house: House, positions: PositionSet, conflicts: Seq<Candidate>) -> bool {
    positions@.contains(position_in_kind(house, conflicts[0].cell))
}

/// Whether a materialized record has a shape that names exactly one strategy:
/// fish and subsets of 2 to 4 elements, subsets with at least one conflict,
/// and not the reserved variant.
pub open spec fn classifiable(d: Deduction<Seq<Candidate>>) -> bool {
    match d {
        Deduction::Subsets { positions, conflicts, .. } =>
            2 <= positions@.len() <= 4 && conflicts.len() > 0,
        Deduction::BasicFish { positions, .. } => 2 <= positions@.len() <= 4,
        Deduction::Reserved => false,
        _ => true,
    }
}

/// The strategy that a classifiable record comes from.
pub open spec fn strategy_of(d: Deduction<Seq<Candidate>>) -> Strategy
    recommends
        classifiable(d),
{
    match d {
        Deduction::NakedSingles(_) => Strategy::NakedSingles,
        Deduction::HiddenSingles(..) => Strategy::HiddenSingles,
        Deduction::LockedCandidates { .. } => Strategy::LockedCandidates,
        Deduction::Subsets { house, positions, conflicts, .. } =>
            subset_strategy(is_hidden_subset(house, positions, conflicts), positions@.len()),
        Deduction::BasicFish { positions, .. } => fish_strategy(positions@.len()),
        Deduction::Reserved => arbitrary(),
    }
}

impl<'a> Deduction<&'a [Candidate]> {
    /// Returns the type of strategy that was used to make this deduction.
    pub fn strategy(&self) -> (r: Strategy)
        requires
            classifiable(self@),
        ensures
            r == strategy_of(self@),
    {
        match self {
            Deduction::NakedSingles(..) => Strategy::NakedSingles,
            Deduction::HiddenSingles(..) => Strategy::HiddenSingles,
            Deduction::LockedCandidates { .. } => Strategy::LockedCandidates,
            Deduction::BasicFish { positions, .. } => {
                let n = positions.len();
                if n == 2 {
                    Strategy::XWing
                } else if n == 3 {
                    Strategy::Swordfish
                } else if n == 4 {
                    Strategy::Jellyfish
                } else {
                    unreached()
                }
            },
            Deduction::Subsets { house, positions, conflicts, .. } => {
                let conflict_cell = conflicts[0].cell;
                let conflict_pos = match house.categorize() {
                    HouseType::Row(_) => conflict_cell.row_pos(),
                    HouseType::Col(_) => conflict_cell.col_pos(),
                    HouseType::Block(_) => conflict_cell.block_pos(),
                };
                let is_hidden = positions.contains(conflict_pos);
                let n = positions.len();
                if !is_hidden && n == 2 {
                    Strategy::NakedPairs
                } else if !is_hidden && n == 3 {
                    Strategy::NakedTriples
                } else if !is_hidden && n == 4 {
                    Strategy::NakedQuads
                } else if is_hidden && n == 2 {
                    Strategy::HiddenPairs
                } else if is_hidden && n == 3 {
                    Strategy::HiddenTriples
                } else if is_hidden && n == 4 {
                    Strategy::HiddenQuads
                } else {
                    unreached()
                }
            },
            Deduction::Reserved => unreached(),
        }
    }
}


/// Whether a record's variant carries conflicts.
pub open spec fn carries_conflicts<T>(d: Deduction<T>) -> bool {
    match d {
        Deduction::LockedCandidates { .. } => true,
        Deduction::Subsets { .. } => true,
        Deduction::BasicFish { .. } => true,
        _ => false,
    }
}

/// The record that reads back after appending `shape` with `conflicts`: a
/// variant without conflicts keeps none of them.
pub open spec fn with_conflicts(shape: Deduction<()>, conflicts: Seq<Candidate>) -> Deduction<Seq<Candidate>> {
    if carries_conflicts(shape) {
        attach(shape, conflicts)
    } else {
        attach(shape, Seq::empty())
    }
}

impl Deduction<IndexRange> {
    /// Replaces the index range with the slice of `eliminated` that it denotes.
    pub fn with_slices<'a>(self, eliminated: &'a [Candidate]) -> (r: Deduction<&'a [Candidate]>)
        requires
            range_within(self, eliminated@.len()),
        ensures
            r@ == resolve(self, eliminated@),
    {
        match self {
            Deduction::NakedSingles(c) => Deduction::NakedSingles(c),
            Deduction::HiddenSingles(c, h) => Deduction::HiddenSingles(c, h),
            Deduction::LockedCandidates { digit, miniline, is_pointing, conflicts } =>
                Deduction::LockedCandidates {
                    digit,
                    miniline,
                    is_pointing,
                    conflicts: slice_subrange(eliminated, conflicts.start, conflicts.end),
                },
            Deduction::Subsets { house, positions, digits, conflicts } =>
                Deduction::Subsets {
                    house,
                    positions,
                    digits,
                    conflicts: slice_subrange(eliminated, conflicts.start, conflicts.end),
                },
            Deduction::BasicFish { digit, lines, positions, conflicts } =>
                Deduction::BasicFish {
                    digit,
                    lines,
                    positions,
                    conflicts: slice_subrange(eliminated, conflicts.start, conflicts.end),
                },
            Deduction::Reserved => Deduction::Reserved,
        }
    }
}

impl Deduction<()> {
    /// The record that stores `shape`, its conflicts found at `range`.
    fn with_range(self, range: IndexRange) -> (r: Deduction<IndexRange>)
        ensures
            r == attach(self, range),
    {
        match self {
            Deduction::NakedSingles(c) => Deduction::NakedSingles(c),
            Deduction::HiddenSingles(c, h) => Deduction::HiddenSingles(c, h),
            Deduction::LockedCandidates { digit, miniline, is_pointing, .. } =>
                Deduction::LockedCandidates { digit, miniline, is_pointing, conflicts: range },
            Deduction::Subsets { house, positions, digits, .. } =>
                Deduction::Subsets { house, positions, digits, conflicts: range },
            Deduction::BasicFish { digit, lines, positions, .. } =>
                Deduction::BasicFish { digit, lines, positions, conflicts: range },
            Deduction::Reserved => Deduction::Reserved,
        }
    }
}

/// The sequence of deductions made to solve, or partly solve, a sudoku.
///
/// The conflicts of all records live in one buffer of eliminated candidates;
/// each record refers to its own contiguous run of it by an index range. The
/// ledger only grows, so a range once issued stays valid.
#[derive(Debug, Clone, PartialEq, Eq, Hash)]
pub struct Deductions {
    deductions: Vec<Deduction<IndexRange>>,
    deduced_entries: Vec<Candidate>,
    eliminated_entries: Vec<Candidate>,
}

/// The records of `stored` from `from` on, resolved against `eliminated`.
pub open spec fn resolve_all(stored: Seq<Deduction<IndexRange>>, eliminated: Seq<Candidate>, from: int) -> Seq<Deduction<Seq<Candidate>>> {
    Seq::new((stored.len() - from) as nat, |i: int| resolve(stored[from + i], eliminated))
}

/// Every stored range lies within a buffer of `len` entries.
pub open spec fn ranges_within(stored: Seq<Deduction<IndexRange>>, len: nat) -> bool {
    forall|i: int| 0 <= i < stored.len() ==> #[trigger] range_within(stored[i], len)
}

impl Deductions {
    /// Every record's range lies within the eliminated candidates.
    pub closed spec fn wf(&self) -> bool {
        ranges_within(self.deductions@, self.eliminated_entries@.len())
    }

    /// The records, each with its conflicts read out of the buffer.
    pub closed spec fn records(&self) -> Seq<Deduction<Seq<Candidate>>> {
        resolve_all(self.deductions@, self.eliminated_entries@, 0)
    }

    /// The candidates proven true, in the order they were found.
    pub closed spec fn deduced(&self) -> Seq<Candidate> {
        self.deduced_entries@
    }

    /// The candidates proven false, in the order they were found.
    pub closed spec fn eliminated(&self) -> Seq<Candidate> {
        self.eliminated_entries@
    }

    /// `self` is `before` with `shape` appended, its conflicts pushed as one
    /// run onto the eliminated candidates.
    pub closed spec fn appends(&self, before: Deductions, shape: Deduction<()>, conflicts: Seq<Candidate>) -> bool {
        let start = before.eliminated_entries@.len();
        let end = self.eliminated_entries@.len();
        &&& self.eliminated_entries@ == before.eliminated_entries@ + conflicts
        &&& self.deduced_entries@ == before.deduced_entries@
        &&& self.deductions@ == before.deductions@.push(
            attach(shape, IndexRange { start: start as usize, end: end as usize }))
        &&& end <= usize::MAX
    }

    /// An empty ledger.
    pub fn new() -> (r: Deductions)
        ensures
            r.wf(),
            r.records() == Seq::<Deduction<Seq<Candidate>>>::empty(),
            r.deduced() == Seq::<Candidate>::empty(),
            r.eliminated() == Seq::<Candidate>::empty(),
    {
        let r = Deductions {
            deductions: Vec::new(),
            deduced_entries: Vec::new(),
            eliminated_entries: Vec::new(),
        };
        assert(r.records() =~= Seq::empty());
        r
    }

    /// Returns the number of deductions.
    pub fn len(&self) -> (r: usize)
        ensures
            r == self.records().len(),
    {
        self.deductions.len()
    }

    /// Returns the `index`th deduction, if it exists.
    pub fn get(&self, index: usize) -> (r: Option<Deduction<&[Candidate]>>)
        requires
            self.wf(),
        ensures
            match r {
                Some(d) => index < self.records().len() && d@ == self.records()[index as int],
                None => index >= self.records().len(),
            },
    {
        if index < self.deductions.len() {
            let stored = self.deductions[index];
            assert(range_within(self.deductions@[index as int], self.eliminated_entries@.len()));
            Some(stored.with_slices(self.eliminated_entries.as_slice()))
        } else {
            None
        }
    }

    /// Returns an iterator over the deductions, from the first one.
    pub fn iter(&self) -> (r: Iter<'_>)
        requires
            self.wf(),
        ensures
            r.wf(),
            r.remaining() == self.records(),
    {
        Iter {
            deductions: self.deductions.as_slice(),
            eliminated_entries: self.eliminated_entries.as_slice(),
            next_index: 0,
        }
    }

    /// The candidates proven true, in the order they were found.
    pub fn deduced_entries(&self) -> (r: &[Candidate])
        ensures
            r@ == self.deduced(),
    {
        self.deduced_entries.as_slice()
    }

    /// The candidates proven false, in the order they were found.
    pub fn eliminated_entries(&self) -> (r: &[Candidate])
        ensures
            r@ == self.eliminated(),
    {
        self.eliminated_entries.as_slice()
    }

    /// Records a candidate proven true.
    pub fn push_deduced(&mut self, candidate: Candidate)
        requires
            old(self).wf(),
        ensures
            final(self).wf(),
            final(self).records() == old(self).records(),
            final(self).deduced() == old(self).deduced().push(candidate),
            final(self).eliminated() == old(self).eliminated(),
    {
        self.deduced_entries.push(candidate);
        assert(self.records() =~= old(self).records());
    }

    /// Appends a deduction together with the candidates it eliminates. The
    /// candidates go onto the eliminated buffer as one run, and a record of a
    /// variant with conflicts refers to that run.
    pub fn add(&mut self, shape: Deduction<()>, conflicts: &[Candidate])
        requires
            old(self).wf(),
            old(self).eliminated().len() + conflicts@.len() <= usize::MAX,
        ensures
            final(self).appends(*old(self), shape, conflicts@),
            final(self).wf(),
            final(self).records() == old(self).records().push(with_conflicts(shape, conflicts@)),
            final(self).deduced() == old(self).deduced(),
            final(self).eliminated() == old(self).eliminated() + conflicts@,
    {
        let start = self.eliminated_entries.len();
        let mut i: usize = 0;
        while i < conflicts.len()
            invariant
                i <= conflicts@.len(),
                start == old(self).eliminated_entries@.len(),
                self.eliminated_entries@ == old(self).eliminated_entries@ + conflicts@.subrange(0, i as int),
                self.deductions@ == old(self).deductions@,
                self.deduced_entries@ == old(self).deduced_entries@,
            decreases conflicts@.len() - i,
        {
            self.eliminated_entries.push(conflicts[i]);
            assert(conflicts@.subrange(0, i + 1) =~= conflicts@.subrange(0, i as int).push(conflicts@[i as int]));
            i = i + 1;
        }
        assert(conflicts@.subrange(0, i as int) =~= conflicts@);
        let end = self.eliminated_entries.len();
        self.deductions.push(shape.with_range(IndexRange { start, end }));
        proof {
            lemma_append_read_back(*old(self), *self, shape, conflicts@);
        }
    }
}

/// Reading back what was appended: after an append, the records that were
/// there read back unchanged, and the new last record reads back as the shape
/// that was appended, with exactly the candidates appended with it, in order,
/// as its conflicts.
pub proof fn lemma_append_read_back(before: Deductions, after: Deductions, shape: Deduction<()>, conflicts: Seq<Candidate>)
    requires
        before.wf(),
        after.appends(before, shape, conflicts),
    ensures
        after.wf(),
        after.records() == before.records().push(with_conflicts(shape, conflicts)),
        after.records().len() == before.records().len() + 1,
        forall|i: int| 0 <= i < before.records().len() ==> after.records()[i] == before.records()[i],
        carries_conflicts(shape) ==> after.records().last() == attach(shape, conflicts),
{
    let old_len = before.eliminated_entries@.len();
    let new_elim = after.eliminated_entries@;
    let n = before.deductions@.len();
    assert forall|i: int| 0 <= i < after.deductions@.len() implies #[trigger] range_within(after.deductions@[i], new_elim.len()) by {
        if i < n {
            assert(range_within(before.deductions@[i], old_len));
        }
    }
    assert forall|i: int| 0 <= i < n implies #[trigger] resolve(after.deductions@[i], new_elim) == resolve(before.deductions@[i], before.eliminated_entries@) by {
        assert(range_within(before.deductions@[i], old_len));
        assert(after.deductions@[i] == before.deductions@[i]);
        match range_of(before.deductions@[i]) {
            Some(r) => {
                assert(new_elim.subrange(r.start as int, r.end as int) =~= before.eliminated_entries@.subrange(r.start as int, r.end as int));
            },
            None => {},
        }
    }
    let last = after.deductions@[n as int];
    assert(new_elim.subrange(old_len as int, new_elim.len() as int) =~= conflicts);
    assert(resolve(last, new_elim) == with_conflicts(shape, conflicts));
    assert(after.records() =~= before.records().push(with_conflicts(shape, conflicts)));
}

/// Borrowing iterator over [`Deductions`].
pub struct Iter<'a> {
    deductions: &'a [Deduction<IndexRange>],
    eliminated_entries: &'a [Candidate],
    next_index: usize,
}

impl<'a> Iter<'a> {
    pub closed spec fn wf(&self) -> bool {
        &&& self.next_index <= self.deductions@.len()
        &&& ranges_within(self.deductions@, self.eliminated_entries@.len())
    }

    /// The records not handed out yet, in order.
    pub closed spec fn remaining(&self) -> Seq<Deduction<Seq<Candidate>>> {
        resolve_all(self.deductions@, self.eliminated_entries@, self.next_index as int)
    }

    /// Hands out the next record, if any is left.
    pub fn next(&mut self) -> (r: Option<Deduction<&'a [Candidate]>>)
        requires
            old(self).wf(),
        ensures
            final(self).wf(),
            match r {
                Some(d) => old(self).remaining().len() > 0
                    && d@ == old(self).remaining()[0]
                    && final(self).remaining() == old(self).remaining().drop_first(),
                None => old(self).remaining().len() == 0
                    && final(self).remaining() == old(self).remaining(),
            },
    {
        if self.next_index < self.deductions.len() {
            let stored = self.deductions[self.next_index];
            assert(range_within(self.deductions@[self.next_index as int], self.eliminated_entries@.len()));
            let d = stored.with_slices(self.eliminated_entries);
            self.next_index = self.next_index + 1;
            assert(self.remaining() =~= old(self).remaining().drop_first());
            Some(d)
        } else {
            None
        }
    }
}

/// A fish is classifiable exactly when it spans 2, 3 or 4 positions, and is
/// then an X-Wing, a Swordfish or a Jellyfish according to that number alone,
/// whatever its digit, lines and conflicts.
pub proof fn lemma_fish_strategy(digit: Digit, lines: LineSet, positions: PositionSet, conflicts: Seq<Candidate>)
    ensures
        ({
            let d = Deduction::BasicFish { digit, lines, positions, conflicts };
            &&& classifiable(d) <==> (positions@.len() == 2 || positions@.len() == 3 || positions@.len() == 4)
            &&& classifiable(d) ==> (strategy_of(d) == Strategy::XWing <==> positions@.len() == 2)
            &&& classifiable(d) ==> (strategy_of(d) == Strategy::Swordfish <==> positions@.len() == 3)
            &&& classifiable(d) ==> (strategy_of(d) == Strategy::Jellyfish <==> positions@.len() == 4)
            &&& forall|digit2: Digit, lines2: LineSet, conflicts2: Seq<Candidate>|
                #[trigger] strategy_of(Deduction::BasicFish { digit: digit2, lines: lines2, positions, conflicts: conflicts2 })
                    == strategy_of(d)
        }),
{
}

/// A subset in a row is hidden when the first conflict's column (its position
/// in the row) is one of the subset's positions, and naked otherwise; the
/// number of positions then picks pairs, triples or quads.
pub proof fn lemma_row_subset_strategy(house: House, positions: PositionSet, digits: DigitSet, conflicts: Seq<Candidate>)
    requires
        house.spec_categorize() is Row,
        conflicts.len() > 0,
        2 <= positions@.len() <= 4,
    ensures
        ({
            let d = Deduction::Subsets { house, positions, digits, conflicts };
            let n = positions@.len();
            let inside = positions@.contains(conflicts[0].cell.spec_row_pos());
            &&& classifiable(d)
            &&& inside && n == 2 ==> strategy_of(d) == Strategy::HiddenPairs
            &&& inside && n == 3 ==> strategy_of(d) == Strategy::HiddenTriples
            &&& inside && n == 4 ==> strategy_of(d) == Strategy::HiddenQuads
            &&& !inside && n == 2 ==> strategy_of(d) == Strategy::NakedPairs
            &&& !inside && n == 3 ==> strategy_of(d) == Strategy::NakedTriples
            &&& !inside && n == 4 ==> strategy_of(d) == Strategy::NakedQuads
        }),
{
}

/// Reading a record twice gives the same result: two records read at one
/// index, by `get` or by a pass of `iter`, agree in variant, in every field
/// and in the contents of their conflicts, and so in their strategy.
pub proof fn lemma_read_deterministic<'a, 'b>(
    ledger: Deductions,
    index: int,
    first: Deduction<&'a [Candidate]>,
    second: Deduction<&'b [Candidate]>,
)
    requires
        0 <= index < ledger.records().len(),
        first@ == ledger.records()[index],
        second@ == ledger.records()[index],
    ensures
        first@ == second@,
        classifiable(first@) ==> strategy_of(first@) == strategy_of(second@),
{
}

} // verus!

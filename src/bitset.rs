//! Small sets of board entities (positions, digits, lines), held as bit masks.

use vstd::prelude::*;
use crate::board::{Digit, Line, Position};

verus! {

/// Whether bit `i` of `m` is set.
pub open spec fn bit(m: u32, i: nat) -> bool {
    i < 32 && (m >> (i as u32)) & 1u32 == 1u32
}

/// The indices below `n` whose bit is set.
pub open spec fn members_below(m: u32, n: nat) -> Set<nat> {
    Set::new(|i: nat| i < n && bit(m, i))
}

/// The indices whose bit is set.
pub open spec fn members(m: u32) -> Set<nat> {
    members_below(m, 32)
}

/// How many of the bits below `n` are set.
pub open spec fn count_below(m: u32, n: nat) -> nat
    decreases n,
{
    if n == 0 {
        0
    } else {
        count_below(m, (n - 1) as nat) + if bit(m, (n - 1) as nat) { 1nat } else { 0nat }
    }
}

proof fn lemma_members_below(m: u32, n: nat)
    ensures
        members_below(m, n).finite(),
        members_below(m, n).len() == count_below(m, n),
    decreases n,
{
    if n == 0 {
        assert(members_below(m, 0) =~= Set::empty());
    } else {
        let k = (n - 1) as nat;
        lemma_members_below(m, k);
        if bit(m, k) {
            assert(members_below(m, n) =~= members_below(m, k).insert(k));
        } else {
            assert(members_below(m, n) =~= members_below(m, k));
        }
    }
}

proof fn lemma_members_finite(m: u32)
    ensures
        members(m).finite(),
        members(m).len() == count_below(m, 32),
{
    lemma_members_below(m, 32);
}

fn mask_insert(m: u32, k: u32) -> (r: u32)
    requires
        k < 32,
    ensures
        members(r) == members(m).insert(k as nat),
{
    let r = m | (1u32 << k);
    assert forall|i: nat| #[trigger] members(r).contains(i) == members(m).insert(k as nat).contains(i) by {
        if i < 32 {
            let j = i as u32;
            assert((((m | (1u32 << k)) >> j) & 1u32 == 1u32) == (((m >> j) & 1u32 == 1u32) || j == k))
                by (bit_vector)
                requires
                    k < 32,
                    j < 32,
            ;
        }
    }
    assert(members(r) =~= members(m).insert(k as nat));
    r
}

fn mask_has(m: u32, k: u32) -> (r: bool)
    requires
        k < 32,
    ensures
        r == members(m).contains(k as nat),
{
    (m >> k) & 1u32 == 1u32
}

fn mask_len(m: u32) -> (r: usize)
    ensures
        r == members(m).len(),
        members(m).finite(),
{
    let mut count: usize = 0;
    let mut i: u32 = 0;
    while i < 32
        invariant
            i <= 32,
            count == count_below(m, i as nat),
            count <= i,
        decreases 32 - i,
    {
        if (m >> i) & 1u32 == 1u32 {
            count = count + 1;
        }
        i = i + 1;
    }
    proof { lemma_members_finite(m); }
    count
}

/// A set of positions within one house or line.
#[derive(Debug, Clone, Copy, PartialEq, Eq, Hash)]
pub struct PositionSet {
    mask: u32,
}

impl View for PositionSet {
    type V = Set<nat>;

    closed spec fn view(&self) -> Set<nat> {
        members(self.mask)
    }
}

impl PositionSet {
    pub fn new() -> (r: PositionSet)
        ensures
            r@ == Set::<nat>::empty(),
    {
        assert(members(0) =~= Set::empty()) by {
            assert forall|i: nat| i < 32 implies !bit(0, i) by {
                let j = i as u32;
                assert((0u32 >> j) & 1u32 == 0u32) by (bit_vector);
            }
        }
        PositionSet { mask: 0 }
    }

    pub fn insert(&mut self, p: Position)
        ensures
            final(self)@ == old(self)@.insert(p.id()),
    {
        let k = p.get();
        self.mask = mask_insert(self.mask, k as u32);
    }

    pub fn contains(&self, p: Position) -> (r: bool)
        ensures
            r == self@.contains(p.id()),
    {
        let k = p.get();
        mask_has(self.mask, k as u32)
    }

    pub fn len(&self) -> (r: usize)
        ensures
            r == self@.len(),
            self@.finite(),
    {
        mask_len(self.mask)
    }
}

/// A set of digits.
#[derive(Debug, Clone, Copy, PartialEq, Eq, Hash)]
pub struct DigitSet {
    mask: u32,
}

impl View for DigitSet {
    type V = Set<nat>;

    closed spec fn view(&self) -> Set<nat> {
        members(self.mask)
    }
}

impl DigitSet {
    pub fn new() -> (r: DigitSet)
        ensures
            r@ == Set::<nat>::empty(),
    {
        assert(members(0) =~= Set::empty()) by {
            assert forall|i: nat| i < 32 implies !bit(0, i) by {
                let j = i as u32;
                assert((0u32 >> j) & 1u32 == 0u32) by (bit_vector);
            }
        }
        DigitSet { mask: 0 }
    }

    pub fn insert(&mut self, d: Digit)
        ensures
            final(self)@ == old(self)@.insert(d.id()),
    {
        let k = d.get();
        self.mask = mask_insert(self.mask, k as u32);
    }

    pub fn contains(&self, d: Digit) -> (r: bool)
        ensures
            r == self@.contains(d.id()),
    {
        let k = d.get();
        mask_has(self.mask, k as u32)
    }

    pub fn len(&self) -> (r: usize)
        ensures
            r == self@.len(),
            self@.finite(),
    {
        mask_len(self.mask)
    }
}

/// A set of lines.
#[derive(Debug, Clone, Copy, PartialEq, Eq, Hash)]
pub struct LineSet {
    mask: u32,
}

impl View for LineSet {
    type V = Set<nat>;

    closed spec fn view(&self) -> Set<nat> {
        members(self.mask)
    }
}

impl LineSet {
    pub fn new() -> (r: LineSet)
        ensures
            r@ == Set::<nat>::empty(),
    {
        assert(members(0) =~= Set::empty()) by {
            assert forall|i: nat| i < 32 implies !bit(0, i) by {
                let j = i as u32;
                assert((0u32 >> j) & 1u32 == 0u32) by (bit_vector);
            }
        }
        LineSet { mask: 0 }
    }

    pub fn insert(&mut self, l: Line)
        ensures
            final(self)@ == old(self)@.insert(l.id()),
    {
        let k = l.get();
        self.mask = mask_insert(self.mask, k as u32);
    }

    pub fn contains(&self, l: Line) -> (r: bool)
        ensures
            r == self@.contains(l.id()),
    {
        let k = l.get();
        mask_has(self.mask, k as u32)
    }

    pub fn len(&self) -> (r: usize)
        ensures
            r == self@.len(),
            self@.finite(),
    {
        mask_len(self.mask)
    }
}

} // verus!

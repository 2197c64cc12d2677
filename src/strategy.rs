//! The named solving rules that a deduction can come from.

use vstd::prelude::*;

verus! {

/// A named deduction rule.
#[derive(Debug, Clone, Copy, PartialEq, Eq, Hash, Structural)]
pub enum Strategy {
    NakedSingles,
    HiddenSingles,
    LockedCandidates,
    NakedPairs,
    NakedTriples,
    NakedQuads,
    HiddenPairs,
    HiddenTriples,
    HiddenQuads,
    XWing,
    Swordfish,
    Jellyfish,
}

} // verus!

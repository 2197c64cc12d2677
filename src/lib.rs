//! Records of sudoku deduction steps: a compact ledger of strategy results and
//! the classification of each record into the strategy that produced it.

pub mod board;
pub mod bitset;
pub mod strategy;
pub mod deduction;

//! The minimal board entities that deduction records refer to.

use vstd::prelude::*;

verus! {

/// A cell of the 9x9 grid, numbered row by row from 0 to 80.
#[derive(Debug, Clone, Copy, PartialEq, Eq, Hash)]
pub struct Cell {
    index: u8,
}

impl Cell {
    #[verifier::type_invariant]
    spec fn inv(self) -> bool {
        self.index < 81
    }

    /// The number of the cell, row by row.
    pub closed spec fn id(self) -> nat {
        self.index as nat
    }

    pub fn new(index: u8) -> (r: Cell)
        requires
            index < 81,
        ensures
            r.id() == index,
    {
        Cell { index }
    }

    pub fn get(self) -> (r: u8)
        ensures
            r == self.id(),
            r < 81,
    {
        proof { use_type_invariant(&self); }
        self.index
    }

    /// Position of the cell within its row, i.e. its column number.
    pub open spec fn spec_row_pos(self) -> nat {
        self.id() % 9
    }

    /// Position of the cell within its column, i.e. its row number.
    pub open spec fn spec_col_pos(self) -> nat {
        self.id() / 9
    }

    /// Position of the cell within its block, row by row inside the block.
    pub open spec fn spec_block_pos(self) -> nat {
        (self.id() / 9) % 3 * 3 + (self.id() % 9) % 3
    }

    pub fn row_pos(self) -> (r: Position)
        ensures
            r.id() == self.spec_row_pos(),
    {
        let i = self.get();
        Position::new(i % 9)
    }

    pub fn col_pos(self) -> (r: Position)
        ensures
            r.id() == self.spec_col_pos(),
    {
        let i = self.get();
        Position::new(i / 9)
    }

    pub fn block_pos(self) -> (r: Position)
        ensures
            r.id() == self.spec_block_pos(),
    {
        let i = self.get();
        Position::new((i / 9) % 3 * 3 + (i % 9) % 3)
    }
}

/// A digit from 1 to 9.
#[derive(Debug, Clone, Copy, PartialEq, Eq, Hash)]
pub struct Digit {
    value: u8,
}

impl Digit {
    #[verifier::type_invariant]
    spec fn inv(self) -> bool {
        1 <= self.value <= 9
    }

    pub closed spec fn id(self) -> nat {
        self.value as nat
    }

    pub fn new(value: u8) -> (r: Digit)
        requires
            1 <= value <= 9,
        ensures
            r.id() == value,
    {
        Digit { value }
    }

    pub fn get(self) -> (r: u8)
        ensures
            r == self.id(),
            1 <= r <= 9,
    {
        proof { use_type_invariant(&self); }
        self.value
    }
}

/// A digit that may stand in a cell.
#[derive(Debug, Clone, Copy, PartialEq, Eq, Hash)]
pub struct Candidate {
    pub cell: Cell,
    pub digit: Digit,
}

impl Candidate {
    pub fn new(cell: Cell, digit: Digit) -> (r: Candidate)
        ensures
            r == (Candidate { cell, digit }),
    {
        Candidate { cell, digit }
    }
}

/// The index of a cell within a house or a line, from 0 to 8.
#[derive(Debug, Clone, Copy, PartialEq, Eq, Hash)]
pub struct Position {
    index: u8,
}

impl Position {
    #[verifier::type_invariant]
    spec fn inv(self) -> bool {
        self.index < 9
    }

    pub closed spec fn id(self) -> nat {
        self.index as nat
    }

    pub fn new(index: u8) -> (r: Position)
        requires
            index < 9,
        ensures
            r.id() == index,
    {
        Position { index }
    }

    pub fn get(self) -> (r: u8)
        ensures
            r == self.id(),
            r < 9,
    {
        proof { use_type_invariant(&self); }
        self.index
    }
}

/// A row, numbered from 0 to 8.
#[derive(Debug, Clone, Copy, PartialEq, Eq, Hash)]
pub struct Row(pub u8);

/// A column, numbered from 0 to 8.
#[derive(Debug, Clone, Copy, PartialEq, Eq, Hash)]
pub struct Col(pub u8);

/// A block, numbered from 0 to 8, row by row.
#[derive(Debug, Clone, Copy, PartialEq, Eq, Hash)]
pub struct Block(pub u8);

/// A house sorted into its kind.
#[derive(Debug, Clone, Copy, PartialEq, Eq, Hash)]
pub enum HouseType {
    Row(Row),
    Col(Col),
    Block(Block),
}

/// One of the 27 houses: rows 0 to 8, then columns, then blocks.
#[derive(Debug, Clone, Copy, PartialEq, Eq, Hash)]
pub struct House {
    index: u8,
}

impl House {
    #[verifier::type_invariant]
    spec fn inv(self) -> bool {
        self.index < 27
    }

    pub closed spec fn id(self) -> nat {
        self.index as nat
    }

    pub fn new(index: u8) -> (r: House)
        requires
            index < 27,
        ensures
            r.id() == index,
    {
        House { index }
    }

    pub fn row(row: u8) -> (r: House)
        requires
            row < 9,
        ensures
            r.id() == row,
    {
        House { index: row }
    }

    pub fn col(col: u8) -> (r: House)
        requires
            col < 9,
        ensures
            r.id() == 9 + col,
    {
        House { index: 9 + col }
    }

    pub fn block(block: u8) -> (r: House)
        requires
            block < 9,
        ensures
            r.id() == 18 + block,
    {
        House { index: 18 + block }
    }

    /// The kind of the house and its number among the houses of that kind.
    pub open spec fn spec_categorize(self) -> HouseType {
        if self.id() < 9 {
            HouseType::Row(Row(self.id() as u8))
        } else if self.id() < 18 {
            HouseType::Col(Col((self.id() - 9) as u8))
        } else {
            HouseType::Block(Block((self.id() - 18) as u8))
        }
    }

    pub fn categorize(self) -> (r: HouseType)
        ensures
            r == self.spec_categorize(),
    {
        proof { use_type_invariant(&self); }
        if self.index < 9 {
            HouseType::Row(Row(self.index))
        } else if self.index < 18 {
            HouseType::Col(Col(self.index - 9))
        } else {
            HouseType::Block(Block(self.index - 18))
        }
    }
}

/// A row or a column: rows 0 to 8, then columns 9 to 17.
#[derive(Debug, Clone, Copy, PartialEq, Eq, Hash)]
pub struct Line {
    index: u8,
}

impl Line {
    #[verifier::type_invariant]
    spec fn inv(self) -> bool {
        self.index < 18
    }

    pub closed spec fn id(self) -> nat {
        self.index as nat
    }

    pub fn new(index: u8) -> (r: Line)
        requires
            index < 18,
        ensures
            r.id() == index,
    {
        Line { index }
    }

    pub fn get(self) -> (r: u8)
        ensures
            r == self.id(),
            r < 18,
    {
        proof { use_type_invariant(&self); }
        self.index
    }
}

/// The three cells where a block meets a line, numbered from 0 to 53.
#[derive(Debug, Clone, Copy, PartialEq, Eq, Hash)]
pub struct MiniLine {
    index: u8,
}

impl MiniLine {
    #[verifier::type_invariant]
    spec fn inv(self) -> bool {
        self.index < 54
    }

    pub closed spec fn id(self) -> nat {
        self.index as nat
    }

    pub fn new(index: u8) -> (r: MiniLine)
        requires
            index < 54,
        ensures
            r.id() == index,
    {
        MiniLine { index }
    }
}

} // verus!

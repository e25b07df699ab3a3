//! Where the rows of a four-row character display start in the memory of
//! its controller.

use vstd::prelude::*;
use crate::buffer::ROWS;

verus! {

/// A row of the display.
#[derive(Clone, Copy, Debug, PartialEq, Eq, Structural)]
pub enum LcdRow {
    First,
    Second,
    Third,
    Fourth,
}

impl LcdRow {
    /// The row's number, counted from 0 at the top.
    pub open spec fn index_of(self) -> int {
        match self {
            LcdRow::First => 0,
            LcdRow::Second => 1,
            LcdRow::Third => 2,
            LcdRow::Fourth => 3,
        }
    }

    /// The address of the row's first character. Rows 0 and 2 share one
    /// line of the controller's memory, rows 1 and 3 the other, twenty
    /// columns apart.
    pub open spec fn address_of(self) -> u8 {
        match self {
            LcdRow::First => 0x00,
            LcdRow::Second => 0x40,
            LcdRow::Third => 0x14,
            LcdRow::Fourth => 0x54,
        }
    }

    /// The row with the given number, if the display has it.
    pub fn from_index(index: usize) -> (row: Option<LcdRow>)
        ensures
            row is Some <==> index < ROWS,
            row matches Some(r) ==> r.index_of() == index,
    {
        if index == 0 {
            Some(LcdRow::First)
        } else if index == 1 {
            Some(LcdRow::Second)
        } else if index == 2 {
            Some(LcdRow::Third)
        } else if index == 3 {
            Some(LcdRow::Fourth)
        } else {
            None
        }
    }

    /// The row's number, counted from 0 at the top.
    pub fn index(self) -> (index: usize)
        ensures
            index == self.index_of(),
            index < ROWS,
    {
        match self {
            LcdRow::First => 0,
            LcdRow::Second => 1,
            LcdRow::Third => 2,
            LcdRow::Fourth => 3,
        }
    }

    /// The address to set the cursor to before the row is written.
    pub fn address(self) -> (address: u8)
        ensures
            address == self.address_of(),
    {
        match self {
            LcdRow::First => 0x00,
            LcdRow::Second => 0x40,
            LcdRow::Third => 0x14,
            LcdRow::Fourth => 0x54,
        }
    }
}

/// No two rows start at the same address, and rows of twenty columns do
/// not run into each other.
pub proof fn law_rows_do_not_overlap(a: LcdRow, b: LcdRow)
    requires
        a != b,
    ensures
        a.address_of() + 20 <= b.address_of() || b.address_of() + 20 <= a.address_of(),
{
}

} // verus!

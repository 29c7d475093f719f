//! The logical board: a fixed-shape grid of cells.

use vstd::prelude::*;

use crate::BOARD_SIZE;

verus! {

/// Occupancy of one board intersection.
#[derive(Clone, Copy, Debug, PartialEq, Eq, Structural)]
pub enum Cell {
    Empty,
    Black,
    White,
}

/// The logical board: `BOARD_SIZE` rows of `BOARD_SIZE` cells, indexed
/// `[row][col]`. The shape never changes after construction; cell contents
/// are left to the game-logic layer, which mutates `array` directly.
pub struct Board {
    pub array: Vec<Vec<Cell>>,
}

impl Board {
    /// The cell stored at row `r`, column `c`.
    pub open spec fn cell_at(self, r: int, c: int) -> Cell {
        self.array@[r]@[c]
    }

    /// Shape invariant: exactly `BOARD_SIZE` rows of `BOARD_SIZE` cells each.
    pub open spec fn wf(self) -> bool {
        &&& self.array@.len() == BOARD_SIZE
        &&& forall|r: int|
            0 <= r < BOARD_SIZE ==> (#[trigger] self.array@[r])@.len() == BOARD_SIZE
    }

    /// A fresh board is well formed and every one of its cells is `Empty`.
    pub fn new() -> (board: Self)
        ensures
            board.wf(),
            forall|r: int, c: int|
                0 <= r < BOARD_SIZE && 0 <= c < BOARD_SIZE ==> #[trigger] board.cell_at(r, c)
                    == Cell::Empty,
    {
        let mut array: Vec<Vec<Cell>> = Vec::new();
        while array.len() < BOARD_SIZE
            invariant
                array@.len() <= BOARD_SIZE,
                forall|r: int|
                    0 <= r < array@.len() ==> (#[trigger] array@[r])@.len() == BOARD_SIZE,
                forall|r: int, c: int|
                    0 <= r < array@.len() && 0 <= c < BOARD_SIZE ==> array@[r]@[c] == Cell::Empty,
            decreases BOARD_SIZE - array@.len(),
        {
            let mut row: Vec<Cell> = Vec::new();
            while row.len() < BOARD_SIZE
                invariant
                    row@.len() <= BOARD_SIZE,
                    forall|c: int| 0 <= c < row@.len() ==> row@[c] == Cell::Empty,
                decreases BOARD_SIZE - row@.len(),
            {
                row.push(Cell::Empty);
            }
            array.push(row);
        }
        Board { array }
    }

    /// Read one cell.
    pub fn get(&self, row: usize, col: usize) -> (cell: Cell)
        requires
            self.wf(),
            row < BOARD_SIZE,
            col < BOARD_SIZE,
        ensures
            cell == self.cell_at(row as int, col as int),
    {
        self.array[row][col]
    }
}

} // verus!

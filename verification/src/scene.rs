//! The scene state: a fixed 32x32 grid of coloured-tile cells, addressed
//! by `x + y * WIDTH`, written by the animation effects once per tick and
//! read by the compositor once per tick.

use vstd::prelude::*;

use crate::ColouredTile;
use crate::GRID_CELLS;
use crate::HEIGHT;
use crate::WIDTH;

verus! {

/// A fixed-size grid of coloured-tile cells.
pub struct TileBuffer {
    cells: Vec<ColouredTile>,
}

impl View for TileBuffer {
    type V = Seq<ColouredTile>;

    closed spec fn view(&self) -> Seq<ColouredTile> {
        self.cells@
    }
}

impl TileBuffer {
    /// The grid always holds exactly one cell per grid position.
    pub open spec fn wf(&self) -> bool {
        self@.len() == GRID_CELLS
    }

    /// Builds a grid with every cell set to `fill`.
    pub fn new(fill: ColouredTile) -> (b: TileBuffer)
        ensures
            b.wf(),
            forall|i: int| 0 <= i < GRID_CELLS ==> b@[i] == fill,
    {
        let mut cells: Vec<ColouredTile> = Vec::new();
        let mut i: usize = 0;
        while i < GRID_CELLS
            invariant
                i <= GRID_CELLS,
                cells@.len() == i,
                forall|j: int| 0 <= j < i ==> cells@[j] == fill,
            decreases GRID_CELLS - i,
        {
            cells.push(fill);
            i = i + 1;
        }
        TileBuffer { cells }
    }

    /// The cell at grid position `(x, y)`.
    pub fn get(&self, x: usize, y: usize) -> (c: ColouredTile)
        requires
            self.wf(),
            x < WIDTH,
            y < HEIGHT,
        ensures
            c == self@[x + y * WIDTH],
    {
        self.cells[x + y * WIDTH]
    }

    /// Replaces the cell at grid position `(x, y)`, leaving every other
    /// cell unchanged.
    pub fn set(&mut self, x: usize, y: usize, c: ColouredTile)
        requires
            old(self).wf(),
            x < WIDTH,
            y < HEIGHT,
        ensures
            final(self).wf(),
            final(self)@ == old(self)@.update(x + y * (WIDTH as int), c),
    {
        self.cells.set(x + y * WIDTH, c);
    }

    /// Resets every cell to `fill`.
    pub fn clear(&mut self, fill: ColouredTile)
        requires
            old(self).wf(),
        ensures
            final(self).wf(),
            forall|i: int| 0 <= i < GRID_CELLS ==> final(self)@[i] == fill,
    {
        let mut i: usize = 0;
        while i < GRID_CELLS
            invariant
                i <= GRID_CELLS,
                self@.len() == GRID_CELLS,
                forall|j: int| 0 <= j < i ==> self@[j] == fill,
            decreases GRID_CELLS - i,
        {
            self.cells.set(i, fill);
            i = i + 1;
        }
    }
}

} // verus!

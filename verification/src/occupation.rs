//! A coarse occupancy mask of the grid, used while dragging a component to
//! preview whether it would fit.  It tracks only whether each cell is taken,
//! not what occupies it.

use vstd::prelude::*;

verus! {

/// Whether one cell is taken.
#[derive(Clone, Copy, Debug, PartialEq, Eq, Structural)]
pub enum CellInUse {
    Occupied,
    Free,
}

/// A grid of per-cell occupancy flags, indexed like the component grid.
#[derive(Debug)]
pub struct OccupationGrid(pub Vec<Vec<CellInUse>>);

impl OccupationGrid {
    /// Number of columns.
    pub open spec fn width(self) -> int {
        self.0@.len() as int
    }

    /// Number of cells per column.
    pub open spec fn height(self) -> int {
        if self.0@.len() > 0 {
            self.0@[0]@.len() as int
        } else {
            0
        }
    }

    /// The grid is rectangular.
    pub open spec fn wf(self) -> bool {
        forall|i: int| 0 <= i < self.width() ==> (#[trigger] self.0@[i]@).len() == self.height()
    }

    /// The flag at `(x, y)`.
    pub open spec fn cell_at(self, x: int, y: int) -> CellInUse {
        self.0@[x]@[y]
    }

    /// Whether `(x, y)` lies on the grid.
    pub open spec fn in_bounds(self, x: int, y: int) -> bool {
        0 <= x < self.width() && 0 <= y < self.height()
    }

    /// An all-free mask for a grid of `size[0]` by `size[1]` cells.
    pub fn empty_grid_from_size(size: &[usize; 2]) -> (r: OccupationGrid)
        ensures
            r.wf(),
            r.width() == size[0],
            size[0] > 0 ==> r.height() == size[1],
            forall|x: int, y: int|
                r.in_bounds(x, y) ==> #[trigger] r.cell_at(x, y) == CellInUse::Free,
    {
        let mut grid: Vec<Vec<CellInUse>> = Vec::new();
        let mut x: usize = 0;
        while x < size[0]
            invariant
                x <= size[0],
                grid@.len() == x,
                forall|i: int| 0 <= i < x ==> (#[trigger] grid@[i]@).len() == size[1],
                forall|i: int, j: int|
                    0 <= i < x && 0 <= j < size[1] ==> #[trigger] grid@[i]@[j] == CellInUse::Free,
            decreases size[0] - x,
        {
            let mut row: Vec<CellInUse> = Vec::new();
            let mut y: usize = 0;
            while y < size[1]
                invariant
                    y <= size[1],
                    row@.len() == y,
                    forall|j: int| 0 <= j < y ==> #[trigger] row@[j] == CellInUse::Free,
                decreases size[1] - y,
            {
                row.push(CellInUse::Free);
                y = y + 1;
            }
            grid.push(row);
            x = x + 1;
        }
        OccupationGrid(grid)
    }

    /// Set every cell of the footprint at `place_position` of `size` to
    /// `state`; parts of the footprint that fall off the grid are skipped.
    pub fn fill(&mut self, place_position: &[usize; 2], size: &[usize; 2], state: CellInUse)
        requires
            old(self).wf(),
            place_position[0] + size[0] <= usize::MAX,
            place_position[1] + size[1] <= usize::MAX,
        ensures
            final(self).wf(),
            final(self).width() == old(self).width(),
            final(self).height() == old(self).height(),
            forall|x: int, y: int|
                old(self).in_bounds(x, y) && place_position[0] <= x < place_position[0] + size[0]
                    && place_position[1] <= y < place_position[1] + size[1]
                    ==> #[trigger] final(self).cell_at(x, y) == state,
            forall|x: int, y: int|
                old(self).in_bounds(x, y) && !(place_position[0] <= x < place_position[0] + size[0]
                    && place_position[1] <= y < place_position[1] + size[1])
                    ==> #[trigger] final(self).cell_at(x, y) == old(self).cell_at(x, y),
    {
        let ghost px = place_position[0] as int;
        let ghost py = place_position[1] as int;
        let ghost sx = size[0] as int;
        let ghost sy = size[1] as int;
        let mut i: usize = 0;
        while i < size[0]
            invariant
                old(self).wf(),
                self.wf(),
                self.width() == old(self).width(),
                self.height() == old(self).height(),
                px == place_position[0] as int,
                py == place_position[1] as int,
                sx == size[0] as int,
                sy == size[1] as int,
                px + sx <= usize::MAX,
                py + sy <= usize::MAX,
                i <= size[0],
                forall|a: int, b: int|
                    old(self).in_bounds(a, b) && px <= a < px + i && py <= b < py + sy
                        ==> #[trigger] self.cell_at(a, b) == state,
                forall|a: int, b: int|
                    old(self).in_bounds(a, b) && !(px <= a < px + i && py <= b < py + sy)
                        ==> #[trigger] self.cell_at(a, b) == old(self).cell_at(a, b),
            decreases size[0] - i,
        {
            let x = place_position[0] + i;
            if x < self.0.len() {
                let row_len = self.0[x].len();
                let mut j: usize = 0;
                while j < size[1]
                    invariant
                        old(self).wf(),
                        self.wf(),
                        self.width() == old(self).width(),
                        self.height() == old(self).height(),
                        px == place_position[0] as int,
                        py == place_position[1] as int,
                        sx == size[0] as int,
                        sy == size[1] as int,
                        px + sx <= usize::MAX,
                        py + sy <= usize::MAX,
                        i < size[0],
                        x == place_position[0] + i,
                        x < self.width(),
                        row_len == self.height(),
                        j <= size[1],
                        forall|a: int, b: int|
                            old(self).in_bounds(a, b) && px <= a < px + i && py <= b < py + sy
                                ==> #[trigger] self.cell_at(a, b) == state,
                        forall|b: int|
                            old(self).in_bounds(x as int, b) && py <= b < py + j
                                ==> #[trigger] self.cell_at(x as int, b) == state,
                        forall|a: int, b: int|
                            old(self).in_bounds(a, b) && !(px <= a < px + i && py <= b < py + sy)
                                && !(a == x && py <= b < py + j) ==> #[trigger] self.cell_at(a, b)
                                == old(self).cell_at(a, b),
                    decreases size[1] - j,
                {
                    let y = place_position[1] + j;
                    if y < row_len {
                        let ghost before = *self;
                        self.0[x][y] = state;
                        proof {
                            assert(self.0@ == before.0@.update(x as int, self.0@[x as int]));
                            assert(self.0@[x as int]@ == before.0@[x as int]@.update(
                                y as int,
                                self.cell_at(x as int, y as int),
                            ));
                            assert(forall|a: int, b: int|
                                0 <= a < self.width() && 0 <= b < self.height() && !(a == x && b
                                    == y) ==> #[trigger] self.cell_at(a, b) == before.cell_at(
                                    a,
                                    b,
                                ));
                        }
                    }
                    j = j + 1;
                }
            }
            i = i + 1;
        }
    }

    /// True exactly when the whole footprint lies on the grid and every
    /// covered cell is free.
    pub fn can_fit(&self, place_position: &[usize; 2], size: &[usize; 2]) -> (r: bool)
        requires
            self.wf(),
        ensures
            r == ({
                &&& place_position[0] + size[0] <= self.width()
                &&& place_position[1] + size[1] <= self.height()
                &&& forall|x: int, y: int|
                    place_position[0] <= x < place_position[0] + size[0] && place_position[1] <= y
                        < place_position[1] + size[1] ==> #[trigger] self.cell_at(x, y)
                        == CellInUse::Free
            }),
    {
        let ghost px = place_position[0] as int;
        let ghost py = place_position[1] as int;
        let ghost sx = size[0] as int;
        let ghost sy = size[1] as int;
        let w = self.0.len();
        let h = if w > 0 {
            self.0[0].len()
        } else {
            0
        };
        if !(place_position[0] <= w && size[0] <= w - place_position[0]) {
            return false;
        }
        if !(place_position[1] <= h && size[1] <= h - place_position[1]) {
            return false;
        }
        let end_x = place_position[0] + size[0];
        let end_y = place_position[1] + size[1];
        let mut x: usize = place_position[0];
        while x < end_x
            invariant
                self.wf(),
                px == place_position[0] as int,
                py == place_position[1] as int,
                end_x == place_position[0] + size[0],
                end_y == place_position[1] + size[1],
                end_x <= self.width(),
                end_y <= self.height(),
                place_position[0] <= x <= end_x,
                forall|a: int, b: int|
                    px <= a < x && py <= b < end_y ==> #[trigger] self.cell_at(a, b)
                        == CellInUse::Free,
            decreases end_x - x,
        {
            let mut y: usize = place_position[1];
            while y < end_y
                invariant
                    self.wf(),
                    px == place_position[0] as int,
                    py == place_position[1] as int,
                    end_x == place_position[0] + size[0],
                    end_y == place_position[1] + size[1],
                    end_x <= self.width(),
                    end_y <= self.height(),
                    place_position[0] <= x < end_x,
                    place_position[1] <= y <= end_y,
                    forall|a: int, b: int|
                        px <= a < x && py <= b < end_y ==> #[trigger] self.cell_at(a, b)
                            == CellInUse::Free,
                    forall|b: int|
                        py <= b < y ==> #[trigger] self.cell_at(x as int, b) == CellInUse::Free,
                decreases end_y - y,
            {
                let c = self.0[x][y];
                if matches!(c, CellInUse::Occupied) {
                    proof {
                        assert(self.cell_at(x as int, y as int) == CellInUse::Occupied);
                    }
                    return false;
                }
                y = y + 1;
            }
            x = x + 1;
        }
        true
    }
}

} // verus!

//! The 2D grid of placed components.
//!
//! A multi-cell component occupies a rectangular footprint: exactly one cell
//! (the origin) holds the component's data, and every other covered cell
//! holds a back-reference to the origin, so that any covered cell resolves
//! to its owner in one step.

use vstd::prelude::*;

use crate::component::Component;
use crate::component::DummyComponent;

verus! {

/// One grid cell: empty, covered by a component whose origin is elsewhere,
/// or the origin cell holding the component itself.
#[derive(Clone, Copy, Debug)]
pub enum CellState {
    /// An empty cell.
    Empty,
    /// A covered cell; the coordinates point at the owning origin cell.
    Reference([usize; 2]),
    /// The origin cell of a placed component.
    Real(Component),
}

/// The rectangular grid of cells, indexed `grid[x][y]`.
#[derive(Debug)]
pub struct ComponentGrid {
    pub grid: Vec<Vec<CellState>>,
}

/// Whether `(x, y)` lies in the rectangle of size `(sx, sy)` whose lowest
/// corner is `(px, py)`.
pub open spec fn in_footprint(px: int, py: int, sx: int, sy: int, x: int, y: int) -> bool {
    px <= x < px + sx && py <= y < py + sy
}

impl ComponentGrid {
    /// Number of columns.
    pub open spec fn width(self) -> int {
        self.grid@.len() as int
    }

    /// Number of cells per column.
    pub open spec fn height(self) -> int {
        if self.grid@.len() > 0 {
            self.grid@[0]@.len() as int
        } else {
            0
        }
    }

    /// The grid is rectangular.
    pub open spec fn wf(self) -> bool {
        forall|i: int| 0 <= i < self.width() ==> (#[trigger] self.grid@[i]@).len() == self.height()
    }

    /// The cell at `(x, y)`.
    pub open spec fn cell_at(self, x: int, y: int) -> CellState {
        self.grid@[x]@[y]
    }

    /// Whether `(x, y)` lies on the grid.
    pub open spec fn in_bounds(self, x: int, y: int) -> bool {
        0 <= x < self.width() && 0 <= y < self.height()
    }

    /// Whether the whole `(sx, sy)` footprint at `(px, py)` lies on the
    /// grid.
    pub open spec fn footprint_in_bounds(self, px: int, py: int, sx: int, sy: int) -> bool {
        px >= 0 && py >= 0 && px + sx <= self.width() && py + sy <= self.height()
    }

    /// What `can_fit` decides: the whole footprint lies on the grid and
    /// every covered cell is empty.
    pub open spec fn spec_can_fit(self, px: int, py: int, sx: int, sy: int) -> bool {
        &&& self.footprint_in_bounds(px, py, sx, sy)
        &&& forall|x: int, y: int|
            in_footprint(px, py, sx, sy, x, y) ==> (#[trigger] self.cell_at(x, y)) is Empty
    }

    /// A grid of `width` by `height` empty cells.
    pub fn new(width: usize, height: usize) -> (r: ComponentGrid)
        ensures
            r.wf(),
            r.width() == width,
            width > 0 ==> r.height() == height,
            forall|x: int, y: int| r.in_bounds(x, y) ==> (#[trigger] r.cell_at(x, y)) is Empty,
    {
        let mut grid: Vec<Vec<CellState>> = Vec::new();
        let mut x: usize = 0;
        while x < width
            invariant
                x <= width,
                grid@.len() == x,
                forall|i: int| 0 <= i < x ==> (#[trigger] grid@[i]@).len() == height,
                forall|i: int, j: int|
                    0 <= i < x && 0 <= j < height ==> (#[trigger] grid@[i]@[j]) is Empty,
            decreases width - x,
        {
            let mut row: Vec<CellState> = Vec::new();
            let mut y: usize = 0;
            while y < height
                invariant
                    y <= height,
                    row@.len() == y,
                    forall|j: int| 0 <= j < y ==> (#[trigger] row@[j]) is Empty,
                decreases height - y,
            {
                row.push(CellState::Empty);
                y = y + 1;
            }
            grid.push(row);
            x = x + 1;
        }
        ComponentGrid { grid }
    }

    /// The raw cell at `position`, without following a `Reference`;
    /// `None` off the grid.
    pub fn fetch(&self, position: &[usize; 2]) -> (r: Option<CellState>)
        requires
            self.wf(),
        ensures
            r is Some <==> self.in_bounds(position[0] as int, position[1] as int),
            r matches Some(c) ==> c == self.cell_at(position[0] as int, position[1] as int),
    {
        if position[0] < self.grid.len() {
            let row_len = self.grid[position[0]].len();
            if position[1] < row_len {
                return Some(self.grid[position[0]][position[1]]);
            }
        }
        None
    }

    /// Bounds-plus-vacancy check for a placement request: true exactly when
    /// the whole footprint lies on the grid and every covered cell is empty.
    /// No side effects.
    pub fn can_fit(&self, position: &[usize; 2], size: &[usize; 2]) -> (r: bool)
        requires
            self.wf(),
        ensures
            r == self.spec_can_fit(
                position[0] as int,
                position[1] as int,
                size[0] as int,
                size[1] as int,
            ),
    {
        let ghost px = position[0] as int;
        let ghost py = position[1] as int;
        let ghost sx = size[0] as int;
        let ghost sy = size[1] as int;
        let w = self.grid.len();
        let h = if w > 0 {
            self.grid[0].len()
        } else {
            0
        };
        if size[0] == 0 || size[1] == 0 {
            // An empty footprint covers no cell; it fits exactly when its
            // corner arithmetic stays on the grid.
            let fits_x = position[0] <= w && size[0] <= w - position[0];
            let fits_y = position[1] <= h && size[1] <= h - position[1];
            return fits_x && fits_y;
        }
        let end_x = match position[0].checked_add(size[0]) {
            Some(e) => e,
            None => {
                return false;
            },
        };
        let end_y = match position[1].checked_add(size[1]) {
            Some(e) => e,
            None => {
                return false;
            },
        };
        if end_x > w {
            return false;
        }
        if end_y > h {
            return false;
        }
        let mut x: usize = position[0];
        while x < end_x
            invariant
                self.wf(),
                px == position[0] as int,
                py == position[1] as int,
                sx == size[0] as int,
                sy == size[1] as int,
                position[0] <= x <= end_x,
                end_x == px + sx,
                end_y == py + sy,
                end_x <= self.width(),
                end_y <= self.height(),
                forall|a: int, b: int|
                    px <= a < x && py <= b < end_y ==> (#[trigger] self.cell_at(a, b)) is Empty,
            decreases end_x - x,
        {
            let mut y: usize = position[1];
            while y < end_y
                invariant
                    self.wf(),
                    px == position[0] as int,
                    py == position[1] as int,
                    sx == size[0] as int,
                    sy == size[1] as int,
                    end_x == px + sx,
                    end_y == py + sy,
                    position[0] <= x < end_x,
                    position[1] <= y <= end_y,
                    end_x <= self.width(),
                    end_y <= self.height(),
                    forall|a: int, b: int|
                        px <= a < x && py <= b < end_y ==> (#[trigger] self.cell_at(a, b)) is Empty,
                    forall|b: int|
                        py <= b < y ==> (#[trigger] self.cell_at(x as int, b)) is Empty,
                decreases end_y - y,
            {
                let occupied = match self.grid[x][y] {
                    CellState::Empty => false,
                    CellState::Reference(_) => true,
                    CellState::Real(_) => true,
                };
                if occupied {
                    proof {
                        assert(in_footprint(px, py, sx, sy, x as int, y as int));
                        assert(!(self.cell_at(x as int, y as int) is Empty));
                    }
                    return false;
                }
                y = y + 1;
            }
            x = x + 1;
        }
        true
    }

    /// Write a component into the grid: its data at `position`, a
    /// back-reference in every other covered cell.  Performs no overlap
    /// check; callers verify `can_fit` first.
    pub fn place_component(&mut self, component: Component, position: &[usize; 2])
        requires
            old(self).wf(),
            old(self).footprint_in_bounds(
                position[0] as int,
                position[1] as int,
                component.spec_dummy().spec_grid_size().0,
                component.spec_dummy().spec_grid_size().1,
            ),
        ensures
            final(self).wf(),
            final(self).width() == old(self).width(),
            final(self).height() == old(self).height(),
            ({
                let px = position[0] as int;
                let py = position[1] as int;
                let sx = component.spec_dummy().spec_grid_size().0;
                let sy = component.spec_dummy().spec_grid_size().1;
                &&& final(self).cell_at(px, py) == CellState::Real(component)
                &&& forall|x: int, y: int|
                    in_footprint(px, py, sx, sy, x, y) && !(x == px && y == py) ==> ((
                    #[trigger] final(self).cell_at(x, y)) matches CellState::Reference(p) && p[0]
                        == px && p[1] == py)
                &&& forall|x: int, y: int|
                    old(self).in_bounds(x, y) && !in_footprint(px, py, sx, sy, x, y)
                        ==> #[trigger] final(self).cell_at(x, y) == old(self).cell_at(x, y)
            }),
    {
        let dummy = component.dummy();
        let size = dummy.get_grid_size();
        let ghost px = position[0] as int;
        let ghost py = position[1] as int;
        let ghost sx = component.spec_dummy().spec_grid_size().0;
        let ghost sy = component.spec_dummy().spec_grid_size().1;
        let w = self.grid.len();
        let h = if w > 0 {
            self.grid[0].len()
        } else {
            0
        };
        proof {
            assert(position[0] + size[0] <= w && position[1] + size[1] <= h);
        }
        let end_x = position[0] + size[0];
        let end_y = position[1] + size[1];
        let mut first = true;
        let mut x: usize = position[0];
        while x < end_x
            invariant
                old(self).wf(),
                self.wf(),
                self.width() == old(self).width(),
                self.height() == old(self).height(),
                px == position[0] as int,
                py == position[1] as int,
                sx == size[0] as int,
                sy == size[1] as int,
                sx >= 1,
                sy >= 1,
                end_x == px + sx,
                end_y == py + sy,
                end_x <= self.width(),
                end_y <= self.height(),
                position[0] <= x <= end_x,
                first <==> x == position[0],
                sy > 0 && x > position[0] ==> self.cell_at(px, py) == CellState::Real(component),
                forall|a: int, b: int|
                    px <= a < x && py <= b < end_y && !(a == px && b == py) ==> ((
                    #[trigger] self.cell_at(a, b)) matches CellState::Reference(p) && p[0] == px
                        && p[1] == py),
                forall|a: int, b: int|
                    old(self).in_bounds(a, b) && !(px <= a < x && py <= b < end_y)
                        ==> #[trigger] self.cell_at(a, b) == old(self).cell_at(a, b),
            decreases end_x - x,
        {
            let mut y: usize = position[1];
            while y < end_y
                invariant
                    old(self).wf(),
                    self.wf(),
                    self.width() == old(self).width(),
                    self.height() == old(self).height(),
                    px == position[0] as int,
                    py == position[1] as int,
                    sx == size[0] as int,
                    sy == size[1] as int,
                    sx >= 1,
                    sy >= 1,
                    end_x == px + sx,
                    end_y == py + sy,
                    end_x <= self.width(),
                    end_y <= self.height(),
                    position[0] <= x < end_x,
                    position[1] <= y <= end_y,
                    first <==> (x == position[0] && y == position[1]),
                    (x > position[0] || y > position[1]) ==> self.cell_at(px, py)
                        == CellState::Real(component),
                    forall|a: int, b: int|
                        px <= a < x && py <= b < end_y && !(a == px && b == py) ==> ((
                        #[trigger] self.cell_at(a, b)) matches CellState::Reference(p) && p[0] == px
                            && p[1] == py),
                    forall|b: int|
                        py <= b < y && !(x == px && b == py) ==> ((#[trigger] self.cell_at(
                            x as int,
                            b,
                        )) matches CellState::Reference(p) && p[0] == px && p[1] == py),
                    forall|a: int, b: int|
                        old(self).in_bounds(a, b) && !(px <= a < x && py <= b < end_y) && !(a == x
                            && py <= b < y) ==> #[trigger] self.cell_at(a, b) == old(self).cell_at(
                            a,
                            b,
                        ),
                decreases end_y - y,
            {
                let ghost before = *self;
                if first {
                    first = false;
                    self.grid[x][y] = CellState::Real(component);
                } else {
                    let origin: [usize; 2] = [position[0], position[1]];
                    proof {
                        assert(origin@[0] == px && origin@[1] == py);
                    }
                    self.grid[x][y] = CellState::Reference(origin);
                    proof {
                        assert((self.cell_at(x as int, y as int) matches CellState::Reference(p)
                            && p[0] == px && p[1] == py));
                    }
                }
                proof {
                    assert(self.grid@ == before.grid@.update(x as int, self.grid@[x as int]));
                    assert(self.grid@[x as int]@ == before.grid@[x as int]@.update(
                        y as int,
                        self.cell_at(x as int, y as int),
                    ));
                    assert(forall|a: int, b: int|
                        0 <= a < self.width() && 0 <= b < self.height() && !(a == x && b == y)
                            ==> #[trigger] self.cell_at(a, b) == before.cell_at(a, b));
                }
                y = y + 1;
            }
            x = x + 1;
        }
    }

    /// Reset the whole footprint of the component kind at `position` to
    /// empty cells.
    pub fn remove_component(&mut self, component: DummyComponent, position: &[usize; 2])
        requires
            old(self).wf(),
            old(self).footprint_in_bounds(
                position[0] as int,
                position[1] as int,
                component.spec_grid_size().0,
                component.spec_grid_size().1,
            ),
        ensures
            final(self).wf(),
            final(self).width() == old(self).width(),
            final(self).height() == old(self).height(),
            ({
                let px = position[0] as int;
                let py = position[1] as int;
                let sx = component.spec_grid_size().0;
                let sy = component.spec_grid_size().1;
                &&& forall|x: int, y: int|
                    in_footprint(px, py, sx, sy, x, y) ==> (#[trigger] final(self).cell_at(
                        x,
                        y,
                    )) is Empty
                &&& forall|x: int, y: int|
                    old(self).in_bounds(x, y) && !in_footprint(px, py, sx, sy, x, y)
                        ==> #[trigger] final(self).cell_at(x, y) == old(self).cell_at(x, y)
            }),
    {
        let size = component.get_grid_size();
        let ghost px = position[0] as int;
        let ghost py = position[1] as int;
        let ghost sx = component.spec_grid_size().0;
        let ghost sy = component.spec_grid_size().1;
        let w = self.grid.len();
        let h = if w > 0 {
            self.grid[0].len()
        } else {
            0
        };
        proof {
            assert(position[0] + size[0] <= w && position[1] + size[1] <= h);
        }
        let end_x = position[0] + size[0];
        let end_y = position[1] + size[1];
        let mut x: usize = position[0];
        while x < end_x
            invariant
                old(self).wf(),
                self.wf(),
                self.width() == old(self).width(),
                self.height() == old(self).height(),
                px == position[0] as int,
                py == position[1] as int,
                sx >= 1,
                sy >= 1,
                end_x == px + sx,
                end_y == py + sy,
                end_x <= self.width(),
                end_y <= self.height(),
                position[0] <= x <= end_x,
                forall|a: int, b: int|
                    px <= a < x && py <= b < end_y ==> (#[trigger] self.cell_at(a, b)) is Empty,
                forall|a: int, b: int|
                    old(self).in_bounds(a, b) && !(px <= a < x && py <= b < end_y)
                        ==> #[trigger] self.cell_at(a, b) == old(self).cell_at(a, b),
            decreases end_x - x,
        {
            let mut y: usize = position[1];
            while y < end_y
                invariant
                    old(self).wf(),
                    self.wf(),
                    self.width() == old(self).width(),
                    self.height() == old(self).height(),
                    px == position[0] as int,
                    py == position[1] as int,
                    sx >= 1,
                    sy >= 1,
                    end_x == px + sx,
                    end_y == py + sy,
                    end_x <= self.width(),
                    end_y <= self.height(),
                    position[0] <= x < end_x,
                    position[1] <= y <= end_y,
                    forall|a: int, b: int|
                        px <= a < x && py <= b < end_y ==> (#[trigger] self.cell_at(a, b)) is Empty,
                    forall|b: int|
                        py <= b < y ==> (#[trigger] self.cell_at(x as int, b)) is Empty,
                    forall|a: int, b: int|
                        old(self).in_bounds(a, b) && !(px <= a < x && py <= b < end_y) && !(a == x
                            && py <= b < y) ==> #[trigger] self.cell_at(a, b) == old(self).cell_at(
                            a,
                            b,
                        ),
                decreases end_y - y,
            {
                let ghost before = *self;
                self.grid[x][y] = CellState::Empty;
                proof {
                    assert(self.grid@ == before.grid@.update(x as int, self.grid@[x as int]));
                    assert(self.grid@[x as int]@ == before.grid@[x as int]@.update(
                        y as int,
                        self.cell_at(x as int, y as int),
                    ));
                    assert(forall|a: int, b: int|
                        0 <= a < self.width() && 0 <= b < self.height() && !(a == x && b == y)
                            ==> #[trigger] self.cell_at(a, b) == before.cell_at(a, b));
                }
                y = y + 1;
            }
            x = x + 1;
        }
    }
}

} // verus!

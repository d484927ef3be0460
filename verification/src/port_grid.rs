//! The edge-indexed port overlay of the component grid.
//!
//! Every cell of the component grid shares each of its four edges with a
//! neighbour.  The overlay stores, for each shared edge, two independent
//! slots, one per adjoining cell, so that components on opposite sides of an
//! edge each register their own port.  Storing only the top and left edge of
//! every cell covers all edges once; to also hold the topmost and rightmost
//! boundary edges the overlay is one cell wider and taller than the
//! component grid it describes.

use vstd::prelude::*;

use crate::side::Side;
use crate::side::PerSide;

verus! {

/// A declared port sitting in one edge slot.  `checked` is transient
/// bookkeeping of the connectivity compiler: it marks ports that have
/// already been joined to a signal cell during the current build.
#[derive(Clone, Copy, Debug, PartialEq, Eq, Structural)]
pub struct Port {
    pub checked: bool,
}

impl Port {
    /// Set or clear the compiler's visited mark.
    pub fn mark_checked(&mut self, checked: bool)
        ensures
            final(self).checked == checked,
    {
        self.checked = checked;
    }
}

impl Default for Port {
    /// A freshly declared, unvisited port.
    fn default() -> (r: Self)
        ensures
            r.checked == false,
    {
        Port { checked: false }
    }
}

/// The two slots of one vertical (left) cell edge, keyed by which adjoining
/// cell declared the port.
#[derive(Clone, Copy, Debug, PartialEq, Eq, Structural)]
pub struct LeftEdge {
    pub origin_left: Option<Port>,
    pub origin_right: Option<Port>,
}

/// The two slots of one horizontal (top) cell edge, keyed by which adjoining
/// cell declared the port.
#[derive(Clone, Copy, Debug, PartialEq, Eq, Structural)]
pub struct TopEdge {
    pub origin_up: Option<Port>,
    pub origin_down: Option<Port>,
}

impl TopEdge {
    /// An edge with no declared ports.
    pub fn new() -> (r: Self)
        ensures
            r.origin_up is None,
            r.origin_down is None,
    {
        TopEdge { origin_up: None, origin_down: None }
    }

    /// Clear the compiler's visited marks before a new build.
    pub fn reset_build(&mut self)
        ensures
            *final(self) == old(self).spec_reset(),
    {
        if let Some(p) = &mut self.origin_up {
            p.mark_checked(false);
        }
        if let Some(p) = &mut self.origin_down {
            p.mark_checked(false);
        }
    }

    /// The edge with both visited marks cleared.
    pub open spec fn spec_reset(self) -> TopEdge {
        TopEdge {
            origin_up: clear_checked(self.origin_up),
            origin_down: clear_checked(self.origin_down),
        }
    }
}

impl LeftEdge {
    /// An edge with no declared ports.
    pub fn new() -> (r: Self)
        ensures
            r.origin_left is None,
            r.origin_right is None,
    {
        LeftEdge { origin_left: None, origin_right: None }
    }

    /// Clear the compiler's visited marks before a new build.
    pub fn reset_build(&mut self)
        ensures
            *final(self) == old(self).spec_reset(),
    {
        if let Some(p) = &mut self.origin_left {
            p.mark_checked(false);
        }
        if let Some(p) = &mut self.origin_right {
            p.mark_checked(false);
        }
    }

    /// The edge with both visited marks cleared.
    pub open spec fn spec_reset(self) -> LeftEdge {
        LeftEdge {
            origin_left: clear_checked(self.origin_left),
            origin_right: clear_checked(self.origin_right),
        }
    }
}

/// The slot with its visited mark cleared; an empty slot stays empty.
pub open spec fn clear_checked(slot: Option<Port>) -> Option<Port> {
    match slot {
        Some(_) => Some(Port { checked: false }),
        None => None,
    }
}

/// The top and left edge slots owned by one overlay cell.
#[derive(Clone, Copy, Debug, PartialEq, Eq, Structural)]
pub struct PortGridData {
    pub left: LeftEdge,
    pub top: TopEdge,
}

impl PortGridData {
    /// A cell with no declared ports on either owned edge.
    pub fn new() -> (r: Self)
        ensures
            r == PortGridData::spec_empty(),
    {
        PortGridData { left: LeftEdge::new(), top: TopEdge::new() }
    }

    /// The empty overlay cell.
    pub open spec fn spec_empty() -> PortGridData {
        PortGridData {
            left: LeftEdge { origin_left: None, origin_right: None },
            top: TopEdge { origin_up: None, origin_down: None },
        }
    }
}

/// An operation addressed an edge the overlay does not hold, or an internal
/// insert was keyed with a side that does not belong to the addressed edge.
#[derive(Clone, Copy, Debug, PartialEq, Eq, Structural)]
pub enum PortGridError {
    PositionOutOfBounds,
    IncorrectOrigin,
}

/// The edge-indexed overlay itself: one column of overlay cells per grid
/// column plus one, each column one cell taller than the grid.
#[derive(Clone, Debug)]
pub struct PortGrid(pub Vec<Vec<PortGridData>>);

impl PortGrid {
    /// Number of overlay columns.
    pub open spec fn cols(self) -> int {
        self.0@.len() as int
    }

    /// Number of overlay cells per column.
    pub open spec fn rows(self) -> int {
        if self.0@.len() > 0 {
            self.0@[0]@.len() as int
        } else {
            0
        }
    }

    /// The overlay is rectangular.
    pub open spec fn wf(self) -> bool {
        forall|i: int| 0 <= i < self.cols() ==> (#[trigger] self.0@[i]@).len() == self.rows()
    }

    /// Raw overlay cell at overlay coordinates.
    pub open spec fn data_at(self, x: int, y: int) -> PortGridData {
        self.0@[x]@[y]
    }

    /// Whether the slot of the port declared by grid cell `(x, y)` on its
    /// `side` lies inside the overlay.  The very bottom edge row of the
    /// overlay is not addressable, so a `Down` port needs `y >= 1`.
    pub open spec fn slot_valid(self, x: int, y: int, side: Side) -> bool {
        match side {
            Side::Up => 0 <= x < self.cols() && 0 <= y + 1 < self.rows(),
            Side::Down => 0 <= x < self.cols() && 1 <= y < self.rows(),
            Side::Left => 0 <= x < self.cols() && 0 <= y + 1 < self.rows(),
            Side::Right => 0 <= x + 1 < self.cols() && 0 <= y + 1 < self.rows(),
        }
    }

    /// The slot of the port declared by grid cell `(x, y)` on its `side`.
    pub open spec fn spec_slot(self, x: int, y: int, side: Side) -> Option<Port> {
        match side {
            Side::Up => self.data_at(x, y + 1).top.origin_down,
            Side::Down => self.data_at(x, y).top.origin_up,
            Side::Left => self.data_at(x, y + 1).left.origin_right,
            Side::Right => self.data_at(x + 1, y + 1).left.origin_left,
        }
    }

    /// Whether the slot of the port facing grid cell `(x, y)` from its
    /// neighbour on `side` lies inside the overlay.
    pub open spec fn outside_valid(self, x: int, y: int, side: Side) -> bool {
        match side {
            Side::Up => 0 <= x < self.cols() && 0 <= y + 1 < self.rows(),
            Side::Down => 0 <= x < self.cols() && 1 <= y < self.rows(),
            Side::Left => 0 <= x < self.cols() && 0 <= y + 1 < self.rows(),
            Side::Right => 0 <= x + 1 < self.cols() && 0 <= y + 1 < self.rows(),
        }
    }

    /// The slot of the port that the neighbour of grid cell `(x, y)` on
    /// `side` declared towards `(x, y)`.
    pub open spec fn spec_outside(self, x: int, y: int, side: Side) -> Option<Port> {
        match side {
            Side::Up => self.data_at(x, y + 1).top.origin_up,
            Side::Down => self.data_at(x, y).top.origin_down,
            Side::Left => self.data_at(x, y + 1).left.origin_left,
            Side::Right => self.data_at(x + 1, y + 1).left.origin_right,
        }
    }

    /// Frame of a single-slot update: every slot other than `(x, y, side)`
    /// keeps its value, and the overlay's shape is unchanged.
    pub open spec fn frame_except(self, other: PortGrid, x: int, y: int, side: Side) -> bool {
        &&& other.cols() == self.cols()
        &&& other.rows() == self.rows()
        &&& forall|a: int, b: int, s: Side|
            self.slot_valid(a, b, s) && !(a == x && b == y && s == side)
                ==> #[trigger] other.spec_slot(a, b, s) == self.spec_slot(a, b, s)
    }

    /// The port a neighbour declares towards a cell is that neighbour's own
    /// port: the outside view of `(x, y, side)` is the inside slot of the
    /// adjacent cell on the reversed side.
    pub proof fn lemma_outside_is_neighbor_inside(self, x: int, y: int, side: Side)
        requires
            x >= 0,
            y >= 0,
            self.outside_valid(x, y, side),
        ensures
            match side {
                Side::Up => self.spec_outside(x, y, side) == self.spec_slot(
                    x,
                    y + 1,
                    Side::Down,
                ) && self.slot_valid(x, y + 1, Side::Down),
                Side::Down => self.spec_outside(x, y, side) == self.spec_slot(
                    x,
                    y - 1,
                    Side::Up,
                ) && self.slot_valid(x, y - 1, Side::Up),
                Side::Left => self.spec_outside(x, y, side) == self.spec_slot(
                    x - 1,
                    y,
                    Side::Right,
                ) && (x >= 1 ==> self.slot_valid(x - 1, y, Side::Right)),
                Side::Right => self.spec_outside(x, y, side) == self.spec_slot(
                    x + 1,
                    y,
                    Side::Left,
                ) && self.slot_valid(x + 1, y, Side::Left),
            },
    {
    }

    /// An overlay for a component grid `width` cells wide and `height` cells
    /// tall: one overlay cell more in each direction, all slots empty.
    pub fn new_with_size(height: usize, width: usize) -> (r: Self)
        requires
            height < usize::MAX,
            width < usize::MAX,
        ensures
            r.cols() == width + 1,
            r.rows() == height + 1,
            r.wf(),
            forall|x: int, y: int|
                0 <= x < r.cols() && 0 <= y < r.rows() ==> #[trigger] r.data_at(x, y)
                    == PortGridData::spec_empty(),
    {
        let mut grid: Vec<Vec<PortGridData>> = Vec::new();
        let mut x: usize = 0;
        while x < width + 1
            invariant
                x <= width + 1,
                width < usize::MAX,
                height < usize::MAX,
                grid@.len() == x,
                forall|i: int|
                    0 <= i < x ==> (#[trigger] grid@[i]@).len() == height + 1,
                forall|i: int, j: int|
                    0 <= i < x && 0 <= j < height + 1 ==> #[trigger] grid@[i]@[j]
                        == PortGridData::spec_empty(),
            decreases width + 1 - x,
        {
            let mut row: Vec<PortGridData> = Vec::new();
            let mut y: usize = 0;
            while y < height + 1
                invariant
                    y <= height + 1,
                    height < usize::MAX,
                    row@.len() == y,
                    forall|j: int|
                        0 <= j < y ==> #[trigger] row@[j] == PortGridData::spec_empty(),
                decreases height + 1 - y,
            {
                row.push(PortGridData::new());
                y = y + 1;
            }
            grid.push(row);
            x = x + 1;
        }
        PortGrid(grid)
    }

    /// Record or overwrite the port declared by grid cell `position` on
    /// `side`.  `Err(PositionOutOfBounds)` exactly when that slot lies
    /// outside the overlay, in which case nothing changes.
    pub fn insert(&mut self, position: &[usize; 2], side: Side, port: Option<Port>) -> (r: Result<
        (),
        PortGridError,
    >)
        requires
            old(self).wf(),
        ensures
            final(self).wf(),
            r is Ok <==> old(self).slot_valid(position[0] as int, position[1] as int, side),
            r is Ok ==> final(self).spec_slot(position[0] as int, position[1] as int, side)
                == port && old(self).frame_except(
                *final(self),
                position[0] as int,
                position[1] as int,
                side,
            ),
            r is Err ==> *final(self) == *old(self) && r == Err::<(), PortGridError>(
                PortGridError::PositionOutOfBounds,
            ),
    {
        match side {
            Side::Up => self.insert_top(position, Side::Down, port),
            Side::Down => {
                if position[1] == 0 {
                    return Err(PortGridError::PositionOutOfBounds);
                }
                self.insert_top(&[position[0], position[1] - 1], Side::Up, port)
            },
            Side::Left => self.insert_left(position, Side::Right, port),
            Side::Right => {
                if position[0] >= self.0.len() {
                    return Err(PortGridError::PositionOutOfBounds);
                }
                self.insert_left(&[position[0] + 1, position[1]], Side::Left, port)
            },
        }
    }

    /// Write one slot of the top edge owned by overlay cell
    /// `(position[0], position[1] + 1)`; `origin` says which adjoining cell
    /// the port belongs to and must be `Up` or `Down`.
    fn insert_top(&mut self, position: &[usize; 2], origin: Side, port: Option<Port>) -> (r: Result<
        (),
        PortGridError,
    >)
        requires
            old(self).wf(),
        ensures
            final(self).wf(),
            ({
                let x = position[0] as int;
                let y = position[1] as int;
                match origin {
                    Side::Up => {
                        &&& (r is Ok <==> 0 <= x < old(self).cols() && 0 <= y + 1 < old(
                            self,
                        ).rows())
                        &&& r is Ok ==> final(self).data_at(x, y + 1).top.origin_up == port
                            && old(self).frame_except(*final(self), x, y + 1, Side::Down)
                        &&& r is Err ==> r == Err::<(), PortGridError>(
                            PortGridError::PositionOutOfBounds,
                        )
                    },
                    Side::Down => {
                        &&& (r is Ok <==> 0 <= x < old(self).cols() && 0 <= y + 1 < old(
                            self,
                        ).rows())
                        &&& r is Ok ==> final(self).data_at(x, y + 1).top.origin_down == port
                            && old(self).frame_except(*final(self), x, y, Side::Up)
                        &&& r is Err ==> r == Err::<(), PortGridError>(
                            PortGridError::PositionOutOfBounds,
                        )
                    },
                    _ => r == Err::<(), PortGridError>(PortGridError::IncorrectOrigin),
                }
            }),
            r is Err ==> *final(self) == *old(self),
            r is Err ==> r == Err::<(), PortGridError>(PortGridError::PositionOutOfBounds) || r
                == Err::<(), PortGridError>(PortGridError::IncorrectOrigin),
    {
        match origin {
            Side::Up => {
                if position[0] < self.0.len() {
                    let row_len = self.0[position[0]].len();
                    if position[1] < usize::MAX && position[1] + 1 < row_len {
                        self.0[position[0]][position[1] + 1].top.origin_up = port;
                        return Ok(());
                    }
                }
                Err(PortGridError::PositionOutOfBounds)
            },
            Side::Down => {
                if position[0] < self.0.len() {
                    let row_len = self.0[position[0]].len();
                    if position[1] < usize::MAX && position[1] + 1 < row_len {
                        self.0[position[0]][position[1] + 1].top.origin_down = port;
                        return Ok(());
                    }
                }
                Err(PortGridError::PositionOutOfBounds)
            },
            _ => Err(PortGridError::IncorrectOrigin),
        }
    }

    /// Write one slot of the left edge owned by overlay cell
    /// `(position[0], position[1] + 1)`; `origin` says which adjoining cell
    /// the port belongs to and must be `Left` or `Right`.
    fn insert_left(&mut self, position: &[usize; 2], origin: Side, port: Option<Port>) -> (r:
        Result<(), PortGridError>)
        requires
            old(self).wf(),
        ensures
            final(self).wf(),
            ({
                let x = position[0] as int;
                let y = position[1] as int;
                match origin {
                    Side::Left => {
                        &&& (r is Ok <==> 0 <= x < old(self).cols() && 0 <= y + 1 < old(
                            self,
                        ).rows())
                        &&& r is Ok ==> final(self).data_at(x, y + 1).left.origin_left == port
                            && old(self).frame_except(*final(self), x - 1, y, Side::Right)
                        &&& r is Err ==> r == Err::<(), PortGridError>(
                            PortGridError::PositionOutOfBounds,
                        )
                    },
                    Side::Right => {
                        &&& (r is Ok <==> 0 <= x < old(self).cols() && 0 <= y + 1 < old(
                            self,
                        ).rows())
                        &&& r is Ok ==> final(self).data_at(x, y + 1).left.origin_right == port
                            && old(self).frame_except(*final(self), x, y, Side::Left)
                        &&& r is Err ==> r == Err::<(), PortGridError>(
                            PortGridError::PositionOutOfBounds,
                        )
                    },
                    _ => r == Err::<(), PortGridError>(PortGridError::IncorrectOrigin),
                }
            }),
            r is Err ==> *final(self) == *old(self),
            r is Err ==> r == Err::<(), PortGridError>(PortGridError::PositionOutOfBounds) || r
                == Err::<(), PortGridError>(PortGridError::IncorrectOrigin),
    {
        match origin {
            Side::Left => {
                if position[0] < self.0.len() {
                    let row_len = self.0[position[0]].len();
                    if position[1] < usize::MAX && position[1] + 1 < row_len {
                        self.0[position[0]][position[1] + 1].left.origin_left = port;
                        return Ok(());
                    }
                }
                Err(PortGridError::PositionOutOfBounds)
            },
            Side::Right => {
                if position[0] < self.0.len() {
                    let row_len = self.0[position[0]].len();
                    if position[1] < usize::MAX && position[1] + 1 < row_len {
                        self.0[position[0]][position[1] + 1].left.origin_right = port;
                        return Ok(());
                    }
                }
                Err(PortGridError::PositionOutOfBounds)
            },
            _ => Err(PortGridError::IncorrectOrigin),
        }
    }

    /// Number of overlay cells per column, as `rows` sees it.
    fn row_count(&self) -> (r: usize)
        ensures
            r == self.rows(),
    {
        if self.0.len() > 0 {
            self.0[0].len()
        } else {
            0
        }
    }

    /// Overlay cell describing grid cell `position` (its top and left edge),
    /// or `Err(PositionOutOfBounds)`.
    pub fn get(&self, position: &[usize; 2]) -> (r: Result<PortGridData, PortGridError>)
        requires
            self.wf(),
        ensures
            r is Ok <==> (position[0] as int) < self.cols() && position[1] + 1 < self.rows(),
            r matches Ok(d) ==> d == self.data_at(position[0] as int, position[1] + 1),
            r is Err ==> r == Err::<PortGridData, PortGridError>(
                PortGridError::PositionOutOfBounds,
            ),
    {
        if position[0] < self.0.len() {
            let row_len = self.0[position[0]].len();
            if position[1] < usize::MAX && position[1] + 1 < row_len {
                return Ok(self.0[position[0]][position[1] + 1]);
            }
        }
        Err(PortGridError::PositionOutOfBounds)
    }

    /// The port the neighbour of `position` on `side` declares towards
    /// `position`, as seen from outside that neighbour.
    pub fn get_port(&self, position: &[usize; 2], side: Side) -> (r: Result<
        Option<Port>,
        PortGridError,
    >)
        requires
            self.wf(),
        ensures
            r is Ok <==> self.outside_valid(position[0] as int, position[1] as int, side),
            r matches Ok(p) ==> p == self.spec_outside(position[0] as int, position[1] as int, side),
            r is Err ==> r == Err::<Option<Port>, PortGridError>(
                PortGridError::PositionOutOfBounds,
            ),
    {
        match side {
            Side::Up => {
                let d = self.get(position)?;
                Ok(d.top.origin_up)
            },
            Side::Down => {
                if position[1] == 0 {
                    return Err(PortGridError::PositionOutOfBounds);
                }
                let d = self.get(&[position[0], position[1] - 1])?;
                Ok(d.top.origin_down)
            },
            Side::Left => {
                let d = self.get(position)?;
                Ok(d.left.origin_left)
            },
            Side::Right => {
                if position[0] >= self.0.len() {
                    return Err(PortGridError::PositionOutOfBounds);
                }
                let d = self.get(&[position[0] + 1, position[1]])?;
                Ok(d.left.origin_right)
            },
        }
    }

    /// Replace the slot `get_port` reads: the neighbour's declared port as
    /// seen from `position`.
    pub fn get_mut_port(&mut self, position: &[usize; 2], side: Side, port: Option<Port>) -> (r:
        Result<(), PortGridError>)
        requires
            old(self).wf(),
        ensures
            final(self).wf(),
            r is Ok <==> old(self).outside_valid(position[0] as int, position[1] as int, side),
            r is Ok ==> final(self).spec_outside(position[0] as int, position[1] as int, side)
                == port,
            r is Ok ==> match side {
                Side::Up => old(self).frame_except(
                    *final(self),
                    position[0] as int,
                    position[1] + 1,
                    Side::Down,
                ),
                Side::Down => old(self).frame_except(
                    *final(self),
                    position[0] as int,
                    position[1] - 1,
                    Side::Up,
                ),
                Side::Left => old(self).frame_except(
                    *final(self),
                    position[0] - 1,
                    position[1] as int,
                    Side::Right,
                ),
                Side::Right => old(self).frame_except(
                    *final(self),
                    position[0] + 1,
                    position[1] as int,
                    Side::Left,
                ),
            },
            r is Err ==> *final(self) == *old(self) && r == Err::<(), PortGridError>(
                PortGridError::PositionOutOfBounds,
            ),
    {
        match side {
            Side::Up => {
                let rows = self.row_count();
                if position[1] >= rows {
                    return Err(PortGridError::PositionOutOfBounds);
                }
                self.insert(&[position[0], position[1] + 1], Side::Down, port)
            },
            Side::Down => {
                if position[1] == 0 {
                    return Err(PortGridError::PositionOutOfBounds);
                }
                self.insert(&[position[0], position[1] - 1], Side::Up, port)
            },
            Side::Left => {
                if position[0] == 0 {
                    // The leftmost boundary edge has no cell to its left;
                    // address its slot through the owning overlay cell.
                    if self.0.len() > 0 {
                        let row_len = self.0[0].len();
                        if position[1] < usize::MAX && position[1] + 1 < row_len {
                            self.0[0][position[1] + 1].left.origin_left = port;
                            return Ok(());
                        }
                    }
                    return Err(PortGridError::PositionOutOfBounds);
                }
                self.insert(&[position[0] - 1, position[1]], Side::Right, port)
            },
            Side::Right => {
                if position[0] >= self.0.len() {
                    return Err(PortGridError::PositionOutOfBounds);
                }
                self.insert(&[position[0] + 1, position[1]], Side::Left, port)
            },
        }
    }

    /// The port declared by the component at `position` itself on `side`:
    /// the slot `insert` writes.
    pub fn get_port_inside(&self, position: &[usize; 2], side: Side) -> (r: Result<
        Option<Port>,
        PortGridError,
    >)
        requires
            self.wf(),
        ensures
            r is Ok <==> self.slot_valid(position[0] as int, position[1] as int, side),
            r matches Ok(p) ==> p == self.spec_slot(position[0] as int, position[1] as int, side),
            r is Err ==> r == Err::<Option<Port>, PortGridError>(
                PortGridError::PositionOutOfBounds,
            ),
    {
        match side {
            Side::Up => {
                let d = self.get(position)?;
                Ok(d.top.origin_down)
            },
            Side::Down => {
                if position[1] == 0 {
                    return Err(PortGridError::PositionOutOfBounds);
                }
                let d = self.get(&[position[0], position[1] - 1])?;
                Ok(d.top.origin_up)
            },
            Side::Left => {
                let d = self.get(position)?;
                Ok(d.left.origin_right)
            },
            Side::Right => {
                if position[0] >= self.0.len() {
                    return Err(PortGridError::PositionOutOfBounds);
                }
                let d = self.get(&[position[0] + 1, position[1]])?;
                Ok(d.left.origin_left)
            },
        }
    }

    /// Replace the slot `get_port_inside` reads: the port declared by the
    /// component at `position` itself.
    pub fn get_mut_port_inside(&mut self, position: &[usize; 2], side: Side, port: Option<
        Port,
    >) -> (r: Result<(), PortGridError>)
        requires
            old(self).wf(),
        ensures
            final(self).wf(),
            r is Ok <==> old(self).slot_valid(position[0] as int, position[1] as int, side),
            r is Ok ==> final(self).spec_slot(position[0] as int, position[1] as int, side)
                == port && old(self).frame_except(
                *final(self),
                position[0] as int,
                position[1] as int,
                side,
            ),
            r is Err ==> *final(self) == *old(self) && r == Err::<(), PortGridError>(
                PortGridError::PositionOutOfBounds,
            ),
    {
        self.insert(position, side, port)
    }

    /// Whether the slot of a port declared at `position` on `side` lies
    /// inside the overlay.
    pub fn slot_in_range(&self, position: &[usize; 2], side: Side) -> (b: bool)
        requires
            self.wf(),
        ensures
            b == self.slot_valid(position[0] as int, position[1] as int, side),
    {
        let cols = self.0.len();
        let rows = self.row_count();
        match side {
            Side::Up => position[0] < cols && rows > 0 && position[1] < rows - 1,
            Side::Down => position[0] < cols && 1 <= position[1] && position[1] < rows,
            Side::Left => position[0] < cols && rows > 0 && position[1] < rows - 1,
            Side::Right => cols > 0 && position[0] < cols - 1 && rows > 0 && position[1] < rows
                - 1,
        }
    }

    /// Whether one `modify_bulk` entry, shifted by `offset`, addresses a slot
    /// inside the overlay.
    pub open spec fn entry_valid(self, entry: ([usize; 2], Side), offset: Seq<usize>) -> bool {
        &&& entry.0[0] + offset[0] <= usize::MAX
        &&& entry.0[1] + offset[1] <= usize::MAX
        &&& self.slot_valid(entry.0[0] + offset[0], entry.0[1] + offset[1], entry.1)
    }

    /// Whether one `modify_bulk` entry, shifted by `offset`, addresses the
    /// slot `(a, b, s)`.
    pub open spec fn entry_addresses(
        entry: ([usize; 2], Side),
        offset: Seq<usize>,
        a: int,
        b: int,
        s: Side,
    ) -> bool {
        a == entry.0[0] + offset[0] && b == entry.0[1] + offset[1] && s == entry.1
    }

    /// Write `target` into the slot of every declared port in `list`, each
    /// shifted by the component's grid position `offset`.  Nothing is
    /// written unless every addressed slot lies inside the overlay:
    /// `Err(PositionOutOfBounds)` leaves the overlay unchanged.
    pub fn modify_bulk(
        &mut self,
        target: Option<Port>,
        list: &Vec<([usize; 2], Side)>,
        offset: &[usize; 2],
    ) -> (r: Result<(), PortGridError>)
        requires
            old(self).wf(),
        ensures
            final(self).wf(),
            final(self).cols() == old(self).cols(),
            final(self).rows() == old(self).rows(),
            r is Ok <==> (forall|k: int|
                0 <= k < list@.len() ==> old(self).entry_valid(#[trigger] list@[k], offset@)),
            r is Err ==> *final(self) == *old(self) && r == Err::<(), PortGridError>(
                PortGridError::PositionOutOfBounds,
            ),
            r is Ok ==> (forall|k: int|
                0 <= k < list@.len() ==> final(self).spec_slot(
                    (#[trigger] list@[k]).0[0] + offset[0],
                    list@[k].0[1] + offset[1],
                    list@[k].1,
                ) == target),
            r is Ok ==> (forall|a: int, b: int, s: Side|
                old(self).slot_valid(a, b, s) && !(exists|k: int|
                    0 <= k < list@.len() && PortGrid::entry_addresses(
                        #[trigger] list@[k],
                        offset@,
                        a,
                        b,
                        s,
                    )) ==> #[trigger] final(self).spec_slot(a, b, s) == old(self).spec_slot(
                    a,
                    b,
                    s,
                )),
    {
        let mut k: usize = 0;
        while k < list.len()
            invariant
                self == old(self),
                self.wf(),
                k <= list@.len(),
                forall|j: int| 0 <= j < k ==> self.entry_valid(#[trigger] list@[j], offset@),
            decreases list@.len() - k,
        {
            let (pos, side) = list[k];
            let ax = pos[0].checked_add(offset[0]);
            let ay = pos[1].checked_add(offset[1]);
            match (ax, ay) {
                (Some(ax), Some(ay)) => {
                    if !self.slot_in_range(&[ax, ay], side) {
                        return Err(PortGridError::PositionOutOfBounds);
                    }
                },
                _ => {
                    return Err(PortGridError::PositionOutOfBounds);
                },
            }
            k = k + 1;
        }
        let mut k: usize = 0;
        while k < list.len()
            invariant
                old(self).wf(),
                self.wf(),
                self.cols() == old(self).cols(),
                self.rows() == old(self).rows(),
                k <= list@.len(),
                forall|j: int| 0 <= j < list@.len() ==> old(self).entry_valid(#[trigger] list@[j], offset@),
                forall|j: int|
                    0 <= j < k ==> self.spec_slot(
                        (#[trigger] list@[j]).0[0] + offset[0],
                        list@[j].0[1] + offset[1],
                        list@[j].1,
                    ) == target,
                forall|a: int, b: int, s: Side|
                    old(self).slot_valid(a, b, s) && !(exists|j: int|
                        0 <= j < k && PortGrid::entry_addresses(
                            #[trigger] list@[j],
                            offset@,
                            a,
                            b,
                            s,
                        )) ==> #[trigger] self.spec_slot(a, b, s) == old(self).spec_slot(a, b, s),
            decreases list@.len() - k,
        {
            let (pos, side) = list[k];
            let ax = pos[0] + offset[0];
            let ay = pos[1] + offset[1];
            let res = self.insert(&[ax, ay], side, target);
            proof {
                assert(res is Ok);
            }
            k = k + 1;
        }
        Ok(())
    }

    /// Clear every compiler visited mark in the overlay, keeping which slots
    /// hold ports; run once at the start of each build.
    pub fn reset_build(&mut self)
        requires
            old(self).wf(),
        ensures
            final(self).wf(),
            final(self).cols() == old(self).cols(),
            final(self).rows() == old(self).rows(),
            forall|x: int, y: int|
                0 <= x < old(self).cols() && 0 <= y < old(self).rows()
                    ==> #[trigger] final(self).data_at(x, y) == (PortGridData {
                    left: old(self).data_at(x, y).left.spec_reset(),
                    top: old(self).data_at(x, y).top.spec_reset(),
                }),
            forall|a: int, b: int, s: Side|
                old(self).slot_valid(a, b, s) ==> #[trigger] final(self).spec_slot(a, b, s)
                    == clear_checked(old(self).spec_slot(a, b, s)),
    {
        let cols = self.0.len();
        let mut x: usize = 0;
        while x < cols
            invariant
                old(self).wf(),
                self.wf(),
                cols == self.cols() == old(self).cols(),
                self.rows() == old(self).rows(),
                x <= cols,
                forall|i: int, j: int|
                    0 <= i < x && 0 <= j < old(self).rows() ==> #[trigger] self.data_at(i, j)
                        == (PortGridData {
                        left: old(self).data_at(i, j).left.spec_reset(),
                        top: old(self).data_at(i, j).top.spec_reset(),
                    }),
                forall|i: int, j: int|
                    x <= i < old(self).cols() && 0 <= j < old(self).rows()
                        ==> #[trigger] self.data_at(i, j) == old(self).data_at(i, j),
            decreases cols - x,
        {
            let rows = self.0[x].len();
            let mut y: usize = 0;
            while y < rows
                invariant
                    old(self).wf(),
                    self.wf(),
                    x < self.cols(),
                    self.cols() == old(self).cols(),
                    self.rows() == old(self).rows(),
                    rows == self.rows(),
                    y <= rows,
                    forall|i: int, j: int|
                        0 <= i < x && 0 <= j < old(self).rows() ==> #[trigger] self.data_at(i, j)
                            == (PortGridData {
                            left: old(self).data_at(i, j).left.spec_reset(),
                            top: old(self).data_at(i, j).top.spec_reset(),
                        }),
                    forall|j: int|
                        0 <= j < y ==> #[trigger] self.data_at(x as int, j) == (PortGridData {
                            left: old(self).data_at(x as int, j).left.spec_reset(),
                            top: old(self).data_at(x as int, j).top.spec_reset(),
                        }),
                    forall|j: int|
                        y <= j < old(self).rows() ==> #[trigger] self.data_at(x as int, j) == old(
                            self,
                        ).data_at(x as int, j),
                    forall|i: int, j: int|
                        x < i < old(self).cols() && 0 <= j < old(self).rows()
                            ==> #[trigger] self.data_at(i, j) == old(self).data_at(i, j),
                decreases rows - y,
            {
                let ghost before = *self;
                self.0[x][y].left.reset_build();
                let ghost mid = *self;
                self.0[x][y].top.reset_build();
                proof {
                    assert(mid.0@ == before.0@.update(
                        x as int,
                        mid.0@[x as int],
                    ));
                    assert(self.0@ == mid.0@.update(x as int, self.0@[x as int]));
                    assert(mid.0@[x as int]@ == before.0@[x as int]@.update(
                        y as int,
                        mid.data_at(x as int, y as int),
                    ));
                    assert(self.0@[x as int]@ == mid.0@[x as int]@.update(
                        y as int,
                        self.data_at(x as int, y as int),
                    ));
                    assert(self.data_at(x as int, y as int) == (PortGridData {
                        left: before.data_at(x as int, y as int).left.spec_reset(),
                        top: before.data_at(x as int, y as int).top.spec_reset(),
                    }));
                    assert(forall|i: int, j: int|
                        0 <= i < self.cols() && 0 <= j < self.rows() && !(i == x && j == y)
                            ==> #[trigger] self.data_at(i, j) == before.data_at(i, j));
                }
                y = y + 1;
            }
            x = x + 1;
        }
    }

    /// Whether a neighbour declares a port towards `position` on each side;
    /// sides whose edge lies outside the overlay read `false`.  Presentation
    /// helper for wire sprites; the simulation itself never calls it.
    pub fn get_sides(&self, position: &[usize; 2]) -> (r: PerSide<bool>)
        requires
            self.wf(),
        ensures
            r == self.spec_sides(position[0] as int, position[1] as int),
    {
        let up = match self.get_side_existance(position, Side::Up) {
            Ok(b) => b,
            Err(_) => false,
        };
        let down = match self.get_side_existance(position, Side::Down) {
            Ok(b) => b,
            Err(_) => false,
        };
        let left = match self.get_side_existance(position, Side::Left) {
            Ok(b) => b,
            Err(_) => false,
        };
        let right = match self.get_side_existance(position, Side::Right) {
            Ok(b) => b,
            Err(_) => false,
        };
        PerSide { up, down, left, right }
    }

    /// What `get_sides` returns: per side, whether the edge is in range and
    /// holds a facing port.
    pub open spec fn spec_sides(self, x: int, y: int) -> PerSide<bool> {
        PerSide {
            up: self.outside_valid(x, y, Side::Up) && self.spec_outside(x, y, Side::Up) is Some,
            down: self.outside_valid(x, y, Side::Down) && self.spec_outside(
                x,
                y,
                Side::Down,
            ) is Some,
            left: self.outside_valid(x, y, Side::Left) && self.spec_outside(
                x,
                y,
                Side::Left,
            ) is Some,
            right: self.outside_valid(x, y, Side::Right) && self.spec_outside(
                x,
                y,
                Side::Right,
            ) is Some,
        }
    }

    /// Whether the neighbour of `position` on `side` declares a port towards
    /// it; `Err` when the shared edge lies outside the overlay.
    pub fn get_side_existance(&self, position: &[usize; 2], side: Side) -> (r: Result<
        bool,
        PortGridError,
    >)
        requires
            self.wf(),
        ensures
            r is Ok <==> self.outside_valid(position[0] as int, position[1] as int, side),
            r matches Ok(b) ==> b == (self.spec_outside(
                position[0] as int,
                position[1] as int,
                side,
            ) is Some),
            r is Err ==> r == Err::<bool, PortGridError>(PortGridError::PositionOutOfBounds),
    {
        let p = self.get_port(position, side)?;
        Ok(p.is_some())
    }
}

} // verus!

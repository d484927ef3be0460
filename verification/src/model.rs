//! The editable simulation state: the component grid together with its port
//! overlay, and the editing operations the host performs while the
//! simulation is halted.
//!
//! Placing a component and reconfiguring a wire recompute the cached
//! `connected_sides` of every wire; removal touches nothing outside the
//! cleared footprint, so neighbouring caches can go stale until the next
//! such edit — the compiler's walk tolerates that by stopping at the empty
//! cell.

use vstd::prelude::*;

use crate::component::Component;
use crate::component::DummyComponent;
use crate::component::EnabledOrDisabled;
use crate::component::Wire;
use crate::grid::CellState;
use crate::grid::ComponentGrid;
use crate::grid::in_footprint;
use crate::levels::LevelData;
use crate::port_grid::Port;
use crate::port_grid::PortGrid;
use crate::side::PerSide;
use crate::side::Side;
use crate::side::get_adjacent;

verus! {

/// An edit was rejected: the footprint overlaps something or leaves the
/// grid.
#[derive(Clone, Copy, Debug, PartialEq, Eq, Structural)]
pub enum PlaceError {
    CantFit,
}

/// Whether the cell at `(x, y)` holds a wire piece whose side facing
/// `origin_side` is enabled, so that a signal arriving from that side may
/// enter it.
pub open spec fn spec_wire_link(grid: ComponentGrid, x: int, y: int, origin_side: Side) -> bool {
    grid.in_bounds(x, y) && match grid.cell_at(x, y) {
        CellState::Real(c) => match c {
            Component::WirePiece(w) => w.disabled_sides.spec_get(origin_side)
                == EnabledOrDisabled::Enabled,
            _ => false,
        },
        _ => false,
    }
}

/// Whether a wire at `(x, y)` with the given side switches joins something
/// on `side`: the side is enabled, and either a neighbouring component
/// declares a port into this cell on that edge, or the neighbouring cell is
/// a wire whose facing side is enabled.
pub open spec fn spec_side_connects(
    grid: ComponentGrid,
    port_grid: PortGrid,
    x: int,
    y: int,
    disabled: PerSide<EnabledOrDisabled>,
    side: Side,
) -> bool {
    &&& disabled.spec_get(side) == EnabledOrDisabled::Enabled
    &&& {
        ||| spec_wire_link(grid, x + side.spec_dx(), y + side.spec_dy(), side.spec_reverse())
        ||| (port_grid.outside_valid(x, y, side) && port_grid.spec_outside(x, y, side) is Some)
    }
}

/// The whole `connected_sides` table a wire at `(x, y)` should cache.
pub open spec fn spec_wire_sides(
    grid: ComponentGrid,
    port_grid: PortGrid,
    x: int,
    y: int,
    disabled: PerSide<EnabledOrDisabled>,
) -> PerSide<bool> {
    PerSide {
        up: spec_side_connects(grid, port_grid, x, y, disabled, Side::Up),
        down: spec_side_connects(grid, port_grid, x, y, disabled, Side::Down),
        left: spec_side_connects(grid, port_grid, x, y, disabled, Side::Left),
        right: spec_side_connects(grid, port_grid, x, y, disabled, Side::Right),
    }
}

/// What `spec_wire_sides` reads of one cell: whether it is a wire, and if
/// so which sides the player disabled.  Cached `connected_sides` are
/// deliberately not part of it.
pub open spec fn wire_profile(c: CellState) -> Option<PerSide<EnabledOrDisabled>> {
    match c {
        CellState::Real(comp) => match comp {
            Component::WirePiece(w) => Some(w.disabled_sides),
            _ => None,
        },
        _ => None,
    }
}

/// Two grids agree on everything `spec_wire_sides` can read.
pub open spec fn same_skeleton(g1: ComponentGrid, g2: ComponentGrid) -> bool {
    &&& g1.width() == g2.width()
    &&& g1.height() == g2.height()
    &&& forall|x: int, y: int|
        g1.in_bounds(x, y) ==> wire_profile(#[trigger] g1.cell_at(x, y)) == wire_profile(
            g2.cell_at(x, y),
        )
}

/// Wire-side computation only reads the wire skeleton of the grid: on two
/// grids with the same skeleton and one port overlay it agrees.
pub proof fn lemma_wire_sides_skeleton(
    g1: ComponentGrid,
    g2: ComponentGrid,
    port_grid: PortGrid,
    x: int,
    y: int,
    disabled: PerSide<EnabledOrDisabled>,
)
    requires
        same_skeleton(g1, g2),
    ensures
        spec_wire_sides(g1, port_grid, x, y, disabled) == spec_wire_sides(
            g2,
            port_grid,
            x,
            y,
            disabled,
        ),
{
    assert forall|s: Side|
        spec_side_connects(g1, port_grid, x, y, disabled, s) == spec_side_connects(
            g2,
            port_grid,
            x,
            y,
            disabled,
            s,
        ) by {
        let nx = x + s.spec_dx();
        let ny = y + s.spec_dy();
        if g1.in_bounds(nx, ny) {
            assert(wire_profile(g1.cell_at(nx, ny)) == wire_profile(g2.cell_at(nx, ny)));
        }
    }
    assert(spec_side_connects(g1, port_grid, x, y, disabled, Side::Up) == spec_side_connects(
        g2,
        port_grid,
        x,
        y,
        disabled,
        Side::Up,
    ));
}

/// Whether the cell at `pos` holds a wire piece that a signal arriving from
/// `origin_side` may enter, as an optional value.
pub fn check_for_wire_option(pos: &[usize; 2], grid: &ComponentGrid, origin_side: Side) -> (r:
    Option<()>)
    requires
        grid.wf(),
    ensures
        r is Some <==> spec_wire_link(*grid, pos[0] as int, pos[1] as int, origin_side),
{
    match grid.fetch(pos) {
        Some(CellState::Real(c)) => match c {
            Component::WirePiece(w) => {
                if matches!(w.disabled_sides.get(origin_side), EnabledOrDisabled::Enabled) {
                    Some(())
                } else {
                    None
                }
            },
            _ => None,
        },
        _ => None,
    }
}

/// Boolean form of `check_for_wire_option`.
pub fn check_for_wire_link(pos: &[usize; 2], grid: &ComponentGrid, origin_side: Side) -> (r: bool)
    requires
        grid.wf(),
    ensures
        r == spec_wire_link(*grid, pos[0] as int, pos[1] as int, origin_side),
{
    check_for_wire_option(pos, grid, origin_side).is_some()
}

/// Recompute which sides a wire at `position` joins, from the current
/// neighbourhood.
fn compute_wire_sides(
    grid: &ComponentGrid,
    port_grid: &PortGrid,
    position: &[usize; 2],
    disabled: PerSide<EnabledOrDisabled>,
) -> (r: PerSide<bool>)
    requires
        grid.wf(),
        port_grid.wf(),
    ensures
        r == spec_wire_sides(*grid, *port_grid, position[0] as int, position[1] as int, disabled),
{
    let up = compute_one_side(grid, port_grid, position, disabled, Side::Up);
    let down = compute_one_side(grid, port_grid, position, disabled, Side::Down);
    let left = compute_one_side(grid, port_grid, position, disabled, Side::Left);
    let right = compute_one_side(grid, port_grid, position, disabled, Side::Right);
    PerSide { up, down, left, right }
}

/// One side of `compute_wire_sides`.
fn compute_one_side(
    grid: &ComponentGrid,
    port_grid: &PortGrid,
    position: &[usize; 2],
    disabled: PerSide<EnabledOrDisabled>,
    side: Side,
) -> (r: bool)
    requires
        grid.wf(),
        port_grid.wf(),
    ensures
        r == spec_side_connects(
            *grid,
            *port_grid,
            position[0] as int,
            position[1] as int,
            disabled,
            side,
        ),
{
    if matches!(disabled.get(side), EnabledOrDisabled::Disabled) {
        return false;
    }
    let has_port = match port_grid.get_side_existance(position, side) {
        Ok(b) => b,
        Err(_) => false,
    };
    if has_port {
        return true;
    }
    match crate::side::combine_offset(position, &side.as_offset()) {
        Some(neighbor) => {
            let linked = check_for_wire_link(&neighbor, grid, side.reverse());
            proof {
                if !linked {
                    assert(!spec_wire_link(
                        *grid,
                        position[0] + side.spec_dx(),
                        position[1] + side.spec_dy(),
                        side.spec_reverse(),
                    ));
                }
            }
            linked
        },
        None => {
            // The neighbour coordinate leaves the machine range, so it is
            // certainly off the grid.
            let gw = grid.grid.len();
            let gh = if gw > 0 {
                grid.grid[0].len()
            } else {
                0
            };
            proof {
                assert(grid.width() == gw && grid.height() == gh);
                assert(!grid.in_bounds(
                    position[0] + side.spec_dx(),
                    position[1] + side.spec_dy(),
                ));
            }
            false
        },
    }
}

impl Wire {
    /// Refresh the cached `connected_sides` from the neighbourhood, as done
    /// whenever this wire or a neighbour is placed, removed or reconfigured.
    pub fn on_place(
        &mut self,
        own_pos: &[usize; 2],
        grid: &ComponentGrid,
        port_grid: &PortGrid,
    )
        requires
            grid.wf(),
            port_grid.wf(),
        ensures
            final(self).disabled_sides == old(self).disabled_sides,
            final(self).connected_sides == spec_wire_sides(
                *grid,
                *port_grid,
                own_pos[0] as int,
                own_pos[1] as int,
                old(self).disabled_sides,
            ),
    {
        self.connected_sides = compute_wire_sides(grid, port_grid, own_pos, self.disabled_sides);
    }
}

/// The live editing state: the component grid plus its port overlay.
#[derive(Debug)]
pub struct SimulationData {
    pub grid: ComponentGrid,
    pub port_grid: PortGrid,
}

impl SimulationData {
    /// Shape invariant: both grids rectangular, the overlay one cell wider
    /// and taller than the component grid.
    pub open spec fn wf(self) -> bool {
        &&& self.grid.wf()
        &&& self.port_grid.wf()
        &&& self.grid.width() >= 1
        &&& self.grid.height() >= 1
        &&& self.port_grid.cols() == self.grid.width() + 1
        &&& self.port_grid.rows() == self.grid.height() + 1
    }

    /// Every wire's cached `connected_sides` agree with the current
    /// neighbourhood.
    pub open spec fn wires_fresh(self) -> bool {
        forall|x: int, y: int|
            self.grid.in_bounds(x, y) ==> match #[trigger] self.grid.cell_at(x, y) {
                CellState::Real(c) => match c {
                    Component::WirePiece(w) => w.connected_sides == spec_wire_sides(
                        self.grid,
                        self.port_grid,
                        x,
                        y,
                        w.disabled_sides,
                    ),
                    _ => true,
                },
                _ => true,
            }
    }

    /// An empty simulation of `width` by `height` cells.
    pub fn new(width: usize, height: usize) -> (r: SimulationData)
        requires
            1 <= width < usize::MAX,
            1 <= height < usize::MAX,
        ensures
            r.wf(),
            r.wires_fresh(),
            r.grid.width() == width,
            r.grid.height() == height,
            forall|x: int, y: int|
                r.grid.in_bounds(x, y) ==> (#[trigger] r.grid.cell_at(x, y)) is Empty,
            forall|a: int, b: int, s: Side|
                r.port_grid.slot_valid(a, b, s) ==> #[trigger] r.port_grid.spec_slot(
                    a,
                    b,
                    s,
                ) is None,
    {
        let grid = ComponentGrid::new(width, height);
        let port_grid = PortGrid::new_with_size(height, width);
        SimulationData { grid, port_grid }
    }

    /// Refresh the cached `connected_sides` of every wire on the grid.
    /// Nothing else changes.
    #[verifier::rlimit(60)]
    fn refresh_wires(&mut self)
        requires
            old(self).wf(),
        ensures
            final(self).wf(),
            final(self).port_grid == old(self).port_grid,
            final(self).grid.width() == old(self).grid.width(),
            final(self).grid.height() == old(self).grid.height(),
            same_skeleton(old(self).grid, final(self).grid),
            final(self).wires_fresh(),
            forall|x: int, y: int|
                old(self).grid.in_bounds(x, y) && wire_profile(
                    #[trigger] old(self).grid.cell_at(x, y),
                ) is None ==> final(self).grid.cell_at(x, y) == old(self).grid.cell_at(x, y),
            forall|x: int, y: int|
                old(self).grid.in_bounds(x, y) ==> match #[trigger] old(self).grid.cell_at(x, y) {
                    CellState::Real(c) => match c {
                        Component::WirePiece(w) => (final(self).grid.cell_at(x, y) matches
                            CellState::Real(c2) && c2 matches Component::WirePiece(w2)
                            && w2.disabled_sides == w.disabled_sides),
                        _ => true,
                    },
                    _ => true,
                },
    {
        let w = self.grid.grid.len();
        let mut x: usize = 0;
        while x < w
            invariant
                old(self).wf(),
                self.wf(),
                w == self.grid.width(),
                self.port_grid == old(self).port_grid,
                self.grid.width() == old(self).grid.width(),
                self.grid.height() == old(self).grid.height(),
                x <= w,
                same_skeleton(old(self).grid, self.grid),
                forall|a: int, b: int|
                    old(self).grid.in_bounds(a, b) && a >= x ==> #[trigger] self.grid.cell_at(a, b)
                        == old(self).grid.cell_at(a, b),
                forall|a: int, b: int|
                    old(self).grid.in_bounds(a, b) && a < x ==> cell_refreshed(
                        old(self).grid,
                        old(self).port_grid,
                        #[trigger] self.grid.cell_at(a, b),
                        a,
                        b,
                    ),
            decreases w - x,
        {
            let h = self.grid.grid[x].len();
            let mut y: usize = 0;
            while y < h
                invariant
                    old(self).wf(),
                    self.wf(),
                    w == self.grid.width(),
                    h == self.grid.height(),
                    self.port_grid == old(self).port_grid,
                    self.grid.width() == old(self).grid.width(),
                    self.grid.height() == old(self).grid.height(),
                    x < w,
                    y <= h,
                    same_skeleton(old(self).grid, self.grid),
                    forall|a: int, b: int|
                        old(self).grid.in_bounds(a, b) && (a > x || (a == x && b >= y))
                            ==> #[trigger] self.grid.cell_at(a, b) == old(self).grid.cell_at(a, b),
                    forall|a: int, b: int|
                        old(self).grid.in_bounds(a, b) && (a < x || (a == x && b < y))
                            ==> cell_refreshed(
                            old(self).grid,
                            old(self).port_grid,
                            #[trigger] self.grid.cell_at(a, b),
                            a,
                            b,
                        ),
                decreases h - y,
            {
                let cell = self.grid.grid[x][y];
                match cell {
                    CellState::Real(c) => match c {
                        Component::WirePiece(wpiece) => {
                            let sides = compute_wire_sides(
                                &self.grid,
                                &self.port_grid,
                                &[x, y],
                                wpiece.disabled_sides,
                            );
                            let ghost before = self.grid;
                            self.grid.grid[x][y] = CellState::Real(
                                Component::WirePiece(
                                    Wire {
                                        connected_sides: sides,
                                        disabled_sides: wpiece.disabled_sides,
                                    },
                                ),
                            );
                            proof {
                                assert(self.grid.grid@ == before.grid@.update(
                                    x as int,
                                    self.grid.grid@[x as int],
                                ));
                                assert(self.grid.grid@[x as int]@ == before.grid@[x as int]@.update(
                                    y as int,
                                    self.grid.cell_at(x as int, y as int),
                                ));
                                assert(forall|a: int, b: int|
                                    0 <= a < self.grid.width() && 0 <= b < self.grid.height() && !(a
                                        == x && b == y) ==> #[trigger] self.grid.cell_at(a, b)
                                        == before.cell_at(a, b));
                                assert(same_skeleton(old(self).grid, self.grid));
                                lemma_wire_sides_skeleton(
                                    before,
                                    old(self).grid,
                                    old(self).port_grid,
                                    x as int,
                                    y as int,
                                    wpiece.disabled_sides,
                                );
                                assert(cell_refreshed(
                                    old(self).grid,
                                    old(self).port_grid,
                                    self.grid.cell_at(x as int, y as int),
                                    x as int,
                                    y as int,
                                ));
                            }
                        },
                        _ => {
                            proof {
                                assert(cell_refreshed(
                                    old(self).grid,
                                    old(self).port_grid,
                                    self.grid.cell_at(x as int, y as int),
                                    x as int,
                                    y as int,
                                ));
                            }
                        },
                    },
                    _ => {
                        proof {
                            assert(cell_refreshed(
                                old(self).grid,
                                old(self).port_grid,
                                self.grid.cell_at(x as int, y as int),
                                x as int,
                                y as int,
                            ));
                        }
                    },
                }
                y = y + 1;
            }
            x = x + 1;
        }
        proof {
            assert forall|x0: int, y0: int|
                self.grid.in_bounds(x0, y0) implies match #[trigger] self.grid.cell_at(x0, y0) {
                CellState::Real(c) => match c {
                    Component::WirePiece(wr) => wr.connected_sides == spec_wire_sides(
                        self.grid,
                        self.port_grid,
                        x0,
                        y0,
                        wr.disabled_sides,
                    ),
                    _ => true,
                },
                _ => true,
            } by {
                assert(cell_refreshed(
                    old(self).grid,
                    old(self).port_grid,
                    self.grid.cell_at(x0, y0),
                    x0,
                    y0,
                ));
                match self.grid.cell_at(x0, y0) {
                    CellState::Real(c) => match c {
                        Component::WirePiece(wr) => {
                            lemma_wire_sides_skeleton(
                                old(self).grid,
                                self.grid,
                                self.port_grid,
                                x0,
                                y0,
                                wr.disabled_sides,
                            );
                        },
                        _ => {},
                    },
                    _ => {},
                }
            }
        }
    }
}

/// How one refreshed cell relates to the pre-refresh state: a wire keeps
/// its switches and caches the sides computed on the pre-refresh grid, any
/// other cell is untouched.
pub open spec fn cell_refreshed(
    g: ComponentGrid,
    pg: PortGrid,
    new_cell: CellState,
    x: int,
    y: int,
) -> bool {
    match g.cell_at(x, y) {
        CellState::Real(c) => match c {
            Component::WirePiece(w) => new_cell == CellState::Real(
                Component::WirePiece(
                    Wire {
                        connected_sides: spec_wire_sides(g, pg, x, y, w.disabled_sides),
                        disabled_sides: w.disabled_sides,
                    },
                ),
            ),
            _ => new_cell == g.cell_at(x, y),
        },
        _ => new_cell == g.cell_at(x, y),
    }
}


impl Component {
    /// React to being placed at `own_pos`: a wire caches its connected
    /// sides from the neighbourhood; every other kind does nothing.
    pub fn on_place(&mut self, own_pos: &[usize; 2], grid: &ComponentGrid, port_grid: &PortGrid)
        requires
            grid.wf(),
            port_grid.wf(),
        ensures
            match *old(self) {
                Component::WirePiece(w) => *final(self) == Component::WirePiece(
                    Wire {
                        connected_sides: spec_wire_sides(
                            *grid,
                            *port_grid,
                            own_pos[0] as int,
                            own_pos[1] as int,
                            w.disabled_sides,
                        ),
                        disabled_sides: w.disabled_sides,
                    },
                ),
                _ => *final(self) == *old(self),
            },
    {
        match self {
            Component::WirePiece(w) => {
                w.on_place(own_pos, grid, port_grid);
            },
            _ => {},
        }
    }
}

/// Every declared port of every kind sits inside the kind's footprint and
/// faces left or right, so its overlay slot exists whenever the footprint
/// lies on the grid.
pub proof fn lemma_ports_in_footprint(kind: DummyComponent)
    ensures
        forall|k: int|
            0 <= k < kind.spec_num_ports() ==> {
                let e = #[trigger] kind.spec_port_entry(k);
                &&& 0 <= e.0 < kind.spec_grid_size().0
                &&& 0 <= e.1 < kind.spec_grid_size().1
                &&& (e.2 == Side::Left || e.2 == Side::Right)
            },
{
}

/// What the origin cell holds right after a fresh component of `kind` was
/// placed: the kind's default, with a wire's cached sides recomputed.
pub open spec fn placed_cell_ok(s: SimulationData, kind: DummyComponent, px: int, py: int) -> bool {
    match kind {
        DummyComponent::WirePiece => (s.grid.cell_at(px, py) matches CellState::Real(c)
            && c matches Component::WirePiece(w) && w.disabled_sides == PerSide::<
            EnabledOrDisabled,
        >::splat_spec(EnabledOrDisabled::Enabled) && w.connected_sides == spec_wire_sides(
            s.grid,
            s.port_grid,
            px,
            py,
            w.disabled_sides,
        )),
        _ => s.grid.cell_at(px, py) == CellState::Real(kind.spec_default()),
    }
}

impl SimulationData {
    /// Whether every overlay slot addressed by the port table of `kind`
    /// placed at `(px, py)` lies inside the overlay.
    pub open spec fn kind_slots_valid(self, kind: DummyComponent, px: int, py: int) -> bool {
        forall|k: int|
            0 <= k < kind.spec_num_ports() ==> {
                let e = #[trigger] kind.spec_port_entry(k);
                self.port_grid.slot_valid(px + e.0, py + e.1, e.2)
            }
    }

    /// Commit a placement request: reject it exactly when the footprint
    /// overlaps something or leaves the grid, otherwise write the cells,
    /// declare the kind's ports in the overlay and refresh every wire's
    /// cached sides.  A rejected request changes nothing.
    #[verifier::rlimit(60)]
    pub fn place_new_component(&mut self, kind: DummyComponent, position: &[usize; 2]) -> (r:
        Result<(), PlaceError>)
        requires
            old(self).wf(),
        ensures
            final(self).wf(),
            final(self).grid.width() == old(self).grid.width(),
            final(self).grid.height() == old(self).grid.height(),
            r is Ok <==> old(self).grid.spec_can_fit(
                position[0] as int,
                position[1] as int,
                kind.spec_grid_size().0,
                kind.spec_grid_size().1,
            ),
            r is Err ==> *final(self) == *old(self) && r == Err::<(), PlaceError>(
                PlaceError::CantFit,
            ),
            r is Ok ==> {
                let px = position[0] as int;
                let py = position[1] as int;
                let sx = kind.spec_grid_size().0;
                let sy = kind.spec_grid_size().1;
                &&& final(self).wires_fresh()
                &&& placed_cell_ok(*final(self), kind, px, py)
                &&& forall|x: int, y: int|
                    in_footprint(px, py, sx, sy, x, y) && !(x == px && y == py) ==> ((
                    #[trigger] final(self).grid.cell_at(x, y)) matches CellState::Reference(p)
                        && p[0] == px && p[1] == py)
                &&& forall|k: int|
                    0 <= k < kind.spec_num_ports() ==> {
                        let e = #[trigger] kind.spec_port_entry(k);
                        final(self).port_grid.spec_slot(px + e.0, py + e.1, e.2) == Some(
                            Port { checked: false },
                        )
                    }
                &&& forall|a: int, b: int, sd: Side|
                    old(self).port_grid.slot_valid(a, b, sd) && !kind.spec_declares_port(
                        a - px,
                        b - py,
                        sd,
                    ) ==> #[trigger] final(self).port_grid.spec_slot(a, b, sd) == old(self).port_grid.spec_slot(a, b, sd)
                &&& forall|x: int, y: int|
                    old(self).grid.in_bounds(x, y) && !in_footprint(px, py, sx, sy, x, y)
                        && wire_profile(#[trigger] old(self).grid.cell_at(x, y)) is None
                        ==> final(self).grid.cell_at(x, y) == old(self).grid.cell_at(x, y)
                &&& forall|x: int, y: int|
                    old(self).grid.in_bounds(x, y) && !in_footprint(px, py, sx, sy, x, y) ==> match
                        #[trigger] old(self).grid.cell_at(x, y) {
                        CellState::Real(c) => match c {
                            Component::WirePiece(w) => (final(self).grid.cell_at(x, y) matches
                                CellState::Real(c2) && c2 matches Component::WirePiece(w2)
                                && w2.disabled_sides == w.disabled_sides),
                            _ => true,
                        },
                        _ => true,
                    }
            },
    {
        let ghost px = position[0] as int;
        let ghost py = position[1] as int;
        let size = kind.get_grid_size();
        if !self.grid.can_fit(position, &size) {
            return Err(PlaceError::CantFit);
        }
        let gw = self.grid.grid.len();
        let gh = self.grid.grid[0].len();
        let mut component = kind.build_default();
        component.on_place(position, &self.grid, &self.port_grid);
        self.grid.place_component(component, position);
        let ghost mid = *self;
        let ports = kind.ports();
        proof {
            lemma_ports_in_footprint(kind);
            assert(self.port_grid.cols() == old(self).grid.width() + 1);
            assert forall|k: int| 0 <= k < ports@.len() implies self.port_grid.entry_valid(
                #[trigger] ports@[k],
                position@,
            ) by {
                let e = kind.spec_port_entry(k);
                assert(e == (ports@[k].0[0] as int, ports@[k].0[1] as int, ports@[k].1));
                assert(0 <= e.0 < kind.spec_grid_size().0 && 0 <= e.1 < kind.spec_grid_size().1);
                assert(e.2 == Side::Left || e.2 == Side::Right);
                assert(old(self).grid.spec_can_fit(px, py, kind.spec_grid_size().0, kind.spec_grid_size().1));
                assert(px + kind.spec_grid_size().0 <= old(self).grid.width());
                assert(py + kind.spec_grid_size().1 <= old(self).grid.height());
                assert(px + e.0 < old(self).grid.width());
                assert(py + e.1 < old(self).grid.height());
                assert(old(self).grid.width() <= gw);
                assert(old(self).grid.height() <= gh);
                assert(ports@[k].0[0] + position@[0] <= usize::MAX);
                assert(ports@[k].0[1] + position@[1] <= usize::MAX);
                assert(self.port_grid.cols() == old(self).grid.width() + 1);
                assert(self.port_grid.rows() == old(self).grid.height() + 1);
                if e.2 == Side::Left {
                    assert(self.port_grid.slot_valid(
                        ports@[k].0[0] + position@[0],
                        ports@[k].0[1] + position@[1],
                        ports@[k].1,
                    ));
                } else {
                    assert(self.port_grid.slot_valid(
                        ports@[k].0[0] + position@[0],
                        ports@[k].0[1] + position@[1],
                        ports@[k].1,
                    ));
                }
            }
        }
        let default_port = Port::default();
        let res = self.port_grid.modify_bulk(Some(default_port), &ports, position);
        proof {
            assert(res is Ok);
            assert(default_port == (Port { checked: false }));
        }
        let ghost mid2 = *self;
        self.refresh_wires();
        proof {
            assert(same_skeleton(mid2.grid, self.grid));
            assert(self.port_grid == mid2.port_grid);
            let ghost sx = kind.spec_grid_size().0;
            let ghost sy = kind.spec_grid_size().1;
            // Each declared port's slot now holds a fresh unchecked port.
            assert forall|k: int| 0 <= k < kind.spec_num_ports() implies {
                let e = #[trigger] kind.spec_port_entry(k);
                self.port_grid.spec_slot(px + e.0, py + e.1, e.2) == Some(Port { checked: false })
            } by {
                let entry = ports@[k];
                assert(kind.spec_port_entry(k) == (entry.0[0] as int, entry.0[1] as int, entry.1));
                assert(mid2.port_grid.spec_slot(
                    entry.0[0] + position@[0],
                    entry.0[1] + position@[1],
                    entry.1,
                ) == Some(default_port));
            }
            // Covered cells keep their back-references through the refresh.
            assert forall|x: int, y: int|
                in_footprint(px, py, sx, sy, x, y) && !(x == px && y == py) implies ((
            #[trigger] self.grid.cell_at(x, y)) matches CellState::Reference(p) && p[0] == px
                && p[1] == py) by {
                assert((mid2.grid.cell_at(x, y) matches CellState::Reference(p) && p[0] == px
                    && p[1] == py));
                assert(wire_profile(mid2.grid.cell_at(x, y)) is None);
                assert(self.grid.cell_at(x, y) == mid2.grid.cell_at(x, y));
            }
            // Cells outside the footprint: non-wires are untouched, wires
            // keep their switches.
            assert forall|x: int, y: int|
                old(self).grid.in_bounds(x, y) && !in_footprint(px, py, sx, sy, x, y)
                    && wire_profile(#[trigger] old(self).grid.cell_at(x, y)) is None
                implies self.grid.cell_at(x, y) == old(self).grid.cell_at(x, y) by {
                assert(mid2.grid.cell_at(x, y) == old(self).grid.cell_at(x, y));
                assert(wire_profile(mid2.grid.cell_at(x, y)) is None);
                assert(self.grid.cell_at(x, y) == mid2.grid.cell_at(x, y));
            }
            assert forall|x: int, y: int|
                old(self).grid.in_bounds(x, y) && !in_footprint(px, py, sx, sy, x, y) implies match
                #[trigger] old(self).grid.cell_at(x, y) {
                CellState::Real(c) => match c {
                    Component::WirePiece(w) => (self.grid.cell_at(x, y) matches CellState::Real(c2)
                        && c2 matches Component::WirePiece(w2) && w2.disabled_sides
                        == w.disabled_sides),
                    _ => true,
                },
                _ => true,
            } by {
                assert(mid2.grid.cell_at(x, y) == old(self).grid.cell_at(x, y));
                match old(self).grid.cell_at(x, y) {
                    CellState::Real(c) => match c {
                        Component::WirePiece(w) => {
                            assert(cell_refreshed(
                                mid2.grid,
                                mid2.port_grid,
                                self.grid.cell_at(x, y),
                                x,
                                y,
                            ));
                        },
                        _ => {},
                    },
                    _ => {},
                }
            }
            // The freshly placed component's cell.
            assert(cell_refreshed(mid2.grid, mid2.port_grid, self.grid.cell_at(px, py), px, py));
            match kind {
                DummyComponent::WirePiece => {
                    lemma_wire_sides_skeleton(
                        mid2.grid,
                        self.grid,
                        self.port_grid,
                        px,
                        py,
                        PerSide::<EnabledOrDisabled>::splat_spec(EnabledOrDisabled::Enabled),
                    );
                    assert(placed_cell_ok(*self, kind, px, py));
                },
                _ => {
                    assert(self.grid.cell_at(px, py) == mid2.grid.cell_at(px, py));
                    assert(placed_cell_ok(*self, kind, px, py));
                },
            }
            // Untouched overlay slots.
            assert forall|a: int, b: int, sd: Side|
                old(self).port_grid.slot_valid(a, b, sd) && !kind.spec_declares_port(
                    a - px,
                    b - py,
                    sd,
                ) implies #[trigger] self.port_grid.spec_slot(a, b, sd) == old(
                self,
            ).port_grid.spec_slot(a, b, sd) by {
                if exists|k: int|
                    0 <= k < ports@.len() && PortGrid::entry_addresses(
                        #[trigger] ports@[k],
                        position@,
                        a,
                        b,
                        sd,
                    ) {
                    let k = choose|k: int|
                        0 <= k < ports@.len() && PortGrid::entry_addresses(
                            #[trigger] ports@[k],
                            position@,
                            a,
                            b,
                            sd,
                        );
                    let e = kind.spec_port_entry(k);
                    assert(e == (ports@[k].0[0] as int, ports@[k].0[1] as int, ports@[k].1));
                    assert(kind.spec_declares_port(a - px, b - py, sd));
                }
            }
        }
        Ok(())
    }
}


impl SimulationData {
    /// Clear the footprint of the component kind at `position` and withdraw
    /// its declared ports from the overlay.  Nothing outside the footprint
    /// changes: a neighbouring wire keeps its cached sides until the next
    /// placement or reconfiguration recomputes them, and a stale side only
    /// makes the compiler's walk step into the now-empty cell and stop.
    /// Rejected exactly when the footprint leaves the grid, in which case
    /// nothing changes.
    pub fn remove_component(&mut self, component: DummyComponent, position: &[usize; 2]) -> (r:
        Result<(), PlaceError>)
        requires
            old(self).wf(),
        ensures
            final(self).wf(),
            final(self).grid.width() == old(self).grid.width(),
            final(self).grid.height() == old(self).grid.height(),
            r is Ok <==> old(self).grid.footprint_in_bounds(
                position[0] as int,
                position[1] as int,
                component.spec_grid_size().0,
                component.spec_grid_size().1,
            ),
            r is Err ==> *final(self) == *old(self) && r == Err::<(), PlaceError>(
                PlaceError::CantFit,
            ),
            r is Ok ==> {
                let px = position[0] as int;
                let py = position[1] as int;
                let sx = component.spec_grid_size().0;
                let sy = component.spec_grid_size().1;
                &&& forall|x: int, y: int|
                    in_footprint(px, py, sx, sy, x, y) ==> (#[trigger] final(self).grid.cell_at(
                        x,
                        y,
                    )) is Empty
                &&& forall|k: int|
                    0 <= k < component.spec_num_ports() ==> {
                        let e = #[trigger] component.spec_port_entry(k);
                        final(self).port_grid.spec_slot(px + e.0, py + e.1, e.2) is None
                    }
                &&& forall|a: int, b: int, sd: Side|
                    old(self).port_grid.slot_valid(a, b, sd) && !component.spec_declares_port(
                        a - px,
                        b - py,
                        sd,
                    ) ==> #[trigger] final(self).port_grid.spec_slot(a, b, sd) == old(self).port_grid.spec_slot(a, b, sd)
                &&& forall|x: int, y: int|
                    old(self).grid.in_bounds(x, y) && !in_footprint(px, py, sx, sy, x, y)
                        ==> #[trigger] final(self).grid.cell_at(x, y) == old(self).grid.cell_at(
                        x,
                        y,
                    )
            },
    {
        let ghost px = position[0] as int;
        let ghost py = position[1] as int;
        let size = component.get_grid_size();
        let gw = self.grid.grid.len();
        let gh = self.grid.grid[0].len();
        let fits = position[0] <= gw && size[0] <= gw - position[0] && position[1] <= gh && size[1]
            <= gh - position[1];
        if !fits {
            return Err(PlaceError::CantFit);
        }
        self.grid.remove_component(component, position);
        let ports = component.ports();
        proof {
            lemma_ports_in_footprint(component);
            assert forall|k: int| 0 <= k < ports@.len() implies self.port_grid.entry_valid(
                #[trigger] ports@[k],
                position@,
            ) by {
                let e = component.spec_port_entry(k);
                assert(e == (ports@[k].0[0] as int, ports@[k].0[1] as int, ports@[k].1));
                assert(px + e.0 < old(self).grid.width());
                assert(py + e.1 < old(self).grid.height());
                assert(old(self).grid.width() <= gw);
                assert(old(self).grid.height() <= gh);
            }
        }
        let res = self.port_grid.modify_bulk(None, &ports, position);
        proof {
            assert(res is Ok);
            assert forall|k: int| 0 <= k < component.spec_num_ports() implies {
                let e = #[trigger] component.spec_port_entry(k);
                self.port_grid.spec_slot(px + e.0, py + e.1, e.2) is None
            } by {
                let entry = ports@[k];
                assert(component.spec_port_entry(k) == (
                    entry.0[0] as int,
                    entry.0[1] as int,
                    entry.1,
                ));
                assert(self.port_grid.spec_slot(
                    entry.0[0] + position@[0],
                    entry.0[1] + position@[1],
                    entry.1,
                ) == Option::<Port>::None);
            }
            assert forall|a: int, b: int, sd: Side|
                old(self).port_grid.slot_valid(a, b, sd) && !component.spec_declares_port(
                    a - px,
                    b - py,
                    sd,
                ) implies #[trigger] self.port_grid.spec_slot(a, b, sd) == old(self).port_grid.spec_slot(a, b, sd) by {
                if exists|k: int|
                    0 <= k < ports@.len() && PortGrid::entry_addresses(
                        #[trigger] ports@[k],
                        position@,
                        a,
                        b,
                        sd,
                    ) {
                    let k = choose|k: int|
                        0 <= k < ports@.len() && PortGrid::entry_addresses(
                            #[trigger] ports@[k],
                            position@,
                            a,
                            b,
                            sd,
                        );
                    let e = component.spec_port_entry(k);
                    assert(e == (ports@[k].0[0] as int, ports@[k].0[1] as int, ports@[k].1));
                    assert(component.spec_declares_port(a - px, b - py, sd));
                }
            }
        }
        Ok(())
    }

    /// Recompute the cached sides of the wire at `position`, if one is
    /// there; any other cell is left alone.  `None` when `position` is off
    /// the grid.
    pub fn update_component(&mut self, position: &[usize; 2]) -> (r: Option<()>)
        requires
            old(self).wf(),
        ensures
            final(self).wf(),
            final(self).port_grid == old(self).port_grid,
            final(self).grid.width() == old(self).grid.width(),
            final(self).grid.height() == old(self).grid.height(),
            r is Some <==> old(self).grid.in_bounds(position[0] as int, position[1] as int),
            r is None ==> *final(self) == *old(self),
            forall|x: int, y: int|
                old(self).grid.in_bounds(x, y) && !(x == position[0] && y == position[1])
                    ==> #[trigger] final(self).grid.cell_at(x, y) == old(self).grid.cell_at(x, y),
            old(self).grid.in_bounds(position[0] as int, position[1] as int) ==> cell_refreshed(
                old(self).grid,
                old(self).port_grid,
                final(self).grid.cell_at(position[0] as int, position[1] as int),
                position[0] as int,
                position[1] as int,
            ),
    {
        let x = position[0];
        let y = position[1];
        let cell = match self.grid.fetch(position) {
            Some(c) => c,
            None => {
                return None;
            },
        };
        match cell {
            CellState::Real(c) => match c {
                Component::WirePiece(wpiece) => {
                    let sides = compute_wire_sides(
                        &self.grid,
                        &self.port_grid,
                        position,
                        wpiece.disabled_sides,
                    );
                    let ghost before = self.grid;
                    self.grid.grid[x][y] = CellState::Real(
                        Component::WirePiece(
                            Wire { connected_sides: sides, disabled_sides: wpiece.disabled_sides },
                        ),
                    );
                    proof {
                        assert(self.grid.grid@ == before.grid@.update(
                            x as int,
                            self.grid.grid@[x as int],
                        ));
                        assert(self.grid.grid@[x as int]@ == before.grid@[x as int]@.update(
                            y as int,
                            self.grid.cell_at(x as int, y as int),
                        ));
                        assert(forall|a: int, b: int|
                            0 <= a < self.grid.width() && 0 <= b < self.grid.height() && !(a == x
                                && b == y) ==> #[trigger] self.grid.cell_at(a, b)
                                == before.cell_at(a, b));
                    }
                },
                _ => {},
            },
            _ => {},
        }
        Some(())
    }

    /// Enable or disable one side of the wire at `position`, then refresh
    /// every wire's cached sides.  `None` (and no change) when the cell does
    /// not hold a wire.
    pub fn set_wire_side(&mut self, position: &[usize; 2], side: Side, state: EnabledOrDisabled)
        -> (r: Option<()>)
        requires
            old(self).wf(),
        ensures
            final(self).wf(),
            final(self).port_grid == old(self).port_grid,
            final(self).grid.width() == old(self).grid.width(),
            final(self).grid.height() == old(self).grid.height(),
            r is None ==> *final(self) == *old(self),
            r is Some <==> (old(self).grid.in_bounds(position[0] as int, position[1] as int)
                && wire_profile(
                old(self).grid.cell_at(position[0] as int, position[1] as int),
            ) is Some),
            r is Some ==> final(self).wires_fresh(),
            r is Some ==> {
                let px = position[0] as int;
                let py = position[1] as int;
                &&& (final(self).grid.cell_at(px, py) matches CellState::Real(c2) && c2 matches
                    Component::WirePiece(w2) && w2.disabled_sides == wire_profile(
                    old(self).grid.cell_at(px, py),
                ).unwrap().spec_set(side, state))
                &&& forall|x: int, y: int|
                    old(self).grid.in_bounds(x, y) && !(x == px && y == py) && wire_profile(
                        #[trigger] old(self).grid.cell_at(x, y),
                    ) is None ==> final(self).grid.cell_at(x, y) == old(self).grid.cell_at(x, y)
                &&& forall|x: int, y: int|
                    old(self).grid.in_bounds(x, y) && !(x == px && y == py) ==> match
                        #[trigger] old(self).grid.cell_at(x, y) {
                        CellState::Real(c) => match c {
                            Component::WirePiece(w) => (final(self).grid.cell_at(x, y) matches
                                CellState::Real(c2) && c2 matches Component::WirePiece(w2)
                                && w2.disabled_sides == w.disabled_sides),
                            _ => true,
                        },
                        _ => true,
                    }
            },
    {
        let ghost px = position[0] as int;
        let ghost py = position[1] as int;
        let x = position[0];
        let y = position[1];
        let cell = match self.grid.fetch(position) {
            Some(c) => c,
            None => {
                return None;
            },
        };
        match cell {
            CellState::Real(c) => match c {
                Component::WirePiece(wpiece) => {
                    let mut disabled = wpiece.disabled_sides;
                    disabled.set(side, state);
                    let ghost before = self.grid;
                    self.grid.grid[x][y] = CellState::Real(
                        Component::WirePiece(
                            Wire {
                                connected_sides: wpiece.connected_sides,
                                disabled_sides: disabled,
                            },
                        ),
                    );
                    proof {
                        assert(self.grid.grid@ == before.grid@.update(
                            x as int,
                            self.grid.grid@[x as int],
                        ));
                        assert(self.grid.grid@[x as int]@ == before.grid@[x as int]@.update(
                            y as int,
                            self.grid.cell_at(x as int, y as int),
                        ));
                        assert(forall|a: int, b: int|
                            0 <= a < self.grid.width() && 0 <= b < self.grid.height() && !(a == x
                                && b == y) ==> #[trigger] self.grid.cell_at(a, b)
                                == before.cell_at(a, b));
                    }
                    let ghost mid = *self;
                    self.refresh_wires();
                    proof {
                        assert(self.port_grid == mid.port_grid);
                        assert((mid.grid.cell_at(px, py) matches CellState::Real(cc) && cc matches
                            Component::WirePiece(ww) && ww.disabled_sides == disabled));
                        assert forall|a: int, b: int|
                            old(self).grid.in_bounds(a, b) && !(a == px && b == py) && wire_profile(
                                #[trigger] old(self).grid.cell_at(a, b),
                            ) is None implies self.grid.cell_at(a, b) == old(self).grid.cell_at(
                            a,
                            b,
                        ) by {
                            assert(mid.grid.cell_at(a, b) == old(self).grid.cell_at(a, b));
                            assert(wire_profile(mid.grid.cell_at(a, b)) is None);
                        }
                        assert forall|a: int, b: int|
                            old(self).grid.in_bounds(a, b) && !(a == px && b == py) implies match
                            #[trigger] old(self).grid.cell_at(a, b) {
                            CellState::Real(cc) => match cc {
                                Component::WirePiece(ww) => (self.grid.cell_at(a, b) matches
                                    CellState::Real(c2) && c2 matches Component::WirePiece(w2)
                                    && w2.disabled_sides == ww.disabled_sides),
                                _ => true,
                            },
                            _ => true,
                        } by {
                            assert(mid.grid.cell_at(a, b) == old(self).grid.cell_at(a, b));
                        }
                    }
                    Some(())
                },
                _ => None,
            },
            _ => None,
        }
    }
}


/// A level definition as read from a level file: grid dimensions, the
/// provider and observer sequences, and the starting component layout.
#[derive(Debug)]
pub struct LevelDataLoad {
    pub name: String,
    pub desc: String,
    pub grid_size: [usize; 2],
    pub provided_inputs: Vec<Vec<Option<u8>>>,
    pub expected_outputs: Vec<Vec<Option<u8>>>,
    pub start: ComponentGrid,
}

impl LevelData {
    /// The replayable part of a level definition; the starting layout is
    /// consumed separately by `SimulationData::from_level`.
    pub fn from_load(load: LevelDataLoad) -> (r: LevelData)
        ensures
            r.name == load.name,
            r.desc == load.desc,
            r.provided_inputs == load.provided_inputs,
            r.expected_outputs == load.expected_outputs,
    {
        LevelData {
            name: load.name,
            desc: load.desc,
            provided_inputs: load.provided_inputs,
            expected_outputs: load.expected_outputs,
        }
    }
}

impl SimulationData {
    /// Write a loaded component into the grid without an overlap check,
    /// declare its ports, and refresh every wire's cached sides.  Runtime
    /// port bindings of the loaded value are dropped, as they are stale by
    /// definition after a load.  Rejected exactly when the footprint leaves
    /// the grid.
    pub fn load_component(&mut self, component: Component, grid_position: &[usize; 2]) -> (r:
        Result<(), PlaceError>)
        requires
            old(self).wf(),
        ensures
            final(self).wf(),
            final(self).grid.width() == old(self).grid.width(),
            final(self).grid.height() == old(self).grid.height(),
            r is Ok <==> old(self).grid.footprint_in_bounds(
                grid_position[0] as int,
                grid_position[1] as int,
                component.spec_dummy().spec_grid_size().0,
                component.spec_dummy().spec_grid_size().1,
            ),
            r is Err ==> *final(self) == *old(self) && r == Err::<(), PlaceError>(
                PlaceError::CantFit,
            ),
            r is Ok ==> final(self).wires_fresh(),
            r is Ok ==> {
                let px = grid_position[0] as int;
                let py = grid_position[1] as int;
                match component.spec_build() {
                    Component::WirePiece(w) => (final(self).grid.cell_at(px, py) matches
                        CellState::Real(c2) && c2 matches Component::WirePiece(w2)
                        && w2.disabled_sides == w.disabled_sides),
                    c => final(self).grid.cell_at(px, py) == CellState::Real(c),
                }
            },
            r is Ok ==> {
                let px = grid_position[0] as int;
                let py = grid_position[1] as int;
                forall|k: int|
                    0 <= k < component.spec_dummy().spec_num_ports() ==> {
                        let e = #[trigger] component.spec_dummy().spec_port_entry(k);
                        final(self).port_grid.spec_slot(px + e.0, py + e.1, e.2) == Some(
                            Port { checked: false },
                        )
                    }
            },
            r is Ok ==> {
                let px = grid_position[0] as int;
                let py = grid_position[1] as int;
                let sx = component.spec_dummy().spec_grid_size().0;
                let sy = component.spec_dummy().spec_grid_size().1;
                &&& forall|x: int, y: int|
                    in_footprint(px, py, sx, sy, x, y) && !(x == px && y == py) ==> ((
                    #[trigger] final(self).grid.cell_at(x, y)) matches CellState::Reference(p)
                        && p[0] == px && p[1] == py)
                &&& forall|a: int, b: int, sd: Side|
                    old(self).port_grid.slot_valid(a, b, sd)
                        && !component.spec_dummy().spec_declares_port(a - px, b - py, sd)
                        ==> #[trigger] final(self).port_grid.spec_slot(a, b, sd) == old(self).port_grid.spec_slot(a, b, sd)
                &&& forall|x: int, y: int|
                    old(self).grid.in_bounds(x, y) && !in_footprint(px, py, sx, sy, x, y)
                        && wire_profile(#[trigger] old(self).grid.cell_at(x, y)) is None
                        ==> final(self).grid.cell_at(x, y) == old(self).grid.cell_at(x, y)
                &&& forall|x: int, y: int|
                    old(self).grid.in_bounds(x, y) && !in_footprint(px, py, sx, sy, x, y) ==> match
                        #[trigger] old(self).grid.cell_at(x, y) {
                        CellState::Real(c) => match c {
                            Component::WirePiece(w) => (final(self).grid.cell_at(x, y) matches
                                CellState::Real(c2) && c2 matches Component::WirePiece(w2)
                                && w2.disabled_sides == w.disabled_sides),
                            _ => true,
                        },
                        _ => true,
                    }
            },
    {
        let ghost px = grid_position[0] as int;
        let ghost py = grid_position[1] as int;
        let dummy = component.dummy();
        let size = dummy.get_grid_size();
        let gw = self.grid.grid.len();
        let gh = self.grid.grid[0].len();
        let fits = grid_position[0] <= gw && size[0] <= gw - grid_position[0] && grid_position[1]
            <= gh && size[1] <= gh - grid_position[1];
        if !fits {
            return Err(PlaceError::CantFit);
        }
        let mut placed = component;
        placed.build();
        self.grid.place_component(placed, grid_position);
        let ports = dummy.ports();
        proof {
            lemma_ports_in_footprint(dummy);
            assert forall|k: int| 0 <= k < ports@.len() implies self.port_grid.entry_valid(
                #[trigger] ports@[k],
                grid_position@,
            ) by {
                let e = dummy.spec_port_entry(k);
                assert(e == (ports@[k].0[0] as int, ports@[k].0[1] as int, ports@[k].1));
                assert(px + e.0 < old(self).grid.width());
                assert(py + e.1 < old(self).grid.height());
                assert(old(self).grid.width() <= gw);
                assert(old(self).grid.height() <= gh);
            }
        }
        let default_port = Port::default();
        let res = self.port_grid.modify_bulk(Some(default_port), &ports, grid_position);
        proof {
            assert(res is Ok);
        }
        let ghost mid2 = *self;
        self.refresh_wires();
        proof {
            assert(self.port_grid == mid2.port_grid);
            assert forall|k: int| 0 <= k < dummy.spec_num_ports() implies {
                let e = #[trigger] dummy.spec_port_entry(k);
                self.port_grid.spec_slot(px + e.0, py + e.1, e.2) == Some(Port { checked: false })
            } by {
                let entry = ports@[k];
                assert(dummy.spec_port_entry(k) == (entry.0[0] as int, entry.0[1] as int, entry.1));
                assert(mid2.port_grid.spec_slot(
                    entry.0[0] + grid_position@[0],
                    entry.0[1] + grid_position@[1],
                    entry.1,
                ) == Some(default_port));
            }
            assert(mid2.grid.cell_at(px, py) == CellState::Real(component.spec_build()));
            let ghost sx = component.spec_dummy().spec_grid_size().0;
            let ghost sy = component.spec_dummy().spec_grid_size().1;
            // Covered cells keep their back-references through the refresh.
            assert forall|x: int, y: int|
                in_footprint(px, py, sx, sy, x, y) && !(x == px && y == py) implies ((
            #[trigger] self.grid.cell_at(x, y)) matches CellState::Reference(p) && p[0] == px
                && p[1] == py) by {
                assert((mid2.grid.cell_at(x, y) matches CellState::Reference(p) && p[0] == px
                    && p[1] == py));
                assert(wire_profile(mid2.grid.cell_at(x, y)) is None);
                assert(self.grid.cell_at(x, y) == mid2.grid.cell_at(x, y));
            }
            // Untouched overlay slots.
            assert forall|a: int, b: int, sd: Side|
                old(self).port_grid.slot_valid(a, b, sd)
                    && !component.spec_dummy().spec_declares_port(a - px, b - py, sd)
                implies #[trigger] self.port_grid.spec_slot(a, b, sd) == old(self).port_grid.spec_slot(a, b, sd) by {
                if exists|k: int|
                    0 <= k < ports@.len() && PortGrid::entry_addresses(
                        #[trigger] ports@[k],
                        grid_position@,
                        a,
                        b,
                        sd,
                    ) {
                    let k = choose|k: int|
                        0 <= k < ports@.len() && PortGrid::entry_addresses(
                            #[trigger] ports@[k],
                            grid_position@,
                            a,
                            b,
                            sd,
                        );
                    let e = component.spec_dummy().spec_port_entry(k);
                    assert(e == (ports@[k].0[0] as int, ports@[k].0[1] as int, ports@[k].1));
                    assert(component.spec_dummy().spec_declares_port(a - px, b - py, sd));
                }
            }
            // Cells outside the footprint: non-wires are untouched, wires
            // keep their switches.
            assert forall|x: int, y: int|
                old(self).grid.in_bounds(x, y) && !in_footprint(px, py, sx, sy, x, y)
                    && wire_profile(#[trigger] old(self).grid.cell_at(x, y)) is None
                implies self.grid.cell_at(x, y) == old(self).grid.cell_at(x, y) by {
                assert(mid2.grid.cell_at(x, y) == old(self).grid.cell_at(x, y));
                assert(wire_profile(mid2.grid.cell_at(x, y)) is None);
                assert(self.grid.cell_at(x, y) == mid2.grid.cell_at(x, y));
            }
            assert forall|x: int, y: int|
                old(self).grid.in_bounds(x, y) && !in_footprint(px, py, sx, sy, x, y) implies match
                #[trigger] old(self).grid.cell_at(x, y) {
                CellState::Real(c) => match c {
                    Component::WirePiece(w) => (self.grid.cell_at(x, y) matches CellState::Real(c2)
                        && c2 matches Component::WirePiece(w2) && w2.disabled_sides
                        == w.disabled_sides),
                    _ => true,
                },
                _ => true,
            } by {
                assert(mid2.grid.cell_at(x, y) == old(self).grid.cell_at(x, y));
            }
        }
        Ok(())
    }

    /// Build the editable state a level definition starts from: a grid of
    /// the level's size holding every component of the starting layout.
    /// Accepted exactly when the dimensions are usable and every starting
    /// component fits its recorded position.
    pub fn from_level(load: &LevelDataLoad) -> (r: Result<SimulationData, PlaceError>)
        ensures
            r is Ok <==> dims_usable(*load) && start_fits(*load),
            r matches Ok(s) ==> {
                &&& s.wf()
                &&& s.wires_fresh()
                &&& s.grid.width() == load.grid_size[0]
                &&& s.grid.height() == load.grid_size[1]
            },
            r matches Ok(s) ==> (forall|a: int, b: int|
                0 <= a < load.start.grid@.len() && 0 <= b < load.start.grid@[a]@.len()
                    ==> #[trigger] start_ports_declared(*load, s, a, b)),
            r matches Ok(s) ==> start_disjoint(*load) ==> (forall|a: int, b: int|
                0 <= a < load.start.grid@.len() && 0 <= b < load.start.grid@[a]@.len()
                    ==> #[trigger] start_cell_placed(*load, s, a, b)),
    {
        if load.grid_size[0] == 0 || load.grid_size[0] == usize::MAX || load.grid_size[1] == 0
            || load.grid_size[1] == usize::MAX {
            return Err(PlaceError::CantFit);
        }
        let mut sim = SimulationData::new(load.grid_size[0], load.grid_size[1]);
        let n = load.start.grid.len();
        let mut x: usize = 0;
        while x < n
            invariant
                sim.wf(),
                sim.grid.width() == load.grid_size[0],
                sim.grid.height() == load.grid_size[1],
                dims_usable(*load),
                n == load.start.grid@.len(),
                x <= n,
                forall|a: int, b: int|
                    0 <= a < load.start.grid@.len() && 0 <= b < load.start.grid@[a]@.len() && a < x
                        ==> start_cell_fits(*load, a, b),
                forall|a: int, b: int|
                    0 <= a < load.start.grid@.len() && 0 <= b < load.start.grid@[a]@.len() && a < x
                        ==> #[trigger] start_ports_declared(*load, sim, a, b),
                start_disjoint(*load) ==> (forall|a: int, b: int|
                    0 <= a < load.start.grid@.len() && 0 <= b < load.start.grid@[a]@.len() && a < x
                        ==> #[trigger] start_cell_placed(*load, sim, a, b)),
            decreases n - x,
        {
            let m = load.start.grid[x].len();
            let mut y: usize = 0;
            while y < m
                invariant
                    sim.wf(),
                    sim.grid.width() == load.grid_size[0],
                    sim.grid.height() == load.grid_size[1],
                    dims_usable(*load),
                    n == load.start.grid@.len(),
                    x < n,
                    y <= m,
                    m == load.start.grid@[x as int]@.len(),
                    forall|a: int, b: int|
                        0 <= a < load.start.grid@.len() && 0 <= b < load.start.grid@[a]@.len() && (a
                            < x || (a == x && b < y)) ==> start_cell_fits(*load, a, b),
                    forall|a: int, b: int|
                        0 <= a < load.start.grid@.len() && 0 <= b < load.start.grid@[a]@.len() && (a
                            < x || (a == x && b < y)) ==> #[trigger] start_ports_declared(
                            *load,
                            sim,
                            a,
                            b,
                        ),
                    start_disjoint(*load) ==> (forall|a: int, b: int|
                        0 <= a < load.start.grid@.len() && 0 <= b < load.start.grid@[a]@.len() && (a
                            < x || (a == x && b < y)) ==> #[trigger] start_cell_placed(
                            *load,
                            sim,
                            a,
                            b,
                        )),
                decreases m - y,
            {
                let ghost sim_prev = sim;
                match load.start.grid[x][y] {
                    CellState::Real(c) => {
                        if sim.load_component(c, &[x, y]).is_err() {
                            proof {
                                assert(!start_cell_fits(*load, x as int, y as int));
                                assert(!start_fits(*load));
                            }
                            return Err(PlaceError::CantFit);
                        }
                        proof {
                            lemma_loaded_ports_declared(*load, sim_prev, sim, c, x as int, y as int);
                            assert forall|q0: int, q1: int, qs: Side|
                                sim_prev.port_grid.slot_valid(q0, q1, qs) implies ((
                            #[trigger] sim.port_grid.spec_slot(q0, q1, qs))
                                == sim_prev.port_grid.spec_slot(q0, q1, qs)
                                || sim.port_grid.spec_slot(q0, q1, qs) == Some(
                                Port { checked: false },
                            )) by {
                                if c.spec_dummy().spec_declares_port(q0 - x, q1 - y, qs) {
                                    let k = choose|k: int|
                                        0 <= k < c.spec_dummy().spec_num_ports()
                                            && #[trigger] c.spec_dummy().spec_port_entry(k) == (
                                        q0 - x,
                                        q1 - y,
                                        qs,
                                    );
                                    assert(c.spec_dummy().spec_port_entry(k) == (
                                        q0 - x,
                                        q1 - y,
                                        qs,
                                    ));
                                    assert(sim.port_grid.spec_slot(
                                        x + (q0 - x),
                                        y + (q1 - y),
                                        qs,
                                    ) == Some(Port { checked: false }));
                                }
                            }
                        }
                    },
                    _ => {},
                }
                proof {
                    assert(start_cell_fits(*load, x as int, y as int));
                    assert(start_ports_declared(*load, sim, x as int, y as int));
                    assert forall|a: int, b: int|
                        0 <= a < load.start.grid@.len() && 0 <= b < load.start.grid@[a]@.len() && (a
                            < x || (a == x && b < y + 1)) implies #[trigger] start_ports_declared(
                        *load,
                        sim,
                        a,
                        b,
                    ) by {
                        if !(a == x && b == y) {
                            assert(start_ports_declared(*load, sim_prev, a, b));
                            lemma_ports_declared_persist(*load, sim_prev, sim, a, b);
                        }
                    }
                    if start_disjoint(*load) {
                        assert forall|a: int, b: int|
                            0 <= a < load.start.grid@.len() && 0 <= b < load.start.grid@[a]@.len()
                                && (a < x || (a == x && b < y + 1))
                            implies #[trigger] start_cell_placed(*load, sim, a, b) by {
                            if a == x && b == y {
                                assert(start_cell_placed(*load, sim, a, b));
                            } else {
                                assert(start_cell_placed(*load, sim_prev, a, b));
                                assert(start_cells_disjoint(*load, a, b, x as int, y as int));
                                match load.start.grid@[x as int]@[y as int] {
                                    CellState::Real(_) => {
                                        lemma_placed_persists(
                                            *load,
                                            sim_prev,
                                            sim,
                                            a,
                                            b,
                                            x as int,
                                            y as int,
                                        );
                                    },
                                    _ => {
                                        assert(sim == sim_prev);
                                    },
                                }
                            }
                        }
                    }
                }
                y = y + 1;
            }
            x = x + 1;
        }
        let mut refreshed = sim;
        refreshed.refresh_wires();
        proof {
            assert(start_fits(*load));
            assert(refreshed.port_grid == sim.port_grid);
            assert forall|a: int, b: int|
                0 <= a < load.start.grid@.len() && 0 <= b < load.start.grid@[a]@.len()
                    implies #[trigger] start_ports_declared(*load, refreshed, a, b) by {
                assert(start_ports_declared(*load, sim, a, b));
            }
            if start_disjoint(*load) {
                assert forall|a: int, b: int|
                    0 <= a < load.start.grid@.len() && 0 <= b < load.start.grid@[a]@.len()
                        implies #[trigger] start_cell_placed(*load, refreshed, a, b) by {
                    assert(start_cell_placed(*load, sim, a, b));
                    assert(start_cell_fits(*load, a, b));
                    match load.start.grid@[a as int]@[b as int] {
                        CellState::Real(c) => {
                            let sx = c.spec_dummy().spec_grid_size().0;
                            let sy = c.spec_dummy().spec_grid_size().1;
                            assert(sx >= 1 && sy >= 1) by {
                                crate::run::lemma_spec_build_stable(c);
                            }
                            assert forall|u: int, v: int|
                                in_footprint(a, b, sx, sy, u, v) implies sim.grid.in_bounds(
                                u,
                                v,
                            ) by {
                                assert(a + sx <= load.grid_size[0] && b + sy <= load.grid_size[1]);
                            }
                            assert forall|u: int, v: int|
                                in_footprint(a, b, sx, sy, u, v) && !(u == a && v == b)
                                implies ((#[trigger] refreshed.grid.cell_at(u, v)) matches
                                CellState::Reference(p) && p[0] == a && p[1] == b) by {
                                assert((sim.grid.cell_at(u, v) matches CellState::Reference(p)
                                    && p[0] == a && p[1] == b));
                                assert(wire_profile(sim.grid.cell_at(u, v)) is None);
                                assert(refreshed.grid.cell_at(u, v) == sim.grid.cell_at(u, v));
                            }
                            match c.spec_build() {
                                Component::WirePiece(w) => {
                                    assert(sim.grid.in_bounds(a, b));
                                    assert((sim.grid.cell_at(a, b) matches CellState::Real(c2)
                                        && c2 matches Component::WirePiece(w2) && w2.disabled_sides
                                        == w.disabled_sides));
                                    assert((refreshed.grid.cell_at(a, b) matches CellState::Real(
                                        c3,
                                    ) && c3 matches Component::WirePiece(w3) && w3.disabled_sides
                                        == w.disabled_sides));
                                },
                                cb => {
                                    assert(sim.grid.in_bounds(a, b));
                                    assert(wire_profile(sim.grid.cell_at(a, b)) is None);
                                    assert(refreshed.grid.cell_at(a, b) == sim.grid.cell_at(a, b));
                                },
                            }
                        },
                        _ => {},
                    }
                }
            }
        }
        Ok(refreshed)
    }
}

/// The level's dimensions can back a simulation grid.
pub open spec fn dims_usable(load: LevelDataLoad) -> bool {
    1 <= load.grid_size[0] < usize::MAX && 1 <= load.grid_size[1] < usize::MAX
}

/// The starting cell at `(a, b)`, if it holds a component, fits inside a
/// grid of the level's size.
pub open spec fn start_cell_fits(load: LevelDataLoad, a: int, b: int) -> bool {
    match load.start.grid@[a]@[b] {
        CellState::Real(c) => {
            &&& a + c.spec_dummy().spec_grid_size().0 <= load.grid_size[0]
            &&& b + c.spec_dummy().spec_grid_size().1 <= load.grid_size[1]
        },
        _ => true,
    }
}

/// The ports of the starting component at `(a, b)`, if one is recorded
/// there, stand declared and unvisited in the built state's overlay.
pub open spec fn start_ports_declared(
    load: LevelDataLoad,
    s: SimulationData,
    a: int,
    b: int,
) -> bool {
    match load.start.grid@[a]@[b] {
        CellState::Real(c) => forall|k: int|
            0 <= k < c.spec_dummy().spec_num_ports() ==> {
                let e = #[trigger] c.spec_dummy().spec_port_entry(k);
                s.port_grid.slot_valid(a + e.0, b + e.1, e.2) && s.port_grid.spec_slot(
                    a + e.0,
                    b + e.1,
                    e.2,
                ) == Some(Port { checked: false })
            },
        _ => true,
    }
}

/// A freshly loaded component's declared slots exist and hold unvisited
/// ports.
pub proof fn lemma_loaded_ports_declared(
    load: LevelDataLoad,
    prev: SimulationData,
    cur: SimulationData,
    c: Component,
    x: int,
    y: int,
)
    requires
        cur.wf(),
        load.start.grid@[x]@[y] == CellState::Real(c),
        x >= 0,
        y >= 0,
        x + c.spec_dummy().spec_grid_size().0 <= cur.grid.width(),
        y + c.spec_dummy().spec_grid_size().1 <= cur.grid.height(),
        forall|k: int|
            0 <= k < c.spec_dummy().spec_num_ports() ==> {
                let e = #[trigger] c.spec_dummy().spec_port_entry(k);
                cur.port_grid.spec_slot(x + e.0, y + e.1, e.2) == Some(Port { checked: false })
            },
    ensures
        start_ports_declared(load, cur, x, y),
{
    lemma_ports_in_footprint(c.spec_dummy());
    assert forall|k: int| 0 <= k < c.spec_dummy().spec_num_ports() implies {
        let e = #[trigger] c.spec_dummy().spec_port_entry(k);
        cur.port_grid.slot_valid(x + e.0, y + e.1, e.2) && cur.port_grid.spec_slot(
            x + e.0,
            y + e.1,
            e.2,
        ) == Some(Port { checked: false })
    } by {
        let e = c.spec_dummy().spec_port_entry(k);
        assert(0 <= e.0 < c.spec_dummy().spec_grid_size().0);
        assert(0 <= e.1 < c.spec_dummy().spec_grid_size().1);
        assert(e.2 == Side::Left || e.2 == Side::Right);
        assert(cur.port_grid.cols() == cur.grid.width() + 1);
        assert(cur.port_grid.rows() == cur.grid.height() + 1);
        assert(cur.port_grid.slot_valid(x + e.0, y + e.1, e.2));
    }
}

/// Declared slots survive an edit that only leaves slots alone or declares
/// fresh ports into them.
pub proof fn lemma_ports_declared_persist(
    load: LevelDataLoad,
    prev: SimulationData,
    cur: SimulationData,
    a: int,
    b: int,
)
    requires
        start_ports_declared(load, prev, a, b),
        prev.port_grid.cols() == cur.port_grid.cols(),
        prev.port_grid.rows() == cur.port_grid.rows(),
        forall|q0: int, q1: int, qs: Side|
            prev.port_grid.slot_valid(q0, q1, qs) ==> ((#[trigger] cur.port_grid.spec_slot(
                q0,
                q1,
                qs,
            )) == prev.port_grid.spec_slot(q0, q1, qs) || cur.port_grid.spec_slot(q0, q1, qs)
                == Some(Port { checked: false })),
    ensures
        start_ports_declared(load, cur, a, b),
{
    match load.start.grid@[a]@[b] {
        CellState::Real(c) => {
            assert forall|k: int| 0 <= k < c.spec_dummy().spec_num_ports() implies {
                let e = #[trigger] c.spec_dummy().spec_port_entry(k);
                cur.port_grid.slot_valid(a + e.0, b + e.1, e.2) && cur.port_grid.spec_slot(
                    a + e.0,
                    b + e.1,
                    e.2,
                ) == Some(Port { checked: false })
            } by {
                let e = c.spec_dummy().spec_port_entry(k);
                assert(prev.port_grid.slot_valid(a + e.0, b + e.1, e.2));
                assert(prev.port_grid.spec_slot(a + e.0, b + e.1, e.2) == Some(
                    Port { checked: false },
                ));
            }
        },
        _ => {},
    }
}

/// Rectangles at two starting origins do not share a cell.
pub open spec fn start_cells_disjoint(load: LevelDataLoad, a1: int, b1: int, a2: int, b2: int) -> bool {
    match (load.start.grid@[a1]@[b1], load.start.grid@[a2]@[b2]) {
        (CellState::Real(c1), CellState::Real(c2)) => {
            ||| a1 + c1.spec_dummy().spec_grid_size().0 <= a2
            ||| a2 + c2.spec_dummy().spec_grid_size().0 <= a1
            ||| b1 + c1.spec_dummy().spec_grid_size().1 <= b2
            ||| b2 + c2.spec_dummy().spec_grid_size().1 <= b1
        },
        _ => true,
    }
}

/// No two starting components overlap.
pub open spec fn start_disjoint(load: LevelDataLoad) -> bool {
    forall|a1: int, b1: int, a2: int, b2: int|
        0 <= a1 < load.start.grid@.len() && 0 <= b1 < load.start.grid@[a1]@.len() && 0 <= a2
            < load.start.grid@.len() && 0 <= b2 < load.start.grid@[a2]@.len() && !(a1 == a2 && b1
            == b2) ==> #[trigger] start_cells_disjoint(load, a1, b1, a2, b2)
}

/// The starting component recorded at `(a, b)`, if any, stands in the built
/// state: its built form at the origin (a wire keeps its switches, with
/// sides freshly cached) and back-references over the rest of its footprint.
pub open spec fn start_cell_placed(load: LevelDataLoad, s: SimulationData, a: int, b: int) -> bool {
    match load.start.grid@[a]@[b] {
        CellState::Real(c) => {
            &&& (match c.spec_build() {
                Component::WirePiece(w) => (s.grid.cell_at(a, b) matches CellState::Real(c2)
                    && c2 matches Component::WirePiece(w2) && w2.disabled_sides
                    == w.disabled_sides),
                cb => s.grid.cell_at(a, b) == CellState::Real(cb),
            })
            &&& (forall|x: int, y: int|
                in_footprint(
                    a,
                    b,
                    c.spec_dummy().spec_grid_size().0,
                    c.spec_dummy().spec_grid_size().1,
                    x,
                    y,
                ) && !(x == a && y == b) ==> ((#[trigger] s.grid.cell_at(x, y)) matches
                    CellState::Reference(p) && p[0] == a && p[1] == b))
        },
        _ => true,
    }
}

/// A placed starting component survives a later, disjoint load untouched
/// (its wire origin may have its cached sides recomputed, keeping the
/// switches).
pub proof fn lemma_placed_persists(
    load: LevelDataLoad,
    prev: SimulationData,
    cur: SimulationData,
    a: int,
    b: int,
    x: int,
    y: int,
)
    requires
        start_cell_placed(load, prev, a, b),
        start_cells_disjoint(load, a, b, x, y),
        !(a == x && b == y),
        0 <= a < load.start.grid@.len(),
        0 <= b < load.start.grid@[a]@.len(),
        0 <= x < load.start.grid@.len(),
        0 <= y < load.start.grid@[x]@.len(),
        start_cell_fits(load, a, b),
        prev.grid.width() == load.grid_size[0],
        prev.grid.height() == load.grid_size[1],
        cur.grid.width() == prev.grid.width(),
        cur.grid.height() == prev.grid.height(),
        match load.start.grid@[x]@[y] {
            CellState::Real(cn) => {
                &&& (forall|u: int, v: int|
                    prev.grid.in_bounds(u, v) && !in_footprint(
                        x,
                        y,
                        cn.spec_dummy().spec_grid_size().0,
                        cn.spec_dummy().spec_grid_size().1,
                        u,
                        v,
                    ) && wire_profile(#[trigger] prev.grid.cell_at(u, v)) is None
                        ==> cur.grid.cell_at(u, v) == prev.grid.cell_at(u, v))
                &&& (forall|u: int, v: int|
                    prev.grid.in_bounds(u, v) && !in_footprint(
                        x,
                        y,
                        cn.spec_dummy().spec_grid_size().0,
                        cn.spec_dummy().spec_grid_size().1,
                        u,
                        v,
                    ) ==> match #[trigger] prev.grid.cell_at(u, v) {
                        CellState::Real(pc) => match pc {
                            Component::WirePiece(w) => (cur.grid.cell_at(u, v) matches
                                CellState::Real(c2) && c2 matches Component::WirePiece(w2)
                                && w2.disabled_sides == w.disabled_sides),
                            _ => true,
                        },
                        _ => true,
                    })
            },
            _ => false,
        },
    ensures
        start_cell_placed(load, cur, a, b),
{
    match (load.start.grid@[a]@[b], load.start.grid@[x]@[y]) {
        (CellState::Real(ca), CellState::Real(cn)) => {
            let sa0 = ca.spec_dummy().spec_grid_size().0;
            let sa1 = ca.spec_dummy().spec_grid_size().1;
            let sn0 = cn.spec_dummy().spec_grid_size().0;
            let sn1 = cn.spec_dummy().spec_grid_size().1;
            // The two rectangles share no cell.
            assert(start_cells_disjoint(load, a, b, x, y));
            assert forall|u: int, v: int|
                in_footprint(a, b, sa0, sa1, u, v) implies !in_footprint(
                x,
                y,
                sn0,
                sn1,
                u,
                v,
            ) && prev.grid.in_bounds(u, v) by {
                assert(a + sa0 <= load.grid_size[0] && b + sa1 <= load.grid_size[1]);
            }
            // The origin keeps its built form (a wire keeps its switches).
            match ca.spec_build() {
                Component::WirePiece(w) => {
                    assert((cur.grid.cell_at(a, b) matches CellState::Real(c2) && c2 matches
                        Component::WirePiece(w2) && w2.disabled_sides == w.disabled_sides));
                },
                cb => {
                    assert(wire_profile(prev.grid.cell_at(a, b)) is None);
                    assert(cur.grid.cell_at(a, b) == prev.grid.cell_at(a, b));
                },
            }
            // Back-references are untouched.
            assert forall|u: int, v: int|
                in_footprint(a, b, sa0, sa1, u, v) && !(u == a && v == b) implies ((
            #[trigger] cur.grid.cell_at(u, v)) matches CellState::Reference(p) && p[0] == a && p[1]
                == b) by {
                assert((prev.grid.cell_at(u, v) matches CellState::Reference(p) && p[0] == a
                    && p[1] == b));
                assert(wire_profile(prev.grid.cell_at(u, v)) is None);
                assert(cur.grid.cell_at(u, v) == prev.grid.cell_at(u, v));
            }
        },
        _ => {},
    }
}

/// Every component of the starting layout fits its recorded origin.
pub open spec fn start_fits(load: LevelDataLoad) -> bool {
    forall|a: int, b: int|
        0 <= a < load.start.grid@.len() && 0 <= b < load.start.grid@[a]@.len()
            ==> #[trigger] start_cell_fits(load, a, b)
}

} // verus!

//! General properties of the library, stated and proved once over the
//! contracts of the editing, compiling and ticking functions.

use vstd::prelude::*;

use crate::component::Component;
use crate::component::DummyComponent;
use crate::component::comp_ports_bounded;
use crate::grid::CellState;
use crate::grid::ComponentGrid;
use crate::grid::in_footprint;
use crate::model::SimulationData;
use crate::port_grid::Port;
use crate::port_grid::PortGrid;
use crate::run::all_false;
use crate::run::bind_at;
use crate::run::built_view;
use crate::run::grid_view;
use crate::run::lemma_build_scan_topo;
use crate::run::lemma_built_same_topology;
use crate::run::marks_only;
use crate::run::spec_build_scan;
use crate::run::built_cells;
use crate::run::grid_ports_bounded;
use crate::run::spec_flood;
use crate::run::wire_pushes;
use crate::side::Side;

verus! {

/// A placement request overlapping any occupied cell is never accepted:
/// `can_fit` is false as soon as one covered cell holds a `Real` or
/// `Reference` cell (and `place_new_component` accepts a request exactly
/// when `can_fit` holds, by its contract).
pub proof fn lemma_can_fit_rejects_overlap(
    g: ComponentGrid,
    px: int,
    py: int,
    sx: int,
    sy: int,
    x: int,
    y: int,
)
    requires
        in_footprint(px, py, sx, sy, x, y),
        g.in_bounds(x, y),
        !(g.cell_at(x, y) is Empty),
    ensures
        !g.spec_can_fit(px, py, sx, sy),
{
}

/// For any footprint of at least one cell, a placement check passes exactly
/// when every covered cell lies on the grid and is empty: one out-of-bounds
/// cell, or one cell holding a component or a back-reference, makes it
/// false.
pub proof fn lemma_can_fit_characterization(
    g: ComponentGrid,
    px: int,
    py: int,
    sx: int,
    sy: int,
)
    requires
        px >= 0,
        py >= 0,
        sx >= 1,
        sy >= 1,
    ensures
        g.spec_can_fit(px, py, sx, sy) <==> (forall|x: int, y: int|
            in_footprint(px, py, sx, sy, x, y) ==> g.in_bounds(x, y) && (#[trigger] g.cell_at(
                x,
                y,
            )) is Empty),
{
    if forall|x: int, y: int|
        in_footprint(px, py, sx, sy, x, y) ==> g.in_bounds(x, y) && (#[trigger] g.cell_at(
            x,
            y,
        )) is Empty {
        assert(in_footprint(px, py, sx, sy, px, py));
        assert(g.in_bounds(px, py) && g.cell_at(px, py) is Empty);
        assert(in_footprint(px, py, sx, sy, px + sx - 1, py + sy - 1));
        assert(g.in_bounds(px + sx - 1, py + sy - 1) && (g.cell_at(
            px + sx - 1,
            py + sy - 1,
        )) is Empty);
        assert(g.footprint_in_bounds(px, py, sx, sy));
    }
}

/// After removing one kind and placing a different kind at the same origin,
/// the port overlay holds no slot of the removed kind that the new kind did
/// not redeclare, and every slot of the new kind holds a fresh, unvisited
/// port.  The hypotheses are the removal's and the placement's contracts on
/// the overlay; `s0`, `s1`, `s2` are the states before the removal, between
/// the two edits, and after the placement.
pub proof fn lemma_no_stale_ports(
    s0: SimulationData,
    s1: SimulationData,
    s2: SimulationData,
    kind_a: DummyComponent,
    kind_b: DummyComponent,
    px: int,
    py: int,
)
    requires
        s1.port_grid.cols() == s0.port_grid.cols(),
        s1.port_grid.rows() == s0.port_grid.rows(),
        s2.port_grid.cols() == s1.port_grid.cols(),
        s2.port_grid.rows() == s1.port_grid.rows(),
        // The removal cleared every slot of `kind_a` and left the rest.
        forall|k: int|
            0 <= k < kind_a.spec_num_ports() ==> {
                let e = #[trigger] kind_a.spec_port_entry(k);
                s1.port_grid.spec_slot(px + e.0, py + e.1, e.2) is None
            },
        forall|a: int, b: int, sd: crate::side::Side|
            s0.port_grid.slot_valid(a, b, sd) && !kind_a.spec_declares_port(a - px, b - py, sd)
                ==> #[trigger] s1.port_grid.spec_slot(a, b, sd) == s0.port_grid.spec_slot(a, b, sd),
        // The placement declared every slot of `kind_b` and left the rest.
        forall|k: int|
            0 <= k < kind_b.spec_num_ports() ==> {
                let e = #[trigger] kind_b.spec_port_entry(k);
                s2.port_grid.spec_slot(px + e.0, py + e.1, e.2) == Some(Port { checked: false })
            },
        forall|a: int, b: int, sd: crate::side::Side|
            s1.port_grid.slot_valid(a, b, sd) && !kind_b.spec_declares_port(a - px, b - py, sd)
                ==> #[trigger] s2.port_grid.spec_slot(a, b, sd) == s1.port_grid.spec_slot(a, b, sd),
    ensures
        // No slot of the removed kind survives unless the new kind declares
        // it too.
        forall|a: int, b: int, sd: crate::side::Side|
            s0.port_grid.slot_valid(a, b, sd) && kind_a.spec_declares_port(a - px, b - py, sd)
                && !kind_b.spec_declares_port(a - px, b - py, sd)
                ==> #[trigger] s2.port_grid.spec_slot(a, b, sd) is None,
        // Every slot of the new kind holds a fresh port.
        forall|k: int|
            0 <= k < kind_b.spec_num_ports() ==> {
                let e = #[trigger] kind_b.spec_port_entry(k);
                s2.port_grid.spec_slot(px + e.0, py + e.1, e.2) == Some(Port { checked: false })
            },
{
    assert forall|a: int, b: int, sd: crate::side::Side|
        s0.port_grid.slot_valid(a, b, sd) && kind_a.spec_declares_port(a - px, b - py, sd)
            && !kind_b.spec_declares_port(a - px, b - py, sd) implies #[trigger] s2.port_grid.spec_slot(
        a,
        b,
        sd,
    ) is None by {
        let k = choose|k: int|
            0 <= k < kind_a.spec_num_ports() && #[trigger] kind_a.spec_port_entry(k) == (
                a - px,
                b - py,
                sd,
            );
        assert(kind_a.spec_port_entry(k) == (a - px, b - py, sd));
        assert(s1.port_grid.spec_slot(px + (a - px), py + (b - py), sd) is None);
        assert(s1.port_grid.spec_slot(a, b, sd) is None);
        assert(s1.port_grid.slot_valid(a, b, sd));
        assert(s2.port_grid.spec_slot(a, b, sd) == s1.port_grid.spec_slot(a, b, sd));
    }
}

/// After a successful build every component on the grid is the built form
/// of what stood there before — same kind, same wire switches, same probe
/// ids, counter reset — and every port binding it holds points into the
/// freshly allocated signal bank.  Old-generation bindings cannot survive,
/// because the build first drops every binding and then only hands out ids
/// of the new bank.
pub proof fn lemma_build_bindings_fresh(
    g_before: ComponentGrid,
    g_after: ComponentGrid,
    bank_len: int,
    x: int,
    y: int,
)
    requires
        built_cells(g_before, g_after),
        grid_ports_bounded(g_after, bank_len),
        g_before.in_bounds(x, y),
    ensures
        match (g_before.cell_at(x, y), g_after.cell_at(x, y)) {
            (CellState::Real(a), CellState::Real(b)) => {
                &&& b.spec_dummy() == a.spec_dummy()
                &&& comp_ports_bounded(b, bank_len)
            },
            (a, b) => a == b,
        },
{
    assert(g_after.in_bounds(x, y));
    match (g_before.cell_at(x, y), g_after.cell_at(x, y)) {
        (CellState::Real(a), CellState::Real(b)) => {
            assert(b.spec_clear_ports() == a.spec_build());
            assert(b.spec_dummy() == a.spec_dummy()) by {
                match b {
                    Component::WirePiece(_) => {},
                    Component::GateNot(_) => {},
                    Component::GateAnd(_) => {},
                    Component::SignalCopy(_) => {},
                    Component::SignalPassthrough(_) => {},
                    Component::Counter(_) => {},
                    Component::Observer(_) => {},
                    Component::Provider(_) => {},
                }
            }
        },
        _ => {},
    }
}


/// Building twice without edits keeps the same relation to the state the
/// first build started from: a second build's result is still, cell for
/// cell, a built form of the pre-build grid.  (Which ports share a node is
/// determined by the grid's wire skeleton and declared ports, which a build
/// never changes.)
pub proof fn lemma_build_composes(g0: ComponentGrid, g1: ComponentGrid, g2: ComponentGrid)
    requires
        built_cells(g0, g1),
        built_cells(g1, g2),
    ensures
        built_cells(g0, g2),
{
    assert forall|x: int, y: int|
        g0.in_bounds(x, y) implies match (#[trigger] g0.cell_at(x, y), g2.cell_at(x, y)) {
        (CellState::Real(a), CellState::Real(b)) => b.spec_clear_ports() == a.spec_build(),
        (a, b) => a == b,
    } by {
        assert(g1.in_bounds(x, y));
        match (g0.cell_at(x, y), g1.cell_at(x, y), g2.cell_at(x, y)) {
            (CellState::Real(a), CellState::Real(m), CellState::Real(b)) => {
                assert(m.spec_clear_ports() == a.spec_build());
                assert(b.spec_clear_ports() == m.spec_build());
                assert(m.spec_build() == a.spec_build()) by {
                    match m {
                        Component::WirePiece(_) => {},
                        Component::GateNot(_) => {},
                        Component::GateAnd(_) => {},
                        Component::SignalCopy(_) => {},
                        Component::SignalPassthrough(_) => {},
                        Component::Counter(_) => {},
                        Component::Observer(_) => {},
                        Component::Provider(_) => {},
                    }
                }
            },
            _ => {},
        }
    }
}


/// A walk aimed at a cell off the grid, or at an empty cell, does nothing:
/// no binding, no mark, no visit.  (A port facing the grid edge or an empty
/// neighbour therefore stays joined to its own fresh cell alone and reads
/// 0.)
pub proof fn lemma_walk_stops_at_nothing(
    g: ComponentGrid,
    pg: PortGrid,
    cell_idx: usize,
    x: int,
    y: int,
    s: Side,
    acc: Seq<Seq<CellState>>,
    marked: Set<(int, int, Side)>,
    visited: Seq<bool>,
)
    requires
        !(0 <= x < g.width() && 0 <= y < g.height()) || g.cell_at(x, y) is Empty,
    ensures
        spec_flood(g, pg, cell_idx, seq![(x, y, s)], acc, marked, visited) == Some(
            (acc, marked, visited),
        ),
{
    let stack: Seq<(int, int, Side)> = seq![(x, y, s)];
    assert(stack.last() == (x, y, s));
    assert(stack.drop_last() =~= Seq::<(int, int, Side)>::empty());
    assert(spec_flood(
        g,
        pg,
        cell_idx,
        Seq::<(int, int, Side)>::empty(),
        acc,
        marked,
        visited,
    ) == Some((acc, marked, visited)));
}

/// A component origin cell is a leaf of the walk: arriving at a component
/// that declares the facing port binds exactly that port to the walk's
/// cell, marks its slot, and goes no further.
pub proof fn lemma_walk_binds_component_and_stops(
    g: ComponentGrid,
    pg: PortGrid,
    cell_idx: usize,
    x: int,
    y: int,
    s: Side,
    acc: Seq<Seq<CellState>>,
    marked: Set<(int, int, Side)>,
    visited: Seq<bool>,
)
    requires
        0 <= x < g.width(),
        0 <= y < g.height(),
        g.cell_at(x, y) matches CellState::Real(c) && !(c is WirePiece)
            && c.spec_dummy().spec_declares_port(0, 0, s),
        pg.slot_valid(x, y, s),
        pg.spec_slot(x, y, s) is Some,
    ensures
        spec_flood(g, pg, cell_idx, seq![(x, y, s)], acc, marked, visited) == Some(
            (bind_at(acc, x, y, 0, 0, s, cell_idx), marked.insert((x, y, s)), visited),
        ),
{
    let stack: Seq<(int, int, Side)> = seq![(x, y, s)];
    assert(stack.last() == (x, y, s));
    assert(stack.drop_last() =~= Seq::<(int, int, Side)>::empty());
    match g.cell_at(x, y) {
        CellState::Real(c) => {
            match c {
                Component::WirePiece(_) => {},
                _ => {
                    assert(spec_flood(
                        g,
                        pg,
                        cell_idx,
                        Seq::<(int, int, Side)>::empty(),
                        bind_at(acc, x, y, 0, 0, s, cell_idx),
                        marked.insert((x, y, s)),
                        visited,
                    ) == Some(
                        (bind_at(acc, x, y, 0, 0, s, cell_idx), marked.insert((x, y, s)), visited),
                    ));
                },
            }
        },
        _ => {},
    }
}

/// A wire cell already visited in this build is dropped, so loops and
/// multi-path joins terminate without re-walking the wire.
pub proof fn lemma_walk_skips_visited_wire(
    g: ComponentGrid,
    pg: PortGrid,
    cell_idx: usize,
    x: int,
    y: int,
    s: Side,
    acc: Seq<Seq<CellState>>,
    marked: Set<(int, int, Side)>,
    visited: Seq<bool>,
)
    requires
        0 <= x < g.width(),
        0 <= y < g.height(),
        g.cell_at(x, y) matches CellState::Real(c) && c is WirePiece,
        0 <= x * g.height() + y < visited.len(),
        visited[x * g.height() + y],
    ensures
        spec_flood(g, pg, cell_idx, seq![(x, y, s)], acc, marked, visited) == Some(
            (acc, marked, visited),
        ),
{
    let stack: Seq<(int, int, Side)> = seq![(x, y, s)];
    assert(stack.last() == (x, y, s));
    assert(stack.drop_last() =~= Seq::<(int, int, Side)>::empty());
    assert(spec_flood(
        g,
        pg,
        cell_idx,
        Seq::<(int, int, Side)>::empty(),
        acc,
        marked,
        visited,
    ) == Some((acc, marked, visited)));
}


/// A covered cell resolves to its owner in one step: arriving at a
/// `Reference` whose edge declares a port binds the owning component's port
/// at the matching offset, marks the slot, and goes no further.
pub proof fn lemma_walk_resolves_reference(
    g: ComponentGrid,
    pg: PortGrid,
    cell_idx: usize,
    x: int,
    y: int,
    s: Side,
    acc: Seq<Seq<CellState>>,
    marked: Set<(int, int, Side)>,
    visited: Seq<bool>,
)
    requires
        0 <= x < g.width(),
        0 <= y < g.height(),
        g.cell_at(x, y) matches CellState::Reference(o) && o[0] <= x && o[1] <= y && g.in_bounds(
            o[0] as int,
            o[1] as int,
        ) && (g.cell_at(o[0] as int, o[1] as int) matches CellState::Real(c)
            && c.spec_dummy().spec_declares_port(x - o[0], y - o[1], s)),
        pg.slot_valid(x, y, s),
        pg.spec_slot(x, y, s) is Some,
    ensures
        g.cell_at(x, y) matches CellState::Reference(o) ==> spec_flood(
            g,
            pg,
            cell_idx,
            seq![(x, y, s)],
            acc,
            marked,
            visited,
        ) == Some(
            (
                bind_at(acc, o[0] as int, o[1] as int, x - o[0], y - o[1], s, cell_idx),
                marked.insert((x, y, s)),
                visited,
            ),
        ),
{
    let stack: Seq<(int, int, Side)> = seq![(x, y, s)];
    assert(stack.last() == (x, y, s));
    assert(stack.drop_last() =~= Seq::<(int, int, Side)>::empty());
    match g.cell_at(x, y) {
        CellState::Reference(o) => {
            assert(spec_flood(
                g,
                pg,
                cell_idx,
                Seq::<(int, int, Side)>::empty(),
                bind_at(acc, o[0] as int, o[1] as int, x - o[0], y - o[1], s, cell_idx),
                marked.insert((x, y, s)),
                visited,
            ) matches Some(st) && st.2 == visited);
        },
        _ => {},
    }
}

/// An unvisited wire is entered exactly once: the walk marks it visited and
/// queues one step outward for each of its enabled-and-connected sides,
/// nothing else.
pub proof fn lemma_walk_enters_wire(
    g: ComponentGrid,
    pg: PortGrid,
    cell_idx: usize,
    x: int,
    y: int,
    s: Side,
    acc: Seq<Seq<CellState>>,
    marked: Set<(int, int, Side)>,
    visited: Seq<bool>,
)
    requires
        0 <= x < g.width(),
        0 <= y < g.height(),
        g.cell_at(x, y) matches CellState::Real(c) && c is WirePiece,
        0 <= x * g.height() + y < visited.len(),
        !visited[x * g.height() + y],
    ensures
        g.cell_at(x, y) matches CellState::Real(c) && c matches Component::WirePiece(w)
            ==> spec_flood(g, pg, cell_idx, seq![(x, y, s)], acc, marked, visited) == spec_flood(
            g,
            pg,
            cell_idx,
            wire_pushes(x, y, w),
            acc,
            marked,
            visited.update(x * g.height() + y, true),
        ),
{
    let stack: Seq<(int, int, Side)> = seq![(x, y, s)];
    assert(stack.last() == (x, y, s));
    assert(stack.drop_last() =~= Seq::<(int, int, Side)>::empty());
    match g.cell_at(x, y) {
        CellState::Real(c) => match c {
            Component::WirePiece(w) => {
                assert(Seq::<(int, int, Side)>::empty() + wire_pushes(x, y, w) =~= wire_pushes(
                    x,
                    y,
                    w,
                ));
            },
            _ => {},
        },
        _ => {},
    }
}


/// Two consecutive builds without edits compute the same connectivity: the
/// second build's outcome — which ports are joined, to which cell ids, and
/// how many cells exist — equals the first build's, because a build's
/// outcome is a function of the grid's topology and the overlay's occupancy,
/// and a build changes neither.  The hypotheses are exactly what
/// `build_simulation` ensures of the state it leaves.
pub proof fn lemma_build_idempotent(s0: SimulationData, s1: SimulationData)
    requires
        s0.grid.wf(),
        s1.grid.wf(),
        built_cells(s0.grid, s1.grid),
        marks_only(s0.port_grid, s1.port_grid),
    ensures
        spec_build_scan(
            s1.grid,
            s1.port_grid,
            built_view(grid_view(s1.grid)),
            Set::empty(),
            all_false(s1.grid.width() * s1.grid.height()),
            0,
            0,
            0,
            0,
        ) == spec_build_scan(
            s0.grid,
            s0.port_grid,
            built_view(grid_view(s0.grid)),
            Set::empty(),
            all_false(s0.grid.width() * s0.grid.height()),
            0,
            0,
            0,
            0,
        ),
{
    lemma_built_same_topology(s0.grid, s1.grid);
    assert(built_view(grid_view(s1.grid)) =~~= built_view(grid_view(s0.grid))) by {
        assert forall|x: int, y: int|
            0 <= x < s0.grid.width() && 0 <= y < s0.grid.height() implies built_view(
            grid_view(s1.grid),
        )[x][y] == built_view(grid_view(s0.grid))[x][y] by {
            assert(s0.grid.in_bounds(x, y));
            assert(grid_view(s0.grid)[x][y] == s0.grid.cell_at(x, y));
            assert(grid_view(s1.grid)[x][y] == s1.grid.cell_at(x, y));
            assert(match (s0.grid.cell_at(x, y), s1.grid.cell_at(x, y)) {
                (CellState::Real(a), CellState::Real(b)) => a.spec_build() == b.spec_build(),
                (a, b) => a == b,
            });
        }
        assert forall|x: int| 0 <= x < s0.grid.width() implies (#[trigger] built_view(
            grid_view(s1.grid),
        )[x]).len() == built_view(grid_view(s0.grid))[x].len() by {
            assert(grid_view(s0.grid)[x].len() == s0.grid.height());
            assert(grid_view(s1.grid)[x].len() == s1.grid.height());
        }
    }
    assert(all_false(s1.grid.width() * s1.grid.height()) == all_false(
        s0.grid.width() * s0.grid.height(),
    ));
    lemma_build_scan_topo(
        s1.grid,
        s1.port_grid,
        s0.grid,
        s0.port_grid,
        built_view(grid_view(s0.grid)),
        Set::empty(),
        all_false(s0.grid.width() * s0.grid.height()),
        0,
        0,
        0,
        0,
    );
}

} // verus!

//! The connectivity compiler and the tick scheduler.
//!
//! The build phase walks the grid once, turning declared ports and
//! transparent wire cells into shared signal cells: every electrically
//! joined set of ports gets one fresh cell of a new generation.  The
//! scheduler then drives fixed-interval ticks over the compiled state.

use vstd::prelude::*;

use crate::component::Component;
use crate::component::Wire;
use crate::component::comp_evolves;
use crate::component::comp_ports_bounded;
use crate::component::port_bounded;
use crate::grid::CellState;
use crate::grid::ComponentGrid;
use crate::levels::LevelData;
use crate::levels::ScoreRow;
use crate::levels::SimIOPadded;
use crate::model::SimulationData;
use crate::port_grid::Port;
use crate::port_grid::PortGrid;
use crate::port_grid::clear_checked;
use crate::side::Side;
use crate::side::combine_offset;
use crate::signal::SignalBank;

verus! {

/// The build phase found the grid and the port overlay out of step: a
/// declared port the component does not accept, or a dangling
/// back-reference.  The simulation must stay halted.
#[derive(Clone, Copy, Debug, PartialEq, Eq, Structural)]
pub enum BuildError {
    PortGridMismatch,
    CellOverflow,
}

/// How many entries of the visited mask are still clear.
pub open spec fn count_false(s: Seq<bool>) -> nat
    decreases s.len(),
{
    if s.len() == 0 {
        0
    } else {
        count_false(s.drop_last()) + if s.last() {
            0nat
        } else {
            1nat
        }
    }
}

/// Setting one clear entry strictly shrinks the count of clear entries.
pub proof fn lemma_count_false_update(s: Seq<bool>, i: int)
    requires
        0 <= i < s.len(),
        !s[i],
    ensures
        count_false(s.update(i, true)) < count_false(s),
    decreases s.len(),
{
    if i == s.len() - 1 {
        assert(s.update(i, true).drop_last() =~= s.drop_last());
    } else {
        assert(s.update(i, true).drop_last() =~= s.drop_last().update(i, true));
        lemma_count_false_update(s.drop_last(), i);
    }
}

/// Both grids hold the same cells, except that some component port bindings
/// of the second were newly joined to signal cell `idx`.
pub open spec fn cells_evolve(g1: ComponentGrid, g2: ComponentGrid, idx: usize) -> bool {
    &&& g1.width() == g2.width()
    &&& g1.height() == g2.height()
    &&& forall|x: int, y: int|
        g1.in_bounds(x, y) ==> match (#[trigger] g1.cell_at(x, y), g2.cell_at(x, y)) {
            (CellState::Real(a), CellState::Real(b)) => comp_evolves(a, b, idx),
            (a, b) => a == b,
        }
}

/// The second overlay holds the same declared ports as the first; only the
/// compiler's visited marks may differ.
pub open spec fn marks_only(p1: PortGrid, p2: PortGrid) -> bool {
    &&& p1.cols() == p2.cols()
    &&& p1.rows() == p2.rows()
    &&& forall|a: int, b: int, s: Side|
        p1.slot_valid(a, b, s) ==> clear_checked(#[trigger] p2.spec_slot(a, b, s))
            == clear_checked(p1.spec_slot(a, b, s))
}

/// Binding more ports to one cell composes.
pub proof fn lemma_cells_evolve_trans(g1: ComponentGrid, g2: ComponentGrid, g3: ComponentGrid, idx: usize)
    requires
        cells_evolve(g1, g2, idx),
        cells_evolve(g2, g3, idx),
    ensures
        cells_evolve(g1, g3, idx),
{
    assert forall|x: int, y: int|
        g1.in_bounds(x, y) implies match (#[trigger] g1.cell_at(x, y), g3.cell_at(x, y)) {
        (CellState::Real(a), CellState::Real(b)) => comp_evolves(a, b, idx),
        (a, b) => a == b,
    } by {
        assert(g2.in_bounds(x, y));
        match (g1.cell_at(x, y), g2.cell_at(x, y), g3.cell_at(x, y)) {
            (CellState::Real(a), CellState::Real(b), CellState::Real(c)) => {
                assert(comp_evolves(a, b, idx) && comp_evolves(b, c, idx));
                assert forall|i: int| 0 <= i < a.ports_of().len() implies crate::component::port_evolves(
                    a.ports_of()[i],
                    #[trigger] c.ports_of()[i],
                    idx,
                ) by {
                    assert(crate::component::port_evolves(a.ports_of()[i], b.ports_of()[i], idx));
                    assert(crate::component::port_evolves(b.ports_of()[i], c.ports_of()[i], idx));
                }
            },
            _ => {},
        }
    }
}

/// Binding one declared port of one component leaves the grid evolved.
pub proof fn lemma_set_port_evolves(c: Component, dx: int, dy: int, side: Side, idx: usize)
    ensures
        comp_evolves(c, c.spec_set_port(dx, dy, side, idx), idx),
{
    let n = c.spec_set_port(dx, dy, side, idx);
    assert(n.spec_clear_ports() == c.spec_clear_ports());
    assert forall|i: int| 0 <= i < c.ports_of().len() implies crate::component::port_evolves(
        c.ports_of()[i],
        #[trigger] n.ports_of()[i],
        idx,
    ) by {
        match c {
            Component::WirePiece(_) => {},
            Component::GateNot(_) => {},
            Component::GateAnd(_) => {},
            Component::SignalCopy(_) => {},
            Component::SignalPassthrough(_) => {},
            Component::Counter(_) => {},
            Component::Observer(_) => {},
            Component::Provider(_) => {},
        }
    }
}

/// The walk's target list as mathematical triples: the coordinates and
/// arriving side of each pending cell.
pub open spec fn stack_model(stack: Seq<([usize; 2], Side)>) -> Seq<(int, int, Side)> {
    stack.map_values(|e: ([usize; 2], Side)| (e.0[0] as int, e.0[1] as int, e.1))
}

/// The accumulated cells after binding the port declared at offset
/// `(dx, dy)` on `side` of the component whose origin is `(ox, oy)`.
pub open spec fn bind_at(
    acc: Seq<Seq<CellState>>,
    ox: int,
    oy: int,
    dx: int,
    dy: int,
    side: Side,
    cell_idx: usize,
) -> Seq<Seq<CellState>> {
    if 0 <= ox < acc.len() && 0 <= oy < acc[ox].len() {
        match acc[ox][oy] {
            CellState::Real(c) => acc.update(
                ox,
                acc[ox].update(oy, CellState::Real(c.spec_set_port(dx, dy, side, cell_idx))),
            ),
            _ => acc,
        }
    } else {
        acc
    }
}

/// The walk entry a wire at `(x, y)` queues towards `s`: one step outward,
/// arriving from the reversed side — present exactly when the wire reports
/// the side connected and the neighbour coordinate stays in machine range.
pub open spec fn wire_step(x: int, y: int, s: Side, connected: bool) -> Seq<(int, int, Side)> {
    if connected && 0 <= x + s.spec_dx() <= usize::MAX && 0 <= y + s.spec_dy() <= usize::MAX {
        seq![(x + s.spec_dx(), y + s.spec_dy(), s.spec_reverse())]
    } else {
        seq![]
    }
}

/// Everything a visited wire queues, in the order the walk pushes it.
pub open spec fn wire_pushes(x: int, y: int, w: Wire) -> Seq<(int, int, Side)> {
    wire_step(x, y, Side::Up, w.connected_sides.up) + wire_step(
        x,
        y,
        Side::Down,
        w.connected_sides.down,
    ) + wire_step(x, y, Side::Left, w.connected_sides.left) + wire_step(
        x,
        y,
        Side::Right,
        w.connected_sides.right,
    )
}

/// The connectivity walk itself, as a mathematical function.  `g` and `pg`
/// are the topology the walk reads (cell kinds, wire sides, declared
/// slots); `acc` carries the cells with the bindings made so far, `marked`
/// the slots joined so far, `visited` the wires entered so far.  The last
/// pending entry is handled first, exactly as the executable stack pops:
///
/// - a target off the grid or holding an empty cell is dropped;
/// - a covered cell with a declared slot resolves to its owner, whose port
///   at the matching offset is bound and whose slot is marked — a
///   mismatched owner aborts the walk (`None`);
/// - an unvisited wire is marked visited and queues one entry per
///   enabled-and-connected side; a visited wire is dropped, so loops end;
/// - a component origin with a declared facing slot has that port bound and
///   marked, and the walk does not continue through the component.
pub open spec fn spec_flood(
    g: ComponentGrid,
    pg: PortGrid,
    cell_idx: usize,
    stack: Seq<(int, int, Side)>,
    acc: Seq<Seq<CellState>>,
    marked: Set<(int, int, Side)>,
    visited: Seq<bool>,
) -> Option<(Seq<Seq<CellState>>, Set<(int, int, Side)>, Seq<bool>)>
    decreases count_false(visited), stack.len(),
        via spec_flood_decreases
{
    if stack.len() == 0 {
        Some((acc, marked, visited))
    } else {
        let entry = stack.last();
        let rest = stack.drop_last();
        let x = entry.0;
        let y = entry.1;
        let side = entry.2;
        if !(0 <= x < g.width() && 0 <= y < g.height()) {
            spec_flood(g, pg, cell_idx, rest, acc, marked, visited)
        } else {
            match g.cell_at(x, y) {
                CellState::Empty => spec_flood(g, pg, cell_idx, rest, acc, marked, visited),
                CellState::Reference(owner) => {
                    if pg.slot_valid(x, y, side) && pg.spec_slot(x, y, side) is Some {
                        if owner[0] <= x && owner[1] <= y && g.in_bounds(
                            owner[0] as int,
                            owner[1] as int,
                        ) && (g.cell_at(owner[0] as int, owner[1] as int) matches CellState::Real(c)
                            && c.spec_dummy().spec_declares_port(x - owner[0], y - owner[1], side)) {
                            spec_flood(
                                g,
                                pg,
                                cell_idx,
                                rest,
                                bind_at(
                                    acc,
                                    owner[0] as int,
                                    owner[1] as int,
                                    x - owner[0],
                                    y - owner[1],
                                    side,
                                    cell_idx,
                                ),
                                marked.insert((x, y, side)),
                                visited,
                            )
                        } else {
                            None
                        }
                    } else {
                        spec_flood(g, pg, cell_idx, rest, acc, marked, visited)
                    }
                },
                CellState::Real(c) => match c {
                    Component::WirePiece(wp) => {
                        let idx = x * g.height() + y;
                        if 0 <= idx < visited.len() && !visited[idx] {
                            spec_flood(
                                g,
                                pg,
                                cell_idx,
                                rest + wire_pushes(x, y, wp),
                                acc,
                                marked,
                                visited.update(idx, true),
                            )
                        } else {
                            spec_flood(g, pg, cell_idx, rest, acc, marked, visited)
                        }
                    },
                    _ => {
                        if pg.slot_valid(x, y, side) && pg.spec_slot(x, y, side) is Some {
                            if c.spec_dummy().spec_declares_port(0, 0, side) {
                                spec_flood(
                                    g,
                                    pg,
                                    cell_idx,
                                    rest,
                                    bind_at(acc, x, y, 0, 0, side, cell_idx),
                                    marked.insert((x, y, side)),
                                    visited,
                                )
                            } else {
                                None
                            }
                        } else {
                            spec_flood(g, pg, cell_idx, rest, acc, marked, visited)
                        }
                    },
                },
            }
        }
    }
}

#[via_fn]
proof fn spec_flood_decreases(
    g: ComponentGrid,
    pg: PortGrid,
    cell_idx: usize,
    stack: Seq<(int, int, Side)>,
    acc: Seq<Seq<CellState>>,
    marked: Set<(int, int, Side)>,
    visited: Seq<bool>,
) {
    if stack.len() != 0 {
        let entry = stack.last();
        let x = entry.0;
        let y = entry.1;
        if 0 <= x < g.width() && 0 <= y < g.height() {
            match g.cell_at(x, y) {
                CellState::Real(c) => match c {
                    Component::WirePiece(_) => {
                        let idx = x * g.height() + y;
                        if 0 <= idx < visited.len() && !visited[idx] {
                            lemma_count_false_update(visited, idx);
                        }
                    },
                    _ => {},
                },
                _ => {},
            }
        }
    }
}

/// What the walk did to the overlay: every slot it joined holds a checked
/// port, every other slot is untouched.
pub open spec fn slots_after_walk(
    pg_old: PortGrid,
    pg_new: PortGrid,
    marked: Set<(int, int, Side)>,
) -> bool {
    forall|a: int, b: int, s: Side|
        pg_old.slot_valid(a, b, s) ==> #[trigger] pg_new.spec_slot(a, b, s) == if marked.contains(
            (a, b, s),
        ) {
            Some(Port { checked: true })
        } else {
            pg_old.spec_slot(a, b, s)
        }
}

/// Walk outward from one port's neighbouring cell, joining to signal cell
/// `cell_idx` every port and transparent wire reachable through enabled,
/// connected wire sides.  Each wire cell is entered at most once per build
/// (the flattened `visited` mask), so loops and branches terminate.  The
/// walk stops at component ports: it binds the facing port and does not
/// propagate through the component.
///
/// The whole effect equals `spec_flood` started on the single given entry:
/// the resulting cells, joined slots and visited mask are pinned; an
/// inconsistent overlay is reported exactly when the model aborts.
pub fn flood_fill(
    grid: &mut ComponentGrid,
    port_grid: &mut PortGrid,
    cell_idx: usize,
    position: [usize; 2],
    origin_side: Side,
    visited: &mut Vec<bool>,
) -> (r: Result<(), BuildError>)
    requires
        old(grid).wf(),
        old(port_grid).wf(),
        old(port_grid).cols() == old(grid).width() + 1,
        old(port_grid).rows() == old(grid).height() + 1,
        old(visited)@.len() == old(grid).width() * old(grid).height(),
    ensures
        final(grid).wf(),
        final(port_grid).wf(),
        final(grid).width() == old(grid).width(),
        final(grid).height() == old(grid).height(),
        final(port_grid).cols() == old(port_grid).cols(),
        final(port_grid).rows() == old(port_grid).rows(),
        final(visited)@.len() == old(visited)@.len(),
        cells_evolve(*old(grid), *final(grid), cell_idx),
        marks_only(*old(port_grid), *final(port_grid)),
        ({
            let model = spec_flood(
                *old(grid),
                *old(port_grid),
                cell_idx,
                seq![(position[0] as int, position[1] as int, origin_side)],
                grid_view(*old(grid)),
                Set::empty(),
                old(visited)@,
            );
            &&& (r is Ok <==> model is Some)
            &&& (r is Ok ==> (model matches Some(st) && grid_view(*final(grid)) == st.0
                && final(visited)@ == st.2 && slots_after_walk(
                *old(port_grid),
                *final(port_grid),
                st.1,
            )))
        }),
{
    let ghost g0 = *old(grid);
    let ghost pg0 = *old(port_grid);
    let ghost gw = old(grid).width();
    let ghost gh = old(grid).height();
    let ghost target = spec_flood(
        g0,
        pg0,
        cell_idx,
        seq![(position[0] as int, position[1] as int, origin_side)],
        grid_view(g0),
        Set::empty(),
        old(visited)@,
    );
    let mut stack: Vec<([usize; 2], Side)> = Vec::new();
    stack.push((position, origin_side));
    let ghost marked: Set<(int, int, Side)> = Set::empty();
    proof {
        assert(stack_model(stack@) =~= seq![
            (position[0] as int, position[1] as int, origin_side),
        ]);
    }
    loop
        invariant_except_break
            grid.wf(),
            port_grid.wf(),
            gw == grid.width(),
            gh == grid.height(),
            port_grid.cols() == gw + 1,
            port_grid.rows() == gh + 1,
            visited@.len() == gw * gh,
            visited@.len() == old(visited)@.len(),
            cells_evolve(g0, *grid, cell_idx),
            marks_only(pg0, *port_grid),
            g0 == *old(grid),
            pg0 == *old(port_grid),
            target == spec_flood(
                g0,
                pg0,
                cell_idx,
                seq![(position[0] as int, position[1] as int, origin_side)],
                grid_view(g0),
                Set::empty(),
                old(visited)@,
            ),
            target == spec_flood(
                g0,
                pg0,
                cell_idx,
                stack_model(stack@),
                grid_view(*grid),
                marked,
                visited@,
            ),
            slots_after_walk(pg0, *port_grid, marked),
        ensures
            grid.wf(),
            port_grid.wf(),
            gw == grid.width(),
            gh == grid.height(),
            port_grid.cols() == gw + 1,
            port_grid.rows() == gh + 1,
            visited@.len() == gw * gh,
            visited@.len() == old(visited)@.len(),
            cells_evolve(g0, *grid, cell_idx),
            marks_only(pg0, *port_grid),
            target == Some((grid_view(*grid), marked, visited@)),
            slots_after_walk(pg0, *port_grid, marked),
        decreases count_false(visited@), stack@.len(),
    {
        let ghost stack_before = stack@;
        let entry = match stack.pop() {
            Some(e) => e,
            None => {
                proof {
                    assert(stack_model(stack_before).len() == 0);
                }
                break;
            },
        };
        proof {
            assert(stack_model(stack_before).last() == (
                entry.0[0] as int,
                entry.0[1] as int,
                entry.1,
            ));
            assert(stack_model(stack@) =~= stack_model(stack_before).drop_last());
        }
        let (pos, side) = entry;
        let x = pos[0];
        let y = pos[1];
        let w = grid.grid.len();
        if x >= w {
            proof {
                assert(target == spec_flood(
                    g0,
                    pg0,
                    cell_idx,
                    stack_model(stack@),
                    grid_view(*grid),
                    marked,
                    visited@,
                ));
            }
            continue;
        }
        let h = grid.grid[x].len();
        if y >= h {
            continue;
        }
        let cell = grid.grid[x][y];
        proof {
            // The walk's topology reads agree between the evolving grid and
            // the one the model reads.
            assert(g0.in_bounds(x as int, y as int));
            assert(match (g0.cell_at(x as int, y as int), grid.cell_at(x as int, y as int)) {
                (CellState::Real(a), CellState::Real(b)) => comp_evolves(a, b, cell_idx),
                (a, b) => a == b,
            });
            assert(cell == grid.cell_at(x as int, y as int));
        }
        match cell {
            CellState::Empty => {
                proof {
                    assert(g0.cell_at(x as int, y as int) is Empty);
                }
            },
            CellState::Reference(owner) => {
                proof {
                    assert(g0.cell_at(x as int, y as int) == CellState::Reference(owner));
                }
                // A covered cell: the port, if declared here, belongs to the
                // component at the owning origin cell.
                let slot = match port_grid.get_port_inside(&pos, side) {
                    Ok(s) => s,
                    Err(_) => None,
                };
                proof {
                    // Slot presence agrees with the overlay the model reads:
                    // joining keeps a slot occupied.
                    if pg0.slot_valid(x as int, y as int, side) {
                        assert(clear_checked(port_grid.spec_slot(x as int, y as int, side))
                            == clear_checked(pg0.spec_slot(x as int, y as int, side)));
                    }
                }
                if slot.is_some() {
                    proof {
                        assert(pg0.slot_valid(x as int, y as int, side) && pg0.spec_slot(
                            x as int,
                            y as int,
                            side,
                        ) is Some);
                    }
                    let dx = match x.checked_sub(owner[0]) {
                        Some(d) => d,
                        None => {
                            proof {
                                assert(!(owner[0] <= x));
                                assert(spec_flood(
                                    g0,
                                    pg0,
                                    cell_idx,
                                    stack_model(stack_before),
                                    grid_view(*grid),
                                    marked,
                                    visited@,
                                ) is None);
                                assert(target is None);
                            }
                            return Err(BuildError::PortGridMismatch);
                        },
                    };
                    let dy = match y.checked_sub(owner[1]) {
                        Some(d) => d,
                        None => {
                            proof {
                                assert(!(owner[1] <= y));
                                assert(spec_flood(
                                    g0,
                                    pg0,
                                    cell_idx,
                                    stack_model(stack_before),
                                    grid_view(*grid),
                                    marked,
                                    visited@,
                                ) is None);
                                assert(target is None);
                            }
                            return Err(BuildError::PortGridMismatch);
                        },
                    };
                    let owner_cell = match grid.fetch(&owner) {
                        Some(c) => c,
                        None => {
                            proof {
                                assert(!g0.in_bounds(owner[0] as int, owner[1] as int));
                                assert(target is None);
                            }
                            return Err(BuildError::PortGridMismatch);
                        },
                    };
                    let mut owner_comp = match owner_cell {
                        CellState::Real(c) => c,
                        _ => {
                            proof {
                                assert(!(g0.cell_at(owner[0] as int, owner[1] as int) is Real));
                                assert(target is None);
                            }
                            return Err(BuildError::PortGridMismatch);
                        },
                    };
                    proof {
                        assert(g0.cell_at(owner[0] as int, owner[1] as int) matches CellState::Real(
                            a,
                        ) && comp_evolves(a, owner_comp, cell_idx));
                        assert(match g0.cell_at(owner[0] as int, owner[1] as int) {
                            CellState::Real(a) => a.spec_dummy() == owner_comp.spec_dummy(),
                            _ => false,
                        }) by {
                            match g0.cell_at(owner[0] as int, owner[1] as int) {
                                CellState::Real(a) => {
                                    assert(a.spec_clear_ports() == owner_comp.spec_clear_ports());
                                    match a {
                                        Component::WirePiece(_) => {},
                                        Component::GateNot(_) => {},
                                        Component::GateAnd(_) => {},
                                        Component::SignalCopy(_) => {},
                                        Component::SignalPassthrough(_) => {},
                                        Component::Counter(_) => {},
                                        Component::Observer(_) => {},
                                        Component::Provider(_) => {},
                                    }
                                },
                                _ => {},
                            }
                        }
                    }
                    let marked_res = port_grid.get_mut_port_inside(
                        &pos,
                        side,
                        Some(Port { checked: true }),
                    );
                    proof {
                        assert(marked_res is Ok);
                    }
                    let ghost before_comp = owner_comp;
                    if owner_comp.set_port([dx, dy], side, cell_idx).is_err() {
                        proof {
                            assert(target is None);
                        }
                        return Err(BuildError::PortGridMismatch);
                    }
                    let ghost before = *grid;
                    grid.grid[owner[0]][owner[1]] = CellState::Real(owner_comp);
                    proof {
                        assert(grid.grid@ == before.grid@.update(
                            owner[0] as int,
                            grid.grid@[owner[0] as int],
                        ));
                        assert(grid.grid@[owner[0] as int]@ == before.grid@[owner[0] as int]@.update(
                            owner[1] as int,
                            grid.cell_at(owner[0] as int, owner[1] as int),
                        ));
                        assert(forall|a: int, b: int|
                            0 <= a < grid.width() && 0 <= b < grid.height() && !(a == owner[0] && b
                                == owner[1]) ==> #[trigger] grid.cell_at(a, b) == before.cell_at(
                                a,
                                b,
                            ));
                        lemma_set_port_evolves(before_comp, dx as int, dy as int, side, cell_idx);
                        assert(cells_evolve(before, *grid, cell_idx));
                        lemma_cells_evolve_trans(g0, before, *grid, cell_idx);
                        // The model takes the same step.
                        assert(grid_view(*grid) =~~= bind_at(
                            grid_view(before),
                            owner[0] as int,
                            owner[1] as int,
                            dx as int,
                            dy as int,
                            side,
                            cell_idx,
                        ));
                        marked = marked.insert((x as int, y as int, side));
                        assert(slots_after_walk(pg0, *port_grid, marked));
                    }
                }
            },
            CellState::Real(comp) => {
                match comp {
                    Component::WirePiece(wpiece) => {
                        proof {
                            assert(g0.cell_at(x as int, y as int) == CellState::Real(
                                Component::WirePiece(wpiece),
                            ));
                        }
                        let vis_len = visited.len();
                        proof {
                            assert(x * h + y < gw * gh) by (nonlinear_arith)
                                requires
                                    0 <= x < gw,
                                    0 <= y < gh,
                                    h == gh,
                                    gh >= 0,
                            ;
                            assert(x * h + y < vis_len);
                        }
                        let idx = x * h + y;
                        if !visited[idx] {
                            let ghost vis_before = visited@;
                            visited[idx] = true;
                            proof {
                                assert(visited@ =~= vis_before.update(idx as int, true));
                                lemma_count_false_update(vis_before, idx as int);
                            }
                            let ghost base = stack_model(stack@);
                            let sides: [Side; 4] = [Side::Up, Side::Down, Side::Left, Side::Right];
                            let mut k: usize = 0;
                            while k < 4
                                invariant
                                    k <= 4,
                                    grid.wf(),
                                    x == pos[0],
                                    y == pos[1],
                                    x < gw,
                                    y < gh,
                                    gw == grid.width(),
                                    gh == grid.height(),
                                    sides@ =~= seq![Side::Up, Side::Down, Side::Left, Side::Right],
                                    stack_model(stack@) =~= base + wire_pushes_upto(
                                        x as int,
                                        y as int,
                                        wpiece,
                                        k as int,
                                    ),
                                decreases 4 - k,
                            {
                                let s = sides[k];
                                let ghost sm_before = stack_model(stack@);
                                if wpiece.connected_sides.get(s) {
                                    if let Some(np) = combine_offset(&pos, &s.as_offset()) {
                                        stack.push((np, s.reverse()));
                                        proof {
                                            assert(stack_model(stack@) =~= sm_before + seq![
                                                (np[0] as int, np[1] as int, s.spec_reverse()),
                                            ]);
                                            assert(wire_step(
                                                x as int,
                                                y as int,
                                                s,
                                                wpiece.connected_sides.spec_get(s),
                                            ) =~= seq![
                                                (np[0] as int, np[1] as int, s.spec_reverse()),
                                            ]);
                                        }
                                    } else {
                                        proof {
                                            assert(wire_step(
                                                x as int,
                                                y as int,
                                                s,
                                                wpiece.connected_sides.spec_get(s),
                                            ) =~= Seq::<(int, int, Side)>::empty());
                                        }
                                    }
                                } else {
                                    proof {
                                        assert(wire_step(
                                            x as int,
                                            y as int,
                                            s,
                                            wpiece.connected_sides.spec_get(s),
                                        ) =~= Seq::<(int, int, Side)>::empty());
                                    }
                                }
                                k = k + 1;
                                proof {
                                    lemma_wire_pushes_upto_step(
                                        x as int,
                                        y as int,
                                        wpiece,
                                        k as int,
                                    );
                                    assert(stack_model(stack@) =~= base + wire_pushes_upto(
                                        x as int,
                                        y as int,
                                        wpiece,
                                        k as int,
                                    ));
                                }
                            }
                            proof {
                                assert(wire_pushes_upto(x as int, y as int, wpiece, 4) =~= wire_pushes(
                                    x as int,
                                    y as int,
                                    wpiece,
                                ));
                                assert(stack_model(stack@) =~= stack_model(
                                    stack_before,
                                ).drop_last() + wire_pushes(x as int, y as int, wpiece));
                            }
                        }
                    },
                    _ => {
                        proof {
                            assert(g0.cell_at(x as int, y as int) matches CellState::Real(a)
                                && a.spec_dummy() == comp.spec_dummy()) by {
                                match g0.cell_at(x as int, y as int) {
                                    CellState::Real(a) => {
                                        assert(a.spec_clear_ports() == comp.spec_clear_ports());
                                        match a {
                                            Component::WirePiece(_) => {},
                                            Component::GateNot(_) => {},
                                            Component::GateAnd(_) => {},
                                            Component::SignalCopy(_) => {},
                                            Component::SignalPassthrough(_) => {},
                                            Component::Counter(_) => {},
                                            Component::Observer(_) => {},
                                            Component::Provider(_) => {},
                                        }
                                    },
                                    _ => {},
                                }
                            }
                        }
                        // A component origin cell: bind the facing port, if
                        // declared, and stop walking in this direction.
                        let slot = match port_grid.get_port_inside(&pos, side) {
                            Ok(s) => s,
                            Err(_) => None,
                        };
                        proof {
                            if pg0.slot_valid(x as int, y as int, side) {
                                assert(clear_checked(port_grid.spec_slot(x as int, y as int, side))
                                    == clear_checked(pg0.spec_slot(x as int, y as int, side)));
                            }
                        }
                        if slot.is_some() {
                            proof {
                                assert(pg0.slot_valid(x as int, y as int, side) && pg0.spec_slot(
                                    x as int,
                                    y as int,
                                    side,
                                ) is Some);
                            }
                            let marked_res = port_grid.get_mut_port_inside(
                                &pos,
                                side,
                                Some(Port { checked: true }),
                            );
                            proof {
                                assert(marked_res is Ok);
                            }
                            let mut owner_comp = comp;
                            let ghost before_comp = owner_comp;
                            if owner_comp.set_port([0, 0], side, cell_idx).is_err() {
                                proof {
                                    assert(target is None);
                                }
                                return Err(BuildError::PortGridMismatch);
                            }
                            let ghost before = *grid;
                            grid.grid[x][y] = CellState::Real(owner_comp);
                            proof {
                                assert(grid.grid@ == before.grid@.update(
                                    x as int,
                                    grid.grid@[x as int],
                                ));
                                assert(grid.grid@[x as int]@ == before.grid@[x as int]@.update(
                                    y as int,
                                    grid.cell_at(x as int, y as int),
                                ));
                                assert(forall|a: int, b: int|
                                    0 <= a < grid.width() && 0 <= b < grid.height() && !(a == x && b
                                        == y) ==> #[trigger] grid.cell_at(a, b) == before.cell_at(
                                        a,
                                        b,
                                    ));
                                lemma_set_port_evolves(before_comp, 0, 0, side, cell_idx);
                                assert(cells_evolve(before, *grid, cell_idx));
                                lemma_cells_evolve_trans(g0, before, *grid, cell_idx);
                                assert(grid_view(*grid) =~~= bind_at(
                                    grid_view(before),
                                    x as int,
                                    y as int,
                                    0,
                                    0,
                                    side,
                                    cell_idx,
                                ));
                                marked = marked.insert((x as int, y as int, side));
                                assert(slots_after_walk(pg0, *port_grid, marked));
                            }
                        }
                    },
                }
            },
        }
        proof {
            assert(target == spec_flood(
                g0,
                pg0,
                cell_idx,
                stack_model(stack@),
                grid_view(*grid),
                marked,
                visited@,
            ));
        }
    }
    proof {
        assert(target == Some((grid_view(*grid), marked, visited@)));
    }
    Ok(())
}


/// The prefix of a visited wire's queued entries: what the walk has pushed
/// after handling the first `k` of its four sides.
pub open spec fn wire_pushes_upto(x: int, y: int, w: Wire, k: int) -> Seq<(int, int, Side)> {
    if k <= 0 {
        Seq::empty()
    } else if k == 1 {
        wire_step(x, y, Side::Up, w.connected_sides.up)
    } else if k == 2 {
        wire_step(x, y, Side::Up, w.connected_sides.up) + wire_step(
            x,
            y,
            Side::Down,
            w.connected_sides.down,
        )
    } else if k == 3 {
        wire_step(x, y, Side::Up, w.connected_sides.up) + wire_step(
            x,
            y,
            Side::Down,
            w.connected_sides.down,
        ) + wire_step(x, y, Side::Left, w.connected_sides.left)
    } else {
        wire_pushes(x, y, w)
    }
}

/// Extending the prefix by one side appends exactly that side's queued
/// entry.
pub proof fn lemma_wire_pushes_upto_step(x: int, y: int, w: Wire, k: int)
    requires
        1 <= k <= 4,
    ensures
        wire_pushes_upto(x, y, w, k) =~= wire_pushes_upto(x, y, w, k - 1) + wire_step(
            x,
            y,
            spec_side_order(k - 1),
            w.connected_sides.spec_get(spec_side_order(k - 1)),
        ),
{
}

/// The fixed order in which a wire's sides are handled.
pub open spec fn spec_side_order(k: int) -> Side {
    if k == 0 {
        Side::Up
    } else if k == 1 {
        Side::Down
    } else if k == 2 {
        Side::Left
    } else {
        Side::Right
    }
}



/// All bindings in the grid point into a bank of `n` cells.
pub open spec fn grid_ports_bounded(g: ComponentGrid, n: int) -> bool {
    forall|x: int, y: int|
        g.in_bounds(x, y) ==> match #[trigger] g.cell_at(x, y) {
            CellState::Real(c) => comp_ports_bounded(c, n),
            _ => true,
        }
}

/// The second grid holds, cell for cell, the built form of the first:
/// components of the same kind and configuration with transient state reset,
/// possibly with ports bound; other cells are identical.
pub open spec fn built_cells(g1: ComponentGrid, g2: ComponentGrid) -> bool {
    &&& g1.width() == g2.width()
    &&& g1.height() == g2.height()
    &&& forall|x: int, y: int|
        g1.in_bounds(x, y) ==> match (#[trigger] g1.cell_at(x, y), g2.cell_at(x, y)) {
            (CellState::Real(a), CellState::Real(b)) => b.spec_clear_ports() == a.spec_build(),
            (a, b) => a == b,
        }
}

/// Joining more ports to an in-range cell keeps all bindings in range.
pub proof fn lemma_evolve_keeps_bounds(g1: ComponentGrid, g2: ComponentGrid, idx: usize, n: int)
    requires
        cells_evolve(g1, g2, idx),
        grid_ports_bounded(g1, n),
        (idx as int) < n,
    ensures
        grid_ports_bounded(g2, n),
{
    assert forall|x: int, y: int|
        g2.in_bounds(x, y) implies match #[trigger] g2.cell_at(x, y) {
        CellState::Real(c) => comp_ports_bounded(c, n),
        _ => true,
    } by {
        assert(g1.in_bounds(x, y));
        match (g1.cell_at(x, y), g2.cell_at(x, y)) {
            (CellState::Real(a), CellState::Real(b)) => {
                assert(comp_evolves(a, b, idx));
                assert forall|i: int| 0 <= i < b.ports_of().len() implies port_bounded(
                    #[trigger] b.ports_of()[i],
                    n,
                ) by {
                    assert(crate::component::port_evolves(a.ports_of()[i], b.ports_of()[i], idx));
                    assert(port_bounded(a.ports_of()[i], n));
                }
            },
            _ => {},
        }
    }
}

/// Joining ports never changes what a cell holds besides bindings.
pub proof fn lemma_evolve_keeps_built(g0: ComponentGrid, g1: ComponentGrid, g2: ComponentGrid, idx: usize)
    requires
        built_cells(g0, g1),
        cells_evolve(g1, g2, idx),
    ensures
        built_cells(g0, g2),
{
    assert forall|x: int, y: int|
        g0.in_bounds(x, y) implies match (#[trigger] g0.cell_at(x, y), g2.cell_at(x, y)) {
        (CellState::Real(a), CellState::Real(b)) => b.spec_clear_ports() == a.spec_build(),
        (a, b) => a == b,
    } by {
        assert(g1.in_bounds(x, y));
        match (g0.cell_at(x, y), g1.cell_at(x, y), g2.cell_at(x, y)) {
            (CellState::Real(a), CellState::Real(b), CellState::Real(c)) => {
                assert(comp_evolves(b, c, idx));
            },
            _ => {},
        }
    }
}

/// The two grids agree on everything the walk reads: dimensions, and per
/// cell the kind, wire switches and cached sides, reference owners and probe
/// ids — everything except port bindings and counter counts.
pub open spec fn same_topology(g1: ComponentGrid, g2: ComponentGrid) -> bool {
    &&& g1.width() == g2.width()
    &&& g1.height() == g2.height()
    &&& forall|x: int, y: int|
        g1.in_bounds(x, y) ==> match (#[trigger] g1.cell_at(x, y), g2.cell_at(x, y)) {
            (CellState::Real(a), CellState::Real(b)) => a.spec_build() == b.spec_build(),
            (a, b) => a == b,
        }
}

/// Resetting ignores bindings: a component and its cleared form reset alike,
/// and resetting twice is resetting once.
pub proof fn lemma_spec_build_stable(c: Component)
    ensures
        c.spec_clear_ports().spec_build() == c.spec_build(),
        c.spec_build().spec_build() == c.spec_build(),
        c.spec_build().spec_dummy() == c.spec_dummy(),
        c.spec_clear_ports().spec_dummy() == c.spec_dummy(),
{
    match c {
        Component::WirePiece(_) => {},
        Component::GateNot(_) => {},
        Component::GateAnd(_) => {},
        Component::SignalCopy(_) => {},
        Component::SignalPassthrough(_) => {},
        Component::Counter(_) => {},
        Component::Observer(_) => {},
        Component::Provider(_) => {},
    }
}

/// Components that reset alike are of one kind.
pub proof fn lemma_same_build_same_dummy(a: Component, b: Component)
    requires
        a.spec_build() == b.spec_build(),
    ensures
        a.spec_dummy() == b.spec_dummy(),
{
    lemma_spec_build_stable(a);
    lemma_spec_build_stable(b);
}

/// A grid in built form has the topology of the grid it was built from.
pub proof fn lemma_built_same_topology(g0: ComponentGrid, g1: ComponentGrid)
    requires
        built_cells(g0, g1),
    ensures
        same_topology(g0, g1),
{
    assert forall|x: int, y: int|
        g0.in_bounds(x, y) implies match (#[trigger] g0.cell_at(x, y), g1.cell_at(x, y)) {
        (CellState::Real(a), CellState::Real(b)) => a.spec_build() == b.spec_build(),
        (a, b) => a == b,
    } by {
        match (g0.cell_at(x, y), g1.cell_at(x, y)) {
            (CellState::Real(a), CellState::Real(b)) => {
                assert(b.spec_clear_ports() == a.spec_build());
                lemma_spec_build_stable(a);
                lemma_spec_build_stable(b);
                assert(b.spec_build() == b.spec_clear_ports().spec_build());
            },
            _ => {},
        }
    }
}

/// The walk reads only the topology of the grid and the occupancy of the
/// overlay: on two states that agree there, it computes the same thing.
pub proof fn lemma_spec_flood_topo(
    g1: ComponentGrid,
    pg1: PortGrid,
    g2: ComponentGrid,
    pg2: PortGrid,
    cell_idx: usize,
    stack: Seq<(int, int, Side)>,
    acc: Seq<Seq<CellState>>,
    marked: Set<(int, int, Side)>,
    visited: Seq<bool>,
)
    requires
        same_topology(g1, g2),
        marks_only(pg1, pg2),
    ensures
        spec_flood(g1, pg1, cell_idx, stack, acc, marked, visited) == spec_flood(
            g2,
            pg2,
            cell_idx,
            stack,
            acc,
            marked,
            visited,
        ),
    decreases count_false(visited), stack.len(),
{
    if stack.len() == 0 {
    } else {
        let entry = stack.last();
        let rest = stack.drop_last();
        let x = entry.0;
        let y = entry.1;
        let side = entry.2;
        if !(0 <= x < g1.width() && 0 <= y < g1.height()) {
            lemma_spec_flood_topo(g1, pg1, g2, pg2, cell_idx, rest, acc, marked, visited);
        } else {
            assert(pg1.slot_valid(x, y, side) == pg2.slot_valid(x, y, side)) by {
                match side {
                    Side::Up => {},
                    Side::Down => {},
                    Side::Left => {},
                    Side::Right => {},
                }
            }
            if pg1.slot_valid(x, y, side) {
                assert(clear_checked(pg2.spec_slot(x, y, side)) == clear_checked(
                    pg1.spec_slot(x, y, side),
                ));
                assert((pg1.spec_slot(x, y, side) is Some) == (pg2.spec_slot(x, y, side) is Some));
            }
            match (g1.cell_at(x, y), g2.cell_at(x, y)) {
                (CellState::Empty, CellState::Empty) => {
                    lemma_spec_flood_topo(g1, pg1, g2, pg2, cell_idx, rest, acc, marked, visited);
                },
                (CellState::Reference(o), CellState::Reference(o2)) => {
                    assert(o == o2);
                    if pg1.slot_valid(x, y, side) && pg1.spec_slot(x, y, side) is Some {
                        let hit1 = o[0] <= x && o[1] <= y && g1.in_bounds(o[0] as int, o[1] as int)
                            && (g1.cell_at(o[0] as int, o[1] as int) matches CellState::Real(c)
                            && c.spec_dummy().spec_declares_port(x - o[0], y - o[1], side));
                        let hit2 = o[0] <= x && o[1] <= y && g2.in_bounds(o[0] as int, o[1] as int)
                            && (g2.cell_at(o[0] as int, o[1] as int) matches CellState::Real(c)
                            && c.spec_dummy().spec_declares_port(x - o[0], y - o[1], side));
                        assert(hit1 == hit2) by {
                            if g1.in_bounds(o[0] as int, o[1] as int) {
                                match (
                                    g1.cell_at(o[0] as int, o[1] as int),
                                    g2.cell_at(o[0] as int, o[1] as int),
                                ) {
                                    (CellState::Real(a), CellState::Real(b)) => {
                                        lemma_same_build_same_dummy(a, b);
                                    },
                                    _ => {},
                                }
                            }
                        }
                        if hit1 {
                            lemma_spec_flood_topo(
                                g1,
                                pg1,
                                g2,
                                pg2,
                                cell_idx,
                                rest,
                                bind_at(
                                    acc,
                                    o[0] as int,
                                    o[1] as int,
                                    x - o[0],
                                    y - o[1],
                                    side,
                                    cell_idx,
                                ),
                                marked.insert((x, y, side)),
                                visited,
                            );
                        }
                    } else {
                        lemma_spec_flood_topo(
                            g1,
                            pg1,
                            g2,
                            pg2,
                            cell_idx,
                            rest,
                            acc,
                            marked,
                            visited,
                        );
                    }
                },
                (CellState::Real(c1), CellState::Real(c2)) => {
                    assert(c1.spec_build() == c2.spec_build());
                    lemma_same_build_same_dummy(c1, c2);
                    match (c1, c2) {
                        (Component::WirePiece(w1), Component::WirePiece(w2)) => {
                            assert(w1 == w2);
                            let idx = x * g1.height() + y;
                            if 0 <= idx < visited.len() && !visited[idx] {
                                lemma_count_false_update(visited, idx);
                                lemma_spec_flood_topo(
                                    g1,
                                    pg1,
                                    g2,
                                    pg2,
                                    cell_idx,
                                    rest + wire_pushes(x, y, w1),
                                    acc,
                                    marked,
                                    visited.update(idx, true),
                                );
                            } else {
                                lemma_spec_flood_topo(
                                    g1,
                                    pg1,
                                    g2,
                                    pg2,
                                    cell_idx,
                                    rest,
                                    acc,
                                    marked,
                                    visited,
                                );
                            }
                        },
                        _ => {
                            assert(!(c1 is WirePiece) && !(c2 is WirePiece)) by {
                                lemma_spec_build_stable(c1);
                                lemma_spec_build_stable(c2);
                                match c1 {
                                    Component::WirePiece(_) => {},
                                    Component::GateNot(_) => {},
                                    Component::GateAnd(_) => {},
                                    Component::SignalCopy(_) => {},
                                    Component::SignalPassthrough(_) => {},
                                    Component::Counter(_) => {},
                                    Component::Observer(_) => {},
                                    Component::Provider(_) => {},
                                }
                            }
                            if pg1.slot_valid(x, y, side) && pg1.spec_slot(x, y, side) is Some {
                                if c1.spec_dummy().spec_declares_port(0, 0, side) {
                                    lemma_spec_flood_topo(
                                        g1,
                                        pg1,
                                        g2,
                                        pg2,
                                        cell_idx,
                                        rest,
                                        bind_at(acc, x, y, 0, 0, side, cell_idx),
                                        marked.insert((x, y, side)),
                                        visited,
                                    );
                                }
                            } else {
                                lemma_spec_flood_topo(
                                    g1,
                                    pg1,
                                    g2,
                                    pg2,
                                    cell_idx,
                                    rest,
                                    acc,
                                    marked,
                                    visited,
                                );
                            }
                        },
                    }
                },
                _ => {
                    assert(false);
                },
            }
        }
    }
}

/// The second overlay differs from the first only by turning some
/// occupied slots' visited marks on.
pub open spec fn marks_monotone(p1: PortGrid, p2: PortGrid) -> bool {
    &&& p1.cols() == p2.cols()
    &&& p1.rows() == p2.rows()
    &&& forall|a: int, b: int, s: Side|
        p1.slot_valid(a, b, s) ==> ((#[trigger] p2.spec_slot(a, b, s)) == p1.spec_slot(a, b, s)
            || p2.spec_slot(a, b, s) == Some(Port { checked: true }))
}

/// The first `upto` declared ports of the component at `(x, y)` (in the
/// pre-build state `g0`) whose overlay slots exist and are occupied have
/// been joined: their slots hold checked ports in `pgc`.
pub open spec fn cell_ports_checked_upto(
    g0: ComponentGrid,
    pg0: PortGrid,
    pgc: PortGrid,
    x: int,
    y: int,
    upto: int,
) -> bool {
    match g0.cell_at(x, y) {
        CellState::Real(c) => match c {
            Component::WirePiece(_) => true,
            _ => forall|k: int|
                0 <= k < upto && k < c.spec_dummy().spec_num_ports() ==> {
                    let e = #[trigger] c.spec_dummy().spec_port_entry(k);
                    (pg0.slot_valid(x + e.0, y + e.1, e.2) && pg0.spec_slot(
                        x + e.0,
                        y + e.1,
                        e.2,
                    ) is Some) ==> pgc.spec_slot(x + e.0, y + e.1, e.2) == Some(Port { checked: true })
                },
        },
        _ => true,
    }
}

/// Every declared port of the component at `(x, y)` whose overlay slot
/// exists and is occupied has been joined to a node.
pub open spec fn cell_ports_checked(
    g0: ComponentGrid,
    pg0: PortGrid,
    pgc: PortGrid,
    x: int,
    y: int,
) -> bool {
    match g0.cell_at(x, y) {
        CellState::Real(c) => match c {
            Component::WirePiece(_) => true,
            _ => cell_ports_checked_upto(g0, pg0, pgc, x, y, c.spec_dummy().spec_num_ports()),
        },
        _ => true,
    }
}

/// A joined slot stays joined when further marks are only turned on.
pub proof fn lemma_checked_persists(
    g0: ComponentGrid,
    pg0: PortGrid,
    p1: PortGrid,
    p2: PortGrid,
    x: int,
    y: int,
    upto: int,
)
    requires
        marks_monotone(p1, p2),
        pg0.cols() == p1.cols(),
        pg0.rows() == p1.rows(),
        cell_ports_checked_upto(g0, pg0, p1, x, y, upto),
    ensures
        cell_ports_checked_upto(g0, pg0, p2, x, y, upto),
{
    match g0.cell_at(x, y) {
        CellState::Real(c) => match c {
            Component::WirePiece(_) => {},
            _ => {
                assert forall|k: int| 0 <= k < upto && k < c.spec_dummy().spec_num_ports() implies {
                    let e = #[trigger] c.spec_dummy().spec_port_entry(k);
                    (pg0.slot_valid(x + e.0, y + e.1, e.2) && pg0.spec_slot(
                        x + e.0,
                        y + e.1,
                        e.2,
                    ) is Some) ==> p2.spec_slot(x + e.0, y + e.1, e.2) == Some(Port { checked: true })
                } by {
                    let e = c.spec_dummy().spec_port_entry(k);
                    if pg0.slot_valid(x + e.0, y + e.1, e.2) && pg0.spec_slot(
                        x + e.0,
                        y + e.1,
                        e.2,
                    ) is Some {
                        assert(p1.slot_valid(x + e.0, y + e.1, e.2));
                        assert(p1.spec_slot(x + e.0, y + e.1, e.2) == Some(Port { checked: true }));
                    }
                }
            },
        },
        _ => {},
    }
}

/// A slot coordinate past the machine range lies outside any overlay whose
/// grid fits in machine-sized dimensions.
pub proof fn lemma_slot_off_grid(pg: PortGrid, a: int, b: int, sd: Side, w: int, h: int)
    requires
        pg.cols() == w + 1,
        pg.rows() == h + 1,
        0 <= w <= usize::MAX,
        0 <= h <= usize::MAX,
        a > usize::MAX || b > usize::MAX,
    ensures
        !pg.slot_valid(a, b, sd),
{
    match sd {
        Side::Up => {},
        Side::Down => {},
        Side::Left => {},
        Side::Right => {},
    }
}

/// All fully scanned cells keep their joined ports when further marks are
/// only turned on.
pub proof fn lemma_region_persists(
    g0: ComponentGrid,
    pg0: PortGrid,
    p1: PortGrid,
    p2: PortGrid,
    x: int,
    y: int,
)
    requires
        marks_monotone(p1, p2),
        pg0.cols() == p1.cols(),
        pg0.rows() == p1.rows(),
        forall|a: int, b: int|
            g0.in_bounds(a, b) && (a < x || (a == x && b < y)) ==> #[trigger] cell_ports_checked(
                g0,
                pg0,
                p1,
                a,
                b,
            ),
    ensures
        forall|a: int, b: int|
            g0.in_bounds(a, b) && (a < x || (a == x && b < y)) ==> #[trigger] cell_ports_checked(
                g0,
                pg0,
                p2,
                a,
                b,
            ),
{
    assert forall|a: int, b: int|
        g0.in_bounds(a, b) && (a < x || (a == x && b < y)) implies #[trigger] cell_ports_checked(
        g0,
        pg0,
        p2,
        a,
        b,
    ) by {
        assert(cell_ports_checked(g0, pg0, p1, a, b));
        match g0.cell_at(a, b) {
            CellState::Real(oc) => match oc {
                Component::WirePiece(_) => {},
                _ => {
                    lemma_checked_persists(
                        g0,
                        pg0,
                        p1,
                        p2,
                        a,
                        b,
                        oc.spec_dummy().spec_num_ports(),
                    );
                },
            },
            _ => {},
        }
    }
}

/// How many ports the component standing at `(x, y)` declares; none for
/// other cells.
pub open spec fn ports_at(g: ComponentGrid, x: int, y: int) -> int {
    match g.cell_at(x, y) {
        CellState::Real(c) => c.spec_dummy().spec_num_ports(),
        _ => 0,
    }
}

/// The grid's cells with every component reset to built form: what the
/// compiler's first pass leaves.
pub open spec fn built_view(gv: Seq<Seq<CellState>>) -> Seq<Seq<CellState>> {
    Seq::new(
        gv.len(),
        |x: int|
            Seq::new(
                gv[x].len(),
                |y: int|
                    match gv[x][y] {
                        CellState::Real(c) => CellState::Real(c.spec_build()),
                        other => other,
                    },
            ),
    )
}

/// A visited mask with nothing visited yet.
pub open spec fn all_false(n: int) -> Seq<bool> {
    Seq::new(n as nat, |i: int| false)
}

/// The whole build phase after the reset, as a mathematical function: scan
/// the cells in row-major order and, for each declared port of a component
/// whose slot exists, is occupied and was not yet joined, allocate the next
/// signal-cell id, join the port's own slot and binding, and run the walk
/// (`spec_flood`) outward from the port's neighbour.  `g` and `pg` are the
/// topology the scan reads — the pre-build grid and overlay serve, since a
/// build changes neither kinds, wire sides, reference owners nor slot
/// occupancy; `acc`, `marked`, `visited` and `ncells` carry the bindings,
/// joined slots, entered wires and allocated cells so far.  `None` means
/// the grid and overlay were found out of step, or the bank ran out of ids.
#[verifier::opaque]
pub open spec fn spec_build_scan(
    g: ComponentGrid,
    pg: PortGrid,
    acc: Seq<Seq<CellState>>,
    marked: Set<(int, int, Side)>,
    visited: Seq<bool>,
    ncells: nat,
    x: int,
    y: int,
    k: int,
) -> Option<(Seq<Seq<CellState>>, Set<(int, int, Side)>, Seq<bool>, nat)>
    decreases g.width() - x, g.height() - y, ports_at(g, x, y) - k,
{
    if x < 0 || y < 0 || k < 0 || x >= g.width() {
        Some((acc, marked, visited, ncells))
    } else if y >= g.height() {
        spec_build_scan(g, pg, acc, marked, visited, ncells, x + 1, 0, 0)
    } else {
        match g.cell_at(x, y) {
            CellState::Real(c) => {
                if c is WirePiece || k >= c.spec_dummy().spec_num_ports() {
                    spec_build_scan(g, pg, acc, marked, visited, ncells, x, y + 1, 0)
                } else {
                    let e = c.spec_dummy().spec_port_entry(k);
                    let ax = x + e.0;
                    let ay = y + e.1;
                    if ax <= usize::MAX && ay <= usize::MAX && pg.slot_valid(ax, ay, e.2)
                        && pg.spec_slot(ax, ay, e.2) is Some && !marked.contains(
                        (ax, ay, e.2),
                    ) {
                        if ncells >= usize::MAX {
                            None
                        } else {
                            let acc1 = bind_at(acc, x, y, e.0, e.1, e.2, ncells as usize);
                            let marked1 = marked.insert((ax, ay, e.2));
                            let ox = ax + e.2.spec_dx();
                            let oy = ay + e.2.spec_dy();
                            if 0 <= ox <= usize::MAX && 0 <= oy <= usize::MAX {
                                match spec_flood(
                                    g,
                                    pg,
                                    ncells as usize,
                                    seq![(ox, oy, e.2.spec_reverse())],
                                    acc1,
                                    Set::empty(),
                                    visited,
                                ) {
                                    Option::Some(st) => spec_build_scan(
                                        g,
                                        pg,
                                        st.0,
                                        marked1.union(st.1),
                                        st.2,
                                        (ncells + 1) as nat,
                                        x,
                                        y,
                                        k + 1,
                                    ),
                                    Option::None => None,
                                }
                            } else {
                                spec_build_scan(
                                    g,
                                    pg,
                                    acc1,
                                    marked1,
                                    visited,
                                    (ncells + 1) as nat,
                                    x,
                                    y,
                                    k + 1,
                                )
                            }
                        }
                    } else {
                        spec_build_scan(g, pg, acc, marked, visited, ncells, x, y, k + 1)
                    }
                }
            },
            _ => spec_build_scan(g, pg, acc, marked, visited, ncells, x, y + 1, 0),
        }
    }
}

/// The scan, like the walk, reads only the grid's topology and the
/// overlay's occupancy: on two states that agree there it computes the same
/// bindings, joined slots, visits and cell count.
pub proof fn lemma_build_scan_topo(
    g1: ComponentGrid,
    pg1: PortGrid,
    g2: ComponentGrid,
    pg2: PortGrid,
    acc: Seq<Seq<CellState>>,
    marked: Set<(int, int, Side)>,
    visited: Seq<bool>,
    ncells: nat,
    x: int,
    y: int,
    k: int,
)
    requires
        same_topology(g1, g2),
        marks_only(pg1, pg2),
    ensures
        spec_build_scan(g1, pg1, acc, marked, visited, ncells, x, y, k) == spec_build_scan(
            g2,
            pg2,
            acc,
            marked,
            visited,
            ncells,
            x,
            y,
            k,
        ),
    decreases g1.width() - x, g1.height() - y, ports_at(g1, x, y) - k,
{
    reveal(spec_build_scan);
    if x < 0 || y < 0 || k < 0 || x >= g1.width() {
    } else if y >= g1.height() {
        lemma_build_scan_topo(g1, pg1, g2, pg2, acc, marked, visited, ncells, x + 1, 0, 0);
    } else {
        match (g1.cell_at(x, y), g2.cell_at(x, y)) {
            (CellState::Real(c1), CellState::Real(c2)) => {
                assert(c1.spec_build() == c2.spec_build());
                lemma_same_build_same_dummy(c1, c2);
                assert((c1 is WirePiece) == (c2 is WirePiece)) by {
                    lemma_spec_build_stable(c1);
                    lemma_spec_build_stable(c2);
                    match c1 {
                        Component::WirePiece(_) => {},
                        Component::GateNot(_) => {},
                        Component::GateAnd(_) => {},
                        Component::SignalCopy(_) => {},
                        Component::SignalPassthrough(_) => {},
                        Component::Counter(_) => {},
                        Component::Observer(_) => {},
                        Component::Provider(_) => {},
                    }
                }
                assert(ports_at(g1, x, y) == ports_at(g2, x, y));
                if c1 is WirePiece || k >= c1.spec_dummy().spec_num_ports() {
                    lemma_build_scan_topo(
                        g1,
                        pg1,
                        g2,
                        pg2,
                        acc,
                        marked,
                        visited,
                        ncells,
                        x,
                        y + 1,
                        0,
                    );
                } else {
                    let e = c1.spec_dummy().spec_port_entry(k);
                    let ax = x + e.0;
                    let ay = y + e.1;
                    assert(pg1.slot_valid(ax, ay, e.2) == pg2.slot_valid(ax, ay, e.2)) by {
                        match e.2 {
                            Side::Up => {},
                            Side::Down => {},
                            Side::Left => {},
                            Side::Right => {},
                        }
                    }
                    if pg1.slot_valid(ax, ay, e.2) {
                        assert(clear_checked(pg2.spec_slot(ax, ay, e.2)) == clear_checked(
                            pg1.spec_slot(ax, ay, e.2),
                        ));
                        assert((pg1.spec_slot(ax, ay, e.2) is Some) == (pg2.spec_slot(
                            ax,
                            ay,
                            e.2,
                        ) is Some));
                    }
                    if ax <= usize::MAX && ay <= usize::MAX && pg1.slot_valid(ax, ay, e.2)
                        && pg1.spec_slot(ax, ay, e.2) is Some && !marked.contains((ax, ay, e.2)) {
                        if ncells >= usize::MAX {
                        } else {
                            let acc1 = bind_at(acc, x, y, e.0, e.1, e.2, ncells as usize);
                            let marked1 = marked.insert((ax, ay, e.2));
                            let ox = ax + e.2.spec_dx();
                            let oy = ay + e.2.spec_dy();
                            if 0 <= ox <= usize::MAX && 0 <= oy <= usize::MAX {
                                lemma_spec_flood_topo(
                                    g1,
                                    pg1,
                                    g2,
                                    pg2,
                                    ncells as usize,
                                    seq![(ox, oy, e.2.spec_reverse())],
                                    acc1,
                                    Set::empty(),
                                    visited,
                                );
                                match spec_flood(
                                    g1,
                                    pg1,
                                    ncells as usize,
                                    seq![(ox, oy, e.2.spec_reverse())],
                                    acc1,
                                    Set::empty(),
                                    visited,
                                ) {
                                    Option::Some(st) => {
                                        lemma_build_scan_topo(
                                            g1,
                                            pg1,
                                            g2,
                                            pg2,
                                            st.0,
                                            marked1.union(st.1),
                                            st.2,
                                            (ncells + 1) as nat,
                                            x,
                                            y,
                                            k + 1,
                                        );
                                    },
                                    Option::None => {},
                                }
                            } else {
                                lemma_build_scan_topo(
                                    g1,
                                    pg1,
                                    g2,
                                    pg2,
                                    acc1,
                                    marked1,
                                    visited,
                                    (ncells + 1) as nat,
                                    x,
                                    y,
                                    k + 1,
                                );
                            }
                        }
                    } else {
                        lemma_build_scan_topo(
                            g1,
                            pg1,
                            g2,
                            pg2,
                            acc,
                            marked,
                            visited,
                            ncells,
                            x,
                            y,
                            k + 1,
                        );
                    }
                }
            },
            (CellState::Empty, CellState::Empty) => {
                lemma_build_scan_topo(g1, pg1, g2, pg2, acc, marked, visited, ncells, x, y + 1, 0);
            },
            (CellState::Reference(_), CellState::Reference(_)) => {
                lemma_build_scan_topo(g1, pg1, g2, pg2, acc, marked, visited, ncells, x, y + 1, 0);
            },
            _ => {
                assert(false);
            },
        }
    }
}

/// Run the connectivity compiler once: discard the previous signal-cell
/// generation, reset every component and visited mark, then walk out from
/// every unvisited declared port, allocating one fresh cell per discovered
/// electrical node and binding every port joined to it.  On success every
/// declared, occupied port slot on the grid has been visited; each walk's
/// effect is pinned by `spec_flood`.  On `Err(PortGridMismatch)` the grid
/// and overlay were found inconsistent and the simulation must stay halted;
/// the state is still well-formed and no binding points outside the new
/// bank.
#[verifier::rlimit(100)]
pub fn build_simulation(sim: &mut SimulationData, bank: &mut SignalBank) -> (r: Result<
    (),
    BuildError,
>)
    requires
        old(sim).wf(),
        old(sim).grid.width() * old(sim).grid.height() <= usize::MAX,
    ensures
        final(sim).wf(),
        final(sim).grid.width() == old(sim).grid.width(),
        final(sim).grid.height() == old(sim).grid.height(),
        built_cells(old(sim).grid, final(sim).grid),
        marks_only(old(sim).port_grid, final(sim).port_grid),
        grid_ports_bounded(final(sim).grid, final(bank).cells@.len() as int),
        forall|i: int| 0 <= i < final(bank).cells@.len() ==> final(bank).cells@[i] == 0,
        r is Ok ==> (forall|a: int, b: int|
            old(sim).grid.in_bounds(a, b) ==> #[trigger] cell_ports_checked(
                old(sim).grid,
                old(sim).port_grid,
                final(sim).port_grid,
                a,
                b,
            )),
        ({
            let scan = spec_build_scan(
                old(sim).grid,
                old(sim).port_grid,
                built_view(grid_view(old(sim).grid)),
                Set::empty(),
                all_false(old(sim).grid.width() * old(sim).grid.height()),
                0,
                0,
                0,
                0,
            );
            &&& (r is Ok <==> scan is Some)
            &&& (r is Ok ==> (scan matches Some(st) && grid_view(final(sim).grid) == st.0
                && final(bank).cells@.len() == st.3 && (forall|a: int, b: int, sd: Side|
                old(sim).port_grid.slot_valid(a, b, sd)
                    ==> #[trigger] final(sim).port_grid.spec_slot(a, b, sd) == if st.1.contains(
                    (a, b, sd),
                ) {
                    Some(Port { checked: true })
                } else {
                    clear_checked(old(sim).port_grid.spec_slot(a, b, sd))
                })))
        }),
{
    *bank = SignalBank::new();
    sim.port_grid.reset_build();
    let w = sim.grid.grid.len();
    let h = sim.grid.grid[0].len();
    let ghost target = spec_build_scan(
        old(sim).grid,
        old(sim).port_grid,
        built_view(grid_view(old(sim).grid)),
        Set::empty(),
        all_false(old(sim).grid.width() * old(sim).grid.height()),
        0,
        0,
        0,
        0,
    );

    // First pass: reset every component's transient state and drop the
    // previous generation's bindings.
    let mut x: usize = 0;
    while x < w
        invariant
            old(sim).wf(),
            sim.wf(),
            w == sim.grid.width(),
            h == sim.grid.height(),
            sim.grid.width() == old(sim).grid.width(),
            sim.grid.height() == old(sim).grid.height(),
            marks_only(old(sim).port_grid, sim.port_grid),
            sim.port_grid.cols() == w + 1,
            sim.port_grid.rows() == h + 1,
            x <= w,
            forall|a: int, b: int, sd: Side|
                old(sim).port_grid.slot_valid(a, b, sd) ==> #[trigger] sim.port_grid.spec_slot(
                    a,
                    b,
                    sd,
                ) == clear_checked(old(sim).port_grid.spec_slot(a, b, sd)),
            forall|a: int, b: int|
                old(sim).grid.in_bounds(a, b) && a >= x ==> #[trigger] sim.grid.cell_at(a, b)
                    == old(sim).grid.cell_at(a, b),
            forall|a: int, b: int|
                old(sim).grid.in_bounds(a, b) && a < x ==> match (
                    #[trigger] old(sim).grid.cell_at(a, b),
                    sim.grid.cell_at(a, b),
                ) {
                    (CellState::Real(c1), c2) => c2 == CellState::Real(c1.spec_build()),
                    (c1, c2) => c1 == c2,
                },
        decreases w - x,
    {
        let mut y: usize = 0;
        while y < h
            invariant
                old(sim).wf(),
                sim.wf(),
                w == sim.grid.width(),
                h == sim.grid.height(),
                sim.grid.width() == old(sim).grid.width(),
                sim.grid.height() == old(sim).grid.height(),
                marks_only(old(sim).port_grid, sim.port_grid),
                sim.port_grid.cols() == w + 1,
                sim.port_grid.rows() == h + 1,
                x < w,
                y <= h,
                forall|a: int, b: int, sd: Side|
                    old(sim).port_grid.slot_valid(a, b, sd) ==> #[trigger] sim.port_grid.spec_slot(
                        a,
                        b,
                        sd,
                    ) == clear_checked(old(sim).port_grid.spec_slot(a, b, sd)),
                forall|a: int, b: int|
                    old(sim).grid.in_bounds(a, b) && (a > x || (a == x && b >= y))
                        ==> #[trigger] sim.grid.cell_at(a, b) == old(sim).grid.cell_at(a, b),
                forall|a: int, b: int|
                    old(sim).grid.in_bounds(a, b) && (a < x || (a == x && b < y)) ==> match (
                        #[trigger] old(sim).grid.cell_at(a, b),
                        sim.grid.cell_at(a, b),
                    ) {
                        (CellState::Real(c1), c2) => c2 == CellState::Real(c1.spec_build()),
                        (c1, c2) => c1 == c2,
                    },
            decreases h - y,
        {
            let cell = sim.grid.grid[x][y];
            match cell {
                CellState::Real(c) => {
                    let mut comp = c;
                    comp.build();
                    let ghost before = sim.grid;
                    sim.grid.grid[x][y] = CellState::Real(comp);
                    proof {
                        assert(sim.grid.grid@ == before.grid@.update(
                            x as int,
                            sim.grid.grid@[x as int],
                        ));
                        assert(sim.grid.grid@[x as int]@ == before.grid@[x as int]@.update(
                            y as int,
                            sim.grid.cell_at(x as int, y as int),
                        ));
                        assert(forall|a: int, b: int|
                            0 <= a < sim.grid.width() && 0 <= b < sim.grid.height() && !(a == x && b
                                == y) ==> #[trigger] sim.grid.cell_at(a, b) == before.cell_at(
                                a,
                                b,
                            ));
                    }
                },
                _ => {},
            }
            y = y + 1;
        }
        x = x + 1;
    }

    // Second pass: walk out from every not-yet-joined declared port.
    let mut visited: Vec<bool> = Vec::new();
    let mut k: usize = 0;
    let total = match w.checked_mul(h) {
        Some(t) => t,
        None => {
            proof {
                assert(false);
            }
            return Err(BuildError::CellOverflow);
        },
    };
    while k < total
        invariant
            k <= total,
            visited@.len() == k,
            forall|i: int| 0 <= i < k ==> !(#[trigger] visited@[i]),
        decreases total - k,
    {
        visited.push(false);
        k = k + 1;
    }
    let ghost marked_b: Set<(int, int, Side)> = Set::empty();
    proof {
        let ghost bv = built_view(grid_view(old(sim).grid));
        assert(grid_view(sim.grid).len() == bv.len());
        assert forall|i: int| 0 <= i < w implies (#[trigger] grid_view(sim.grid)[i]).len()
            == bv[i].len() by {
            assert(grid_view(old(sim).grid)[i].len() == h);
        }
        assert forall|i: int, j: int| 0 <= i < w && 0 <= j < h implies #[trigger] grid_view(
            sim.grid,
        )[i][j] == bv[i][j] by {
            assert(old(sim).grid.in_bounds(i, j));
            assert(grid_view(old(sim).grid)[i][j] == old(sim).grid.cell_at(i, j));
            assert(match (old(sim).grid.cell_at(i, j), sim.grid.cell_at(i, j)) {
                (CellState::Real(c1), c2) => c2 == CellState::Real(c1.spec_build()),
                (c1, c2) => c1 == c2,
            });
        }
        assert(grid_view(sim.grid) =~~= built_view(grid_view(old(sim).grid)));
        assert(visited@ =~= all_false(w * h));
        assert(spec_build_scan(
            old(sim).grid,
            old(sim).port_grid,
            grid_view(sim.grid),
            marked_b,
            visited@,
            bank.cells@.len() as nat,
            0,
            0,
            0,
        ) == target);
    }

    let mut x: usize = 0;
    while x < w
        invariant
            old(sim).wf(),
            sim.wf(),
            w == sim.grid.width(),
            h == sim.grid.height(),
            sim.grid.width() == old(sim).grid.width(),
            sim.grid.height() == old(sim).grid.height(),
            sim.port_grid.cols() == w + 1,
            sim.port_grid.rows() == h + 1,
            visited@.len() == w * h,
            x <= w,
            built_cells(old(sim).grid, sim.grid),
            marks_only(old(sim).port_grid, sim.port_grid),
            grid_ports_bounded(sim.grid, bank.cells@.len() as int),
            forall|i: int| 0 <= i < bank.cells@.len() ==> bank.cells@[i] == 0,
            forall|a: int, b: int|
                old(sim).grid.in_bounds(a, b) && a < x ==> #[trigger] cell_ports_checked(
                    old(sim).grid,
                    old(sim).port_grid,
                    sim.port_grid,
                    a,
                    b,
                ),
            target == spec_build_scan(
                old(sim).grid,
                old(sim).port_grid,
                built_view(grid_view(old(sim).grid)),
                Set::empty(),
                all_false(old(sim).grid.width() * old(sim).grid.height()),
                0,
                0,
                0,
                0,
            ),
            target == spec_build_scan(
                old(sim).grid,
                old(sim).port_grid,
                grid_view(sim.grid),
                marked_b,
                visited@,
                bank.cells@.len() as nat,
                x as int,
                0,
                0,
            ),
            forall|a: int, b: int, sd: Side|
                old(sim).port_grid.slot_valid(a, b, sd) ==> #[trigger] sim.port_grid.spec_slot(
                    a,
                    b,
                    sd,
                ) == if marked_b.contains((a, b, sd)) {
                    Some(Port { checked: true })
                } else {
                    clear_checked(old(sim).port_grid.spec_slot(a, b, sd))
                },
        decreases w - x,
    {
        let mut y: usize = 0;
        while y < h
            invariant
                old(sim).wf(),
                sim.wf(),
                w == sim.grid.width(),
                h == sim.grid.height(),
                sim.grid.width() == old(sim).grid.width(),
                sim.grid.height() == old(sim).grid.height(),
                sim.port_grid.cols() == w + 1,
                sim.port_grid.rows() == h + 1,
                visited@.len() == w * h,
                x < w,
                y <= h,
                built_cells(old(sim).grid, sim.grid),
                marks_only(old(sim).port_grid, sim.port_grid),
                grid_ports_bounded(sim.grid, bank.cells@.len() as int),
                forall|i: int| 0 <= i < bank.cells@.len() ==> bank.cells@[i] == 0,
                forall|a: int, b: int|
                    old(sim).grid.in_bounds(a, b) && (a < x || (a == x && b < y))
                        ==> #[trigger] cell_ports_checked(
                        old(sim).grid,
                        old(sim).port_grid,
                        sim.port_grid,
                        a,
                        b,
                    ),
                target == spec_build_scan(
                    old(sim).grid,
                    old(sim).port_grid,
                    built_view(grid_view(old(sim).grid)),
                    Set::empty(),
                    all_false(old(sim).grid.width() * old(sim).grid.height()),
                    0,
                    0,
                    0,
                    0,
                ),
                target == spec_build_scan(
                    old(sim).grid,
                    old(sim).port_grid,
                    grid_view(sim.grid),
                    marked_b,
                    visited@,
                    bank.cells@.len() as nat,
                    x as int,
                    y as int,
                    0,
                ),
                forall|a: int, b: int, sd: Side|
                    old(sim).port_grid.slot_valid(a, b, sd) ==> #[trigger] sim.port_grid.spec_slot(
                        a,
                        b,
                        sd,
                    ) == if marked_b.contains((a, b, sd)) {
                        Some(Port { checked: true })
                    } else {
                        clear_checked(old(sim).port_grid.spec_slot(a, b, sd))
                    },
            decreases h - y,
        {
            let cell = sim.grid.grid[x][y];
            match cell {
                CellState::Real(c) => {
                    match c {
                        Component::WirePiece(_) => {},
                        _ => {
                            proof {
                                assert(match old(sim).grid.cell_at(x as int, y as int) {
                                    CellState::Real(oc) => oc.spec_dummy() == c.spec_dummy()
                                        && !(oc is WirePiece),
                                    _ => false,
                                }) by {
                                    match old(sim).grid.cell_at(x as int, y as int) {
                                        CellState::Real(oc) => {
                                            assert(c.spec_clear_ports() == oc.spec_build());
                                            match oc {
                                                Component::WirePiece(_) => {},
                                                Component::GateNot(_) => {},
                                                Component::GateAnd(_) => {},
                                                Component::SignalCopy(_) => {},
                                                Component::SignalPassthrough(_) => {},
                                                Component::Counter(_) => {},
                                                Component::Observer(_) => {},
                                                Component::Provider(_) => {},
                                            }
                                        },
                                        _ => {},
                                    }
                                }
                            }
                            let ports = c.dummy().ports();
                            let mut pk: usize = 0;
                            while pk < ports.len()
                                invariant
                                    old(sim).wf(),
                                    sim.wf(),
                                    w == sim.grid.width(),
                                    h == sim.grid.height(),
                                    sim.grid.width() == old(sim).grid.width(),
                                    sim.grid.height() == old(sim).grid.height(),
                                    sim.port_grid.cols() == w + 1,
                                    sim.port_grid.rows() == h + 1,
                                    visited@.len() == w * h,
                                    x < w,
                                    y < h,
                                    pk <= ports@.len(),
                                    built_cells(old(sim).grid, sim.grid),
                                    marks_only(old(sim).port_grid, sim.port_grid),
                                    grid_ports_bounded(sim.grid, bank.cells@.len() as int),
                                    forall|i: int|
                                        0 <= i < bank.cells@.len() ==> bank.cells@[i] == 0,
                                    ports@.len() == c.spec_dummy().spec_num_ports(),
                                    forall|k: int|
                                        0 <= k < ports@.len() ==> {
                                            let e = #[trigger] ports@[k];
                                            c.spec_dummy().spec_port_entry(k) == (
                                                e.0[0] as int,
                                                e.0[1] as int,
                                                e.1,
                                            )
                                        },
                                    (match old(sim).grid.cell_at(x as int, y as int) {
                                        CellState::Real(oc) => oc.spec_dummy() == c.spec_dummy()
                                            && !(oc is WirePiece),
                                        _ => false,
                                    }),
                                    forall|a: int, b: int|
                                        old(sim).grid.in_bounds(a, b) && (a < x || (a == x && b
                                            < y)) ==> #[trigger] cell_ports_checked(
                                            old(sim).grid,
                                            old(sim).port_grid,
                                            sim.port_grid,
                                            a,
                                            b,
                                        ),
                                    cell_ports_checked_upto(
                                        old(sim).grid,
                                        old(sim).port_grid,
                                        sim.port_grid,
                                        x as int,
                                        y as int,
                                        pk as int,
                                    ),
                                    target == spec_build_scan(
                                        old(sim).grid,
                                        old(sim).port_grid,
                                        built_view(grid_view(old(sim).grid)),
                                        Set::empty(),
                                        all_false(
                                            old(sim).grid.width() * old(sim).grid.height(),
                                        ),
                                        0,
                                        0,
                                        0,
                                        0,
                                    ),
                                    target == spec_build_scan(
                                        old(sim).grid,
                                        old(sim).port_grid,
                                        grid_view(sim.grid),
                                        marked_b,
                                        visited@,
                                        bank.cells@.len() as nat,
                                        x as int,
                                        y as int,
                                        pk as int,
                                    ),
                                    forall|a: int, b: int, sd: Side|
                                        old(sim).port_grid.slot_valid(a, b, sd)
                                            ==> #[trigger] sim.port_grid.spec_slot(a, b, sd)
                                            == if marked_b.contains((a, b, sd)) {
                                            Some(Port { checked: true })
                                        } else {
                                            clear_checked(old(sim).port_grid.spec_slot(a, b, sd))
                                        },
                                decreases ports@.len() - pk,
                            {
                                let (offset, side) = ports[pk];
                                proof {
                                    assert(c.spec_dummy().spec_port_entry(pk as int) == (
                                        offset[0] as int,
                                        offset[1] as int,
                                        side,
                                    ));
                                }
                                let ax = match x.checked_add(offset[0]) {
                                    Some(a) => a,
                                    None => {
                                        proof {
                                            lemma_slot_off_grid(
                                                old(sim).port_grid,
                                                x + offset[0],
                                                y + offset[1],
                                                side,
                                                w as int,
                                                h as int,
                                            );
                                            assert(cell_ports_checked_upto(
                                                old(sim).grid,
                                                old(sim).port_grid,
                                                sim.port_grid,
                                                x as int,
                                                y as int,
                                                pk + 1,
                                            ));
                                            assert(target == spec_build_scan(
                                                old(sim).grid,
                                                old(sim).port_grid,
                                                grid_view(sim.grid),
                                                marked_b,
                                                visited@,
                                                bank.cells@.len() as nat,
                                                x as int,
                                                y as int,
                                                pk + 1,
                                            )) by {
                                                reveal(spec_build_scan);
                                            }
                                        }
                                        pk = pk + 1;
                                        continue;
                                    },
                                };
                                let ay = match y.checked_add(offset[1]) {
                                    Some(a) => a,
                                    None => {
                                        proof {
                                            lemma_slot_off_grid(
                                                old(sim).port_grid,
                                                x + offset[0],
                                                y + offset[1],
                                                side,
                                                w as int,
                                                h as int,
                                            );
                                            assert(cell_ports_checked_upto(
                                                old(sim).grid,
                                                old(sim).port_grid,
                                                sim.port_grid,
                                                x as int,
                                                y as int,
                                                pk + 1,
                                            ));
                                            assert(target == spec_build_scan(
                                                old(sim).grid,
                                                old(sim).port_grid,
                                                grid_view(sim.grid),
                                                marked_b,
                                                visited@,
                                                bank.cells@.len() as nat,
                                                x as int,
                                                y as int,
                                                pk + 1,
                                            )) by {
                                                reveal(spec_build_scan);
                                            }
                                        }
                                        pk = pk + 1;
                                        continue;
                                    },
                                };
                                let abs_pos = [ax, ay];
                                let slot = match sim.port_grid.get_port_inside(&abs_pos, side) {
                                    Ok(s) => s,
                                    Err(_) => None,
                                };
                                let unvisited_port = match slot {
                                    Some(p) => !p.checked,
                                    None => false,
                                };
                                proof {
                                    // The scan's slot reads agree with the
                                    // model's: occupancy is the pre-build
                                    // occupancy, the mark is the joined set.
                                    if old(sim).port_grid.slot_valid(x + offset[0], y + offset[1], side) {
                                        assert(sim.port_grid.spec_slot(ax as int, ay as int, side)
                                            == if marked_b.contains((ax as int, ay as int, side)) {
                                            Some(Port { checked: true })
                                        } else {
                                            clear_checked(old(sim).port_grid.spec_slot(
                                                ax as int,
                                                ay as int,
                                                side,
                                            ))
                                        });
                                    }
                                    assert(sim.port_grid.slot_valid(ax as int, ay as int, side)
                                        == old(sim).port_grid.slot_valid(
                                        ax as int,
                                        ay as int,
                                        side,
                                    )) by {
                                        match side {
                                            Side::Up => {},
                                            Side::Down => {},
                                            Side::Left => {},
                                            Side::Right => {},
                                        }
                                    }
                                }
                                if unvisited_port {
                                    proof {
                                        assert(old(sim).port_grid.slot_valid(
                                            ax as int,
                                            ay as int,
                                            side,
                                        ) && old(sim).port_grid.spec_slot(
                                            ax as int,
                                            ay as int,
                                            side,
                                        ) is Some && !marked_b.contains((ax as int, ay as int, side)));
                                    }
                                    if bank.cells.len() == usize::MAX {
                                        proof {
                                            assert(target is None) by {
                                                reveal(spec_build_scan);
                                            }
                                        }
                                        return Err(BuildError::CellOverflow);
                                    }
                                    let idx = bank.alloc_cell();
                                    let ghost pg_premark = sim.port_grid;
                                    let marked = sim.port_grid.get_mut_port_inside(
                                        &abs_pos,
                                        side,
                                        Some(Port { checked: true }),
                                    );
                                    proof {
                                        assert(marked is Ok);
                                        assert(marks_monotone(pg_premark, sim.port_grid));
                                        lemma_region_persists(
                                            old(sim).grid,
                                            old(sim).port_grid,
                                            pg_premark,
                                            sim.port_grid,
                                            x as int,
                                            y as int,
                                        );
                                        lemma_checked_persists(
                                            old(sim).grid,
                                            old(sim).port_grid,
                                            pg_premark,
                                            sim.port_grid,
                                            x as int,
                                            y as int,
                                            pk as int,
                                        );
                                        assert(sim.port_grid.spec_slot(ax as int, ay as int, side)
                                            == Some(Port { checked: true }));
                                        marked_b = marked_b.insert((ax as int, ay as int, side));
                                        assert forall|a: int, b: int, sd: Side|
                                            old(sim).port_grid.slot_valid(a, b, sd)
                                            implies #[trigger] sim.port_grid.spec_slot(a, b, sd)
                                            == if marked_b.contains((a, b, sd)) {
                                            Some(Port { checked: true })
                                        } else {
                                            clear_checked(old(sim).port_grid.spec_slot(a, b, sd))
                                        } by {
                                            if !(a == ax as int && b == ay as int && sd == side) {
                                                assert(sim.port_grid.spec_slot(a, b, sd)
                                                    == pg_premark.spec_slot(a, b, sd));
                                            }
                                        }
                                    }
                                    // Bind the component's own port.
                                    let cur = sim.grid.grid[x][y];
                                    let mut own = match cur {
                                        CellState::Real(cc) => cc,
                                        _ => {
                                            proof {
                                                assert(false);
                                            }
                                            return Err(BuildError::PortGridMismatch);
                                        },
                                    };
                                    let ghost own_before = own;
                                    if own.set_port(offset, side, idx).is_err() {
                                        proof {
                                            assert(c.spec_dummy().spec_declares_port(
                                                offset[0] as int,
                                                offset[1] as int,
                                                side,
                                            ));
                                            assert(own_before.spec_dummy() == c.spec_dummy()) by {
                                                match old(sim).grid.cell_at(x as int, y as int) {
                                                    CellState::Real(oc) => {
                                                        assert(own_before.spec_clear_ports()
                                                            == oc.spec_build());
                                                        lemma_spec_build_stable(own_before);
                                                        lemma_spec_build_stable(oc);
                                                    },
                                                    _ => {},
                                                }
                                            }
                                            assert(false);
                                        }
                                        return Err(BuildError::PortGridMismatch);
                                    }
                                    let ghost gbefore = sim.grid;
                                    sim.grid.grid[x][y] = CellState::Real(own);
                                    proof {
                                        assert(sim.grid.grid@ == gbefore.grid@.update(
                                            x as int,
                                            sim.grid.grid@[x as int],
                                        ));
                                        assert(sim.grid.grid@[x as int]@ == gbefore.grid@[x as int]@.update(
                                            y as int,
                                            sim.grid.cell_at(x as int, y as int),
                                        ));
                                        assert(forall|a: int, b: int|
                                            0 <= a < sim.grid.width() && 0 <= b < sim.grid.height()
                                                && !(a == x && b == y)
                                                ==> #[trigger] sim.grid.cell_at(a, b)
                                                == gbefore.cell_at(a, b));
                                        lemma_set_port_evolves(
                                            own_before,
                                            offset[0] as int,
                                            offset[1] as int,
                                            side,
                                            idx,
                                        );
                                        assert(cells_evolve(gbefore, sim.grid, idx));
                                        lemma_evolve_keeps_built(
                                            old(sim).grid,
                                            gbefore,
                                            sim.grid,
                                            idx,
                                        );
                                        lemma_evolve_keeps_bounds(
                                            gbefore,
                                            sim.grid,
                                            idx,
                                            bank.cells@.len() as int,
                                        );
                                        assert(grid_view(sim.grid) =~~= bind_at(
                                            grid_view(gbefore),
                                            x as int,
                                            y as int,
                                            offset[0] as int,
                                            offset[1] as int,
                                            side,
                                            idx,
                                        ));
                                    }
                                    // Walk outward from the port's neighbour.
                                    match combine_offset(&abs_pos, &side.as_offset()) {
                                        Some(outward) => {
                                            let ghost gmid = sim.grid;
                                            let ghost pmid = sim.port_grid;
                                            let ghost vmid = visited@;
                                            proof {
                                                assert(marks_only(old(sim).port_grid, pmid)) by {
                                                    assert forall|a: int, b: int, sd: Side|
                                                        old(sim).port_grid.slot_valid(a, b, sd)
                                                        implies clear_checked(
                                                        #[trigger] pmid.spec_slot(a, b, sd),
                                                    ) == clear_checked(old(sim).port_grid.spec_slot(
                                                        a,
                                                        b,
                                                        sd,
                                                    )) by {
                                                        if marked_b.contains((a, b, sd)) {
                                                        } else {
                                                        }
                                                    }
                                                }
                                                lemma_built_same_topology(old(sim).grid, gmid);
                                                lemma_spec_flood_topo(
                                                    old(sim).grid,
                                                    old(sim).port_grid,
                                                    gmid,
                                                    pmid,
                                                    idx,
                                                    seq![
                                                        (
                                                            outward[0] as int,
                                                            outward[1] as int,
                                                            side.spec_reverse(),
                                                        ),
                                                    ],
                                                    grid_view(gmid),
                                                    Set::empty(),
                                                    vmid,
                                                );
                                            }
                                            let fr = flood_fill(
                                                &mut sim.grid,
                                                &mut sim.port_grid,
                                                idx,
                                                outward,
                                                side.reverse(),
                                                &mut visited,
                                            );
                                            proof {
                                                lemma_evolve_keeps_built(
                                                    old(sim).grid,
                                                    gmid,
                                                    sim.grid,
                                                    idx,
                                                );
                                                lemma_evolve_keeps_bounds(
                                                    gmid,
                                                    sim.grid,
                                                    idx,
                                                    bank.cells@.len() as int,
                                                );
                                            }
                                            if fr.is_err() {
                                                proof {
                                                    assert(spec_flood(
                                                        old(sim).grid,
                                                        old(sim).port_grid,
                                                        idx,
                                                        seq![
                                                            (
                                                                outward[0] as int,
                                                                outward[1] as int,
                                                                side.spec_reverse(),
                                                            ),
                                                        ],
                                                        grid_view(gmid),
                                                        Set::empty(),
                                                        vmid,
                                                    ) is None);
                                                    assert(target is None) by {
                                                        reveal(spec_build_scan);
                                                    }
                                                }
                                                return Err(BuildError::PortGridMismatch);
                                            }
                                            proof {
                                                assert(marks_monotone(pmid, sim.port_grid)) by {
                                                    assert forall|a: int, b: int, sd: Side|
                                                        pmid.slot_valid(a, b, sd) implies ((
                                                        #[trigger] sim.port_grid.spec_slot(
                                                            a,
                                                            b,
                                                            sd,
                                                        )) == pmid.spec_slot(a, b, sd)
                                                        || sim.port_grid.spec_slot(a, b, sd)
                                                        == Some(Port { checked: true })) by {};
                                                }
                                                lemma_region_persists(
                                                    old(sim).grid,
                                                    old(sim).port_grid,
                                                    pmid,
                                                    sim.port_grid,
                                                    x as int,
                                                    y as int,
                                                );
                                                lemma_checked_persists(
                                                    old(sim).grid,
                                                    old(sim).port_grid,
                                                    pmid,
                                                    sim.port_grid,
                                                    x as int,
                                                    y as int,
                                                    pk as int,
                                                );
                                                assert(sim.port_grid.spec_slot(
                                                    ax as int,
                                                    ay as int,
                                                    side,
                                                ) == Some(Port { checked: true }));
                                                // Chain the walk's pinned outcome into the
                                                // scan model.
                                                match spec_flood(
                                                    old(sim).grid,
                                                    old(sim).port_grid,
                                                    idx,
                                                    seq![
                                                        (
                                                            outward[0] as int,
                                                            outward[1] as int,
                                                            side.spec_reverse(),
                                                        ),
                                                    ],
                                                    grid_view(gmid),
                                                    Set::empty(),
                                                    vmid,
                                                ) {
                                                    Option::Some(st) => {
                                                        assert(grid_view(sim.grid) == st.0);
                                                        assert(visited@ == st.2);
                                                        assert(slots_after_walk(
                                                            pmid,
                                                            sim.port_grid,
                                                            st.1,
                                                        ));
                                                        marked_b = marked_b.union(st.1);
                                                        assert forall|a: int, b: int, sd: Side|
                                                            old(sim).port_grid.slot_valid(a, b, sd)
                                                            implies #[trigger] sim.port_grid.spec_slot(
                                                            a,
                                                            b,
                                                            sd,
                                                        ) == if marked_b.contains((a, b, sd)) {
                                                            Some(Port { checked: true })
                                                        } else {
                                                            clear_checked(
                                                                old(sim).port_grid.spec_slot(
                                                                    a,
                                                                    b,
                                                                    sd,
                                                                ),
                                                            )
                                                        } by {
                                                            if st.1.contains((a, b, sd)) {
                                                            } else {
                                                                assert(sim.port_grid.spec_slot(
                                                                    a,
                                                                    b,
                                                                    sd,
                                                                ) == pmid.spec_slot(a, b, sd));
                                                            }
                                                        }
                                                        assert(target == spec_build_scan(
                                                            old(sim).grid,
                                                            old(sim).port_grid,
                                                            grid_view(sim.grid),
                                                            marked_b,
                                                            visited@,
                                                            bank.cells@.len() as nat,
                                                            x as int,
                                                            y as int,
                                                            pk + 1,
                                                        )) by {
                                                            reveal(spec_build_scan);
                                                        }
                                                    },
                                                    Option::None => {
                                                        assert(false);
                                                    },
                                                }
                                            }
                                        },
                                        None => {
                                            proof {
                                                assert(target == spec_build_scan(
                                                    old(sim).grid,
                                                    old(sim).port_grid,
                                                    grid_view(sim.grid),
                                                    marked_b,
                                                    visited@,
                                                    bank.cells@.len() as nat,
                                                    x as int,
                                                    y as int,
                                                    pk + 1,
                                                )) by {
                                                    reveal(spec_build_scan);
                                                }
                                            }
                                        },
                                    }
                                } else {
                                    proof {
                                        assert(target == spec_build_scan(
                                            old(sim).grid,
                                            old(sim).port_grid,
                                            grid_view(sim.grid),
                                            marked_b,
                                            visited@,
                                            bank.cells@.len() as nat,
                                            x as int,
                                            y as int,
                                            pk + 1,
                                        )) by {
                                            reveal(spec_build_scan);
                                        }
                                    }
                                }
                                proof {
                                    let e = c.spec_dummy().spec_port_entry(pk as int);
                                    if old(sim).port_grid.slot_valid(x + e.0, y + e.1, e.2)
                                        && old(sim).port_grid.spec_slot(
                                        x + e.0,
                                        y + e.1,
                                        e.2,
                                    ) is Some {
                                        assert(x + e.0 == ax && y + e.1 == ay && e.2 == side);
                                        assert(sim.port_grid.spec_slot(ax as int, ay as int, side)
                                            == Some(Port { checked: true }));
                                    }
                                    assert(cell_ports_checked_upto(
                                        old(sim).grid,
                                        old(sim).port_grid,
                                        sim.port_grid,
                                        x as int,
                                        y as int,
                                        pk + 1,
                                    ));
                                }
                                pk = pk + 1;
                            }
                            proof {
                                assert(cell_ports_checked(
                                    old(sim).grid,
                                    old(sim).port_grid,
                                    sim.port_grid,
                                    x as int,
                                    y as int,
                                ));
                                assert(target == spec_build_scan(
                                    old(sim).grid,
                                    old(sim).port_grid,
                                    grid_view(sim.grid),
                                    marked_b,
                                    visited@,
                                    bank.cells@.len() as nat,
                                    x as int,
                                    y + 1,
                                    0,
                                )) by {
                                    reveal(spec_build_scan);
                                }
                            }
                        },
                    }
                },
                _ => {},
            }
            proof {
                assert(cell_ports_checked(
                    old(sim).grid,
                    old(sim).port_grid,
                    sim.port_grid,
                    x as int,
                    y as int,
                )) by {
                    match (old(sim).grid.cell_at(x as int, y as int), sim.grid.cell_at(
                        x as int,
                        y as int,
                    )) {
                        (CellState::Real(oc), CellState::Real(cc)) => {
                            assert(cc.spec_clear_ports() == oc.spec_build());
                            match cc {
                                Component::WirePiece(_) => {
                                    match oc {
                                        Component::WirePiece(_) => {},
                                        Component::GateNot(_) => {},
                                        Component::GateAnd(_) => {},
                                        Component::SignalCopy(_) => {},
                                        Component::SignalPassthrough(_) => {},
                                        Component::Counter(_) => {},
                                        Component::Observer(_) => {},
                                        Component::Provider(_) => {},
                                    }
                                },
                                _ => {},
                            }
                        },
                        _ => {},
                    }
                }
                assert(target == spec_build_scan(
                    old(sim).grid,
                    old(sim).port_grid,
                    grid_view(sim.grid),
                    marked_b,
                    visited@,
                    bank.cells@.len() as nat,
                    x as int,
                    y + 1,
                    0,
                )) by {
                    reveal(spec_build_scan);
                    match (old(sim).grid.cell_at(x as int, y as int), sim.grid.cell_at(
                        x as int,
                        y as int,
                    )) {
                        (CellState::Real(oc), CellState::Real(cc)) => {
                            assert(cc.spec_clear_ports() == oc.spec_build());
                            match cc {
                                Component::WirePiece(_) => {
                                    match oc {
                                        Component::WirePiece(_) => {},
                                        Component::GateNot(_) => {},
                                        Component::GateAnd(_) => {},
                                        Component::SignalCopy(_) => {},
                                        Component::SignalPassthrough(_) => {},
                                        Component::Counter(_) => {},
                                        Component::Observer(_) => {},
                                        Component::Provider(_) => {},
                                    }
                                },
                                _ => {},
                            }
                        },
                        _ => {},
                    }
                }
            }
            y = y + 1;
        }
        proof {
            assert(target == spec_build_scan(
                old(sim).grid,
                old(sim).port_grid,
                grid_view(sim.grid),
                marked_b,
                visited@,
                bank.cells@.len() as nat,
                x + 1,
                0,
                0,
            )) by {
                reveal(spec_build_scan);
            }
        }
        x = x + 1;
    }
    proof {
        assert(target == Some(
            (grid_view(sim.grid), marked_b, visited@, bank.cells@.len() as nat),
        )) by {
            reveal(spec_build_scan);
        }
    }
    Ok(())
}


/// The grid's cells as a mathematical grid of sequences.
pub open spec fn grid_view(g: ComponentGrid) -> Seq<Seq<CellState>> {
    Seq::new(g.grid@.len(), |i: int| g.grid@[i]@)
}

/// One full evaluation pass in row-major order, as a mathematical function:
/// starting at column `x`, cell `y`, evaluate every remaining `Real` cell in
/// order, threading the signal bank, the scoring rows and the correctness
/// flag through `Component::spec_tick`.
pub open spec fn spec_pass_from(
    gv: Seq<Seq<CellState>>,
    cells: Seq<u8>,
    rows: Seq<Seq<ScoreRow>>,
    cf: bool,
    level: LevelData,
    tick: int,
    w: int,
    h: int,
    x: int,
    y: int,
) -> (Seq<Seq<CellState>>, Seq<u8>, Seq<Seq<ScoreRow>>, bool)
    decreases w - x, h - y,
{
    if x < 0 || y < 0 || x >= w {
        (gv, cells, rows, cf)
    } else if y >= h {
        spec_pass_from(gv, cells, rows, cf, level, tick, w, h, x + 1, 0)
    } else {
        match gv[x][y] {
            CellState::Real(c) => {
                let st = c.spec_tick(tick, cells, level, rows, cf);
                spec_pass_from(
                    gv.update(x, gv[x].update(y, CellState::Real(st.0))),
                    st.1,
                    st.2,
                    st.3,
                    level,
                    tick,
                    w,
                    h,
                    x,
                    y + 1,
                )
            },
            _ => spec_pass_from(gv, cells, rows, cf, level, tick, w, h, x, y + 1),
        }
    }
}

/// The whole pass, from the first cell.
pub open spec fn spec_pass(
    gv: Seq<Seq<CellState>>,
    cells: Seq<u8>,
    rows: Seq<Seq<ScoreRow>>,
    cf: bool,
    level: LevelData,
    tick: int,
    w: int,
    h: int,
) -> (Seq<Seq<CellState>>, Seq<u8>, Seq<Seq<ScoreRow>>, bool) {
    spec_pass_from(gv, cells, rows, cf, level, tick, w, h, 0, 0)
}

/// Evaluate every placed component exactly once, in fixed row-major order,
/// for tick `tick`.  Covered (`Reference`) and empty cells are skipped;
/// each origin cell's component reads and writes the shared signal bank and
/// observers append their scoring rows.
#[verifier::rlimit(100)]
pub fn sim_tick_pass(
    grid: &mut ComponentGrid,
    bank: &mut SignalBank,
    level: &LevelData,
    io: &mut SimIOPadded,
    tick: usize,
)
    requires
        old(grid).wf(),
    ensures
        final(grid).wf() == old(grid).wf(),
        final(grid).width() == old(grid).width(),
        final(grid).height() == old(grid).height(),
        ({
            let st = spec_pass(
                grid_view(*old(grid)),
                old(bank).cells@,
                old(io).rows_view(),
                old(io).correct_so_far,
                *level,
                tick as int,
                old(grid).width(),
                old(grid).height(),
            );
            &&& grid_view(*final(grid)) == st.0
            &&& final(bank).cells@ == st.1
            &&& final(io).rows_view() == st.2
            &&& final(io).correct_so_far == st.3
        }),
{
    let ghost w = old(grid).width();
    let ghost h = old(grid).height();
    let ghost target = spec_pass(
        grid_view(*old(grid)),
        old(bank).cells@,
        old(io).rows_view(),
        old(io).correct_so_far,
        *level,
        tick as int,
        w,
        h,
    );
    let gw = grid.grid.len();
    let mut x: usize = 0;
    while x < gw
        invariant
            grid.wf(),
            gw == grid.width(),
            w == grid.width(),
            h == grid.height(),
            x <= gw,
            spec_pass_from(
                grid_view(*grid),
                bank.cells@,
                io.rows_view(),
                io.correct_so_far,
                *level,
                tick as int,
                w,
                h,
                x as int,
                0,
            ) == target,
        decreases gw - x,
    {
        let gh = grid.grid[x].len();
        let mut y: usize = 0;
        while y < gh
            invariant
                grid.wf(),
                gw == grid.width(),
                w == grid.width(),
                h == grid.height(),
                x < gw,
                gh == h,
                y <= gh,
                spec_pass_from(
                    grid_view(*grid),
                    bank.cells@,
                    io.rows_view(),
                    io.correct_so_far,
                    *level,
                    tick as int,
                    w,
                    h,
                    x as int,
                    y as int,
                ) == target,
            decreases gh - y,
        {
            let cell = grid.grid[x][y];
            match cell {
                CellState::Empty => {},
                CellState::Reference(_) => {},
                CellState::Real(c) => {
                    let ghost gv0 = grid_view(*grid);
                    let ghost cells0 = bank.cells@;
                    let ghost rows0 = io.rows_view();
                    let ghost cf0 = io.correct_so_far;
                    let mut comp = c;
                    let _events = comp.tick([x, y], tick, bank, level, io);
                    let ghost gbefore = *grid;
                    grid.grid[x][y] = CellState::Real(comp);
                    proof {
                        assert(grid.grid@ == gbefore.grid@.update(
                            x as int,
                            grid.grid@[x as int],
                        ));
                        assert(grid.grid@[x as int]@ == gbefore.grid@[x as int]@.update(
                            y as int,
                            grid.cell_at(x as int, y as int),
                        ));
                        let st = c.spec_tick(tick as int, cells0, *level, rows0, cf0);
                        assert(comp == st.0);
                        assert(bank.cells@ =~= st.1);
                        assert(io.rows_view() =~~= st.2);
                        assert(io.correct_so_far == st.3);
                        assert(grid_view(*grid) =~~= gv0.update(
                            x as int,
                            gv0[x as int].update(y as int, CellState::Real(st.0)),
                        ));
                        assert(gv0[x as int][y as int] == CellState::Real(c));
                        assert(spec_pass_from(
                            gv0,
                            cells0,
                            rows0,
                            cf0,
                            *level,
                            tick as int,
                            w,
                            h,
                            x as int,
                            y as int,
                        ) == spec_pass_from(
                            grid_view(*grid),
                            bank.cells@,
                            io.rows_view(),
                            io.correct_so_far,
                            *level,
                            tick as int,
                            w,
                            h,
                            x as int,
                            y + 1,
                        ));
                    }
                },
            }
            proof {
                if cell is Empty || cell is Reference {
                    assert(grid_view(*grid)[x as int][y as int] == cell);
                }
            }
            y = y + 1;
        }
        x = x + 1;
    }
}


/// The scheduler's state: editing happens in `Halted`; `Building` runs the
/// compiler exactly once and moves to `Active`; `Active` ticks at a fixed
/// interval and can be suspended to `Paused` and back; halting from any
/// state discards the compiled netlist.
#[derive(Clone, Copy, Debug, PartialEq, Eq, Structural)]
pub enum SimState {
    Halted,
    Building,
    Paused,
    Active,
}

/// How long an `Active` phase runs: not at all, a fixed number of remaining
/// ticks, or until explicitly paused or halted.
#[derive(Clone, Copy, Debug, PartialEq, Eq, Structural)]
pub enum RunType {
    Idle,
    Step(u32),
    Continuous,
}

/// The number of completed ticks, handed to every component so that the
/// probes can index their sequences.
#[derive(Clone, Copy, Debug, PartialEq, Eq, Structural)]
pub struct TickCounter(pub usize);

impl TickCounter {
    /// Count one completed tick.
    pub fn increment(&mut self)
        requires
            old(self).0 < usize::MAX,
        ensures
            final(self).0 == old(self).0 + 1,
    {
        self.0 = self.0 + 1;
    }
}

/// One whole simulation run: the editable grid state, the compiled signal
/// bank, the level being played, the scoring log, and the scheduler state.
///
/// Editing `sim` (placing, removing, reconfiguring) is meaningful only
/// while `state` is `Halted`: a build compiles the grid as it stands, and
/// edits made during a run leave components holding bindings of the old
/// generation until the next build replaces them.
#[derive(Debug)]
pub struct Simulation {
    pub sim: SimulationData,
    pub bank: SignalBank,
    pub level: LevelData,
    pub io: SimIOPadded,
    pub state: SimState,
    pub run_type: RunType,
    pub tick_counter: TickCounter,
}

impl Simulation {
    /// The grid state is well-formed.
    pub open spec fn wf(self) -> bool {
        self.sim.wf()
    }

    /// A halted simulation of the given level, ready for editing.
    pub fn new(sim: SimulationData, level: LevelData) -> (r: Simulation)
        requires
            sim.wf(),
        ensures
            r.wf(),
            r.sim == sim,
            r.level == level,
            r.state == SimState::Halted,
            r.run_type == RunType::Idle,
            r.tick_counter.0 == 0,
            r.bank.cells@.len() == 0,
            r.io.correct_so_far == true,
    {
        let io = SimIOPadded::from_level_data(&level);
        Simulation {
            sim,
            bank: SignalBank::new(),
            level,
            io,
            state: SimState::Halted,
            run_type: RunType::Idle,
            tick_counter: TickCounter(0),
        }
    }

    /// Leave any state for `Halted`, discarding the compiled netlist.
    /// Editing becomes legal again; bindings held by components go stale and
    /// are replaced on the next build.
    pub fn halt(&mut self)
        ensures
            final(self).state == SimState::Halted,
            final(self).bank.cells@.len() == 0,
            final(self).sim == old(self).sim,
            final(self).level == old(self).level,
            final(self).io == old(self).io,
            final(self).run_type == old(self).run_type,
            final(self).tick_counter == old(self).tick_counter,
    {
        self.state = SimState::Halted;
        self.bank = SignalBank::new();
    }

    /// Suspend an active run, keeping all state.  No effect in any other
    /// state.
    pub fn pause(&mut self)
        ensures
            old(self).state == SimState::Active ==> final(self).state == SimState::Paused,
            old(self).state != SimState::Active ==> final(self).state == old(self).state,
            *final(self) == (Simulation { state: final(self).state, ..*old(self) }),
    {
        if matches!(self.state, SimState::Active) {
            self.state = SimState::Paused;
        }
    }

    /// Resume a paused run.  No effect in any other state.
    pub fn resume(&mut self)
        ensures
            old(self).state == SimState::Paused ==> final(self).state == SimState::Active,
            old(self).state != SimState::Paused ==> final(self).state == old(self).state,
            *final(self) == (Simulation { state: final(self).state, ..*old(self) }),
    {
        if matches!(self.state, SimState::Paused) {
            self.state = SimState::Active;
        }
    }

    /// Leave `Halted` for a run: pass through `Building`, compile the
    /// connectivity exactly once, and on success start ticking (`Active`)
    /// with the given run type, a zeroed tick counter and a fresh scoring
    /// log.  A compiler error leaves the simulation `Halted` with the error
    /// as diagnostic; a half-compiled netlist is never run.  In any state
    /// but `Halted` nothing happens.
    pub fn start(&mut self, run_type: RunType) -> (r: Result<(), BuildError>)
        requires
            old(self).wf(),
            old(self).sim.grid.width() * old(self).sim.grid.height() <= usize::MAX,
        ensures
            final(self).wf(),
            final(self).level == old(self).level,
            old(self).state != SimState::Halted ==> *final(self) == *old(self) && r == Ok::<
                (),
                BuildError,
            >(()),
            old(self).state == SimState::Halted ==> {
                let scan = spec_build_scan(
                    old(self).sim.grid,
                    old(self).sim.port_grid,
                    built_view(grid_view(old(self).sim.grid)),
                    Set::empty(),
                    all_false(old(self).sim.grid.width() * old(self).sim.grid.height()),
                    0,
                    0,
                    0,
                    0,
                );
                &&& (r is Ok <==> scan is Some)
                &&& (r is Ok ==> (scan matches Some(st) && grid_view(final(self).sim.grid) == st.0
                    && final(self).bank.cells@.len() == st.3))
                &&& built_cells(old(self).sim.grid, final(self).sim.grid)
                &&& marks_only(old(self).sim.port_grid, final(self).sim.port_grid)
                &&& grid_ports_bounded(
                    final(self).sim.grid,
                    final(self).bank.cells@.len() as int,
                )
                &&& (forall|i: int|
                    0 <= i < final(self).bank.cells@.len() ==> final(self).bank.cells@[i] == 0)
                &&& (r is Ok ==> (forall|a: int, b: int|
                    old(self).sim.grid.in_bounds(a, b) ==> #[trigger] cell_ports_checked(
                        old(self).sim.grid,
                        old(self).sim.port_grid,
                        final(self).sim.port_grid,
                        a,
                        b,
                    )))
                &&& (r is Ok ==> final(self).state == SimState::Active && final(self).run_type
                    == run_type && final(self).tick_counter.0 == 0
                    && final(self).io.correct_so_far == true)
                &&& (r is Err ==> final(self).state == SimState::Halted)
            },
    {
        if !matches!(self.state, SimState::Halted) {
            return Ok(());
        }
        self.state = SimState::Building;
        let built = build_simulation(&mut self.sim, &mut self.bank);
        match built {
            Ok(()) => {
                self.io = SimIOPadded::from_level_data(&self.level);
                self.tick_counter = TickCounter(0);
                self.run_type = run_type;
                self.state = SimState::Active;
                Ok(())
            },
            Err(e) => {
                self.state = SimState::Halted;
                Err(e)
            },
        }
    }

    /// What one scheduler step leaves in `run_type` and `state` when the
    /// simulation is `Active`: a step budget counts down and suspends the
    /// run at zero; a continuous run keeps going; an idle run type ticks
    /// nothing.
    pub open spec fn spec_advance_control(run_type: RunType) -> (RunType, SimState, bool) {
        match run_type {
            RunType::Idle => (RunType::Idle, SimState::Active, false),
            RunType::Step(n) => {
                if n <= 1 {
                    (RunType::Step(0), SimState::Paused, n == 1)
                } else {
                    (RunType::Step((n - 1) as u32), SimState::Active, true)
                }
            },
            RunType::Continuous => (RunType::Continuous, SimState::Active, true),
        }
    }

    /// One scheduler step: when `Active`, decide from the run type whether
    /// to run a tick pass, run it over every placed component in row-major
    /// order, and count the tick.  In any other state nothing happens.
    #[verifier::rlimit(60)]
    pub fn sim_tick(&mut self)
        requires
            old(self).wf(),
            old(self).tick_counter.0 < usize::MAX,
        ensures
            final(self).wf(),
            final(self).level == old(self).level,
            old(self).state != SimState::Active ==> *final(self) == *old(self),
            old(self).state == SimState::Active ==> {
                let control = Simulation::spec_advance_control(old(self).run_type);
                &&& final(self).run_type == control.0
                &&& final(self).state == control.1
                &&& !control.2 ==> final(self).sim == old(self).sim && final(self).bank == old(
                    self,
                ).bank && final(self).io == old(self).io && final(self).tick_counter == old(
                    self,
                ).tick_counter
                &&& control.2 ==> {
                    let st = spec_pass(
                        grid_view(old(self).sim.grid),
                        old(self).bank.cells@,
                        old(self).io.rows_view(),
                        old(self).io.correct_so_far,
                        old(self).level,
                        old(self).tick_counter.0 as int,
                        old(self).sim.grid.width(),
                        old(self).sim.grid.height(),
                    );
                    &&& grid_view(final(self).sim.grid) == st.0
                    &&& final(self).bank.cells@ == st.1
                    &&& final(self).io.rows_view() == st.2
                    &&& final(self).io.correct_so_far == st.3
                    &&& final(self).sim.port_grid == old(self).sim.port_grid
                    &&& final(self).tick_counter.0 == old(self).tick_counter.0 + 1
                }
            },
    {
        if !matches!(self.state, SimState::Active) {
            return ;
        }
        let run_tick: bool = match self.run_type {
            RunType::Idle => false,
            RunType::Step(n) => {
                if n <= 1 {
                    self.run_type = RunType::Step(0);
                    self.state = SimState::Paused;
                    n == 1
                } else {
                    self.run_type = RunType::Step(n - 1);
                    true
                }
            },
            RunType::Continuous => true,
        };
        if run_tick {
            let tick = self.tick_counter.0;
            sim_tick_pass(&mut self.sim.grid, &mut self.bank, &self.level, &mut self.io, tick);
            self.tick_counter.increment();
        }
    }
}

} // verus!

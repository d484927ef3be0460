//! End-to-end runs of the simulation: placement, build, ticking, scoring.

use gridsim::component::Component;
use gridsim::component::DummyComponent;
use gridsim::component::Provider;
use gridsim::component::ProviderPortMap;
use gridsim::signal::ComponentPortData;
use gridsim::component::EnabledOrDisabled;
use gridsim::grid::CellState;
use gridsim::levels::LevelData;
use gridsim::model::PlaceError;
use gridsim::model::SimulationData;
use gridsim::run::RunType;
use gridsim::run::SimState;
use gridsim::run::Simulation;
use gridsim::model::LevelDataLoad;
use gridsim::port_grid::Port;
use gridsim::run::BuildError;
use gridsim::side::Side;

fn level_one_probe(provided: Vec<Option<u8>>, expected: Vec<Option<u8>>) -> LevelData {
    LevelData {
        name: String::from("test level"),
        desc: String::from(""),
        provided_inputs: vec![provided],
        expected_outputs: vec![expected],
    }
}

fn observed_values(sim: &Simulation, id: usize) -> Vec<Option<u8>> {
    sim.io.records[id].iter().map(|row| row.observed).collect()
}

fn run_ticks(sim: &mut Simulation, n: usize) {
    for _ in 0..n {
        sim.sim_tick();
    }
}

#[test]
fn scenario_direct_provider_to_observer() {
    // Provider replaying [0, 255, 255, 0], wired directly to an observer:
    // after 4 ticks the observer recorded exactly [0, 255, 255, 0].
    let mut data = SimulationData::new(2, 1);
    assert!(data.place_new_component(DummyComponent::Provider, &[0, 0]).is_ok());
    assert!(data.place_new_component(DummyComponent::Observer, &[1, 0]).is_ok());
    let level = level_one_probe(
        vec![Some(0), Some(255), Some(255), Some(0)],
        vec![Some(0), Some(255), Some(255), Some(0)],
    );
    let mut sim = Simulation::new(data, level);
    assert!(sim.start(RunType::Continuous).is_ok());
    assert_eq!(sim.state, SimState::Active);
    run_ticks(&mut sim, 4);
    assert_eq!(
        observed_values(&sim, 0),
        vec![Some(0), Some(255), Some(255), Some(0)]
    );
    assert!(sim.io.correct_so_far);
    assert_eq!(sim.tick_counter.0, 4);
}

#[test]
fn scenario_provider_not_observer() {
    // Provider -> NOT -> observer over [0, 255]: the observer records
    // [255, 0].
    let mut data = SimulationData::new(3, 1);
    assert!(data.place_new_component(DummyComponent::Provider, &[0, 0]).is_ok());
    assert!(data.place_new_component(DummyComponent::GateNot, &[1, 0]).is_ok());
    assert!(data.place_new_component(DummyComponent::Observer, &[2, 0]).is_ok());
    let level = level_one_probe(
        vec![Some(0), Some(255)],
        vec![Some(255), Some(0)],
    );
    let mut sim = Simulation::new(data, level);
    assert!(sim.start(RunType::Continuous).is_ok());
    run_ticks(&mut sim, 2);
    assert_eq!(observed_values(&sim, 0), vec![Some(255), Some(0)]);
    assert!(sim.io.correct_so_far);
}

#[test]
fn scenario_disabled_wire_splits_the_node() {
    // Provider -> three wire cells -> observer.  With the middle wire's
    // left and right sides disabled the observer never sees the provider's
    // value and stays at 0.
    let mut data = SimulationData::new(5, 1);
    assert!(data.place_new_component(DummyComponent::Provider, &[0, 0]).is_ok());
    for x in 1..4 {
        assert!(data.place_new_component(DummyComponent::WirePiece, &[x, 0]).is_ok());
    }
    assert!(data.place_new_component(DummyComponent::Observer, &[4, 0]).is_ok());
    let level = level_one_probe(
        vec![Some(255), Some(255), Some(255)],
        vec![Some(255), Some(255), Some(255)],
    );
    let mut sim = Simulation::new(data, level);

    // Sanity: with all sides enabled the signal arrives.
    assert!(sim.start(RunType::Continuous).is_ok());
    run_ticks(&mut sim, 3);
    assert_eq!(
        observed_values(&sim, 0),
        vec![Some(255), Some(255), Some(255)]
    );

    // Disable the middle cell's left and right sides and rebuild.
    sim.halt();
    assert!(sim.sim.set_wire_side(&[2, 0], Side::Left, EnabledOrDisabled::Disabled).is_some());
    assert!(sim.sim.set_wire_side(&[2, 0], Side::Right, EnabledOrDisabled::Disabled).is_some());
    assert!(sim.start(RunType::Continuous).is_ok());
    run_ticks(&mut sim, 3);
    assert_eq!(observed_values(&sim, 0), vec![Some(0), Some(0), Some(0)]);
    assert!(!sim.io.correct_so_far);
}

#[test]
fn scenario_wire_branch_and_loop() {
    // A 3x3 wire patch (branches and a loop) between provider and observer:
    // the build terminates and compiles the whole patch into one node, so
    // the observer sees the provider's value.
    let mut data = SimulationData::new(5, 3);
    assert!(data.place_new_component(DummyComponent::Provider, &[0, 1]).is_ok());
    for x in 1..4 {
        for y in 0..3 {
            assert!(data.place_new_component(DummyComponent::WirePiece, &[x, y]).is_ok());
        }
    }
    assert!(data.place_new_component(DummyComponent::Observer, &[4, 1]).is_ok());
    let level = level_one_probe(vec![Some(200)], vec![Some(200)]);
    let mut sim = Simulation::new(data, level);
    assert!(sim.start(RunType::Continuous).is_ok());
    run_ticks(&mut sim, 1);
    assert_eq!(observed_values(&sim, 0), vec![Some(200)]);
    assert!(sim.io.correct_so_far);
}

#[test]
fn rebuild_without_edits_behaves_identically() {
    // Two consecutive builds with no edits between them leave the same
    // topology: a second run records the same values as the first.
    let mut data = SimulationData::new(3, 1);
    assert!(data.place_new_component(DummyComponent::Provider, &[0, 0]).is_ok());
    assert!(data.place_new_component(DummyComponent::WirePiece, &[1, 0]).is_ok());
    assert!(data.place_new_component(DummyComponent::Observer, &[2, 0]).is_ok());
    let level = level_one_probe(
        vec![Some(10), Some(20)],
        vec![Some(10), Some(20)],
    );
    let mut sim = Simulation::new(data, level);
    assert!(sim.start(RunType::Continuous).is_ok());
    run_ticks(&mut sim, 2);
    let first = observed_values(&sim, 0);
    sim.halt();
    assert!(sim.start(RunType::Continuous).is_ok());
    run_ticks(&mut sim, 2);
    let second = observed_values(&sim, 0);
    assert_eq!(first, second);
    assert_eq!(first, vec![Some(10), Some(20)]);
}

#[test]
fn placement_rejected_on_overlap_and_out_of_grid() {
    let mut data = SimulationData::new(3, 3);
    assert!(data.place_new_component(DummyComponent::GateNot, &[1, 1]).is_ok());
    // Overlap with the placed gate.
    assert_eq!(
        data.place_new_component(DummyComponent::WirePiece, &[1, 1]),
        Err(PlaceError::CantFit)
    );
    // A 2x2 gate hanging off the edge.
    assert_eq!(
        data.place_new_component(DummyComponent::GateAnd, &[2, 2]),
        Err(PlaceError::CantFit)
    );
    // A 2x2 gate overlapping a covered cell.
    assert_eq!(
        data.place_new_component(DummyComponent::GateAnd, &[0, 0]),
        Err(PlaceError::CantFit)
    );
}

#[test]
fn multi_cell_footprint_holds_references() {
    let mut data = SimulationData::new(3, 3);
    assert!(data.place_new_component(DummyComponent::GateAnd, &[0, 0]).is_ok());
    match data.grid.fetch(&[0, 0]) {
        Some(CellState::Real(Component::GateAnd(_))) => {},
        _ => panic!("origin cell does not hold the AND component"),
    }
    for (x, y) in [(1usize, 0usize), (0, 1), (1, 1)] {
        match data.grid.fetch(&[x, y]) {
            Some(CellState::Reference(p)) => assert_eq!(p, [0, 0]),
            _ => panic!("covered cell is not a reference"),
        }
    }
    // The footprint blocks a wire in every covered cell.
    for (x, y) in [(0usize, 0usize), (1, 0), (0, 1), (1, 1)] {
        assert_eq!(
            data.place_new_component(DummyComponent::WirePiece, &[x, y]),
            Err(PlaceError::CantFit)
        );
    }
    assert!(data.place_new_component(DummyComponent::WirePiece, &[2, 2]).is_ok());
}

#[test]
fn removal_then_different_kind_leaves_no_stale_ports() {
    // Place a NOT gate, run once, then swap it for a passthrough at the
    // same origin and rebuild: the new run shows passthrough semantics,
    // nothing of the NOT gate.
    let mut data = SimulationData::new(3, 1);
    assert!(data.place_new_component(DummyComponent::Provider, &[0, 0]).is_ok());
    assert!(data.place_new_component(DummyComponent::GateNot, &[1, 0]).is_ok());
    assert!(data.place_new_component(DummyComponent::Observer, &[2, 0]).is_ok());
    let level = level_one_probe(vec![Some(255)], vec![Some(0)]);
    let mut sim = Simulation::new(data, level);
    assert!(sim.start(RunType::Continuous).is_ok());
    run_ticks(&mut sim, 1);
    assert_eq!(observed_values(&sim, 0), vec![Some(0)]);

    sim.halt();
    assert!(sim.sim.remove_component(DummyComponent::GateNot, &[1, 0]).is_ok());
    assert!(sim.sim.place_new_component(DummyComponent::SignalPassthrough, &[1, 0]).is_ok());
    assert!(sim.start(RunType::Continuous).is_ok());
    run_ticks(&mut sim, 1);
    // The passthrough forwards 255 unchanged; a stale NOT binding would
    // have inverted it.
    assert_eq!(observed_values(&sim, 0), vec![Some(255)]);
}

#[test]
fn removal_frees_the_footprint() {
    let mut data = SimulationData::new(2, 2);
    assert!(data.place_new_component(DummyComponent::Counter, &[0, 0]).is_ok());
    assert_eq!(
        data.place_new_component(DummyComponent::WirePiece, &[0, 1]),
        Err(PlaceError::CantFit)
    );
    assert!(data.remove_component(DummyComponent::Counter, &[0, 0]).is_ok());
    assert!(data.place_new_component(DummyComponent::WirePiece, &[0, 1]).is_ok());
    // Removal with a footprint hanging off the grid is rejected.
    assert_eq!(
        data.remove_component(DummyComponent::Counter, &[1, 1]),
        Err(PlaceError::CantFit)
    );
}

#[test]
fn scheduler_states_and_step_budget() {
    let mut data = SimulationData::new(2, 1);
    assert!(data.place_new_component(DummyComponent::Provider, &[0, 0]).is_ok());
    assert!(data.place_new_component(DummyComponent::Observer, &[1, 0]).is_ok());
    let level = level_one_probe(
        vec![Some(1), Some(2), Some(3)],
        vec![Some(1), Some(2), Some(3)],
    );
    let mut sim = Simulation::new(data, level);
    assert_eq!(sim.state, SimState::Halted);

    // A two-tick step budget runs exactly two ticks, then pauses.
    assert!(sim.start(RunType::Step(2)).is_ok());
    run_ticks(&mut sim, 5);
    assert_eq!(sim.state, SimState::Paused);
    assert_eq!(sim.tick_counter.0, 2);
    assert_eq!(observed_values(&sim, 0), vec![Some(1), Some(2)]);

    // Resuming with the budget exhausted ticks nothing further.
    sim.resume();
    assert_eq!(sim.state, SimState::Active);
    run_ticks(&mut sim, 1);
    assert_eq!(sim.state, SimState::Paused);
    assert_eq!(sim.tick_counter.0, 2);

    // Halting discards the netlist.
    sim.halt();
    assert_eq!(sim.state, SimState::Halted);
    assert_eq!(sim.bank.cells.len(), 0);
}

#[test]
fn pause_and_resume_suspend_ticking() {
    let mut data = SimulationData::new(2, 1);
    assert!(data.place_new_component(DummyComponent::Provider, &[0, 0]).is_ok());
    assert!(data.place_new_component(DummyComponent::Observer, &[1, 0]).is_ok());
    let level = level_one_probe(
        vec![Some(5), Some(6)],
        vec![Some(5), Some(6)],
    );
    let mut sim = Simulation::new(data, level);
    assert!(sim.start(RunType::Continuous).is_ok());
    run_ticks(&mut sim, 1);
    sim.pause();
    assert_eq!(sim.state, SimState::Paused);
    run_ticks(&mut sim, 3);
    assert_eq!(sim.tick_counter.0, 1);
    sim.resume();
    run_ticks(&mut sim, 1);
    assert_eq!(sim.tick_counter.0, 2);
    assert_eq!(observed_values(&sim, 0), vec![Some(5), Some(6)]);
}

#[test]
fn counter_in_circuit_counts_double_highs() {
    // A provider drives both the data and the clock input of a counter
    // through a splitter; an observer reads the count, which moves only
    // in ticks where the provider emits 255.
    let mut data = SimulationData::new(4, 2);
    assert!(data.place_new_component(DummyComponent::Provider, &[0, 1]).is_ok());
    assert!(data.place_new_component(DummyComponent::SignalCopy, &[1, 0]).is_ok());
    assert!(data.place_new_component(DummyComponent::Counter, &[2, 0]).is_ok());
    assert!(data.place_new_component(DummyComponent::Observer, &[3, 1]).is_ok());
    let level = level_one_probe(
        vec![Some(255), Some(255), Some(0), Some(255)],
        vec![Some(1), Some(2), Some(2), Some(3)],
    );
    let mut sim = Simulation::new(data, level);
    assert!(sim.start(RunType::Continuous).is_ok());
    run_ticks(&mut sim, 4);
    assert_eq!(
        observed_values(&sim, 0),
        vec![Some(1), Some(2), Some(2), Some(3)]
    );
    assert!(sim.io.correct_so_far);
}

#[test]
fn build_rejects_inconsistent_overlay() {
    // A hand-made inconsistency: a declared port slot on the edge of a
    // 2x2 AND component's covered cell, where no port is accepted.  The
    // build must abort and the scheduler stay halted.
    let mut data = SimulationData::new(4, 2);
    assert!(data.place_new_component(DummyComponent::GateAnd, &[0, 0]).is_ok());
    assert!(data.place_new_component(DummyComponent::SignalPassthrough, &[2, 0]).is_ok());
    // The passthrough's left port faces the AND component's covered cell
    // (1,0); claim that the covered cell declares a port back, which that
    // component does not accept.
    assert!(data
        .port_grid
        .insert(&[1, 0], Side::Right, Some(Port { checked: false }))
        .is_ok());
    let level = level_one_probe(vec![], vec![]);
    let mut sim = Simulation::new(data, level);
    assert_eq!(sim.start(RunType::Continuous), Err(BuildError::PortGridMismatch));
    assert_eq!(sim.state, SimState::Halted);
}

#[test]
fn level_loading_rebuilds_the_grid() {
    // Build a layout, save its grid, and reload it through a level
    // definition: the rebuilt simulation behaves like the saved one.
    let mut data = SimulationData::new(2, 1);
    assert!(data.place_new_component(DummyComponent::Provider, &[0, 0]).is_ok());
    assert!(data.place_new_component(DummyComponent::Observer, &[1, 0]).is_ok());

    let load = LevelDataLoad {
        name: String::from("round trip"),
        desc: String::from(""),
        grid_size: [2, 1],
        provided_inputs: vec![vec![Some(9)]],
        expected_outputs: vec![vec![Some(9)]],
        start: gridsim::grid::ComponentGrid { grid: data.grid.grid },
    };
    let rebuilt = SimulationData::from_level(&load).expect("load failed");
    let level = LevelData::from_load(load);
    let mut sim = Simulation::new(rebuilt, level);
    assert!(sim.start(RunType::Continuous).is_ok());
    run_ticks(&mut sim, 1);
    assert_eq!(observed_values(&sim, 0), vec![Some(9)]);
    assert!(sim.io.correct_so_far);
}

#[test]
fn and_gate_in_circuit_boundaries() {
    // Two providers drive the two inputs of an AND component; the observer
    // sees 255 exactly in the tick where both inputs read 255.
    let mut data = SimulationData::new(4, 2);
    assert!(data.place_new_component(DummyComponent::Provider, &[0, 1]).is_ok());
    let second = Component::Provider(Provider {
        id: 1,
        ports: ProviderPortMap { output: ComponentPortData(None) },
    });
    assert!(data.load_component(second, &[0, 0]).is_ok());
    assert!(data.place_new_component(DummyComponent::GateAnd, &[1, 0]).is_ok());
    assert!(data.place_new_component(DummyComponent::Observer, &[3, 1]).is_ok());

    let level = LevelData {
        name: String::from("and boundaries"),
        desc: String::from(""),
        provided_inputs: vec![
            vec![Some(255), Some(255), Some(254)],
            vec![Some(255), Some(254), Some(255)],
        ],
        expected_outputs: vec![vec![Some(255), Some(0), Some(0)]],
    };
    let mut sim = Simulation::new(data, level);
    assert!(sim.start(RunType::Continuous).is_ok());
    run_ticks(&mut sim, 3);
    assert_eq!(observed_values(&sim, 0), vec![Some(255), Some(0), Some(0)]);
    assert!(sim.io.correct_so_far);
}

#[test]
fn separate_nodes_get_separate_cells() {
    // Two independent provider/observer pairs on one grid: each observer
    // sees only its own provider, so the build gave the two nodes distinct
    // signal cells.
    let mut data = SimulationData::new(2, 2);
    assert!(data.place_new_component(DummyComponent::Provider, &[0, 0]).is_ok());
    assert!(data.place_new_component(DummyComponent::Observer, &[1, 0]).is_ok());
    let second_provider = Component::Provider(Provider {
        id: 1,
        ports: ProviderPortMap { output: ComponentPortData(None) },
    });
    assert!(data.load_component(second_provider, &[0, 1]).is_ok());
    let second_observer = Component::Observer(gridsim::component::Observer {
        id: 1,
        ports: gridsim::component::ObserverPortMap { input: ComponentPortData(None) },
    });
    assert!(data.load_component(second_observer, &[1, 1]).is_ok());

    let level = LevelData {
        name: String::from("two nodes"),
        desc: String::from(""),
        provided_inputs: vec![vec![Some(11), Some(12)], vec![Some(201), Some(202)]],
        expected_outputs: vec![vec![Some(11), Some(12)], vec![Some(201), Some(202)]],
    };
    let mut sim = Simulation::new(data, level);
    assert!(sim.start(RunType::Continuous).is_ok());
    run_ticks(&mut sim, 2);
    assert_eq!(observed_values(&sim, 0), vec![Some(11), Some(12)]);
    assert_eq!(observed_values(&sim, 1), vec![Some(201), Some(202)]);
    assert!(sim.io.correct_so_far);
}

#[test]
fn backward_routing_delays_one_tick() {
    // A wire loop routes the provider's output back to an observer that
    // stands earlier in the row-major evaluation order.  The observer then
    // reads each value one tick after the provider wrote it: cross-component
    // values written in tick N are seen in tick N at the earliest by later
    // cells, and in tick N+1 by earlier ones.
    let mut data = SimulationData::new(4, 2);
    assert!(data.place_new_component(DummyComponent::Provider, &[2, 0]).is_ok());
    assert!(data.place_new_component(DummyComponent::Observer, &[1, 0]).is_ok());
    for pos in [[3usize, 0usize], [3, 1], [2, 1], [1, 1], [0, 1], [0, 0]] {
        assert!(data.place_new_component(DummyComponent::WirePiece, &pos).is_ok());
    }
    let level = level_one_probe(
        vec![Some(10), Some(20), Some(30)],
        vec![Some(0), Some(10), Some(20)],
    );
    let mut sim = Simulation::new(data, level);
    assert!(sim.start(RunType::Continuous).is_ok());
    run_ticks(&mut sim, 3);
    assert_eq!(observed_values(&sim, 0), vec![Some(0), Some(10), Some(20)]);
    assert!(sim.io.correct_so_far);
}

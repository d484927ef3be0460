//! Per-kind component behaviour, driven directly through `tick` on a small
//! signal bank.

use gridsim::component::AndPortMap;
use gridsim::component::Component;
use gridsim::component::Counter;
use gridsim::component::CounterPortMap;
use gridsim::component::DummyComponent;
use gridsim::component::GateAnd;
use gridsim::component::GateNot;
use gridsim::component::NotPortMap;
use gridsim::component::SignalCopy;
use gridsim::component::CopyPortMap;
use gridsim::component::SignalPassthrough;
use gridsim::component::PassthroughPortMap;
use gridsim::levels::LevelData;
use gridsim::levels::SimIOPadded;
use gridsim::signal::ComponentPortData;
use gridsim::signal::SignalBank;

fn empty_level() -> LevelData {
    LevelData {
        name: String::from("scratch"),
        desc: String::from(""),
        provided_inputs: Vec::new(),
        expected_outputs: Vec::new(),
    }
}

fn bank_with(values: &[u8]) -> SignalBank {
    let mut bank = SignalBank::new();
    for _ in 0..values.len() {
        bank.alloc_cell();
    }
    for (i, v) in values.iter().enumerate() {
        bank.cells[i] = *v;
    }
    bank
}

#[test]
fn not_gate_inverts_every_byte() {
    // For every byte i, a NOT gate emits exactly 255 - i.
    for i in 0..=255u16 {
        let mut bank = bank_with(&[i as u8, 7]);
        let level = empty_level();
        let mut io = SimIOPadded::from_level_data(&level);
        let mut gate = Component::GateNot(GateNot {
            ports: NotPortMap {
                input: ComponentPortData(Some(0)),
                output: ComponentPortData(Some(1)),
            },
        });
        gate.tick([0, 0], 0, &mut bank, &level, &mut io);
        assert_eq!(bank.cells[1], 255 - i as u8);
    }
}

#[test]
fn and_gate_boundaries() {
    // 255 exactly when both inputs read 255; 254 on either side gives 0.
    let cases: [(u8, u8, u8); 5] = [
        (255, 255, 255),
        (254, 255, 0),
        (255, 254, 0),
        (254, 254, 0),
        (0, 255, 0),
    ];
    for (a, b, expect) in cases {
        let mut bank = bank_with(&[a, b, 9]);
        let level = empty_level();
        let mut io = SimIOPadded::from_level_data(&level);
        let mut gate = Component::GateAnd(GateAnd {
            ports: AndPortMap {
                input_a: ComponentPortData(Some(0)),
                input_b: ComponentPortData(Some(1)),
                output: ComponentPortData(Some(2)),
            },
        });
        gate.tick([0, 0], 0, &mut bank, &level, &mut io);
        assert_eq!(bank.cells[2], expect, "inputs {} {}", a, b);
    }
}

#[test]
fn counter_increments_only_on_double_high() {
    let level = empty_level();
    let counter = |count: u8| {
        Component::Counter(Counter {
            ports: CounterPortMap {
                input: ComponentPortData(Some(0)),
                input_clk: ComponentPortData(Some(1)),
                output: ComponentPortData(Some(2)),
            },
            count,
        })
    };

    // Both high: increments and posts the new count.
    let mut bank = bank_with(&[255, 255, 0]);
    let mut io = SimIOPadded::from_level_data(&level);
    let mut c = counter(4);
    c.tick([0, 0], 0, &mut bank, &level, &mut io);
    assert_eq!(bank.cells[2], 5);
    match c {
        Component::Counter(inner) => assert_eq!(inner.count, 5),
        _ => panic!("kind changed"),
    }

    // Input high, clock low: unchanged, output untouched.
    let mut bank = bank_with(&[255, 254, 42]);
    let mut io = SimIOPadded::from_level_data(&level);
    let mut c = counter(4);
    c.tick([0, 0], 0, &mut bank, &level, &mut io);
    assert_eq!(bank.cells[2], 42);
    match c {
        Component::Counter(inner) => assert_eq!(inner.count, 4),
        _ => panic!("kind changed"),
    }

    // Wrap-around: 255 + 1 == 0.
    let mut bank = bank_with(&[255, 255, 9]);
    let mut io = SimIOPadded::from_level_data(&level);
    let mut c = counter(255);
    c.tick([0, 0], 0, &mut bank, &level, &mut io);
    assert_eq!(bank.cells[2], 0);
    match c {
        Component::Counter(inner) => assert_eq!(inner.count, 0),
        _ => panic!("kind changed"),
    }
}

#[test]
fn passthrough_copies_input() {
    let level = empty_level();
    let mut bank = bank_with(&[123, 0]);
    let mut io = SimIOPadded::from_level_data(&level);
    let mut p = Component::SignalPassthrough(SignalPassthrough {
        ports: PassthroughPortMap {
            input: ComponentPortData(Some(0)),
            output: ComponentPortData(Some(1)),
        },
    });
    p.tick([0, 0], 0, &mut bank, &level, &mut io);
    assert_eq!(bank.cells[1], 123);
}

#[test]
fn signal_copy_duplicates_input() {
    let level = empty_level();
    let mut bank = bank_with(&[77, 0, 0]);
    let mut io = SimIOPadded::from_level_data(&level);
    let mut c = Component::SignalCopy(SignalCopy {
        ports: CopyPortMap {
            input: ComponentPortData(Some(0)),
            output_a: ComponentPortData(Some(1)),
            output_b: ComponentPortData(Some(2)),
        },
    });
    c.tick([0, 0], 0, &mut bank, &level, &mut io);
    assert_eq!(bank.cells[1], 77);
    assert_eq!(bank.cells[2], 77);
}

#[test]
fn unbound_ports_read_zero_and_swallow_writes() {
    // A NOT gate with no bindings reads 0 and writes nowhere.
    let level = empty_level();
    let mut bank = bank_with(&[11, 22]);
    let mut io = SimIOPadded::from_level_data(&level);
    let mut gate = DummyComponent::GateNot.build_default();
    gate.tick([0, 0], 0, &mut bank, &level, &mut io);
    assert_eq!(bank.cells, vec![11, 22]);
}

#[test]
fn set_port_accepts_only_declared_descriptors() {
    let mut gate = DummyComponent::GateNot.build_default();
    assert!(gate.set_port([0, 0], gridsim::side::Side::Left, 3).is_ok());
    assert!(gate.set_port([0, 0], gridsim::side::Side::Right, 4).is_ok());
    assert!(gate.set_port([0, 0], gridsim::side::Side::Up, 5).is_err());
    assert!(gate.set_port([1, 0], gridsim::side::Side::Left, 6).is_err());

    let mut wire = DummyComponent::WirePiece.build_default();
    assert!(wire.set_port([0, 0], gridsim::side::Side::Left, 0).is_err());
}

#[test]
fn build_resets_counter_and_drops_bindings() {
    let mut c = Component::Counter(Counter {
        ports: CounterPortMap {
            input: ComponentPortData(Some(0)),
            input_clk: ComponentPortData(Some(1)),
            output: ComponentPortData(Some(2)),
        },
        count: 99,
    });
    c.build();
    match c {
        Component::Counter(inner) => {
            assert_eq!(inner.count, 0);
            assert_eq!(inner.ports.input.0, None);
            assert_eq!(inner.ports.input_clk.0, None);
            assert_eq!(inner.ports.output.0, None);
        },
        _ => panic!("kind changed"),
    }
}

#[test]
fn footprints_match_kinds() {
    assert_eq!(DummyComponent::WirePiece.get_grid_size(), [1, 1]);
    assert_eq!(DummyComponent::GateAnd.get_grid_size(), [2, 2]);
    assert_eq!(DummyComponent::SignalCopy.get_grid_size(), [1, 2]);
    assert_eq!(DummyComponent::Counter.get_grid_size(), [1, 2]);
    assert_eq!(DummyComponent::GateAnd.ports().len(), 3);
    assert_eq!(DummyComponent::WirePiece.ports().len(), 0);
}

//! The component kinds and their shared capability contract.
//!
//! Every placeable thing on the grid is one variant of [`Component`]: a
//! transparent wire piece, a gate, a splitter, a counter, or one of the two
//! test probes (provider and observer).  Each kind declares a static table
//! of ports on its footprint boundary, can have those ports bound to signal
//! cells (`set_port`), resets its transient state at the start of a build
//! (`build`), and is evaluated once per simulated time step (`tick`).
//! `DummyComponent` is the data-free marker used to speak about a kind
//! without holding a value of it.

use vstd::prelude::*;

use crate::levels::LevelData;
use crate::levels::SimIOPadded;
use crate::levels::ScoreRow;
use crate::side::PerSide;
use crate::side::Side;
use crate::signal::ComponentPortData;
use crate::signal::SignalBank;

verus! {

/// A visual cue the simulation may hand to the presentation layer, which is
/// free to ignore it.
#[derive(Clone, Copy, Debug, PartialEq, Eq, Structural)]
pub enum VisualEventType {
    ElectricFizz,
    Flash,
    Fire,
}

/// One visual event, anchored to the grid cell that caused it.
#[derive(Clone, Copy, Debug)]
pub struct VisualEvent {
    pub placement: [usize; 2],
    pub event_type: VisualEventType,
}

/// One audio event the presentation layer may play.
#[derive(Clone, Copy, Debug)]
pub struct AudioEvent {
    pub path: &'static str,
    pub volume_percent: u8,
}

/// Whether the player left one side of a wire piece enabled.  Disabling a
/// side electrically severs it, letting two separate wires cross one cell.
#[derive(Clone, Copy, Debug, PartialEq, Eq, Structural)]
pub enum EnabledOrDisabled {
    Enabled,
    Disabled,
}

/// A transparent conductor cell.  `connected_sides` caches, per side,
/// whether the wire actually joins something there (a facing port or a
/// facing enabled wire) and is recomputed whenever the neighbourhood
/// changes; `disabled_sides` is the player's per-side switch.
#[derive(Clone, Copy, Debug, PartialEq, Eq, Structural)]
pub struct Wire {
    pub connected_sides: PerSide<bool>,
    pub disabled_sides: PerSide<EnabledOrDisabled>,
}

/// Wires own no ports; their connectivity is cell-to-cell.
#[derive(Clone, Copy, Debug, PartialEq, Eq, Structural)]
pub enum WirePorts {
    NoPort,
}

impl Wire {
    /// A wire piece with every side enabled and nothing joined yet.
    pub fn new() -> (r: Wire)
        ensures
            r.connected_sides == PerSide::<bool>::splat_spec(false),
            r.disabled_sides == PerSide::<EnabledOrDisabled>::splat_spec(
                EnabledOrDisabled::Enabled,
            ),
    {
        Wire {
            connected_sides: PerSide::splat(false),
            disabled_sides: PerSide::splat(EnabledOrDisabled::Enabled),
        }
    }
}

/// Inverts its input: `output = 255 - input`, byte arithmetic.
#[derive(Clone, Copy, Debug, PartialEq, Eq, Structural)]
pub struct GateNot {
    pub ports: NotPortMap,
}

/// The two ports of a NOT gate.
#[derive(Clone, Copy, Debug, PartialEq, Eq, Structural)]
pub enum NotPorts {
    Input,
    Output,
}

/// Port bindings of a NOT gate, one per `NotPorts` variant.
#[derive(Clone, Copy, Debug, PartialEq, Eq, Structural)]
pub struct NotPortMap {
    pub input: ComponentPortData,
    pub output: ComponentPortData,
}

/// Emits 255 exactly when both inputs read 255, else 0.
#[derive(Clone, Copy, Debug, PartialEq, Eq, Structural)]
pub struct GateAnd {
    pub ports: AndPortMap,
}

/// The three ports of an AND gate.
#[derive(Clone, Copy, Debug, PartialEq, Eq, Structural)]
pub enum GateAndPorts {
    InputA,
    Output,
    InputB,
}

/// Port bindings of an AND gate, one per `GateAndPorts` variant.
#[derive(Clone, Copy, Debug, PartialEq, Eq, Structural)]
pub struct AndPortMap {
    pub input_a: ComponentPortData,
    pub output: ComponentPortData,
    pub input_b: ComponentPortData,
}

/// Duplicates its input onto two outputs.
#[derive(Clone, Copy, Debug, PartialEq, Eq, Structural)]
pub struct SignalCopy {
    pub ports: CopyPortMap,
}

/// The three ports of a signal splitter.
#[derive(Clone, Copy, Debug, PartialEq, Eq, Structural)]
pub enum SignalCopyPorts {
    Input,
    OutputA,
    OutputB,
}

/// Port bindings of a signal splitter, one per `SignalCopyPorts` variant.
#[derive(Clone, Copy, Debug, PartialEq, Eq, Structural)]
pub struct CopyPortMap {
    pub input: ComponentPortData,
    pub output_a: ComponentPortData,
    pub output_b: ComponentPortData,
}

/// Forwards its input to its output unchanged, adding one tick of delay.
#[derive(Clone, Copy, Debug, PartialEq, Eq, Structural)]
pub struct SignalPassthrough {
    pub ports: PassthroughPortMap,
}

/// The two ports of a passthrough.
#[derive(Clone, Copy, Debug, PartialEq, Eq, Structural)]
pub enum SignalPassthroughPorts {
    Input,
    Output,
}

/// Port bindings of a passthrough, one per `SignalPassthroughPorts` variant.
#[derive(Clone, Copy, Debug, PartialEq, Eq, Structural)]
pub struct PassthroughPortMap {
    pub input: ComponentPortData,
    pub output: ComponentPortData,
}

/// Counts the ticks in which both input and clock read 255, with wrap-around
/// at 255, and posts the count on its output whenever it increments.
#[derive(Clone, Copy, Debug, PartialEq, Eq, Structural)]
pub struct Counter {
    pub ports: CounterPortMap,
    pub count: u8,
}

/// The three ports of a counter.
#[derive(Clone, Copy, Debug, PartialEq, Eq, Structural)]
pub enum CounterPorts {
    Input,
    InputClk,
    Output,
}

/// Port bindings of a counter, one per `CounterPorts` variant.
#[derive(Clone, Copy, Debug, PartialEq, Eq, Structural)]
pub struct CounterPortMap {
    pub input: ComponentPortData,
    pub input_clk: ComponentPortData,
    pub output: ComponentPortData,
}

/// Reads its input every tick and appends one row to the scoring log,
/// comparing against the level's expected sequence for its id.
#[derive(Clone, Copy, Debug, PartialEq, Eq, Structural)]
pub struct Observer {
    pub id: usize,
    pub ports: ObserverPortMap,
}

/// The single port of an observer.
#[derive(Clone, Copy, Debug, PartialEq, Eq, Structural)]
pub enum ObserverPorts {
    Input,
}

/// Port bindings of an observer, one per `ObserverPorts` variant.
#[derive(Clone, Copy, Debug, PartialEq, Eq, Structural)]
pub struct ObserverPortMap {
    pub input: ComponentPortData,
}

/// Replays the level's provided input sequence for its id onto its output,
/// one entry per tick; ticks with no entry leave the output untouched.
#[derive(Clone, Copy, Debug, PartialEq, Eq, Structural)]
pub struct Provider {
    pub id: usize,
    pub ports: ProviderPortMap,
}

/// The single port of a provider.
#[derive(Clone, Copy, Debug, PartialEq, Eq, Structural)]
pub enum ProviderPorts {
    Output,
}

/// Port bindings of a provider, one per `ProviderPorts` variant.
#[derive(Clone, Copy, Debug, PartialEq, Eq, Structural)]
pub struct ProviderPortMap {
    pub output: ComponentPortData,
}

/// Every placeable component, as one closed sum.
#[derive(Clone, Copy, Debug, PartialEq, Eq, Structural)]
pub enum Component {
    WirePiece(Wire),
    GateNot(GateNot),
    GateAnd(GateAnd),
    SignalCopy(SignalCopy),
    SignalPassthrough(SignalPassthrough),
    Counter(Counter),
    Observer(Observer),
    Provider(Provider),
}

/// A data-free marker for each component kind, used to ask for sizes, port
/// tables and default values without holding component data.
#[derive(Clone, Copy, Debug, PartialEq, Eq, Structural)]
pub enum DummyComponent {
    WirePiece,
    GateNot,
    GateAnd,
    SignalCopy,
    SignalPassthrough,
    Counter,
    Observer,
    Provider,
}

impl DummyComponent {
    /// The rectangular footprint of the kind, in grid cells.
    pub open spec fn spec_grid_size(self) -> (int, int) {
        match self {
            DummyComponent::WirePiece => (1, 1),
            DummyComponent::GateNot => (1, 1),
            DummyComponent::GateAnd => (2, 2),
            DummyComponent::SignalCopy => (1, 2),
            DummyComponent::SignalPassthrough => (1, 1),
            DummyComponent::Counter => (1, 2),
            DummyComponent::Observer => (1, 1),
            DummyComponent::Provider => (1, 1),
        }
    }

    /// The rectangular footprint of the kind, in grid cells.
    pub fn get_grid_size(&self) -> (r: [usize; 2])
        ensures
            r[0] as int == self.spec_grid_size().0,
            r[1] as int == self.spec_grid_size().1,
    {
        match self {
            DummyComponent::WirePiece => [1, 1],
            DummyComponent::GateNot => [1, 1],
            DummyComponent::GateAnd => [2, 2],
            DummyComponent::SignalCopy => [1, 2],
            DummyComponent::SignalPassthrough => [1, 1],
            DummyComponent::Counter => [1, 2],
            DummyComponent::Observer => [1, 1],
            DummyComponent::Provider => [1, 1],
        }
    }

    /// How many ports the kind declares.
    pub open spec fn spec_num_ports(self) -> int {
        match self {
            DummyComponent::WirePiece => 0,
            DummyComponent::GateNot => 2,
            DummyComponent::GateAnd => 3,
            DummyComponent::SignalCopy => 3,
            DummyComponent::SignalPassthrough => 2,
            DummyComponent::Counter => 3,
            DummyComponent::Observer => 1,
            DummyComponent::Provider => 1,
        }
    }

    /// The `k`-th declared port of the kind, as (offset x, offset y, side).
    pub open spec fn spec_port_entry(self, k: int) -> (int, int, Side) {
        match self {
            DummyComponent::WirePiece => (0, 0, Side::Up),
            DummyComponent::GateNot => {
                if k == 0 {
                    (0, 0, Side::Left)
                } else {
                    (0, 0, Side::Right)
                }
            },
            DummyComponent::GateAnd => {
                if k == 0 {
                    (0, 1, Side::Left)
                } else if k == 1 {
                    (1, 1, Side::Right)
                } else {
                    (0, 0, Side::Left)
                }
            },
            DummyComponent::SignalCopy => {
                if k == 0 {
                    (0, 1, Side::Left)
                } else if k == 1 {
                    (0, 1, Side::Right)
                } else {
                    (0, 0, Side::Right)
                }
            },
            DummyComponent::SignalPassthrough => {
                if k == 0 {
                    (0, 0, Side::Left)
                } else {
                    (0, 0, Side::Right)
                }
            },
            DummyComponent::Counter => {
                if k == 0 {
                    (0, 1, Side::Left)
                } else if k == 1 {
                    (0, 0, Side::Left)
                } else {
                    (0, 1, Side::Right)
                }
            },
            DummyComponent::Observer => (0, 0, Side::Left),
            DummyComponent::Provider => (0, 0, Side::Right),
        }
    }

    /// Whether `(dx, dy, side)` is one of the kind's declared ports.
    pub open spec fn spec_declares_port(self, dx: int, dy: int, side: Side) -> bool {
        exists|k: int|
            0 <= k < self.spec_num_ports() && #[trigger] self.spec_port_entry(k) == (dx, dy, side)
    }

    /// The static port table of the kind: each declared port as its offset
    /// within the footprint and the side it faces.  Wires declare none.
    pub fn ports(&self) -> (r: Vec<([usize; 2], Side)>)
        ensures
            r@.len() == self.spec_num_ports(),
            forall|k: int|
                0 <= k < r@.len() ==> {
                    let e = #[trigger] r@[k];
                    self.spec_port_entry(k) == (e.0[0] as int, e.0[1] as int, e.1)
                },
    {
        let mut r: Vec<([usize; 2], Side)> = Vec::new();
        match self {
            DummyComponent::WirePiece => {},
            DummyComponent::GateNot => {
                r.push(([0, 0], Side::Left));
                r.push(([0, 0], Side::Right));
            },
            DummyComponent::GateAnd => {
                r.push(([0, 1], Side::Left));
                r.push(([1, 1], Side::Right));
                r.push(([0, 0], Side::Left));
            },
            DummyComponent::SignalCopy => {
                r.push(([0, 1], Side::Left));
                r.push(([0, 1], Side::Right));
                r.push(([0, 0], Side::Right));
            },
            DummyComponent::SignalPassthrough => {
                r.push(([0, 0], Side::Left));
                r.push(([0, 0], Side::Right));
            },
            DummyComponent::Counter => {
                r.push(([0, 1], Side::Left));
                r.push(([0, 0], Side::Left));
                r.push(([0, 1], Side::Right));
            },
            DummyComponent::Observer => {
                r.push(([0, 0], Side::Left));
            },
            DummyComponent::Provider => {
                r.push(([0, 0], Side::Right));
            },
        }
        r
    }

    /// A fresh component of this kind: no bound ports, zeroed transient
    /// state, probe ids 0.
    pub fn build_default(&self) -> (r: Component)
        ensures
            r == self.spec_default(),
    {
        match self {
            DummyComponent::WirePiece => Component::WirePiece(Wire::new()),
            DummyComponent::GateNot => Component::GateNot(
                GateNot {
                    ports: NotPortMap {
                        input: ComponentPortData(None),
                        output: ComponentPortData(None),
                    },
                },
            ),
            DummyComponent::GateAnd => Component::GateAnd(
                GateAnd {
                    ports: AndPortMap {
                        input_a: ComponentPortData(None),
                        output: ComponentPortData(None),
                        input_b: ComponentPortData(None),
                    },
                },
            ),
            DummyComponent::SignalCopy => Component::SignalCopy(
                SignalCopy {
                    ports: CopyPortMap {
                        input: ComponentPortData(None),
                        output_a: ComponentPortData(None),
                        output_b: ComponentPortData(None),
                    },
                },
            ),
            DummyComponent::SignalPassthrough => Component::SignalPassthrough(
                SignalPassthrough {
                    ports: PassthroughPortMap {
                        input: ComponentPortData(None),
                        output: ComponentPortData(None),
                    },
                },
            ),
            DummyComponent::Counter => Component::Counter(
                Counter {
                    ports: CounterPortMap {
                        input: ComponentPortData(None),
                        input_clk: ComponentPortData(None),
                        output: ComponentPortData(None),
                    },
                    count: 0,
                },
            ),
            DummyComponent::Observer => Component::Observer(
                Observer { id: 0, ports: ObserverPortMap { input: ComponentPortData(None) } },
            ),
            DummyComponent::Provider => Component::Provider(
                Provider { id: 0, ports: ProviderPortMap { output: ComponentPortData(None) } },
            ),
        }
    }

    /// What `build_default` returns.
    pub open spec fn spec_default(self) -> Component {
        match self {
            DummyComponent::WirePiece => Component::WirePiece(
                Wire {
                    connected_sides: PerSide { up: false, down: false, left: false, right: false },
                    disabled_sides: PerSide {
                        up: EnabledOrDisabled::Enabled,
                        down: EnabledOrDisabled::Enabled,
                        left: EnabledOrDisabled::Enabled,
                        right: EnabledOrDisabled::Enabled,
                    },
                },
            ),
            DummyComponent::GateNot => Component::GateNot(
                GateNot {
                    ports: NotPortMap {
                        input: ComponentPortData(None),
                        output: ComponentPortData(None),
                    },
                },
            ),
            DummyComponent::GateAnd => Component::GateAnd(
                GateAnd {
                    ports: AndPortMap {
                        input_a: ComponentPortData(None),
                        output: ComponentPortData(None),
                        input_b: ComponentPortData(None),
                    },
                },
            ),
            DummyComponent::SignalCopy => Component::SignalCopy(
                SignalCopy {
                    ports: CopyPortMap {
                        input: ComponentPortData(None),
                        output_a: ComponentPortData(None),
                        output_b: ComponentPortData(None),
                    },
                },
            ),
            DummyComponent::SignalPassthrough => Component::SignalPassthrough(
                SignalPassthrough {
                    ports: PassthroughPortMap {
                        input: ComponentPortData(None),
                        output: ComponentPortData(None),
                    },
                },
            ),
            DummyComponent::Counter => Component::Counter(
                Counter {
                    ports: CounterPortMap {
                        input: ComponentPortData(None),
                        input_clk: ComponentPortData(None),
                        output: ComponentPortData(None),
                    },
                    count: 0,
                },
            ),
            DummyComponent::Observer => Component::Observer(
                Observer { id: 0, ports: ObserverPortMap { input: ComponentPortData(None) } },
            ),
            DummyComponent::Provider => Component::Provider(
                Provider { id: 0, ports: ProviderPortMap { output: ComponentPortData(None) } },
            ),
        }
    }

    /// A short human-readable name for the kind.
    pub fn name(&self) -> &'static str {
        match self {
            DummyComponent::WirePiece => "Wire",
            DummyComponent::GateNot => "NOT gate",
            DummyComponent::GateAnd => "AND gate",
            DummyComponent::SignalCopy => "Signal splitter",
            DummyComponent::SignalPassthrough => "Signal passthrough",
            DummyComponent::Counter => "Counter",
            DummyComponent::Observer => "Observer",
            DummyComponent::Provider => "Provider",
        }
    }

    /// A one-line player-facing description of the kind.
    pub fn desc(&self) -> &'static str {
        match self {
            DummyComponent::WirePiece => "Wires transmit data instantly in an analogue manner.\nSides can be disabled in their menu",
            DummyComponent::GateNot => "Inverts a given input.",
            DummyComponent::GateAnd => "Checks if two signals are equal to 255, if so outputs 255.",
            DummyComponent::SignalCopy => "Duplicates a signal acrosss two wires.",
            DummyComponent::SignalPassthrough => "Passthoughs a signal, can be used for delays.",
            DummyComponent::Counter => "Counts the amount of logic HIGHs on the input when there is also a HIGH on the clock signal.",
            DummyComponent::Observer => "Watches the input and records the test data.",
            DummyComponent::Provider => "Publishes test data into your circuit.",
        }
    }
}

impl Component {
    /// The marker of this component's kind.
    pub fn dummy(&self) -> (r: DummyComponent)
        ensures
            r == self.spec_dummy(),
    {
        match self {
            Component::WirePiece(_) => DummyComponent::WirePiece,
            Component::GateNot(_) => DummyComponent::GateNot,
            Component::GateAnd(_) => DummyComponent::GateAnd,
            Component::SignalCopy(_) => DummyComponent::SignalCopy,
            Component::SignalPassthrough(_) => DummyComponent::SignalPassthrough,
            Component::Counter(_) => DummyComponent::Counter,
            Component::Observer(_) => DummyComponent::Observer,
            Component::Provider(_) => DummyComponent::Provider,
        }
    }

    /// What `dummy` returns.
    pub open spec fn spec_dummy(self) -> DummyComponent {
        match self {
            Component::WirePiece(_) => DummyComponent::WirePiece,
            Component::GateNot(_) => DummyComponent::GateNot,
            Component::GateAnd(_) => DummyComponent::GateAnd,
            Component::SignalCopy(_) => DummyComponent::SignalCopy,
            Component::SignalPassthrough(_) => DummyComponent::SignalPassthrough,
            Component::Counter(_) => DummyComponent::Counter,
            Component::Observer(_) => DummyComponent::Observer,
            Component::Provider(_) => DummyComponent::Provider,
        }
    }

    /// The component after `build`: transient state zeroed and every port
    /// binding dropped; a wire keeps its side switches and cached
    /// connections, probes keep their id.
    pub open spec fn spec_build(self) -> Component {
        match self {
            Component::WirePiece(w) => Component::WirePiece(w),
            Component::GateNot(_) => DummyComponent::GateNot.spec_default(),
            Component::GateAnd(_) => DummyComponent::GateAnd.spec_default(),
            Component::SignalCopy(_) => DummyComponent::SignalCopy.spec_default(),
            Component::SignalPassthrough(_) => DummyComponent::SignalPassthrough.spec_default(),
            Component::Counter(_) => DummyComponent::Counter.spec_default(),
            Component::Observer(o) => Component::Observer(
                Observer { id: o.id, ports: ObserverPortMap { input: ComponentPortData(None) } },
            ),
            Component::Provider(p) => Component::Provider(
                Provider { id: p.id, ports: ProviderPortMap { output: ComponentPortData(None) } },
            ),
        }
    }

    /// Reset the component for a fresh build: zero transient state (a
    /// counter's count) and drop every binding of the previous generation,
    /// so that a port left unreached by the new build reads 0.
    pub fn build(&mut self)
        ensures
            *final(self) == old(self).spec_build(),
    {
        match self {
            Component::WirePiece(_) => {},
            Component::GateNot(g) => {
                g.ports.input = ComponentPortData(None);
                g.ports.output = ComponentPortData(None);
            },
            Component::GateAnd(g) => {
                g.ports.input_a = ComponentPortData(None);
                g.ports.output = ComponentPortData(None);
                g.ports.input_b = ComponentPortData(None);
            },
            Component::SignalCopy(c) => {
                c.ports.input = ComponentPortData(None);
                c.ports.output_a = ComponentPortData(None);
                c.ports.output_b = ComponentPortData(None);
            },
            Component::SignalPassthrough(p) => {
                p.ports.input = ComponentPortData(None);
                p.ports.output = ComponentPortData(None);
            },
            Component::Counter(c) => {
                c.ports.input = ComponentPortData(None);
                c.ports.input_clk = ComponentPortData(None);
                c.ports.output = ComponentPortData(None);
                c.count = 0;
            },
            Component::Observer(o) => {
                o.ports.input = ComponentPortData(None);
            },
            Component::Provider(p) => {
                p.ports.output = ComponentPortData(None);
            },
        }
    }

    /// The component after `set_port` bound `(dx, dy, side)` to cell `idx`,
    /// assuming the kind declares that port.
    pub open spec fn spec_set_port(self, dx: int, dy: int, side: Side, idx: usize) -> Component {
        match self {
            Component::WirePiece(w) => self,
            Component::GateNot(g) => Component::GateNot(
                GateNot {
                    ports: NotPortMap {
                        input: if dx == 0 && dy == 0 && side == Side::Left {
                            ComponentPortData(Some(idx))
                        } else {
                            g.ports.input
                        },
                        output: if dx == 0 && dy == 0 && side == Side::Right {
                            ComponentPortData(Some(idx))
                        } else {
                            g.ports.output
                        },
                    },
                },
            ),
            Component::GateAnd(g) => Component::GateAnd(
                GateAnd {
                    ports: AndPortMap {
                        input_a: if dx == 0 && dy == 1 && side == Side::Left {
                            ComponentPortData(Some(idx))
                        } else {
                            g.ports.input_a
                        },
                        output: if dx == 1 && dy == 1 && side == Side::Right {
                            ComponentPortData(Some(idx))
                        } else {
                            g.ports.output
                        },
                        input_b: if dx == 0 && dy == 0 && side == Side::Left {
                            ComponentPortData(Some(idx))
                        } else {
                            g.ports.input_b
                        },
                    },
                },
            ),
            Component::SignalCopy(c) => Component::SignalCopy(
                SignalCopy {
                    ports: CopyPortMap {
                        input: if dx == 0 && dy == 1 && side == Side::Left {
                            ComponentPortData(Some(idx))
                        } else {
                            c.ports.input
                        },
                        output_a: if dx == 0 && dy == 1 && side == Side::Right {
                            ComponentPortData(Some(idx))
                        } else {
                            c.ports.output_a
                        },
                        output_b: if dx == 0 && dy == 0 && side == Side::Right {
                            ComponentPortData(Some(idx))
                        } else {
                            c.ports.output_b
                        },
                    },
                },
            ),
            Component::SignalPassthrough(p) => Component::SignalPassthrough(
                SignalPassthrough {
                    ports: PassthroughPortMap {
                        input: if dx == 0 && dy == 0 && side == Side::Left {
                            ComponentPortData(Some(idx))
                        } else {
                            p.ports.input
                        },
                        output: if dx == 0 && dy == 0 && side == Side::Right {
                            ComponentPortData(Some(idx))
                        } else {
                            p.ports.output
                        },
                    },
                },
            ),
            Component::Counter(c) => Component::Counter(
                Counter {
                    ports: CounterPortMap {
                        input: if dx == 0 && dy == 1 && side == Side::Left {
                            ComponentPortData(Some(idx))
                        } else {
                            c.ports.input
                        },
                        input_clk: if dx == 0 && dy == 0 && side == Side::Left {
                            ComponentPortData(Some(idx))
                        } else {
                            c.ports.input_clk
                        },
                        output: if dx == 0 && dy == 1 && side == Side::Right {
                            ComponentPortData(Some(idx))
                        } else {
                            c.ports.output
                        },
                    },
                    count: c.count,
                },
            ),
            Component::Observer(o) => Component::Observer(
                Observer {
                    id: o.id,
                    ports: ObserverPortMap {
                        input: if dx == 0 && dy == 0 && side == Side::Left {
                            ComponentPortData(Some(idx))
                        } else {
                            o.ports.input
                        },
                    },
                },
            ),
            Component::Provider(p) => Component::Provider(
                Provider {
                    id: p.id,
                    ports: ProviderPortMap {
                        output: if dx == 0 && dy == 0 && side == Side::Right {
                            ComponentPortData(Some(idx))
                        } else {
                            p.ports.output
                        },
                    },
                },
            ),
        }
    }

    /// Bind the declared port at `(offset, side)` to signal cell `idx`.
    /// `Err` exactly when this kind declares no such port; the component is
    /// then unchanged.
    pub fn set_port(&mut self, offset: [usize; 2], side: Side, idx: usize) -> (r: Result<(), ()>)
        ensures
            r is Ok <==> old(self).spec_dummy().spec_declares_port(
                offset[0] as int,
                offset[1] as int,
                side,
            ),
            r is Ok ==> *final(self) == old(self).spec_set_port(
                offset[0] as int,
                offset[1] as int,
                side,
                idx,
            ),
            r is Err ==> *final(self) == *old(self),
    {
        let dx = offset[0];
        let dy = offset[1];
        let matched: bool = match self {
            Component::WirePiece(_) => false,
            Component::GateNot(g) => {
                if dx == 0 && dy == 0 && matches!(side, Side::Left) {
                    g.ports.input = ComponentPortData(Some(idx));
                    true
                } else if dx == 0 && dy == 0 && matches!(side, Side::Right) {
                    g.ports.output = ComponentPortData(Some(idx));
                    true
                } else {
                    false
                }
            },
            Component::GateAnd(g) => {
                if dx == 0 && dy == 1 && matches!(side, Side::Left) {
                    g.ports.input_a = ComponentPortData(Some(idx));
                    true
                } else if dx == 1 && dy == 1 && matches!(side, Side::Right) {
                    g.ports.output = ComponentPortData(Some(idx));
                    true
                } else if dx == 0 && dy == 0 && matches!(side, Side::Left) {
                    g.ports.input_b = ComponentPortData(Some(idx));
                    true
                } else {
                    false
                }
            },
            Component::SignalCopy(c) => {
                if dx == 0 && dy == 1 && matches!(side, Side::Left) {
                    c.ports.input = ComponentPortData(Some(idx));
                    true
                } else if dx == 0 && dy == 1 && matches!(side, Side::Right) {
                    c.ports.output_a = ComponentPortData(Some(idx));
                    true
                } else if dx == 0 && dy == 0 && matches!(side, Side::Right) {
                    c.ports.output_b = ComponentPortData(Some(idx));
                    true
                } else {
                    false
                }
            },
            Component::SignalPassthrough(p) => {
                if dx == 0 && dy == 0 && matches!(side, Side::Left) {
                    p.ports.input = ComponentPortData(Some(idx));
                    true
                } else if dx == 0 && dy == 0 && matches!(side, Side::Right) {
                    p.ports.output = ComponentPortData(Some(idx));
                    true
                } else {
                    false
                }
            },
            Component::Counter(c) => {
                if dx == 0 && dy == 1 && matches!(side, Side::Left) {
                    c.ports.input = ComponentPortData(Some(idx));
                    true
                } else if dx == 0 && dy == 0 && matches!(side, Side::Left) {
                    c.ports.input_clk = ComponentPortData(Some(idx));
                    true
                } else if dx == 0 && dy == 1 && matches!(side, Side::Right) {
                    c.ports.output = ComponentPortData(Some(idx));
                    true
                } else {
                    false
                }
            },
            Component::Observer(o) => {
                if dx == 0 && dy == 0 && matches!(side, Side::Left) {
                    o.ports.input = ComponentPortData(Some(idx));
                    true
                } else {
                    false
                }
            },
            Component::Provider(p) => {
                if dx == 0 && dy == 0 && matches!(side, Side::Right) {
                    p.ports.output = ComponentPortData(Some(idx));
                    true
                } else {
                    false
                }
            },
        };
        if matched {
            proof {
                lemma_port_tables(old(self).spec_dummy(), offset[0] as int, offset[1] as int, side);
            }
            Ok(())
        } else {
            proof {
                lemma_port_tables(old(self).spec_dummy(), offset[0] as int, offset[1] as int, side);
            }
            Err(())
        }
    }
}

impl Component {
    /// One evaluation step of the component, as a mathematical function of
    /// the tick index, the signal bank, the level and the scoring log:
    /// the new component state, the new bank, the new per-id row lists and
    /// the new `correct_so_far` flag, in that order.
    pub open spec fn spec_tick(
        self,
        tick: int,
        cells: Seq<u8>,
        level: LevelData,
        rows: Seq<Seq<ScoreRow>>,
        cf: bool,
    ) -> (Component, Seq<u8>, Seq<Seq<ScoreRow>>, bool) {
        match self {
            Component::WirePiece(_) => (self, cells, rows, cf),
            Component::GateNot(g) => {
                let input = g.ports.input.spec_get(cells);
                (self, g.ports.output.spec_set(cells, (255 - input) as u8), rows, cf)
            },
            Component::GateAnd(g) => {
                let a = g.ports.input_a.spec_get(cells);
                let b = g.ports.input_b.spec_get(cells);
                let v: u8 = if a == 255 && b == 255 {
                    255
                } else {
                    0
                };
                (self, g.ports.output.spec_set(cells, v), rows, cf)
            },
            Component::SignalCopy(c) => {
                let v = c.ports.input.spec_get(cells);
                (
                    self,
                    c.ports.output_b.spec_set(c.ports.output_a.spec_set(cells, v), v),
                    rows,
                    cf,
                )
            },
            Component::SignalPassthrough(p) => {
                let v = p.ports.input.spec_get(cells);
                (self, p.ports.output.spec_set(cells, v), rows, cf)
            },
            Component::Counter(c) => {
                let input = c.ports.input.spec_get(cells);
                let clk = c.ports.input_clk.spec_get(cells);
                if input == 255 && clk == 255 {
                    let cnt: u8 = if c.count == 255 {
                        0
                    } else {
                        (c.count + 1) as u8
                    };
                    (
                        Component::Counter(Counter { ports: c.ports, count: cnt }),
                        c.ports.output.spec_set(cells, cnt),
                        rows,
                        cf,
                    )
                } else {
                    (self, cells, rows, cf)
                }
            },
            Component::Observer(o) => {
                let v = o.ports.input.spec_get(cells);
                (
                    self,
                    cells,
                    SimIOPadded::spec_add_rows(rows, level, tick, o.id as int, Some(v)),
                    SimIOPadded::spec_add_correct(
                        cf,
                        rows.len() as int,
                        level,
                        tick,
                        o.id as int,
                        Some(v),
                    ),
                )
            },
            Component::Provider(p) => {
                match level.spec_provided_at(p.id as int, tick) {
                    Option::Some(v) => (self, p.ports.output.spec_set(cells, v), rows, cf),
                    Option::None => (self, cells, rows, cf),
                }
            },
        }
    }

    /// Evaluate the component once for tick `tick_num`: read its bound
    /// inputs, write its bound outputs, and, for an observer, append one
    /// scoring row.  Returns the visual and audio events of the step; no
    /// current kind emits any.
    pub fn tick(
        &mut self,
        _own_pos: [usize; 2],
        tick_num: usize,
        bank: &mut SignalBank,
        level: &LevelData,
        io: &mut SimIOPadded,
    ) -> (r: (Vec<VisualEvent>, Vec<AudioEvent>))
        ensures
            ({
                let stepped = old(self).spec_tick(
                    tick_num as int,
                    old(bank).cells@,
                    *level,
                    old(io).rows_view(),
                    old(io).correct_so_far,
                );
                &&& *final(self) == stepped.0
                &&& final(bank).cells@ =~= stepped.1
                &&& final(io).rows_view() =~~= stepped.2
                &&& final(io).correct_so_far == stepped.3
            }),
            final(io).records@.len() == old(io).records@.len(),
            r.0@.len() == 0,
            r.1@.len() == 0,
    {
        match self {
            Component::WirePiece(_) => {},
            Component::GateNot(g) => {
                let input = g.ports.input.get(bank);
                let output = 255u8 - input;
                g.ports.output.set(bank, output);
            },
            Component::GateAnd(g) => {
                let input_a = g.ports.input_a.get(bank);
                let input_b = g.ports.input_b.get(bank);
                if input_a == 255 && input_b == 255 {
                    g.ports.output.set(bank, 255);
                } else {
                    g.ports.output.set(bank, 0);
                }
            },
            Component::SignalCopy(c) => {
                let input = c.ports.input.get(bank);
                c.ports.output_a.set(bank, input);
                c.ports.output_b.set(bank, input);
            },
            Component::SignalPassthrough(p) => {
                let input = p.ports.input.get(bank);
                p.ports.output.set(bank, input);
            },
            Component::Counter(c) => {
                let input = c.ports.input.get(bank);
                let input_clk = c.ports.input_clk.get(bank);
                if input == 255 && input_clk == 255 {
                    c.count = if c.count == 255 {
                        0
                    } else {
                        c.count + 1
                    };
                    c.ports.output.set(bank, c.count);
                }
            },
            Component::Observer(o) => {
                let input = o.ports.input.get(bank);
                io.add_output(level, tick_num, o.id, Some(input));
            },
            Component::Provider(p) => {
                match level.provided_at(p.id, tick_num) {
                    Some(v) => {
                        p.ports.output.set(bank, v);
                    },
                    None => {},
                }
            },
        }
        (Vec::new(), Vec::new())
    }
}

impl Component {
    /// The port bindings of the component, in the order of its port table.
    pub open spec fn ports_of(self) -> Seq<ComponentPortData> {
        match self {
            Component::WirePiece(_) => seq![],
            Component::GateNot(g) => seq![g.ports.input, g.ports.output],
            Component::GateAnd(g) => seq![g.ports.input_a, g.ports.output, g.ports.input_b],
            Component::SignalCopy(c) => seq![c.ports.input, c.ports.output_a, c.ports.output_b],
            Component::SignalPassthrough(p) => seq![p.ports.input, p.ports.output],
            Component::Counter(c) => seq![c.ports.input, c.ports.input_clk, c.ports.output],
            Component::Observer(o) => seq![o.ports.input],
            Component::Provider(p) => seq![p.ports.output],
        }
    }

    /// The component with every port binding dropped; everything else,
    /// including a counter's count, is kept.
    pub open spec fn spec_clear_ports(self) -> Component {
        match self {
            Component::WirePiece(w) => Component::WirePiece(w),
            Component::GateNot(_) => DummyComponent::GateNot.spec_default(),
            Component::GateAnd(_) => DummyComponent::GateAnd.spec_default(),
            Component::SignalCopy(_) => DummyComponent::SignalCopy.spec_default(),
            Component::SignalPassthrough(_) => DummyComponent::SignalPassthrough.spec_default(),
            Component::Counter(c) => Component::Counter(
                Counter {
                    ports: CounterPortMap {
                        input: ComponentPortData(None),
                        input_clk: ComponentPortData(None),
                        output: ComponentPortData(None),
                    },
                    count: c.count,
                },
            ),
            Component::Observer(o) => Component::Observer(
                Observer { id: o.id, ports: ObserverPortMap { input: ComponentPortData(None) } },
            ),
            Component::Provider(p) => Component::Provider(
                Provider { id: p.id, ports: ProviderPortMap { output: ComponentPortData(None) } },
            ),
        }
    }
}

/// One binding either kept its old value or was joined to cell `idx`.
pub open spec fn port_evolves(o: ComponentPortData, n: ComponentPortData, idx: usize) -> bool {
    n == o || n == ComponentPortData(Some(idx))
}

/// The new component is the old one with some of its ports newly bound to
/// cell `idx`: same kind, same switches, ids and counts.
pub open spec fn comp_evolves(o: Component, n: Component, idx: usize) -> bool {
    &&& n.spec_clear_ports() == o.spec_clear_ports()
    &&& n.ports_of().len() == o.ports_of().len()
    &&& forall|i: int|
        0 <= i < o.ports_of().len() ==> port_evolves(
            o.ports_of()[i],
            #[trigger] n.ports_of()[i],
            idx,
        )
}

/// One binding points into a bank of `n` cells (or nowhere).
pub open spec fn port_bounded(p: ComponentPortData, n: int) -> bool {
    match p.0 {
        Option::Some(i) => (i as int) < n,
        Option::None => true,
    }
}

/// All bindings of the component point into a bank of `n` cells.
pub open spec fn comp_ports_bounded(c: Component, n: int) -> bool {
    forall|i: int| 0 <= i < c.ports_of().len() ==> port_bounded(#[trigger] c.ports_of()[i], n)
}

/// Unfolds `spec_declares_port` for one kind and descriptor: the existential
/// over the port table is equivalent to the finitely many table entries.
pub proof fn lemma_port_tables(kind: DummyComponent, dx: int, dy: int, side: Side)
    ensures
        kind.spec_declares_port(dx, dy, side) <==> match kind {
            DummyComponent::WirePiece => false,
            DummyComponent::GateNot => dx == 0 && dy == 0 && (side == Side::Left || side
                == Side::Right),
            DummyComponent::GateAnd => (dx == 0 && dy == 1 && side == Side::Left) || (dx == 1 && dy
                == 1 && side == Side::Right) || (dx == 0 && dy == 0 && side == Side::Left),
            DummyComponent::SignalCopy => (dx == 0 && dy == 1 && side == Side::Left) || (dx == 0
                && dy == 1 && side == Side::Right) || (dx == 0 && dy == 0 && side == Side::Right),
            DummyComponent::SignalPassthrough => dx == 0 && dy == 0 && (side == Side::Left || side
                == Side::Right),
            DummyComponent::Counter => (dx == 0 && dy == 1 && side == Side::Left) || (dx == 0 && dy
                == 0 && side == Side::Left) || (dx == 0 && dy == 1 && side == Side::Right),
            DummyComponent::Observer => dx == 0 && dy == 0 && side == Side::Left,
            DummyComponent::Provider => dx == 0 && dy == 0 && side == Side::Right,
        },
{
    if kind.spec_declares_port(dx, dy, side) {
        let k = choose|k: int|
            0 <= k < kind.spec_num_ports() && #[trigger] kind.spec_port_entry(k) == (dx, dy, side);
        assert(kind.spec_port_entry(k) == (dx, dy, side));
    }
    assert(kind.spec_port_entry(0) == kind.spec_port_entry(0));
    assert(kind.spec_port_entry(1) == kind.spec_port_entry(1));
    assert(kind.spec_port_entry(2) == kind.spec_port_entry(2));
}

} // verus!

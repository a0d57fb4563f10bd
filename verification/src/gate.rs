//! Edge detection over a boolean "note held" signal.
//!
//! A `Gate` watches successive boolean inputs and reports one of four
//! states.  The two edge states appear for exactly one update per logical
//! transition of the input, which the envelope machine relies on to
//! trigger attacks and releases exactly once.

use vstd::prelude::*;

verus! {

/// The state a gate reports after an update.
#[derive(Copy, Clone, Debug, PartialEq, Eq, Structural)]
pub enum GateState {
    Low,
    RisingEdge,
    High,
    FallingEdge,
}

impl GateState {
    /// True exactly on the update where the input went from low to high.
    pub fn is_rising_edge(self) -> (r: bool)
        ensures
            r == (self == GateState::RisingEdge),
    {
        matches!(self, GateState::RisingEdge)
    }

    /// True exactly on the update where the input went from high to low.
    pub fn is_falling_edge(self) -> (r: bool)
        ensures
            r == (self == GateState::FallingEdge),
    {
        matches!(self, GateState::FallingEdge)
    }

    /// True while the input is high, the rising update included.
    pub fn is_highish(self) -> (r: bool)
        ensures
            r == (self == GateState::RisingEdge || self == GateState::High),
    {
        matches!(self, GateState::RisingEdge | GateState::High)
    }

    /// True while the input is low, the falling update included.
    pub fn is_lowish(self) -> (r: bool)
        ensures
            r == (self == GateState::FallingEdge || self == GateState::Low),
    {
        matches!(self, GateState::FallingEdge | GateState::Low)
    }
}

/// The transition a gate makes on one update with input `value`.
pub open spec fn gate_step(g: GateState, value: bool) -> GateState {
    match g {
        GateState::Low => if value {
            GateState::RisingEdge
        } else {
            GateState::Low
        },
        GateState::RisingEdge => if value {
            GateState::High
        } else {
            GateState::FallingEdge
        },
        GateState::High => if value {
            GateState::High
        } else {
            GateState::FallingEdge
        },
        GateState::FallingEdge => if value {
            GateState::RisingEdge
        } else {
            GateState::Low
        },
    }
}

/// An edge detector: remembers the state reported by the last update.
#[derive(Copy, Clone, Debug)]
pub struct Gate(pub GateState);

impl Gate {
    /// A fresh gate, which has seen no input and rests low.
    pub fn new() -> (g: Gate)
        ensures
            g.0 == GateState::Low,
    {
        Gate(GateState::Low)
    }

    /// Feed the next boolean input: exactly one transition is made per
    /// call, and the new state is returned.
    pub fn update(&mut self, new_value: bool) -> (r: GateState)
        ensures
            final(self).0 == gate_step(old(self).0, new_value),
            r == final(self).0,
    {
        self.0 = match self.0 {
            GateState::Low => if new_value {
                GateState::RisingEdge
            } else {
                GateState::Low
            },
            GateState::RisingEdge => if new_value {
                GateState::High
            } else {
                GateState::FallingEdge
            },
            GateState::High => if !new_value {
                GateState::FallingEdge
            } else {
                GateState::High
            },
            GateState::FallingEdge => if !new_value {
                GateState::Low
            } else {
                GateState::RisingEdge
            },
        };
        self.0
    }
}

/// A repeated input never reports the same edge twice: from any state,
/// feeding the same value a second time yields a plain level, never an
/// edge.
pub proof fn lemma_no_duplicate_edge(g: GateState, value: bool)
    ensures
        gate_step(gate_step(g, value), value) == (if value {
            GateState::High
        } else {
            GateState::Low
        }),
{
}

/// A held-high input can only be seen as rising once: after any update with
/// a high input the detector is highish, and a further high input yields High.
pub proof fn lemma_edge_reports_once(g: GateState)
    ensures
        gate_step(g, true) == GateState::RisingEdge || gate_step(g, true) == GateState::High,
        gate_step(g, false) == GateState::FallingEdge || gate_step(g, false) == GateState::Low,
        gate_step(g, true) == GateState::RisingEdge <==> (g == GateState::Low || g
            == GateState::FallingEdge),
        gate_step(g, false) == GateState::FallingEdge <==> (g == GateState::High || g
            == GateState::RisingEdge),
{
}

} // verus!

use tunebox::gate::Gate;
use tunebox::gate::GateState;

#[test]
fn fresh_gate_rests_low() {
    let g = Gate::new();
    assert!(g.0 == GateState::Low);
    assert!(g.0.is_lowish());
    assert!(!g.0.is_highish());
}

#[test]
fn each_transition_reports_one_edge() {
    let mut g = Gate::new();
    assert_eq!(g.update(true), GateState::RisingEdge);
    assert_eq!(g.update(true), GateState::High);
    assert_eq!(g.update(true), GateState::High);
    assert_eq!(g.update(false), GateState::FallingEdge);
    assert_eq!(g.update(false), GateState::Low);
    assert_eq!(g.update(false), GateState::Low);
}

#[test]
fn quick_toggle_still_reports_both_edges() {
    let mut g = Gate::new();
    assert_eq!(g.update(true), GateState::RisingEdge);
    assert_eq!(g.update(false), GateState::FallingEdge);
    assert_eq!(g.update(true), GateState::RisingEdge);
    assert_eq!(g.update(false), GateState::FallingEdge);
}

#[test]
fn state_predicates_partition() {
    assert!(GateState::RisingEdge.is_rising_edge());
    assert!(!GateState::High.is_rising_edge());
    assert!(GateState::FallingEdge.is_falling_edge());
    assert!(!GateState::Low.is_falling_edge());
    assert!(GateState::RisingEdge.is_highish());
    assert!(GateState::High.is_highish());
    assert!(GateState::FallingEdge.is_lowish());
    assert!(GateState::Low.is_lowish());
}

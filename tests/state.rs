use gilgamesh::error::Error;
use gilgamesh::state::{State, StateChange, UnknownReason};

#[test]
fn test_from_mx() {
    let state = State::from_mx(true, false);
    assert!(state.m());
    assert!(!state.x());
}

#[test]
fn state_test_from_expr() {
    let state = State::from_expr("m=0,x=1".to_string()).unwrap();
    assert_eq!(state.m(), false);
    assert_eq!(state.x(), true);

    let state = State::from_expr("x=0,m=1".to_string()).unwrap();
    assert_eq!(state.m(), true);
    assert_eq!(state.x(), false);

    let unknown = StateChange::from_expr("unknown".to_string()).unwrap();
    assert!(unknown.unknown());

    let none = StateChange::from_expr("none".to_string()).unwrap();
    assert_eq!(none.to_string(), "none");

    let m = StateChange::from_expr("m=1".to_string()).unwrap();
    assert_eq!(m.m(), Some(true));

    let mx = StateChange::from_expr("m=1,x=0".to_string()).unwrap();
    assert_eq!(mx.m(), Some(true));
    assert_eq!(mx.x(), Some(false));
}

#[test]
fn test_size_ax() {
    let mut state = State::from_mx(true, true);
    assert_eq!(state.a_size(), 1);
    assert_eq!(state.x_size(), 1);

    state.reset(0b0011_0000);
    assert_eq!(state.a_size(), 2);
    assert_eq!(state.x_size(), 2);
}

#[test]
fn state_test_set() {
    let mut state = State::new(0b0000_0000);

    state.set(0b0000_0000);
    assert_eq!(state.p(), 0b0000_0000);

    state.set(0b1111_1111);
    assert_eq!(state.p(), 0b0011_0000);

    let mut state_change = StateChange::new_empty();
    state_change.set(0b0011_0000);

    assert!(state_change.m.unwrap());
    assert!(state_change.x.unwrap());
}

#[test]
fn state_test_reset() {
    let mut state = State::new(0b1111_1111);

    state.reset(0b0000_0000);
    assert_eq!(state.p(), 0b1111_1111);

    state.reset(0b1111_1111);
    assert_eq!(state.p(), 0b1100_1111);

    let mut state_change = StateChange::new_empty();
    state_change.reset(0b0011_0000);

    assert!(!state_change.m.unwrap());
    assert!(!state_change.x.unwrap());
}

#[test]
fn test_set_reset_mx() {
    let mut state = State::new(0b0000_0000);

    state.set_m(true);
    state.set_x(true);
    assert!(state.m());
    assert!(state.x());

    state.set_m(false);
    state.set_x(false);
    assert!(!state.m());
    assert!(!state.x());
}

#[test]
fn test_display() {
    let unknown = StateChange::new_unknown(UnknownReason::Unknown);
    assert_eq!(unknown.to_string(), "unknown");

    let m = StateChange::new(Some(true), None);
    assert_eq!(m.to_string(), "m=1");

    let x = StateChange::new(None, Some(false));
    assert_eq!(x.to_string(), "x=0");

    let mx = StateChange::new(Some(false), Some(true));
    assert_eq!(mx.to_string(), "m=0,x=1");
}

#[test]
fn test_apply_inference() {
    let mut mx = StateChange::new(Some(true), Some(false));
    let inference = StateChange::new(Some(true), Some(false));
    mx.apply_inference(inference);

    assert!(mx.m.is_none());
    assert!(mx.x.is_none());
}

#[test]
fn state_expression_errors() {
    assert_eq!(State::from_expr("m=0".to_string()), Err(Error::InvalidStateExpr));
    assert_eq!(State::from_expr("m=0,x=1,m=1".to_string()), Err(Error::InvalidStateExpr));
    assert_eq!(State::from_expr("q=0,x=1".to_string()), Err(Error::InvalidStateExpr));
    assert_eq!(State::from_expr("m=z,x=1".to_string()), Err(Error::ParseInt));
    assert_eq!(StateChange::from_expr("m=300".to_string()), Err(Error::ParseInt));
    assert_eq!(StateChange::from_expr("m=".to_string()), Err(Error::ParseInt));
    assert_eq!(StateChange::from_expr("z=1".to_string()), Err(Error::InvalidStateExpr));
    assert_eq!(StateChange::from_expr("m=1,x=0,x=1".to_string()), Err(Error::InvalidStateExpr));
    assert_eq!(StateChange::from_expr("x=1".to_string()).unwrap(), StateChange::new(None, Some(true)));
    assert_eq!(StateChange::from_expr("m=+2".to_string()).unwrap(), StateChange::new(Some(true), None));
    assert_eq!(
        StateChange::from_expr("x=0,m=0".to_string()).unwrap(),
        StateChange::new(Some(false), Some(false))
    );
}

#[test]
fn state_change_round_trip_every_known_change() {
    let values = [None, Some(false), Some(true)];
    for m in values.iter() {
        for x in values.iter() {
            let c = StateChange::new(*m, *x);
            assert_eq!(StateChange::from_expr(c.to_string()).unwrap(), c);
        }
    }
    let u = StateChange::new_unknown(UnknownReason::Unknown);
    assert_eq!(StateChange::from_expr(u.to_string()).unwrap(), u);
}

#[test]
fn inference_on_empty_change_is_empty() {
    let mut c = StateChange::new_empty();
    c.apply_inference(StateChange::new(Some(true), Some(false)));
    assert_eq!(c, StateChange::new_empty());
}

#[test]
fn simplify_twice_is_simplify_once() {
    let state = State::from_mx(true, false);
    let c = StateChange::new(Some(true), Some(true));
    let once = c.simplify(state);
    assert_eq!(once, StateChange::new(None, Some(true)));
    assert_eq!(once.simplify(state), once);
}

#[test]
fn set_then_reset_keeps_other_bits() {
    let mut state = State::new(0b1100_0101);
    state.set(0b0010_0000);
    assert_eq!(state.p(), 0b1110_0101);
    state.reset(0b0010_0000);
    assert_eq!(state.p(), 0b1100_0101);
}

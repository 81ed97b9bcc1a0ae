use gilgamesh::register::{Register, Registers};
use gilgamesh::state::State;

#[test]
fn register_test_size() {
    let mut state = State::from_mx(true, true);
    let a = Register::new(true);
    let x = Register::new(false);

    assert_eq!(a.size(state), 1);
    assert_eq!(x.size(state), 1);

    state.set_m(false);
    assert_eq!(a.size(state), 2);

    state.set_x(false);
    assert_eq!(x.size(state), 2);
}

#[test]
fn test_get_set() {
    let mut state = State::from_mx(true, true);
    let mut a = Register::new(true);

    // Only lower 8-bits known.
    a.set(state, Some(0xFF));
    assert_eq!(a.get(state).unwrap(), 0xFF);
    // 16-bits unknown.
    state.set_m(false);
    assert!(a.get(state).is_none());

    // 16-bits known.
    a.set(state, Some(0xFFFF));
    assert_eq!(a.get(state).unwrap(), 0xFFFF);
    // 8-bits known.
    state.set_m(true);
    assert_eq!(a.get(state).unwrap(), 0xFF);

    // 16-bits unknown.
    state.set_m(false);
    a.set(state, None);
    assert!(a.get(state).is_none());
    // 8-bits unknown.
    state.set_m(true);
    assert!(a.get(state).is_none());
}

#[test]
fn test_get_set_whole() {
    let mut state = State::from_mx(true, true);
    let mut a = Register::new(true);

    a.set_whole(Some(0xFFFF));
    assert_eq!(a.get(state).unwrap(), 0xFF);
    assert_eq!(a.get_whole().unwrap(), 0xFFFF);

    state.set_m(false);
    assert_eq!(a.get(state).unwrap(), 0xFFFF);
}

#[test]
fn registers_start_unknown() {
    let state = State::from_mx(false, false);
    let r = Registers::new(state);
    assert!(r.a.get(state).is_none());
    assert!(r.x.get(state).is_none());
    assert!(r.y.get_whole().is_none());
}

use counters::session::{Key, Reaction, Session};
use counters::store::StoreError;

fn at(value: u64) -> Session {
    Session::start(&Some(value.to_string())).unwrap()
}

#[test]
fn start_reads_the_file() {
    let s = at(9);
    assert_eq!(s, Session { value: 9, stored: 9, running: true });
    assert_eq!(Session::start(&None), Err(StoreError::NotFound));
    assert_eq!(Session::start(&Some("x".to_string())), Err(StoreError::ParseError));
}

#[test]
fn increment_shows_value_before_it() {
    let mut s = at(5);
    assert_eq!(s.press(Key::Up), Reaction::Show { value: 5, clamped: false });
    assert_eq!(s.value, 6);
    assert_eq!(s.stored, 5);
}

#[test]
fn decrement_shows_value_before_it() {
    let mut s = at(5);
    assert_eq!(s.press(Key::Down), Reaction::Show { value: 5, clamped: false });
    assert_eq!(s.value, 4);
    assert_eq!(s.stored, 5);
}

#[test]
fn decrement_at_zero_stays_at_zero() {
    let mut s = at(1);
    assert_eq!(s.press(Key::Down), Reaction::Show { value: 1, clamped: false });
    assert_eq!(s.press(Key::Down), Reaction::Show { value: 0, clamped: true });
    assert_eq!(s.value, 0);
    assert_eq!(s.stored, 0);
    assert_eq!(s.press(Key::Up), Reaction::Show { value: 0, clamped: false });
    assert_eq!(s.value, 1);
}

#[test]
fn increment_at_max_stays_at_max() {
    let mut s = at(u64::MAX);
    assert_eq!(s.press(Key::Up), Reaction::Show { value: u64::MAX, clamped: true });
    assert_eq!(s.value, u64::MAX);
}

#[test]
fn other_keys_only_redraw() {
    let mut s = at(3);
    assert_eq!(s.press(Key::Other), Reaction::Redraw);
    assert_eq!(s, Session { value: 3, stored: 3, running: true });
}

#[test]
fn quit_ends_the_session() {
    let mut s = at(3);
    assert_eq!(s.press(Key::Quit), Reaction::Quit);
    assert!(!s.running);
    assert_eq!(s.press(Key::Up), Reaction::Quit);
    assert_eq!(s.value, 3);
}

#[test]
fn net_change_of_a_key_sequence() {
    let mut s = at(10);
    let keys = [Key::Up, Key::Up, Key::Down, Key::Up, Key::Down, Key::Down, Key::Down, Key::Up];
    for k in keys {
        s.press(k);
    }
    assert_eq!(s.value, 10);
    // the file holds the value before the last key
    assert_eq!(s.stored, 9);
}

//! The interactive session: how each key press changes a counter.
//!
//! The value shown and written on an arrow key is the value *before* the
//! change; the change is then made in memory only. The value never goes below
//! 0 nor above `u64::MAX`: at either limit the key shows and writes the value
//! and reports that it stayed where it was.
use vstd::prelude::*;
use crate::store::{StoreError, open, open_spec};

verus! {

/// A key press, as far as the session tells keys apart.
#[derive(Debug, Clone, Copy, PartialEq, Eq, Structural)]
pub enum Key {
    /// Arrow up: increment.
    Up,
    /// Arrow down: decrement.
    Down,
    /// `q` or `Q`: end the session.
    Quit,
    /// Any other key.
    Other,
}

/// What the caller is to do after a key press.
#[derive(Debug, Clone, Copy, PartialEq, Eq, Structural)]
pub enum Reaction {
    /// Clear the screen and show `value`, and write `value` to the file.
    /// `clamped` is set where the key could not change the value.
    Show { value: u64, clamped: bool },
    /// Clear the screen only.
    Redraw,
    /// Leave raw mode and return to the menu.
    Quit,
}

/// A counter being worked on interactively.
#[derive(Debug, Clone, Copy, PartialEq, Eq, Structural)]
pub struct Session {
    /// The value in memory.
    pub value: u64,
    /// The value the file holds, as far as this session has written it.
    pub stored: u64,
    /// `false` once the quit key was pressed.
    pub running: bool,
}

/// The session and the reaction after pressing `key` in `s`.
pub open spec fn press_spec(s: Session, key: Key) -> (Session, Reaction) {
    if !s.running {
        (s, Reaction::Quit)
    } else {
        match key {
            Key::Up => (
                Session {
                    value: if s.value < u64::MAX { (s.value + 1) as u64 } else { s.value },
                    stored: s.value,
                    running: true,
                },
                Reaction::Show { value: s.value, clamped: s.value == u64::MAX },
            ),
            Key::Down => (
                Session {
                    value: if s.value > 0 { (s.value - 1) as u64 } else { s.value },
                    stored: s.value,
                    running: true,
                },
                Reaction::Show { value: s.value, clamped: s.value == 0 },
            ),
            Key::Quit => (Session { running: false, ..s }, Reaction::Quit),
            Key::Other => (s, Reaction::Redraw),
        }
    }
}

/// The session after pressing each key of `keys` in turn.
pub open spec fn run_spec(s: Session, keys: Seq<Key>) -> Session
    decreases keys.len(),
{
    if keys.len() == 0 {
        s
    } else {
        press_spec(run_spec(s, keys.drop_last()), keys.last()).0
    }
}

/// How much `key` changes the value, away from the limits.
pub open spec fn key_delta(key: Key) -> int {
    match key {
        Key::Up => 1,
        Key::Down => -1,
        _ => 0,
    }
}

/// The net change of a sequence of keys.
pub open spec fn net(keys: Seq<Key>) -> int
    decreases keys.len(),
{
    if keys.len() == 0 {
        0
    } else {
        net(keys.drop_last()) + key_delta(keys.last())
    }
}

impl Session {
    /// Starts a session on a counter's file: the value it holds, or the
    /// error of opening it.
    pub fn start(current: &Option<String>) -> (r: Result<Session, StoreError>)
        ensures
            match open_spec(current.deep_view()) {
                Ok(v) => r == Ok::<Session, StoreError>(Session { value: v, stored: v, running: true }),
                Err(e) => r == Err::<Session, StoreError>(e),
            },
    {
        match open(current) {
            Ok(v) => Ok(Session { value: v, stored: v, running: true }),
            Err(e) => Err(e),
        }
    }

    /// Handles one key press.
    pub fn press(&mut self, key: Key) -> (r: Reaction)
        ensures
            (*final(self), r) == press_spec(*old(self), key),
    {
        if !self.running {
            return Reaction::Quit;
        }
        match key {
            Key::Up => {
                let shown = self.value;
                self.stored = shown;
                if self.value < u64::MAX {
                    self.value = self.value + 1;
                }
                Reaction::Show { value: shown, clamped: shown == u64::MAX }
            },
            Key::Down => {
                let shown = self.value;
                self.stored = shown;
                if self.value > 0 {
                    self.value = self.value - 1;
                }
                Reaction::Show { value: shown, clamped: shown == 0 }
            },
            Key::Quit => {
                self.running = false;
                Reaction::Quit
            },
            Key::Other => Reaction::Redraw,
        }
    }
}

/// An increment shows and writes the value before it, then adds one in memory.
pub proof fn lemma_increment_shows_previous(s: Session)
    requires
        s.running,
        s.value < u64::MAX,
    ensures
        press_spec(s, Key::Up).1 == (Reaction::Show { value: s.value, clamped: false }),
        press_spec(s, Key::Up).0.stored == s.value,
        press_spec(s, Key::Up).0.value == s.value + 1,
{
}

/// Along increments and decrements that never take the value below 0 nor
/// above `u64::MAX`, the value in memory ends as the start value plus the net
/// change, and the file holds the value before the last key.
pub proof fn lemma_run_net_change(s: Session, keys: Seq<Key>)
    requires
        s.running,
        forall|i: int| 0 <= i < keys.len() ==> #[trigger] keys[i] == Key::Up || keys[i] == Key::Down,
        forall|n: int|
            0 <= n <= keys.len() ==> 0 <= s.value + #[trigger] net(keys.take(n)) <= u64::MAX,
    ensures
        run_spec(s, keys).running,
        run_spec(s, keys).value == s.value + net(keys),
        keys.len() > 0 ==> run_spec(s, keys).stored == s.value + net(keys.drop_last()),
    decreases keys.len(),
{
    if keys.len() > 0 {
        let rest = keys.drop_last();
        assert(keys.take(keys.len() as int) =~= keys);
        assert(keys.take(keys.len() - 1) =~= rest);
        assert forall|n: int| 0 <= n <= rest.len() implies 0 <= s.value + #[trigger] net(
            rest.take(n),
        ) <= u64::MAX by {
            assert(rest.take(n) =~= keys.take(n));
        }
        assert forall|i: int| 0 <= i < rest.len() implies #[trigger] rest[i] == Key::Up || rest[i]
            == Key::Down by {
            assert(rest[i] == keys[i]);
        }
        lemma_run_net_change(s, rest);
        assert(keys.last() == keys[keys.len() - 1]);
    }
}

} // verus!

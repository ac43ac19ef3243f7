//! What one poll of the keyboard can bring, as far as the stopwatch cares.

use vstd::prelude::*;

verus! {

/// The key of a key event: the trigger key, or any other.
#[derive(Clone, Copy, Debug, PartialEq, Eq, Structural)]
pub enum Key {
    Enter,
    Other,
}

/// What happened to the key.
#[derive(Clone, Copy, Debug, PartialEq, Eq, Structural)]
pub enum KeyKind {
    Press,
    Repeat,
    Release,
}

/// One event from the input source.
#[derive(Clone, Copy, Debug, PartialEq, Eq, Structural)]
pub enum Input {
    Key { key: Key, kind: KeyKind },
    Other,
}

impl Input {
    /// Only a genuine press of the trigger key moves the stopwatch: not a
    /// repeat of a held key, not a release, not another key, not another kind
    /// of event.
    pub open spec fn triggers(self) -> bool {
        self == (Input::Key { key: Key::Enter, kind: KeyKind::Press })
    }

    /// Whether this event is the trigger.
    pub fn is_trigger(&self) -> (triggered: bool)
        ensures
            triggered == self.triggers(),
    {
        match self {
            Input::Key { key: Key::Enter, kind: KeyKind::Press } => true,
            _ => false,
        }
    }
}

/// Whether a poll brought the trigger. A poll that found nothing brings none.
pub open spec fn polled_trigger(polled: Option<Input>) -> bool {
    match polled {
        Some(input) => input.triggers(),
        None => false,
    }
}

} // verus!

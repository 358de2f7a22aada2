//! The decisions of the game's main loop: what a key does, when a pause
//! ends, and when the game stops. The loop itself, which waits for keys and
//! for the clock and draws on the terminal, is the caller's.

use vstd::prelude::*;

verus! {

/// A key the player pressed.
#[derive(Clone, Copy, Debug, PartialEq, Eq, Structural)]
pub enum Key {
    /// A key that types a character.
    Char(char),
    /// Any other key.
    Other,
}

/// What the loop does after a key that arrived while it waited for the
/// next tick.
#[derive(Clone, Copy, Debug, PartialEq, Eq, Structural)]
pub enum Command {
    /// Leave the game.
    Quit,
    /// Go on with the tick.
    Proceed,
}

/// The state of a game: whether it is paused, and how many generations it
/// has drawn with some cell alive.
#[derive(Clone, Copy, Debug, PartialEq, Eq, Structural)]
pub struct Session {
    pub paused: bool,
    pub count: i32,
}

impl Session {
    /// A running game that has drawn nothing yet.
    pub fn new() -> (s: Self)
        ensures
            !s.paused,
            s.count == 0,
    {
        Session { paused: false, count: 0 }
    }

    /// A key read while waiting for the next tick, or `None` for an event
    /// that is not a key: `q` quits, `p` pauses, anything else does nothing.
    pub fn on_key(&mut self, key: Option<Key>) -> (c: Command)
        ensures
            c == Command::Quit <==> key == Some(Key::Char('q')),
            final(self).count == old(self).count,
            final(self).paused == (old(self).paused || key == Some(Key::Char('p'))),
    {
        if let Some(Key::Char(ch)) = key {
            if ch == 'q' {
                return Command::Quit;
            } else if ch == 'p' {
                self.paused = true;
            }
        }
        Command::Proceed
    }

    /// The event read while paused, or `None` for one that is not a key:
    /// `p` ends the pause and skips this tick (the result is `true`); any
    /// other key leaves the game paused and lets one generation run.
    pub fn on_paused_key(&mut self, key: Option<Key>) -> (skip: bool)
        ensures
            skip == (key == Some(Key::Char('p'))),
            final(self).count == old(self).count,
            final(self).paused == (old(self).paused && !skip),
    {
        if let Some(Key::Char(ch)) = key {
            if ch == 'p' {
                self.paused = false;
                return true;
            }
        }
        false
    }

    /// A generation was drawn: while some cell is alive it is counted and
    /// the game goes on (the result is `true`); when all are dead the game
    /// ends.
    pub fn on_frame(&mut self, any_alive: bool) -> (go_on: bool)
        requires
            any_alive ==> old(self).count < i32::MAX,
        ensures
            go_on == any_alive,
            final(self).paused == old(self).paused,
            final(self).count == if any_alive { old(self).count + 1 } else { old(self).count as int },
    {
        if any_alive {
            self.count = self.count + 1;
            true
        } else {
            false
        }
    }
}

} // verus!

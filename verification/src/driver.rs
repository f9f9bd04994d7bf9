//! What the loop around the game decides: which key means what, and when
//! the next tick is due.

use vstd::prelude::*;
use crate::game::Game;
use crate::rules::{gap_min, gaps_allowed, GameModel, GameState, INITIAL_PIPES};

verus! {

/// Milliseconds between two ticks.
pub const TICK_MILLIS: u64 = 50;

/// A key as far as the game tells keys apart.
#[derive(Clone, Copy, Debug, PartialEq, Eq, Structural)]
pub enum Key {
    /// A key that stands for a character.
    Char(char),
    /// The escape key.
    Esc,
    /// Any other key.
    Other,
}

/// What a player can ask for.
#[derive(Clone, Copy, Debug, PartialEq, Eq, Structural)]
pub enum Command {
    Jump,
    Restart,
    Quit,
}

/// The command a key stands for. `ctrl` says whether the control key was
/// held. Control with `c` leaves, as do `q` and escape; the space bar
/// jumps; `r` starts another run. Letters count in either case, and a
/// plain `c` means nothing.
pub open spec fn command_of(key: Key, ctrl: bool) -> Option<Command> {
    match key {
        Key::Char(c) => if (c == 'c' || c == 'C') && ctrl {
            Some(Command::Quit)
        } else if c == ' ' {
            Some(Command::Jump)
        } else if c == 'r' || c == 'R' {
            Some(Command::Restart)
        } else if c == 'q' || c == 'Q' {
            Some(Command::Quit)
        } else {
            None
        },
        Key::Esc => Some(Command::Quit),
        Key::Other => None,
    }
}

/// The command a key stands for, if any.
pub fn command_for(key: Key, ctrl: bool) -> (command: Option<Command>)
    ensures
        command == command_of(key, ctrl),
{
    match key {
        Key::Char(c) => {
            if (c == 'c' || c == 'C') && ctrl {
                Some(Command::Quit)
            } else if c == ' ' {
                Some(Command::Jump)
            } else if c == 'r' || c == 'R' {
                Some(Command::Restart)
            } else if c == 'q' || c == 'Q' {
                Some(Command::Quit)
            } else {
                None
            }
        },
        Key::Esc => Some(Command::Quit),
        Key::Other => None,
    }
}

/// Whether the next tick is due, `elapsed_millis` after the last one.
pub fn tick_due(elapsed_millis: u64) -> (due: bool)
    ensures
        due == (elapsed_millis >= TICK_MILLIS),
{
    elapsed_millis >= TICK_MILLIS
}

impl GameModel {
    /// The state after a command. A jump counts only while a run is going
    /// on, a restart only once it has ended; `gaps` are the gap rows of
    /// the pipes that a restart brings. Leaving changes nothing.
    pub open spec fn after_command(self, command: Command, gaps: Seq<int>) -> GameModel {
        match command {
            Command::Jump => self.jumped(),
            Command::Restart => if self.state == GameState::GameOver {
                self.restarted(gaps)
            } else {
                self
            },
            Command::Quit => self,
        }
    }
}

impl Game {
    /// Carries out a command and says whether the player wants to leave.
    /// The gaps of the pipes that a restart brings are drawn at random.
    pub fn apply(&mut self, command: Command) -> (quit: bool)
        ensures
            quit == (command == Command::Quit),
            exists|gaps: Seq<int>|
                gaps_allowed(old(self)@.height, gaps) && final(self)@ == #[trigger] old(
                    self,
                )@.after_command(command, gaps),
            old(self).wf() ==> final(self).wf(),
    {
        let quit: bool = match command {
            Command::Jump => {
                self.jump();
                false
            },
            Command::Restart => {
                if self.state == GameState::GameOver {
                    self.reset();
                    proof {
                        let gaps = choose|gaps: Seq<int>|
                            gaps_allowed(self@.height, gaps) && self@ == #[trigger] old(
                                self,
                            )@.restarted(gaps);
                        assert(self@ == old(self)@.after_command(command, gaps));
                    }
                    return false;
                }
                false
            },
            Command::Quit => true,
        };
        proof {
            let gaps = Seq::new(INITIAL_PIPES as nat, |i: int| gap_min(self@.height) as int);
            assert(gaps_allowed(self@.height, gaps));
            assert(self@ == old(self)@.after_command(command, gaps));
        }
        quit
    }
}

} // verus!

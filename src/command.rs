use vstd::prelude::*;

verus! {

/// Lifecycle of a board and of the whole game.
#[derive(Clone, Copy, Debug, PartialEq, Eq, Structural)]
pub enum State {
    Initial,
    Paused,
    Running,
    Finished,
}

/// Everything a player or a timer can ask of the game.
#[derive(Clone, Copy, Debug, PartialEq, Eq, Structural)]
pub enum Command {
    Left,
    Right,
    Down,
    Clockwise,
    CounterClockwise,
    Drop,
    Pause,
    Resume,
    TogglePause,
    SetBoard(u32),
    Cheat(u32),
    Nop,
}

/// Commands that are accepted while the game is paused or not yet started.
pub open spec fn spec_always(c: Command) -> bool {
    matches!(c, Command::Resume | Command::TogglePause | Command::Cheat(_))
}

/// Whether `c` is accepted in state `s`: everything while running, only
/// cheats once finished, otherwise the commands of `spec_always`.
pub open spec fn spec_allowed(c: Command, s: State) -> bool {
    match s {
        State::Running => true,
        State::Finished => c is Cheat,
        _ => spec_always(c),
    }
}

impl Command {
    /// True for the commands that are accepted while the game is not running.
    pub fn always(&self) -> (r: bool)
        ensures
            r == spec_always(*self),
    {
        match self {
            Command::Resume => true,
            Command::TogglePause => true,
            Command::Cheat(_) => true,
            _ => false,
        }
    }

    /// True when the command may act in state `state`: every command while
    /// running, only cheats once finished, and otherwise only resuming,
    /// toggling the pause and cheats.
    pub fn allowed(&self, state: &State) -> (r: bool)
        ensures
            r == spec_allowed(*self, *state),
    {
        match state {
            State::Running => true,
            State::Finished => matches!(self, Command::Cheat(_)),
            _ => self.always(),
        }
    }
}

} // verus!

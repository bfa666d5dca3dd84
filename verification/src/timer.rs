//! The timer capability: the abstract sink for timer commands, and a
//! recording implementation of it for tests and observation.

use vstd::prelude::*;

use crate::timespan::TimeSpan;

verus! {

/// The lifecycle phase of the external speedrun timer. Read-only from the
/// guest's side.
#[derive(Clone, Copy, Debug, PartialEq, Eq, Structural)]
pub enum TimerState {
    NotRunning,
    Running,
    Paused,
    Finished,
}

impl TimerState {
    /// The encoding of a timer state on the guest ABI.
    pub open spec fn spec_encode(self) -> u32 {
        match self {
            TimerState::NotRunning => 0,
            TimerState::Running => 1,
            TimerState::Paused => 2,
            TimerState::Finished => 3,
        }
    }

    /// Encodes the state for the guest: `0` not running, `1` running, `2`
    /// paused, `3` finished.
    pub fn encode(self) -> (r: u32)
        ensures
            r == self.spec_encode(),
    {
        match self {
            TimerState::NotRunning => 0,
            TimerState::Running => 1,
            TimerState::Paused => 2,
            TimerState::Finished => 3,
        }
    }
}

impl Default for TimerState {
    /// A timer starts out not running.
    fn default() -> (r: Self)
        ensures
            r == TimerState::NotRunning,
    {
        TimerState::NotRunning
    }
}

/// One timer command, as a timer capability receives it. Keys and values of
/// `SetVariable` are the UTF-8 byte strings the guest supplied.
#[derive(Clone, Debug, PartialEq, Eq)]
pub enum TimerCommand {
    Start,
    Split,
    Reset,
    PauseGameTime,
    ResumeGameTime,
    SetGameTime(TimeSpan),
    SetVariable(Vec<u8>, Vec<u8>),
}

/// The mathematical model of a timer command: what a command *is*, with byte
/// strings as sequences and the game time as a count of nanoseconds.
pub enum Event {
    Start,
    Split,
    Reset,
    PauseGameTime,
    ResumeGameTime,
    SetGameTime(int),
    SetVariable(Seq<u8>, Seq<u8>),
}

impl View for TimerCommand {
    type V = Event;

    open spec fn view(&self) -> Event {
        match self {
            TimerCommand::Start => Event::Start,
            TimerCommand::Split => Event::Split,
            TimerCommand::Reset => Event::Reset,
            TimerCommand::PauseGameTime => Event::PauseGameTime,
            TimerCommand::ResumeGameTime => Event::ResumeGameTime,
            TimerCommand::SetGameTime(t) => Event::SetGameTime(t@),
            TimerCommand::SetVariable(k, v) => Event::SetVariable(k@, v@),
        }
    }
}

/// The timer capability the embedder injects into the runtime.
///
/// `history` is the ordered sequence of commands the timer has received, and
/// every mutator appends exactly its own command to it: that is how the
/// runtime's contracts state that commands arrive in guest call order. All
/// mutators are fire-and-forget; none may fail. `timer_state` is the state
/// `state` reports; commands may change it, so nothing is promised about it
/// across a mutator.
pub trait Timer: Sized {
    /// The ordered history of commands this timer has received.
    spec fn history(&self) -> Seq<Event>;

    /// The lifecycle state the timer currently reports.
    spec fn timer_state(&self) -> TimerState;

    /// Reports the timer's current state. Cheap and non-blocking.
    fn state(&self) -> (r: TimerState)
        ensures
            r == self.timer_state(),
    ;

    /// Starts the run.
    fn start(&mut self)
        ensures
            final(self).history() == old(self).history().push(Event::Start),
    ;

    /// Splits the current segment.
    fn split(&mut self)
        ensures
            final(self).history() == old(self).history().push(Event::Split),
    ;

    /// Resets the run.
    fn reset(&mut self)
        ensures
            final(self).history() == old(self).history().push(Event::Reset),
    ;

    /// Pauses the game timer.
    fn pause_game_time(&mut self)
        ensures
            final(self).history() == old(self).history().push(Event::PauseGameTime),
    ;

    /// Resumes the game timer.
    fn resume_game_time(&mut self)
        ensures
            final(self).history() == old(self).history().push(Event::ResumeGameTime),
    ;

    /// Sets the game time.
    fn set_game_time(&mut self, time: TimeSpan)
        ensures
            final(self).history() == old(self).history().push(Event::SetGameTime(time@)),
    ;

    /// Sets a custom variable. `key` and `value` are UTF-8 byte strings as the
    /// guest supplied them.
    fn set_variable(&mut self, key: Vec<u8>, value: Vec<u8>)
        ensures
            final(self).history() == old(self).history().push(Event::SetVariable(key@, value@)),
    ;
}

/// A timer capability that records every command it receives, in order.
/// The embedder chooses the state it reports.
#[derive(Debug)]
pub struct RecordingTimer {
    state: TimerState,
    commands: Vec<TimerCommand>,
}

impl RecordingTimer {
    /// A fresh recording timer: empty history, not running.
    pub fn new() -> (r: RecordingTimer)
        ensures
            r.history() == Seq::<Event>::empty(),
            r.timer_state() == TimerState::NotRunning,
    {
        RecordingTimer { state: TimerState::NotRunning, commands: Vec::new() }
    }

    /// Makes the timer report `state` from now on. The history is untouched.
    pub fn set_state(&mut self, state: TimerState)
        ensures
            final(self).timer_state() == state,
            final(self).history() == old(self).history(),
    {
        self.state = state;
    }

    /// The commands received so far, oldest first.
    pub fn commands(&self) -> (r: &Vec<TimerCommand>)
        ensures
            r@.map_values(|c: TimerCommand| c@) == self.history(),
    {
        &self.commands
    }
}

impl Timer for RecordingTimer {
    closed spec fn history(&self) -> Seq<Event> {
        self.commands@.map_values(|c: TimerCommand| c@)
    }

    closed spec fn timer_state(&self) -> TimerState {
        self.state
    }

    fn state(&self) -> (r: TimerState) {
        self.state
    }

    fn start(&mut self) {
        self.commands.push(TimerCommand::Start);
        proof {
            assert(self.history() =~= old(self).history().push(Event::Start));
        }
    }

    fn split(&mut self) {
        self.commands.push(TimerCommand::Split);
        proof {
            assert(self.history() =~= old(self).history().push(Event::Split));
        }
    }

    fn reset(&mut self) {
        self.commands.push(TimerCommand::Reset);
        proof {
            assert(self.history() =~= old(self).history().push(Event::Reset));
        }
    }

    fn pause_game_time(&mut self) {
        self.commands.push(TimerCommand::PauseGameTime);
        proof {
            assert(self.history() =~= old(self).history().push(Event::PauseGameTime));
        }
    }

    fn resume_game_time(&mut self) {
        self.commands.push(TimerCommand::ResumeGameTime);
        proof {
            assert(self.history() =~= old(self).history().push(Event::ResumeGameTime));
        }
    }

    fn set_game_time(&mut self, time: TimeSpan) {
        self.commands.push(TimerCommand::SetGameTime(time));
        proof {
            assert(self.history() =~= old(self).history().push(Event::SetGameTime(time@)));
        }
    }

    fn set_variable(&mut self, key: Vec<u8>, value: Vec<u8>) {
        let ghost k = key@;
        let ghost v = value@;
        self.commands.push(TimerCommand::SetVariable(key, value));
        proof {
            assert(self.history() =~= old(self).history().push(Event::SetVariable(k, v)));
        }
    }
}

} // verus!

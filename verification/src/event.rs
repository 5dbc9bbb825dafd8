//! What the terminal reports.

use vstd::prelude::*;

verus! {

/// Milliseconds without input after which a tick is due.
pub const TICK_MILLIS: u64 = 250;

/// The keys that mean something, and the others.
#[derive(Debug, Clone, Copy, PartialEq, Eq, Structural)]
pub enum Key {
    Char(char),
    Tab,
    Up,
    Down,
    Other,
}

/// A key that went down, or up, or repeats.
#[derive(Debug, Clone, Copy, PartialEq, Eq, Structural)]
pub struct KeyEvent {
    pub code: Key,
    pub pressed: bool,
}

/// What the client reacts to.
#[derive(Debug, Clone, Copy, PartialEq, Eq, Structural)]
pub enum Event {
    /// A key event.
    Key(KeyEvent),
    /// Nothing happened for a while.
    Tick,
    /// The terminal changed its size.
    Resize,
}

/// What came of asking the terminal for input.
#[derive(Debug, Clone, Copy, PartialEq, Eq, Structural)]
pub enum TerminalInput {
    /// There was none in time.
    TimedOut,
    /// The terminal could not be asked.
    PollFailed,
    /// The input could not be read.
    ReadFailed,
    Key(KeyEvent),
    Resize,
    /// A mouse event, a change of focus, a paste.
    Other,
}

/// What the reader passes on: keys and changes of size as they are, a tick where
/// nothing came in time, and nothing else.
pub open spec fn passed_on(input: TerminalInput) -> Option<Event> {
    match input {
        TerminalInput::TimedOut => Some(Event::Tick),
        TerminalInput::Key(key) => Some(Event::Key(key)),
        TerminalInput::Resize => Some(Event::Resize),
        _ => None,
    }
}

/// Whether anybody listens after an event was offered, and taken or not.
pub open spec fn stays_active(active: bool, taken: bool) -> bool {
    active && taken
}

/// Reads the terminal until nobody listens any more.
#[derive(Debug)]
pub struct EventReader {
    listened_to: bool,
}

impl EventReader {
    /// Whether anybody listens.
    pub closed spec fn active(&self) -> bool {
        self.listened_to
    }

    /// A reader that is listened to.
    pub fn new() -> (r: Self)
        ensures
            r.active(),
    {
        EventReader { listened_to: true }
    }

    /// The event to pass on for what came in.
    pub fn next(&self, input: TerminalInput) -> (e: Option<Event>)
        ensures
            e == passed_on(input),
    {
        match input {
            TerminalInput::TimedOut => Some(Event::Tick),
            TerminalInput::PollFailed => None,
            TerminalInput::ReadFailed => None,
            TerminalInput::Key(key) => Some(Event::Key(key)),
            TerminalInput::Resize => Some(Event::Resize),
            TerminalInput::Other => None,
        }
    }

    /// Takes note of whether an event was taken.
    pub fn delivered(&mut self, taken: bool)
        ensures
            final(self).active() == stays_active(old(self).active(), taken),
            final(self).active() == (old(self).active() && taken),
    {
        if !taken {
            self.listened_to = false;
        }
    }

    /// Whether to go on reading.
    pub fn is_active(&self) -> (b: bool)
        ensures
            b == self.active(),
    {
        self.listened_to
    }
}

/// Every key is passed on as it is, and so is every change of size; a tick stands
/// for a while without input; and nothing else is passed on.
pub proof fn law_input_is_passed_on(input: TerminalInput, key: KeyEvent)
    ensures
        passed_on(TerminalInput::Key(key)) == Some(Event::Key(key)),
        passed_on(input) == Some(Event::Key(key)) ==> input == TerminalInput::Key(key),
        passed_on(input) == Some(Event::Tick) <==> input == TerminalInput::TimedOut,
        passed_on(input) == Some(Event::Resize) <==> input == TerminalInput::Resize,
        passed_on(input) is None <==> input == TerminalInput::PollFailed || input
            == TerminalInput::ReadFailed || input == TerminalInput::Other,
{
}

/// There are four ticks a second where nothing else happens.
pub proof fn law_four_ticks_a_second()
    ensures
        TICK_MILLIS * 4 == 1000,
{
}

/// Once an event was not taken, nobody listens, whatever follows; until then
/// somebody does.
pub proof fn law_listening_ends_for_good(active: bool, taken: bool)
    ensures
        stays_active(active, true) == active,
        !stays_active(active, false),
        !stays_active(stays_active(active, false), taken),
{
}

} // verus!

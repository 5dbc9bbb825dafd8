//! Waiting for a daemon that was just started.
//!
//! The socket and the clock are worked outside. `await_daemon` says what to do
//! next, given how long it took so far and how an attempt to connect went.

use vstd::prelude::*;

verus! {

/// Milliseconds within which the daemon's socket should answer.
pub const STARTUP_MILLIS: u64 = 2000;

/// Milliseconds between two attempts to connect to it.
pub const POLL_MILLIS: u64 = 100;

/// What to do while the daemon starts.
#[derive(Debug, Clone, Copy, PartialEq, Eq, Structural)]
pub enum Wait {
    /// The daemon answers.
    Ready,
    /// Let some time pass, then try again.
    Sleep { millis: u64 },
    /// The daemon has had its time.
    GiveUp,
}

/// What to do so long after the daemon was started.
pub open spec fn next_wait(waited_millis: u64, answered: bool) -> Wait {
    if answered {
        Wait::Ready
    } else if waited_millis >= 2000 {
        Wait::GiveUp
    } else {
        Wait::Sleep { millis: 100 }
    }
}

/// Says what to do `waited_millis` after the daemon was started, given whether
/// its socket answered an attempt to connect.
pub fn await_daemon(waited_millis: u64, answered: bool) -> (w: Wait)
    ensures
        w == next_wait(waited_millis, answered),
        w == (if answered {
            Wait::Ready
        } else if waited_millis >= 2000 {
            Wait::GiveUp
        } else {
            Wait::Sleep { millis: 100 }
        }),
{
    if answered {
        Wait::Ready
    } else if waited_millis >= STARTUP_MILLIS {
        Wait::GiveUp
    } else {
        Wait::Sleep { millis: POLL_MILLIS }
    }
}

/// A daemon that answers is ready, however late. One that does not is given two
/// seconds, and is asked again every tenth of a second until then.
pub proof fn law_daemon_is_given_two_seconds(waited_millis: u64)
    ensures
        next_wait(waited_millis, true) == Wait::Ready,
        waited_millis < 2000 ==> next_wait(waited_millis, false) == (Wait::Sleep { millis: 100 }),
        waited_millis >= 2000 ==> next_wait(waited_millis, false) == Wait::GiveUp,
{
}

} // verus!

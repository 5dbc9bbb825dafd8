//! One terminal client's session with the daemon.
//!
//! The socket is worked outside. A `Session` says what a command or a mishap
//! leads to.

use tokio::sync::mpsc::UnboundedReceiver;
use vstd::prelude::*;

use crate::hub::{command_messages, commanded, joined, reports, told, wants_state, Hub};
use crate::proto::{CommandView, DaemonToTuiMessage, TuiCommand};

verus! {

/// A client's session: whether it receives updates.
#[derive(Debug)]
pub struct Session {
    subscribed: bool,
}

/// What happened on a session's connections, other than a command or an update
/// that passed.
#[derive(Debug, Clone, Copy, PartialEq, Eq, Structural)]
pub enum SessionEvent {
    /// A frame held no command.
    Undecodable,
    /// The socket could not be read.
    ReadFailed,
    /// The client has left.
    Disconnected,
    /// No update will come any more.
    UpdatesEnded,
    /// An update could not be sent.
    UpdateUnsent,
    /// An answer to a command could not be sent.
    AnswerUnsent,
}

/// What becomes of a session.
#[derive(Debug, Clone, Copy, PartialEq, Eq, Structural)]
pub enum SessionFate {
    GoesOn,
    Ends,
    EndsWithError,
}

/// A frame without a command is passed over, an unsent answer is an error, and
/// anything else is the end.
pub open spec fn fate_of(event: SessionEvent) -> SessionFate {
    match event {
        SessionEvent::Undecodable => SessionFate::GoesOn,
        SessionEvent::AnswerUnsent => SessionFate::EndsWithError,
        _ => SessionFate::Ends,
    }
}

/// A session receives updates after a command.
pub open spec fn subscribed_after(subscribed: bool, cmd: CommandView) -> bool {
    subscribed || cmd is Subscribe
}

/// A command opens a subscription.
pub open spec fn opens_subscription(subscribed: bool, cmd: CommandView) -> bool {
    cmd is Subscribe && !subscribed
}

impl Session {
    /// Whether the client receives updates.
    pub closed spec fn subscribed(&self) -> bool {
        self.subscribed
    }

    /// A session that receives no updates yet.
    pub fn new() -> (s: Self)
        ensures
            !s.subscribed(),
    {
        Session { subscribed: false }
    }

    /// Carries out a command. Returns where updates come in, if they come from
    /// now on, and the answer to send. A session subscribes once at most, and
    /// asking again is answered all the same.
    pub fn on_command(&mut self, hub: &mut Hub, cmd: TuiCommand) -> (r: (
        Option<UnboundedReceiver<DaemonToTuiMessage>>,
        Option<DaemonToTuiMessage>,
    ))
        requires
            old(hub).wf(),
        ensures
            final(hub).wf(),
            final(hub).notifier() == old(hub).notifier(),
            final(hub)@ == commanded(old(hub)@, cmd@),
            (match r.0 {
                Some(rx) => joined(final(hub).subscribers(), old(hub).subscribers(), rx),
                None => told(
                    final(hub).subscribers(),
                    old(hub).subscribers(),
                    command_messages(old(hub)@, cmd@),
                ),
            }),
            final(self).subscribed() == subscribed_after(old(self).subscribed(), cmd@),
            r.0 is Some <==> opens_subscription(old(self).subscribed(), cmd@),
            final(self).subscribed() == (old(self).subscribed() || cmd@ is Subscribe),
            r.0 is Some <==> cmd@ is Subscribe && !old(self).subscribed(),
            r.1 is Some <==> wants_state(cmd@),
            r.1 matches Some(m) ==> reports(m@, old(hub)@),
    {
        let mut updates: Option<UnboundedReceiver<DaemonToTuiMessage>> = None;
        if let TuiCommand::Subscribe = cmd {
            if !self.subscribed {
                updates = Some(hub.subscribe_tui());
                self.subscribed = true;
            }
        }
        let answer = hub.handle_tui_command(cmd);
        (updates, answer)
    }

    /// What a mishap leads to.
    pub fn on_event(&self, event: SessionEvent) -> (fate: SessionFate)
        ensures
            fate == fate_of(event),
    {
        match event {
            SessionEvent::Undecodable => SessionFate::GoesOn,
            SessionEvent::ReadFailed => SessionFate::Ends,
            SessionEvent::Disconnected => SessionFate::Ends,
            SessionEvent::UpdatesEnded => SessionFate::Ends,
            SessionEvent::UpdateUnsent => SessionFate::Ends,
            SessionEvent::AnswerUnsent => SessionFate::EndsWithError,
        }
    }
}

/// Whether a session that began as `subscribed` receives updates after commands.
pub open spec fn subscribed_through(subscribed: bool, cmds: Seq<CommandView>) -> bool
    decreases cmds.len(),
{
    if cmds.len() == 0 {
        subscribed
    } else {
        subscribed_after(subscribed_through(subscribed, cmds.drop_last()), cmds.last())
    }
}

/// How many subscriptions the commands open.
pub open spec fn subscriptions(subscribed: bool, cmds: Seq<CommandView>) -> nat
    decreases cmds.len(),
{
    if cmds.len() == 0 {
        0
    } else {
        let before = subscribed_through(subscribed, cmds.drop_last());
        subscriptions(subscribed, cmds.drop_last()) + if opens_subscription(before, cmds.last()) {
            1nat
        } else {
            0nat
        }
    }
}

/// However often a client asks, it is subscribed once at most, and once exactly
/// if it asks at all.
pub proof fn law_subscribed_once(cmds: Seq<CommandView>)
    ensures
        subscriptions(false, cmds) <= 1,
        subscriptions(false, cmds) == 1 <==> exists|i: int|
            0 <= i < cmds.len() && #[trigger] cmds[i] is Subscribe,
        subscribed_through(false, cmds) <==> subscriptions(false, cmds) == 1,
    decreases cmds.len(),
{
    if cmds.len() > 0 {
        let front = cmds.drop_last();
        law_subscribed_once(front);
        if cmds.last() is Subscribe {
            assert(cmds[cmds.len() - 1] is Subscribe);
        }
        if exists|i: int| 0 <= i < front.len() && #[trigger] front[i] is Subscribe {
            let i = choose|i: int| 0 <= i < front.len() && #[trigger] front[i] is Subscribe;
            assert(cmds[i] is Subscribe);
        }
        if exists|i: int| 0 <= i < cmds.len() && #[trigger] cmds[i] is Subscribe {
            let i = choose|i: int| 0 <= i < cmds.len() && #[trigger] cmds[i] is Subscribe;
            if i < front.len() {
                assert(front[i] is Subscribe);
            }
        }
    }
}

/// A frame without a command is the only mishap that a session survives, and an
/// answer that cannot be sent the only one that is an error.
pub proof fn law_sessions_survive_bad_frames_only(event: SessionEvent)
    ensures
        fate_of(event) == SessionFate::GoesOn <==> event == SessionEvent::Undecodable,
        fate_of(event) == SessionFate::EndsWithError <==> event == SessionEvent::AnswerUnsent,
{
}

} // verus!

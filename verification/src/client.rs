//! The terminal client's connection to the daemon.
//!
//! The socket is worked outside. A `DaemonClient` keeps track of it.

use vstd::prelude::*;
use vstd::string::StringExecFns;

use crate::proto::{CommandView, DaemonToTuiMessage, MessageView, TuiCommand};

verus! {

/// What came in from the daemon.
#[derive(Debug)]
pub enum Incoming {
    Message(DaemonToTuiMessage),
    /// A frame that held no message.
    Undecodable,
    /// The socket could not be read.
    ReadFailed,
    /// The daemon has closed the socket.
    Closed,
}

/// What a client receives.
#[derive(Debug)]
pub enum Reception {
    Message(DaemonToTuiMessage),
    /// A frame that held no message.
    Undecodable,
}

/// The contents of a `Reception`.
pub enum ReceptionView {
    Message(MessageView),
    Undecodable,
}

impl View for Reception {
    type V = ReceptionView;

    open spec fn view(&self) -> ReceptionView {
        match self {
            Reception::Message(m) => ReceptionView::Message(m@),
            Reception::Undecodable => ReceptionView::Undecodable,
        }
    }
}

/// The contents of a list of commands.
pub open spec fn command_views(s: Seq<TuiCommand>) -> Seq<CommandView> {
    s.map_values(|c: TuiCommand| c@)
}

/// The wording of a failed attempt to connect.
pub open spec fn connect_failure(socket_path: Seq<char>) -> Seq<char> {
    "failed to connect to "@ + socket_path
}

/// The contents of a `DaemonClient`.
#[verifier::ext_equal]
pub struct ClientView {
    pub connected: bool,
    pub socket_path: Seq<char>,
}

/// A connection to the daemon's socket, open or not.
#[derive(Debug)]
pub struct DaemonClient {
    connected: bool,
    socket_path: String,
}

impl View for DaemonClient {
    type V = ClientView;

    closed spec fn view(&self) -> ClientView {
        ClientView { connected: self.connected, socket_path: self.socket_path@ }
    }
}

/// A client after something came in: it stays connected unless the socket
/// failed or was closed.
pub open spec fn client_after(c: ClientView, incoming: Incoming) -> ClientView {
    match incoming {
        Incoming::ReadFailed | Incoming::Closed => ClientView { connected: false, ..c },
        _ => c,
    }
}

/// What a client receives of what came in: nothing where it is not connected,
/// the socket failed or was closed.
pub open spec fn received(c: ClientView, incoming: Incoming) -> Option<ReceptionView> {
    match incoming {
        Incoming::Message(m) if c.connected => Some(ReceptionView::Message(m@)),
        Incoming::Undecodable if c.connected => Some(ReceptionView::Undecodable),
        _ => None,
    }
}

/// A client after an attempt to connect, and the commands to send first or the
/// failure in words.
pub open spec fn after_attempt(c: ClientView, opened: bool) -> (
    ClientView,
    Result<Seq<CommandView>, Seq<char>>,
) {
    if opened {
        (
            ClientView { connected: true, ..c },
            Ok(seq![CommandView::Subscribe, CommandView::GetState]),
        )
    } else {
        (c, Err(connect_failure(c.socket_path)))
    }
}

/// What is let through to the socket.
pub open spec fn let_through(c: ClientView, cmd: CommandView) -> Option<CommandView> {
    if c.connected {
        Some(cmd)
    } else {
        None
    }
}

impl DaemonClient {
    /// A client that is not connected yet.
    pub fn new(socket_path: String) -> (c: Self)
        ensures
            c@ == (ClientView { connected: false, socket_path: socket_path@ }),
    {
        DaemonClient { connected: false, socket_path }
    }

    /// The socket's path.
    pub fn path(&self) -> (p: &String)
        ensures
            p@ == self@.socket_path,
    {
        &self.socket_path
    }

    /// Takes note of an attempt to connect. On success, returns the commands to
    /// send first: subscribe, then ask for the state. On failure, returns the
    /// failure in words, and the client is as it was.
    pub fn connect(&mut self, opened: bool) -> (r: Result<Vec<TuiCommand>, String>)
        ensures
            final(self)@ == after_attempt(old(self)@, opened).0,
            (match r {
                Ok(first) => after_attempt(old(self)@, opened).1 == Ok::<
                    Seq<CommandView>,
                    Seq<char>,
                >(command_views(first@)),
                Err(e) => after_attempt(old(self)@, opened).1 == Err::<
                    Seq<CommandView>,
                    Seq<char>,
                >(e@),
            }),
            opened ==> {
                &&& final(self)@ == (ClientView { connected: true, ..old(self)@ })
                &&& r is Ok
                &&& command_views(r->Ok_0@) == seq![CommandView::Subscribe, CommandView::GetState]
            },
            !opened ==> {
                &&& final(self)@ == old(self)@
                &&& r is Err
                &&& r->Err_0@ == connect_failure(old(self)@.socket_path)
            },
    {
        if opened {
            self.connected = true;
            let mut first: Vec<TuiCommand> = Vec::new();
            first.push(TuiCommand::Subscribe);
            first.push(TuiCommand::GetState);
            assert(command_views(first@) =~= seq![CommandView::Subscribe, CommandView::GetState]);
            Ok(first)
        } else {
            let mut s = "failed to connect to ".to_string();
            s.append(self.socket_path.as_str());
            Err(s)
        }
    }

    /// Takes note of what came in. Returns `None` where the client is not
    /// connected or the stream has ended.
    pub fn recv(&mut self, incoming: Incoming) -> (r: Option<Reception>)
        ensures
            final(self)@ == client_after(old(self)@, incoming),
            (match r {
                Some(m) => received(old(self)@, incoming) == Some(m@),
                None => received(old(self)@, incoming) is None,
            }),
    {
        if !self.connected {
            return None;
        }
        match incoming {
            Incoming::Message(m) => Some(Reception::Message(m)),
            Incoming::Undecodable => Some(Reception::Undecodable),
            Incoming::ReadFailed => {
                self.disconnect();
                None
            },
            Incoming::Closed => {
                self.disconnect();
                None
            },
        }
    }

    /// Lets a command through to the socket if there is one.
    pub fn send(&self, cmd: TuiCommand) -> (r: Result<TuiCommand, &'static str>)
        ensures
            (match r {
                Ok(sent) => let_through(self@, cmd@) == Some(sent@),
                Err(_) => let_through(self@, cmd@) is None,
            }),
            self@.connected ==> r is Ok && r->Ok_0@ == cmd@,
            !self@.connected ==> r is Err && r->Err_0@ == "not connected to daemon"@,
    {
        if self.connected {
            Ok(cmd)
        } else {
            Err("not connected to daemon")
        }
    }

    /// Whether a connection is open.
    pub fn is_connected(&self) -> (b: bool)
        ensures
            b == self@.connected,
    {
        self.connected
    }

    /// Gives the connection up.
    fn disconnect(&mut self)
        ensures
            final(self)@ == (ClientView { connected: false, ..old(self)@ }),
    {
        self.connected = false;
    }
}

/// A frame that holds no message does not cost the connection, and is told
/// apart from the end of the stream.
pub proof fn law_bad_frame_keeps_connection(c: ClientView)
    requires
        c.connected,
    ensures
        client_after(c, Incoming::Undecodable) == c,
        received(c, Incoming::Undecodable) == Some(ReceptionView::Undecodable),
{
}

/// Nothing is received exactly where there is no connection any more.
pub proof fn law_nothing_received_without_connection(c: ClientView, incoming: Incoming)
    ensures
        received(c, incoming) is None <==> !client_after(c, incoming).connected,
{
}

/// A message is received as it came in, whatever it is, and nothing else is taken
/// for one.
pub proof fn law_messages_are_received_as_they_are(c: ClientView, m: DaemonToTuiMessage)
    ensures
        c.connected ==> received(c, Incoming::Message(m)) == Some(ReceptionView::Message(m@)),
        client_after(c, Incoming::Message(m)) == c,
        received(c, Incoming::Undecodable) != Some(ReceptionView::Message(m@)),
{
}

/// A connection that fails or ends is given up, and where the socket lies is
/// remembered whatever comes in.
pub proof fn law_lost_connections_are_given_up(c: ClientView, incoming: Incoming)
    ensures
        !client_after(c, Incoming::ReadFailed).connected,
        !client_after(c, Incoming::Closed).connected,
        client_after(c, incoming).socket_path == c.socket_path,
        client_after(c, incoming).connected ==> c.connected,
{
}

/// A failed attempt to connect is reported with the socket's path, as it is.
pub proof fn law_failure_names_the_socket(path: Seq<char>)
    ensures
        connect_failure(path) == "failed to connect to "@ + path,
{
}

/// A client that connects subscribes and then asks for the state; one that does
/// not stays as it was and says where it tried.
pub proof fn law_attempts_subscribe_or_fail(c: ClientView)
    ensures
        after_attempt(c, true) == (
            ClientView { connected: true, socket_path: c.socket_path },
            Ok::<Seq<CommandView>, Seq<char>>(
                seq![CommandView::Subscribe, CommandView::GetState],
            ),
        ),
        after_attempt(c, false) == (
            c,
            Err::<Seq<CommandView>, Seq<char>>("failed to connect to "@ + c.socket_path),
        ),
{
}

/// Every command goes to the socket as it is, as long as there is one.
pub proof fn law_commands_go_out_as_they_are(c: ClientView, cmd: CommandView)
    ensures
        c.connected ==> let_through(c, cmd) == Some(cmd),
        !c.connected ==> let_through(c, cmd) is None,
{
}

} // verus!

//! The way to the upstream proxy: probing it, opening a tunnel through it, and
//! bridging a flow's data with it.
//!
//! Sockets and channels are worked outside. A `Bridge` and a `Forward` say what
//! to do with them next, and are told how it went.

use vstd::prelude::*;
use vstd::slice::slice_subrange;
use vstd::string::StringExecFns;

use crate::hub::{status_messages, status_noted, told, Hub, HubView};
use crate::proto::ProxyStatus;
use crate::text::{
    chars_of, contains_text, decimal, decode_lossy, find_char, find_text, lemma_position_at,
    lossy_text, position, push_decimal,
};

verus! {

/// Seconds between two probes of the proxy.
pub const HEALTH_CHECK_INTERVAL_SECS: u64 = 5;

/// Seconds that a probe waits for a connection.
pub const CONNECT_TIMEOUT_SECS: u64 = 2;

/// Seconds that a bridge waits for its connection to the proxy.
pub const BRIDGE_CONNECT_TIMEOUT_SECS: u64 = 5;

/// Bytes read from the proxy at a time.
pub const PROXY_READ_BUF_SIZE: usize = 16384;

/// Bytes read of the proxy's answer to a request for a tunnel.
pub const REPLY_BUF_SIZE: usize = 1024;

/// How an attempt to connect to the proxy went.
#[derive(Debug, Clone, Copy, PartialEq, Eq, Structural)]
pub enum Probe {
    Connected,
    Failed,
    TimedOut,
}

/// The status that a probe shows.
pub open spec fn probe_status(probe: Probe) -> ProxyStatus {
    match probe {
        Probe::Connected => ProxyStatus::Reachable,
        _ => ProxyStatus::Unreachable,
    }
}

/// The probe found the proxy reachable.
pub open spec fn found_reachable(probe: Probe) -> bool {
    probe is Connected
}

/// Notes in the hub what a probe showed.
pub fn record_probe(hub: &mut Hub, probe: Probe)
    requires
        old(hub).wf(),
    ensures
        final(hub).wf(),
        final(hub).notifier() == old(hub).notifier(),
        final(hub)@ == status_noted(old(hub)@, probe_status(probe)),
        final(hub)@ == (HubView { proxy_status: probe_status(probe), ..old(hub)@ }),
        told(
            final(hub).subscribers(),
            old(hub).subscribers(),
            status_messages(old(hub)@, probe_status(probe)),
        ),
{
    let status = match probe {
        Probe::Connected => ProxyStatus::Reachable,
        Probe::Failed => ProxyStatus::Unreachable,
        Probe::TimedOut => ProxyStatus::Unreachable,
    };
    hub.set_proxy_status(status);
}

/// A host and a port as one text.
pub open spec fn host_port(host: Seq<char>, port: u16) -> Seq<char> {
    host + ":"@ + decimal(port as nat)
}

/// The request for a tunnel to `target`.
pub open spec fn connect_request(target: Seq<char>) -> Seq<char> {
    "CONNECT "@ + target + " HTTP/1.1\r\nHost: "@ + target + "\r\n\r\n"@
}

/// Joins a host and a port.
pub fn join_host_port(host: &str, port: u16) -> (s: String)
    ensures
        s@ == host_port(host@, port),
{
    let mut s = host.to_string();
    s.append(":");
    push_decimal(&mut s, port as u64);
    s
}

/// Writes the request for a tunnel to `target`.
pub fn write_connect_request(target: &str) -> (s: String)
    ensures
        s@ == connect_request(target@),
{
    let mut s = "CONNECT ".to_string();
    s.append(target);
    s.append(" HTTP/1.1\r\nHost: ");
    s.append(target);
    s.append("\r\n\r\n");
    s
}

/// The status line of an answer: what stands before its first line feed.
pub open spec fn status_line(answer: Seq<char>) -> Seq<char> {
    answer.take(position(answer, '\n') as int)
}

/// The proxy grants a tunnel: the status line of its answer contains 200.
pub open spec fn grants_tunnel(answer: Seq<char>) -> bool {
    contains_text(status_line(answer), "200"@)
}

/// Whether the proxy's answer grants a tunnel.
pub fn is_tunnel_granted(answer: &str) -> (b: bool)
    ensures
        b == grants_tunnel(answer@),
{
    let cs = chars_of(answer);
    let end: usize = find_char(cs.as_slice(), '\n');
    let line = slice_subrange(cs.as_slice(), 0, end);
    assert(line@ == status_line(answer@));
    let granted = chars_of("200");
    find_text(line, granted.as_slice()).is_some()
}

/// Why a bridge ended early.
#[derive(Debug)]
pub enum BridgeError {
    ConnectTimedOut,
    ConnectFailed,
    RequestFailed,
    ReplyFailed,
    ClosedBeforeReply { target: String },
    Rejected { target: String, response: String },
    WriteFailed,
    ShutdownFailed,
    ReadFailed { cause: String },
}

/// The contents of a `BridgeError`.
pub enum BridgeErrorView {
    ConnectTimedOut,
    ConnectFailed,
    RequestFailed,
    ReplyFailed,
    ClosedBeforeReply { target: Seq<char> },
    Rejected { target: Seq<char>, response: Seq<char> },
    WriteFailed,
    ShutdownFailed,
    ReadFailed { cause: Seq<char> },
}

impl View for BridgeError {
    type V = BridgeErrorView;

    open spec fn view(&self) -> BridgeErrorView {
        match self {
            BridgeError::ConnectTimedOut => BridgeErrorView::ConnectTimedOut,
            BridgeError::ConnectFailed => BridgeErrorView::ConnectFailed,
            BridgeError::RequestFailed => BridgeErrorView::RequestFailed,
            BridgeError::ReplyFailed => BridgeErrorView::ReplyFailed,
            BridgeError::ClosedBeforeReply { target } => BridgeErrorView::ClosedBeforeReply {
                target: target@,
            },
            BridgeError::Rejected { target, response } => BridgeErrorView::Rejected {
                target: target@,
                response: response@,
            },
            BridgeError::WriteFailed => BridgeErrorView::WriteFailed,
            BridgeError::ShutdownFailed => BridgeErrorView::ShutdownFailed,
            BridgeError::ReadFailed { cause } => BridgeErrorView::ReadFailed { cause: cause@ },
        }
    }
}

/// The wording of a refused tunnel.
pub open spec fn rejection(target: Seq<char>, response: Seq<char>) -> Seq<char> {
    "proxy rejected CONNECT for "@ + target + ": "@ + response
}

/// Words a refused tunnel.
fn word_rejection(target: &str, response: &str) -> (s: String)
    ensures
        s@ == rejection(target@, response@),
{
    let mut s = "proxy rejected CONNECT for ".to_string();
    s.append(target);
    s.append(": ");
    s.append(response);
    s
}

impl BridgeErrorView {
    /// The error in words.
    pub open spec fn words(self) -> Seq<char> {
        match self {
            BridgeErrorView::ConnectTimedOut => "timed out connecting to proxy"@,
            BridgeErrorView::ConnectFailed => "failed to connect to proxy"@,
            BridgeErrorView::RequestFailed => "failed to send CONNECT request to proxy"@,
            BridgeErrorView::ReplyFailed => "failed to read CONNECT response from proxy"@,
            BridgeErrorView::ClosedBeforeReply { target } => {
                "proxy closed connection before sending CONNECT response for "@ + target
            },
            BridgeErrorView::Rejected { target, response } => rejection(target, response),
            BridgeErrorView::WriteFailed => "failed to write to proxy stream"@,
            BridgeErrorView::ShutdownFailed => "failed to shutdown proxy write half"@,
            BridgeErrorView::ReadFailed { cause } => "error reading from proxy stream: "@ + cause,
        }
    }
}

impl BridgeError {
    /// Puts the error in words.
    pub fn message(&self) -> (s: String)
        ensures
            s@ == self@.words(),
    {
        match self {
            BridgeError::ConnectTimedOut => "timed out connecting to proxy".to_string(),
            BridgeError::ConnectFailed => "failed to connect to proxy".to_string(),
            BridgeError::RequestFailed => "failed to send CONNECT request to proxy".to_string(),
            BridgeError::ReplyFailed => "failed to read CONNECT response from proxy".to_string(),
            BridgeError::ClosedBeforeReply { target } => {
                let mut s =
                    "proxy closed connection before sending CONNECT response for ".to_string();
                s.append(target.as_str());
                s
            },
            BridgeError::Rejected { target, response } => word_rejection(
                target.as_str(),
                response.as_str(),
            ),
            BridgeError::WriteFailed => "failed to write to proxy stream".to_string(),
            BridgeError::ShutdownFailed => "failed to shutdown proxy write half".to_string(),
            BridgeError::ReadFailed { cause } => {
                let mut s = "error reading from proxy stream: ".to_string();
                s.append(cause.as_str());
                s
            },
        }
    }
}

/// How far a bridge has come.
#[derive(Debug, Clone, Copy, PartialEq, Eq, Structural)]
pub enum BridgePhase {
    /// Connecting to the proxy.
    Connecting,
    /// Sending the request for a tunnel.
    Requesting,
    /// Waiting for the answer to it.
    Answering,
    /// Waiting for data from either side.
    Relaying,
    /// Writing the flow's data to the proxy.
    Writing,
    /// Handing the proxy's data to the flow.
    Delivering,
    /// Shutting down the connection to the proxy for writing.
    Closing,
    /// Done.
    Over,
}

/// What happened to a bridge's connections.
#[derive(Debug)]
pub enum BridgeEvent {
    Connected,
    ConnectFailed,
    ConnectTimedOut,
    RequestSent,
    RequestFailed,
    Reply { data: Vec<u8> },
    ReplyFailed,
    FlowData { data: Vec<u8> },
    FlowClosed,
    ProxyData { data: Vec<u8> },
    ProxyReadFailed { cause: String },
    Written,
    WriteFailed,
    Delivered,
    ReceiverGone,
    WriteShutDown,
    ShutdownFailed,
}

/// What to do with a bridge's connections.
#[derive(Debug)]
pub enum BridgeAction {
    /// Connect to the proxy at this address.
    Connect { addr: String },
    /// Send this request to the proxy.
    SendRequest { text: String },
    /// Read the proxy's answer.
    ReadReply,
    /// Wait for data of the flow or of the proxy, whichever comes first.
    AwaitData,
    /// Write this data to the proxy.
    WriteToProxy { data: Vec<u8> },
    /// Hand this data to the flow.
    SendToFlow { data: Vec<u8> },
    /// Shut down the connection to the proxy for writing.
    ShutDownWrite,
    /// Stop without an error.
    Finish,
    /// Stop with an error.
    Fail { error: BridgeError },
    /// Nothing new: what is under way goes on.
    Wait,
}

/// The contents of a `BridgeAction`.
#[verifier::ext_equal]
pub enum BridgeActionView {
    Connect { addr: Seq<char> },
    SendRequest { text: Seq<char> },
    ReadReply,
    AwaitData,
    WriteToProxy { data: Seq<u8> },
    SendToFlow { data: Seq<u8> },
    ShutDownWrite,
    Finish,
    Fail { error: BridgeErrorView },
    Wait,
}

impl View for BridgeAction {
    type V = BridgeActionView;

    open spec fn view(&self) -> BridgeActionView {
        match self {
            BridgeAction::Connect { addr } => BridgeActionView::Connect { addr: addr@ },
            BridgeAction::SendRequest { text } => BridgeActionView::SendRequest { text: text@ },
            BridgeAction::ReadReply => BridgeActionView::ReadReply,
            BridgeAction::AwaitData => BridgeActionView::AwaitData,
            BridgeAction::WriteToProxy { data } => BridgeActionView::WriteToProxy { data: data@ },
            BridgeAction::SendToFlow { data } => BridgeActionView::SendToFlow { data: data@ },
            BridgeAction::ShutDownWrite => BridgeActionView::ShutDownWrite,
            BridgeAction::Finish => BridgeActionView::Finish,
            BridgeAction::Fail { error } => BridgeActionView::Fail { error: error@ },
            BridgeAction::Wait => BridgeActionView::Wait,
        }
    }
}

/// The contents of a `Bridge`.
#[verifier::ext_equal]
pub struct BridgeView {
    pub target: Seq<char>,
    pub is_tls: bool,
    pub phase: BridgePhase,
}

/// One flow's way through the proxy.
#[derive(Debug)]
pub struct Bridge {
    target: String,
    is_tls: bool,
    phase: BridgePhase,
}

impl View for Bridge {
    type V = BridgeView;

    closed spec fn view(&self) -> BridgeView {
        BridgeView { target: self.target@, is_tls: self.is_tls, phase: self.phase }
    }
}

/// What follows the proxy's answer, read as text: data from either side, or
/// the end.
pub open spec fn after_reply(target: Seq<char>, response: Seq<char>) -> (
    BridgePhase,
    BridgeActionView,
) {
    if grants_tunnel(response) {
        (BridgePhase::Relaying, BridgeActionView::AwaitData)
    } else {
        failing(BridgeErrorView::Rejected { target, response })
    }
}

/// The end with an error.
pub open spec fn failing(error: BridgeErrorView) -> (BridgePhase, BridgeActionView) {
    (BridgePhase::Over, BridgeActionView::Fail { error })
}

/// The end without an error.
pub open spec fn finishing() -> (BridgePhase, BridgeActionView) {
    (BridgePhase::Over, BridgeActionView::Finish)
}

/// Back to waiting for data.
pub open spec fn relaying() -> (BridgePhase, BridgeActionView) {
    (BridgePhase::Relaying, BridgeActionView::AwaitData)
}

/// The phase after an event, and what to do then. An event that does not belong
/// to the phase changes nothing.
pub open spec fn bridge_next(b: BridgeView, event: BridgeEvent) -> (BridgePhase, BridgeActionView) {
    match (b.phase, event) {
        (BridgePhase::Connecting, BridgeEvent::Connected) => if b.is_tls {
            (
                BridgePhase::Requesting,
                BridgeActionView::SendRequest { text: connect_request(b.target) },
            )
        } else {
            relaying()
        },
        (BridgePhase::Connecting, BridgeEvent::ConnectFailed) => failing(
            BridgeErrorView::ConnectFailed,
        ),
        (BridgePhase::Connecting, BridgeEvent::ConnectTimedOut) => failing(
            BridgeErrorView::ConnectTimedOut,
        ),
        (BridgePhase::Requesting, BridgeEvent::RequestSent) => (
            BridgePhase::Answering,
            BridgeActionView::ReadReply,
        ),
        (BridgePhase::Requesting, BridgeEvent::RequestFailed) => failing(
            BridgeErrorView::RequestFailed,
        ),
        (BridgePhase::Answering, BridgeEvent::Reply { data }) => if data@.len() == 0 {
            failing(BridgeErrorView::ClosedBeforeReply { target: b.target })
        } else {
            after_reply(b.target, lossy_text(data@))
        },
        (BridgePhase::Answering, BridgeEvent::ReplyFailed) => failing(BridgeErrorView::ReplyFailed),
        (BridgePhase::Relaying, BridgeEvent::FlowData { data }) => (
            BridgePhase::Writing,
            BridgeActionView::WriteToProxy { data: data@ },
        ),
        (BridgePhase::Relaying, BridgeEvent::FlowClosed) => (
            BridgePhase::Closing,
            BridgeActionView::ShutDownWrite,
        ),
        (BridgePhase::Relaying, BridgeEvent::ProxyData { data }) => if data@.len() == 0 {
            finishing()
        } else {
            (BridgePhase::Delivering, BridgeActionView::SendToFlow { data: data@ })
        },
        (BridgePhase::Relaying, BridgeEvent::ProxyReadFailed { cause }) => failing(
            BridgeErrorView::ReadFailed { cause: cause@ },
        ),
        (BridgePhase::Writing, BridgeEvent::Written) => relaying(),
        (BridgePhase::Writing, BridgeEvent::WriteFailed) => failing(BridgeErrorView::WriteFailed),
        (BridgePhase::Delivering, BridgeEvent::Delivered) => relaying(),
        (BridgePhase::Delivering, BridgeEvent::ReceiverGone) => finishing(),
        (BridgePhase::Closing, BridgeEvent::WriteShutDown) => finishing(),
        (BridgePhase::Closing, BridgeEvent::ShutdownFailed) => failing(
            BridgeErrorView::ShutdownFailed,
        ),
        (phase, _) => (phase, BridgeActionView::Wait),
    }
}

impl Bridge {
    /// Goes on after the proxy's answer was read as text.
    pub fn judge_reply(&mut self, response: String) -> (action: BridgeAction)
        ensures
            ({
                let (phase, a) = after_reply(old(self)@.target, response@);
                &&& final(self)@ == (BridgeView { phase, ..old(self)@ })
                &&& action@ == a
            }),
    {
        if is_tunnel_granted(response.as_str()) {
            self.phase = BridgePhase::Relaying;
            BridgeAction::AwaitData
        } else {
            self.fail(BridgeError::Rejected { target: self.target.clone(), response })
        }
    }

    /// Ends with an error.
    fn fail(&mut self, error: BridgeError) -> (action: BridgeAction)
        ensures
            final(self)@ == (BridgeView { phase: BridgePhase::Over, ..old(self)@ }),
            action@ == (BridgeActionView::Fail { error: error@ }),
    {
        self.phase = BridgePhase::Over;
        BridgeAction::Fail { error }
    }

    /// Goes on to a phase.
    fn enter(&mut self, phase: BridgePhase, action: BridgeAction) -> (a: BridgeAction)
        ensures
            final(self)@ == (BridgeView { phase, ..old(self)@ }),
            a@ == action@,
    {
        self.phase = phase;
        action
    }

    /// Takes note of what happened and says what to do next.
    pub fn step(&mut self, event: BridgeEvent) -> (action: BridgeAction)
        ensures
            ({
                let (phase, a) = bridge_next(old(self)@, event);
                &&& final(self)@ == (BridgeView { phase, ..old(self)@ })
                &&& action@ == a
            }),
    {
        match (self.phase, event) {
            (BridgePhase::Connecting, BridgeEvent::Connected) => {
                if self.is_tls {
                    let text = write_connect_request(self.target.as_str());
                    self.enter(BridgePhase::Requesting, BridgeAction::SendRequest { text })
                } else {
                    self.enter(BridgePhase::Relaying, BridgeAction::AwaitData)
                }
            },
            (BridgePhase::Connecting, BridgeEvent::ConnectFailed) => self.fail(
                BridgeError::ConnectFailed,
            ),
            (BridgePhase::Connecting, BridgeEvent::ConnectTimedOut) => self.fail(
                BridgeError::ConnectTimedOut,
            ),
            (BridgePhase::Requesting, BridgeEvent::RequestSent) => self.enter(
                BridgePhase::Answering,
                BridgeAction::ReadReply,
            ),
            (BridgePhase::Requesting, BridgeEvent::RequestFailed) => self.fail(
                BridgeError::RequestFailed,
            ),
            (BridgePhase::Answering, BridgeEvent::Reply { data }) => {
                if data.len() == 0 {
                    let target = self.target.clone();
                    self.fail(BridgeError::ClosedBeforeReply { target })
                } else {
                    let response = decode_lossy(data.as_slice());
                    self.judge_reply(response)
                }
            },
            (BridgePhase::Answering, BridgeEvent::ReplyFailed) => self.fail(
                BridgeError::ReplyFailed,
            ),
            (BridgePhase::Relaying, BridgeEvent::FlowData { data }) => self.enter(
                BridgePhase::Writing,
                BridgeAction::WriteToProxy { data },
            ),
            (BridgePhase::Relaying, BridgeEvent::FlowClosed) => self.enter(
                BridgePhase::Closing,
                BridgeAction::ShutDownWrite,
            ),
            (BridgePhase::Relaying, BridgeEvent::ProxyData { data }) => {
                if data.len() == 0 {
                    self.enter(BridgePhase::Over, BridgeAction::Finish)
                } else {
                    self.enter(BridgePhase::Delivering, BridgeAction::SendToFlow { data })
                }
            },
            (BridgePhase::Relaying, BridgeEvent::ProxyReadFailed { cause }) => self.fail(
                BridgeError::ReadFailed { cause },
            ),
            (BridgePhase::Writing, BridgeEvent::Written) => self.enter(
                BridgePhase::Relaying,
                BridgeAction::AwaitData,
            ),
            (BridgePhase::Writing, BridgeEvent::WriteFailed) => self.fail(BridgeError::WriteFailed),
            (BridgePhase::Delivering, BridgeEvent::Delivered) => self.enter(
                BridgePhase::Relaying,
                BridgeAction::AwaitData,
            ),
            (BridgePhase::Delivering, BridgeEvent::ReceiverGone) => self.enter(
                BridgePhase::Over,
                BridgeAction::Finish,
            ),
            (BridgePhase::Closing, BridgeEvent::WriteShutDown) => self.enter(
                BridgePhase::Over,
                BridgeAction::Finish,
            ),
            (BridgePhase::Closing, BridgeEvent::ShutdownFailed) => self.fail(
                BridgeError::ShutdownFailed,
            ),
            _ => BridgeAction::Wait,
        }
    }
}

/// Opens bridges through one proxy.
#[derive(Debug)]
pub struct ProxyForwarder {
    /// Address of the upstream proxy.
    proxy_addr: String,
}

impl Clone for ProxyForwarder {
    fn clone(&self) -> (r: Self)
        ensures
            r.addr() == self.addr(),
    {
        ProxyForwarder { proxy_addr: self.proxy_addr.clone() }
    }
}

/// How a bridge to a port of a host through the proxy at `proxy_addr` begins.
pub open spec fn bridge_first(
    proxy_addr: Seq<char>,
    host: Seq<char>,
    port: u16,
    is_tls: bool,
) -> (BridgeView, BridgeActionView) {
    (
        BridgeView { target: host_port(host, port), is_tls, phase: BridgePhase::Connecting },
        BridgeActionView::Connect { addr: proxy_addr },
    )
}

impl ProxyForwarder {
    /// The proxy's address.
    pub closed spec fn addr(&self) -> Seq<char> {
        self.proxy_addr@
    }

    /// A forwarder to the proxy at `proxy_addr`.
    pub fn new(proxy_addr: String) -> (f: Self)
        ensures
            f.addr() == proxy_addr@,
    {
        ProxyForwarder { proxy_addr }
    }

    /// Begins to bridge a flow to its destination: with a tunnel for TLS,
    /// directly otherwise.
    pub fn bridge_flow(&self, remote_host: &str, remote_port: u16, is_tls: bool) -> (r: (
        Bridge,
        BridgeAction,
    ))
        ensures
            (r.0@, r.1@) == bridge_first(self.addr(), remote_host@, remote_port, is_tls),
            r.0@ == (BridgeView {
                target: host_port(remote_host@, remote_port),
                is_tls,
                phase: BridgePhase::Connecting,
            }),
            r.1@ == (BridgeActionView::Connect { addr: self.addr() }),
    {
        let target = join_host_port(remote_host, remote_port);
        let bridge = Bridge { target, is_tls, phase: BridgePhase::Connecting };
        (bridge, BridgeAction::Connect { addr: self.proxy_addr.clone() })
    }

    /// Whether a probe of the proxy found it reachable.
    pub fn check_reachable(&self, probe: Probe) -> (b: bool)
        ensures
            b == found_reachable(probe),
            b == (probe_status(probe) == ProxyStatus::Reachable),
    {
        match probe {
            Probe::Connected => true,
            Probe::Failed => false,
            Probe::TimedOut => false,
        }
    }
}

/// Why a connection through the proxy failed.
#[derive(Debug)]
pub enum ForwardError {
    ConnectFailed,
    RequestFailed,
    ReplyFailed,
    Rejected { target: String, response: String },
}

/// The contents of a `ForwardError`.
pub enum ForwardErrorView {
    ConnectFailed,
    RequestFailed,
    ReplyFailed,
    Rejected { target: Seq<char>, response: Seq<char> },
}

impl View for ForwardError {
    type V = ForwardErrorView;

    open spec fn view(&self) -> ForwardErrorView {
        match self {
            ForwardError::ConnectFailed => ForwardErrorView::ConnectFailed,
            ForwardError::RequestFailed => ForwardErrorView::RequestFailed,
            ForwardError::ReplyFailed => ForwardErrorView::ReplyFailed,
            ForwardError::Rejected { target, response } => ForwardErrorView::Rejected {
                target: target@,
                response: response@,
            },
        }
    }
}

impl ForwardErrorView {
    /// The error in words.
    pub open spec fn words(self) -> Seq<char> {
        match self {
            ForwardErrorView::ConnectFailed => "failed to connect to proxy"@,
            ForwardErrorView::RequestFailed => "failed to send CONNECT request"@,
            ForwardErrorView::ReplyFailed => "failed to read CONNECT response"@,
            ForwardErrorView::Rejected { target, response } => rejection(target, response),
        }
    }
}

impl ForwardError {
    /// Puts the error in words.
    pub fn message(&self) -> (s: String)
        ensures
            s@ == self@.words(),
    {
        match self {
            ForwardError::ConnectFailed => "failed to connect to proxy".to_string(),
            ForwardError::RequestFailed => "failed to send CONNECT request".to_string(),
            ForwardError::ReplyFailed => "failed to read CONNECT response".to_string(),
            ForwardError::Rejected { target, response } => word_rejection(
                target.as_str(),
                response.as_str(),
            ),
        }
    }
}

/// How far a connection through the proxy has come.
#[derive(Debug, Clone, Copy, PartialEq, Eq, Structural)]
pub enum ForwardPhase {
    Connecting,
    Requesting,
    Answering,
    Over,
}

/// What happened to a connection through the proxy.
#[derive(Debug)]
pub enum ForwardEvent {
    Connected,
    ConnectFailed,
    RequestSent,
    RequestFailed,
    Reply { data: Vec<u8> },
    ReplyFailed,
}

/// What to do with a connection through the proxy.
#[derive(Debug)]
pub enum ForwardAction {
    /// Connect to the proxy at this address.
    Connect { addr: String },
    /// Send this request to the proxy.
    SendRequest { text: String },
    /// Read the proxy's answer.
    ReadReply,
    /// The connection can be used.
    Ready,
    /// Stop with an error.
    Fail { error: ForwardError },
    /// Nothing new: what is under way goes on.
    Wait,
}

/// The contents of a `ForwardAction`.
#[verifier::ext_equal]
pub enum ForwardActionView {
    Connect { addr: Seq<char> },
    SendRequest { text: Seq<char> },
    ReadReply,
    Ready,
    Fail { error: ForwardErrorView },
    Wait,
}

impl View for ForwardAction {
    type V = ForwardActionView;

    open spec fn view(&self) -> ForwardActionView {
        match self {
            ForwardAction::Connect { addr } => ForwardActionView::Connect { addr: addr@ },
            ForwardAction::SendRequest { text } => ForwardActionView::SendRequest { text: text@ },
            ForwardAction::ReadReply => ForwardActionView::ReadReply,
            ForwardAction::Ready => ForwardActionView::Ready,
            ForwardAction::Fail { error } => ForwardActionView::Fail { error: error@ },
            ForwardAction::Wait => ForwardActionView::Wait,
        }
    }
}

/// The contents of a `Forward`.
#[verifier::ext_equal]
pub struct ForwardView {
    pub target: Seq<char>,
    pub is_tls: bool,
    pub phase: ForwardPhase,
}

/// A connection through the proxy that is being made.
#[derive(Debug)]
pub struct Forward {
    target: String,
    is_tls: bool,
    phase: ForwardPhase,
}

impl View for Forward {
    type V = ForwardView;

    closed spec fn view(&self) -> ForwardView {
        ForwardView { target: self.target@, is_tls: self.is_tls, phase: self.phase }
    }
}

/// What follows the proxy's answer, read as text: a usable connection, or the
/// end.
pub open spec fn forward_after_reply(target: Seq<char>, response: Seq<char>) -> ForwardActionView {
    if grants_tunnel(response) {
        ForwardActionView::Ready
    } else {
        ForwardActionView::Fail { error: ForwardErrorView::Rejected { target, response } }
    }
}

/// The phase after an event, and what to do then. An event that does not belong
/// to the phase changes nothing.
pub open spec fn forward_next(f: ForwardView, event: ForwardEvent) -> (
    ForwardPhase,
    ForwardActionView,
) {
    match (f.phase, event) {
        (ForwardPhase::Connecting, ForwardEvent::Connected) => if f.is_tls {
            (
                ForwardPhase::Requesting,
                ForwardActionView::SendRequest { text: connect_request(f.target) },
            )
        } else {
            (ForwardPhase::Over, ForwardActionView::Ready)
        },
        (ForwardPhase::Connecting, ForwardEvent::ConnectFailed) => (
            ForwardPhase::Over,
            ForwardActionView::Fail { error: ForwardErrorView::ConnectFailed },
        ),
        (ForwardPhase::Requesting, ForwardEvent::RequestSent) => (
            ForwardPhase::Answering,
            ForwardActionView::ReadReply,
        ),
        (ForwardPhase::Requesting, ForwardEvent::RequestFailed) => (
            ForwardPhase::Over,
            ForwardActionView::Fail { error: ForwardErrorView::RequestFailed },
        ),
        (ForwardPhase::Answering, ForwardEvent::Reply { data }) => (
            ForwardPhase::Over,
            forward_after_reply(f.target, lossy_text(data@)),
        ),
        (ForwardPhase::Answering, ForwardEvent::ReplyFailed) => (
            ForwardPhase::Over,
            ForwardActionView::Fail { error: ForwardErrorView::ReplyFailed },
        ),
        (phase, _) => (phase, ForwardActionView::Wait),
    }
}

/// How a connection to `target` through the proxy at `proxy_addr` begins.
pub open spec fn forward_first(target: Seq<char>, is_tls: bool, proxy_addr: Seq<char>) -> (
    ForwardView,
    ForwardActionView,
) {
    (
        ForwardView { target, is_tls, phase: ForwardPhase::Connecting },
        ForwardActionView::Connect { addr: proxy_addr },
    )
}

/// Begins to connect to `remote_addr` through the proxy: with a tunnel for TLS,
/// directly otherwise.
pub fn forward_to_proxy(remote_addr: &str, is_tls: bool, proxy_addr: &str) -> (r: (
    Forward,
    ForwardAction,
))
    ensures
        (r.0@, r.1@) == forward_first(remote_addr@, is_tls, proxy_addr@),
        r.0@ == (ForwardView { target: remote_addr@, is_tls, phase: ForwardPhase::Connecting }),
        r.1@ == (ForwardActionView::Connect { addr: proxy_addr@ }),
{
    let forward = Forward {
        target: remote_addr.to_string(),
        is_tls,
        phase: ForwardPhase::Connecting,
    };
    (forward, ForwardAction::Connect { addr: proxy_addr.to_string() })
}

impl Forward {
    /// Goes on after the proxy's answer was read as text.
    pub fn judge_reply(&mut self, response: String) -> (action: ForwardAction)
        ensures
            final(self)@ == (ForwardView { phase: ForwardPhase::Over, ..old(self)@ }),
            action@ == forward_after_reply(old(self)@.target, response@),
    {
        self.phase = ForwardPhase::Over;
        if is_tunnel_granted(response.as_str()) {
            ForwardAction::Ready
        } else {
            ForwardAction::Fail {
                error: ForwardError::Rejected { target: self.target.clone(), response },
            }
        }
    }

    /// Takes note of what happened and says what to do next.
    pub fn step(&mut self, event: ForwardEvent) -> (action: ForwardAction)
        ensures
            ({
                let (phase, a) = forward_next(old(self)@, event);
                &&& final(self)@ == (ForwardView { phase, ..old(self)@ })
                &&& action@ == a
            }),
    {
        match (self.phase, event) {
            (ForwardPhase::Connecting, ForwardEvent::Connected) => {
                if self.is_tls {
                    self.phase = ForwardPhase::Requesting;
                    let text = write_connect_request(self.target.as_str());
                    ForwardAction::SendRequest { text }
                } else {
                    self.phase = ForwardPhase::Over;
                    ForwardAction::Ready
                }
            },
            (ForwardPhase::Connecting, ForwardEvent::ConnectFailed) => {
                self.phase = ForwardPhase::Over;
                ForwardAction::Fail { error: ForwardError::ConnectFailed }
            },
            (ForwardPhase::Requesting, ForwardEvent::RequestSent) => {
                self.phase = ForwardPhase::Answering;
                ForwardAction::ReadReply
            },
            (ForwardPhase::Requesting, ForwardEvent::RequestFailed) => {
                self.phase = ForwardPhase::Over;
                ForwardAction::Fail { error: ForwardError::RequestFailed }
            },
            (ForwardPhase::Answering, ForwardEvent::Reply { data }) => {
                let response = decode_lossy(data.as_slice());
                self.judge_reply(response)
            },
            (ForwardPhase::Answering, ForwardEvent::ReplyFailed) => {
                self.phase = ForwardPhase::Over;
                ForwardAction::Fail { error: ForwardError::ReplyFailed }
            },
            _ => ForwardAction::Wait,
        }
    }
}

/// A bridge after an event.
pub open spec fn bridge_after(b: BridgeView, event: BridgeEvent) -> BridgeView {
    BridgeView { phase: bridge_next(b, event).0, ..b }
}

/// A bridge after events, first to last.
pub open spec fn bridge_through(b: BridgeView, events: Seq<BridgeEvent>) -> BridgeView
    decreases events.len(),
{
    if events.len() == 0 {
        b
    } else {
        bridge_after(bridge_through(b, events.drop_last()), events.last())
    }
}

/// The flow's data passes between the flow and the proxy.
pub open spec fn passes_data(phase: BridgePhase) -> bool {
    phase is Relaying || phase is Writing || phase is Delivering || phase is Closing
}

/// The event is an answer of the proxy that grants a tunnel.
pub open spec fn is_grant(event: BridgeEvent) -> bool {
    event matches BridgeEvent::Reply { data } && data@.len() > 0 && grants_tunnel(
        lossy_text(data@),
    )
}

/// With TLS, no data passes before the proxy has granted a tunnel.
pub proof fn law_tls_waits_for_tunnel(b: BridgeView, events: Seq<BridgeEvent>)
    requires
        b.is_tls,
        b.phase == BridgePhase::Connecting,
        passes_data(bridge_through(b, events).phase),
    ensures
        exists|i: int| 0 <= i < events.len() && is_grant(#[trigger] events[i]),
    decreases events.len(),
{
    lemma_tls_stays(b, events);
    if events.len() > 0 {
        let before = bridge_through(b, events.drop_last());
        let last = events.last();
        if passes_data(before.phase) {
            law_tls_waits_for_tunnel(b, events.drop_last());
            let i = choose|i: int|
                0 <= i < events.drop_last().len() && is_grant(#[trigger] events.drop_last()[i]);
            assert(is_grant(events[i]));
        } else {
            lemma_tls_stays(b, events.drop_last());
            assert(is_grant(events[events.len() - 1]));
        }
    }
}

proof fn lemma_tls_stays(b: BridgeView, events: Seq<BridgeEvent>)
    ensures
        bridge_through(b, events).is_tls == b.is_tls,
        bridge_through(b, events).target == b.target,
    decreases events.len(),
{
    if events.len() > 0 {
        lemma_tls_stays(b, events.drop_last());
    }
}

/// Data passes unchanged: what is written to the proxy is what the flow just
/// sent, and what is handed to the flow is what the proxy just sent.
pub proof fn law_data_passes_unchanged(b: BridgeView, event: BridgeEvent)
    ensures
        bridge_next(b, event).1 matches BridgeActionView::WriteToProxy { data } ==> {
            event matches BridgeEvent::FlowData { data: sent } && sent@ == data
        },
        bridge_next(b, event).1 matches BridgeActionView::SendToFlow { data } ==> {
            event matches BridgeEvent::ProxyData { data: sent } && sent@ == data
        },
{
}

/// What follows the status line has no say in whether a tunnel is granted.
pub proof fn law_status_line_decides(line: Seq<char>, a: Seq<char>, b: Seq<char>)
    requires
        forall|i: int| 0 <= i < line.len() ==> line[i] != '\n',
    ensures
        grants_tunnel(line.push('\n') + a) == grants_tunnel(line),
        grants_tunnel(line.push('\n') + a) == grants_tunnel(line.push('\n') + b),
{
    lemma_position_at(line, '\n', line.len() as int);
    lemma_position_at(line.push('\n') + a, '\n', line.len() as int);
    lemma_position_at(line.push('\n') + b, '\n', line.len() as int);
    assert(status_line(line) == line);
    assert(status_line(line.push('\n') + a) == line);
    assert(status_line(line.push('\n') + b) == line);
}

/// A bridge that is over stays over and asks for nothing.
pub proof fn law_over_is_final(b: BridgeView, event: BridgeEvent)
    requires
        b.phase == BridgePhase::Over,
    ensures
        bridge_after(b, event) == b,
        bridge_next(b, event).1 == BridgeActionView::Wait,
{
}

/// A bridge is over exactly when it says so.
pub proof fn law_end_is_announced(b: BridgeView, event: BridgeEvent)
    requires
        b.phase != BridgePhase::Over,
    ensures
        bridge_after(b, event).phase == BridgePhase::Over <==> (bridge_next(b, event).1 is Finish
            || bridge_next(b, event).1 is Fail),
{
}

/// With TLS, a connection through the proxy is usable only once the proxy has
/// granted a tunnel.
pub proof fn law_forward_waits_for_tunnel(f: ForwardView, event: ForwardEvent)
    requires
        f.is_tls,
        forward_next(f, event).1 == ForwardActionView::Ready,
    ensures
        event matches ForwardEvent::Reply { data } && grants_tunnel(lossy_text(data@)),
{
}

} // verus!

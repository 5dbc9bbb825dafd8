//! The transparent proxy: how a redirected connection is taken through lookup,
//! registration and connecting, and how its bytes are counted.
//!
//! Sockets are worked outside. A `Connection` and a `Pump` say what to do with
//! them next, and are told how it went.

use vstd::prelude::*;
use vstd::string::StringExecFns;

use crate::hub::{
    end_fits, end_messages, ended, route_of, start_fits, start_messages, start_of, started, told,
    FlowStart, Hub,
};
use crate::net::{Endpoint, EndpointView};
use crate::proto::{Proto, RouteAction};
use crate::text::{decimal, push_decimal};

verus! {

/// Bytes read at a time when data passes.
pub const BRIDGE_BUF_SIZE: usize = 16384;

/// Seconds between two reports of a live flow's byte counts.
pub const BYTE_REPORT_INTERVAL_SECS: u64 = 1;

/// The port of HTTPS.
pub const TLS_PORT: u16 = 443;

/// The address at which the proxy listens.
pub open spec fn listen_addr(port: u16) -> Seq<char> {
    "127.0.0.1:"@ + decimal(port as nat)
}

/// Writes the address at which the proxy listens.
pub fn write_listen_addr(port: u16) -> (s: String)
    ensures
        s@ == listen_addr(port),
{
    let mut s = "127.0.0.1:".to_string();
    push_decimal(&mut s, port as u64);
    s
}

/// Hands out numbers for flows.
#[derive(Debug)]
pub struct FlowIds {
    next: u64,
}

/// The number handed out after `n` others.
pub open spec fn nth_flow_id(n: nat) -> u64 {
    ((1 + n) % 0x1_0000_0000_0000_0000) as u64
}

/// The number handed out after this one.
pub open spec fn following(id: u64) -> u64 {
    if id == u64::MAX {
        0
    } else {
        (id + 1) as u64
    }
}

impl FlowIds {
    /// The number handed out next.
    pub closed spec fn upcoming(&self) -> u64 {
        self.next
    }

    /// The first number is one.
    pub fn new() -> (f: Self)
        ensures
            f.upcoming() == nth_flow_id(0),
    {
        FlowIds { next: 1 }
    }

    /// Hands out a number. After the largest comes zero.
    pub fn take(&mut self) -> (id: u64)
        ensures
            id == old(self).upcoming(),
            final(self).upcoming() == following(id),
            final(self).upcoming() == (if id == u64::MAX {
                0
            } else {
                (id + 1) as u64
            }),
    {
        let id: u64 = self.next;
        self.next = id.wrapping_add(1);
        id
    }
}

/// Numbers are handed out in order.
pub proof fn law_flow_ids_in_order(n: nat)
    ensures
        nth_flow_id(n + 1) == (if nth_flow_id(n) == u64::MAX {
            0
        } else {
            (nth_flow_id(n) + 1) as u64
        }),
        following(nth_flow_id(n)) == nth_flow_id(n + 1),
        nth_flow_id(0) == 1,
{
    let m = 0x1_0000_0000_0000_0000int;
    let x = (1 + n) as int;
    vstd::arithmetic::div_mod::lemma_add_mod_noop(x, 1, m);
    assert((x + 1) % m == ((x % m) + 1) % m);
    if x % m == m - 1 {
        assert(((x % m) + 1) % m == 0);
    } else {
        vstd::arithmetic::div_mod::lemma_small_mod(((x % m) + 1) as nat, m as nat);
    }
}

/// No number is handed out twice among 2^64 in a row.
pub proof fn law_flow_ids_differ(i: nat, j: nat)
    requires
        i < j < i + 0x1_0000_0000_0000_0000,
    ensures
        nth_flow_id(i) != nth_flow_id(j),
{
    let m = 0x1_0000_0000_0000_0000int;
    let x = (1 + i) as int;
    let y = (1 + j) as int;
    if x % m == y % m {
        vstd::arithmetic::div_mod::lemma_fundamental_div_mod(x, m);
        vstd::arithmetic::div_mod::lemma_fundamental_div_mod(y, m);
        assert(y - x == m * (y / m) - m * (x / m));
        assert(m * (y / m) - m * (x / m) == m * (y / m - x / m)) by (nonlinear_arith);
        assert(false) by (nonlinear_arith)
            requires
                0 < m * (y / m - x / m) < m,
                m == 0x1_0000_0000_0000_0000int,
        ;
    }
}

/// An end of a connection.
#[derive(Debug, Clone, Copy)]
pub enum PeerAddr {
    V4(Endpoint),
    V6,
}

/// How far a connection has come.
#[derive(Debug, Clone, Copy)]
pub enum ConnPhase {
    /// Asking for the local end.
    Opening { client: Endpoint },
    /// Asking the packet filter for the destination.
    Looking { client: Endpoint },
    /// Asking who owns the connection.
    Resolving { client: Endpoint, dest: Endpoint },
    /// Connecting upstream.
    Connecting { dest: Endpoint, routing: RouteAction },
    /// Passing data.
    Bridging,
    /// Done.
    Over,
}

/// What happened to a connection.
#[derive(Debug)]
pub enum ConnEvent {
    Local { addr: PeerAddr },
    LocalFailed,
    Destination { dest: Endpoint },
    LookupFailed,
    ResolveFailed,
    UpstreamConnected,
    UpstreamFailed,
}

/// Why a connection was given up.
#[derive(Debug, Clone, Copy)]
pub enum ConnError {
    Ipv6,
    LocalAddr,
    Lookup,
    Resolve,
    Upstream { dest: Endpoint },
    Proxy { dest: Endpoint },
}

impl ConnError {
    /// The error in words.
    pub open spec fn words(self) -> Seq<char> {
        match self {
            ConnError::Ipv6 => "IPv6 not supported"@,
            ConnError::LocalAddr => "failed to get local addr"@,
            ConnError::Lookup => "DIOCNATLOOK failed"@,
            ConnError::Resolve => "PID resolution task failed"@,
            ConnError::Upstream { dest } => "failed to connect to upstream "@ + dest@.text(),
            ConnError::Proxy { dest } => "failed to forward to proxy for "@ + dest@.text(),
        }
    }

    /// Puts the error in words.
    pub fn message(&self) -> (s: String)
        ensures
            s@ == self.words(),
    {
        match self {
            ConnError::Ipv6 => "IPv6 not supported".to_string(),
            ConnError::LocalAddr => "failed to get local addr".to_string(),
            ConnError::Lookup => "DIOCNATLOOK failed".to_string(),
            ConnError::Resolve => "PID resolution task failed".to_string(),
            ConnError::Upstream { dest } => {
                let mut s = "failed to connect to upstream ".to_string();
                s.append(dest.to_text().as_str());
                s
            },
            ConnError::Proxy { dest } => {
                let mut s = "failed to forward to proxy for ".to_string();
                s.append(dest.to_text().as_str());
                s
            },
        }
    }
}

/// What to do with a connection.
#[derive(Debug)]
pub enum ConnAction {
    /// Ask for the local end.
    GetLocal,
    /// Ask the packet filter for the destination.
    Lookup { client: Endpoint, listen: Endpoint },
    /// Ask who owns the connection from this end.
    Resolve { client: Endpoint },
    /// Connect to the destination.
    ConnectDirect { dest: Endpoint },
    /// Connect to the destination through the upstream proxy.
    ConnectProxy { dest: Endpoint, is_tls: bool },
    /// Pass data both ways.
    PassData,
    /// Stop without an error.
    Finish,
    /// Stop with an error.
    Fail { error: ConnError },
    /// Nothing new: what is under way goes on.
    Wait,
}

/// One redirected connection.
#[derive(Debug)]
pub struct Connection {
    flow_id: u64,
    phase: ConnPhase,
}

/// The end with an error.
pub open spec fn conn_failing(error: ConnError) -> (ConnPhase, ConnAction) {
    (ConnPhase::Over, ConnAction::Fail { error })
}

/// How to reach the destination: directly, or through the proxy, which is asked
/// for a tunnel where the destination's port is that of HTTPS.
pub open spec fn upstream(routing: RouteAction, dest: Endpoint) -> ConnAction {
    match routing {
        RouteAction::Passthrough => ConnAction::ConnectDirect { dest },
        RouteAction::RouteToProxy => ConnAction::ConnectProxy { dest, is_tls: dest.port == TLS_PORT },
    }
}

/// The phase at the start, and what to do then.
pub open spec fn conn_first(client: PeerAddr) -> (ConnPhase, ConnAction) {
    match client {
        PeerAddr::V4(client) => (ConnPhase::Opening { client }, ConnAction::GetLocal),
        PeerAddr::V6 => conn_failing(ConnError::Ipv6),
    }
}

/// The phase after an event, and what to do then. An event that does not belong
/// to the phase changes nothing.
pub open spec fn conn_next(phase: ConnPhase, event: ConnEvent) -> (ConnPhase, ConnAction) {
    match (phase, event) {
        (ConnPhase::Opening { client }, ConnEvent::Local { addr }) => match addr {
            PeerAddr::V4(listen) => (
                ConnPhase::Looking { client },
                ConnAction::Lookup { client, listen },
            ),
            PeerAddr::V6 => conn_failing(ConnError::Ipv6),
        },
        (ConnPhase::Opening { .. }, ConnEvent::LocalFailed) => conn_failing(ConnError::LocalAddr),
        (ConnPhase::Looking { client }, ConnEvent::Destination { dest }) => (
            ConnPhase::Resolving { client, dest },
            ConnAction::Resolve { client },
        ),
        (ConnPhase::Looking { .. }, ConnEvent::LookupFailed) => conn_failing(ConnError::Lookup),
        (ConnPhase::Resolving { .. }, ConnEvent::ResolveFailed) => conn_failing(ConnError::Resolve),
        (ConnPhase::Connecting { .. }, ConnEvent::UpstreamConnected) => (
            ConnPhase::Bridging,
            ConnAction::PassData,
        ),
        (ConnPhase::Connecting { dest, routing }, ConnEvent::UpstreamFailed) => conn_failing(
            match routing {
                RouteAction::Passthrough => ConnError::Upstream { dest },
                RouteAction::RouteToProxy => ConnError::Proxy { dest },
            },
        ),
        (phase, _) => (phase, ConnAction::Wait),
    }
}

/// What is registered of a connection from `ends.0` to `ends.1` once its owner is
/// known.
pub open spec fn conn_start(
    flow_id: u64,
    ends: (EndpointView, EndpointView),
    pid: u32,
    process_name: Seq<char>,
    bundle_id: Seq<char>,
    now: u64,
) -> FlowStart {
    FlowStart {
        flow_id,
        pid,
        process_name,
        bundle_id,
        local_addr: ends.0.text(),
        remote_addr: ends.1.text(),
        proto: Proto::Tcp,
        started_at: now,
    }
}

/// What registering leads to: a connection to the destination, the way it is
/// routed. Nothing, unless the owner was being looked for.
pub open spec fn registered(phase: ConnPhase, routing: RouteAction) -> Option<
    (ConnPhase, ConnAction),
> {
    match phase {
        ConnPhase::Resolving { dest, .. } => Some(
            (ConnPhase::Connecting { dest, routing }, upstream(routing, dest)),
        ),
        _ => None,
    }
}

/// What the end of the data leads to. Nothing, unless data was passing.
pub open spec fn settled(phase: ConnPhase) -> Option<(ConnPhase, ConnAction)> {
    if phase is Bridging {
        Some((ConnPhase::Over, ConnAction::Finish))
    } else {
        None
    }
}

impl Connection {
    /// The flow's number.
    pub closed spec fn flow_id(&self) -> u64 {
        self.flow_id
    }

    /// How far the connection has come.
    pub closed spec fn phase(&self) -> ConnPhase {
        self.phase
    }

    /// Takes on a connection from `client`. Only IPv4 is handled.
    pub fn open(flow_id: u64, client: PeerAddr) -> (r: (Self, ConnAction))
        ensures
            r.0.flow_id() == flow_id,
            (r.0.phase(), r.1) == conn_first(client),
    {
        match client {
            PeerAddr::V4(client) => (
                Connection { flow_id, phase: ConnPhase::Opening { client } },
                ConnAction::GetLocal,
            ),
            PeerAddr::V6 => (
                Connection { flow_id, phase: ConnPhase::Over },
                ConnAction::Fail { error: ConnError::Ipv6 },
            ),
        }
    }

    /// Goes on to a phase.
    fn enter(&mut self, phase: ConnPhase, action: ConnAction) -> (a: ConnAction)
        ensures
            final(self).flow_id() == old(self).flow_id(),
            final(self).phase() == phase,
            a == action,
    {
        self.phase = phase;
        action
    }

    /// Takes note of what happened and says what to do next.
    pub fn step(&mut self, event: ConnEvent) -> (action: ConnAction)
        ensures
            final(self).flow_id() == old(self).flow_id(),
            (final(self).phase(), action) == conn_next(old(self).phase(), event),
    {
        match (self.phase, event) {
            (ConnPhase::Opening { client }, ConnEvent::Local { addr }) => match addr {
                PeerAddr::V4(listen) => self.enter(
                    ConnPhase::Looking { client },
                    ConnAction::Lookup { client, listen },
                ),
                PeerAddr::V6 => self.enter(
                    ConnPhase::Over,
                    ConnAction::Fail { error: ConnError::Ipv6 },
                ),
            },
            (ConnPhase::Opening { .. }, ConnEvent::LocalFailed) => self.enter(
                ConnPhase::Over,
                ConnAction::Fail { error: ConnError::LocalAddr },
            ),
            (ConnPhase::Looking { client }, ConnEvent::Destination { dest }) => self.enter(
                ConnPhase::Resolving { client, dest },
                ConnAction::Resolve { client },
            ),
            (ConnPhase::Looking { .. }, ConnEvent::LookupFailed) => self.enter(
                ConnPhase::Over,
                ConnAction::Fail { error: ConnError::Lookup },
            ),
            (ConnPhase::Resolving { .. }, ConnEvent::ResolveFailed) => self.enter(
                ConnPhase::Over,
                ConnAction::Fail { error: ConnError::Resolve },
            ),
            (ConnPhase::Connecting { .. }, ConnEvent::UpstreamConnected) => self.enter(
                ConnPhase::Bridging,
                ConnAction::PassData,
            ),
            (ConnPhase::Connecting { dest, routing }, ConnEvent::UpstreamFailed) => {
                let error = match routing {
                    RouteAction::Passthrough => ConnError::Upstream { dest },
                    RouteAction::RouteToProxy => ConnError::Proxy { dest },
                };
                self.enter(ConnPhase::Over, ConnAction::Fail { error })
            },
            _ => ConnAction::Wait,
        }
    }

    /// Registers the flow with the hub once its owner is known, and says how to
    /// reach the destination. Before the destination is known, or afterwards,
    /// nothing happens.
    pub fn register(
        &mut self,
        hub: &mut Hub,
        pid: u32,
        process_name: &str,
        bundle_id: &str,
    ) -> (action: ConnAction)
        requires
            old(hub).wf(),
            start_fits(old(hub)@, bundle_id@),
        ensures
            final(hub).wf(),
            final(hub).notifier() == old(hub).notifier(),
            final(self).flow_id() == old(self).flow_id(),
            (match old(self).phase() {
                ConnPhase::Resolving { client, dest } => {
                    let routing = route_of(old(hub)@, bundle_id@);
                    &&& Some((final(self).phase(), action)) == registered(
                        old(self).phase(),
                        routing,
                    )
                    &&& final(self).phase() == (ConnPhase::Connecting { dest, routing })
                    &&& action == upstream(routing, dest)
                    &&& exists|now: u64|
                        {
                            let s = #[trigger] start_of(
                                old(self).flow_id(),
                                pid,
                                process_name@,
                                bundle_id@,
                                client@.text(),
                                dest@.text(),
                                Proto::Tcp,
                                now,
                            );
                            &&& s == conn_start(
                                old(self).flow_id(),
                                (client@, dest@),
                                pid,
                                process_name@,
                                bundle_id@,
                                now,
                            )
                            &&& final(hub)@ == started(old(hub)@, s)
                            &&& told(
                                final(hub).subscribers(),
                                old(hub).subscribers(),
                                start_messages(old(hub)@, s),
                            )
                        }
                },
                phase => {
                    &&& registered(phase, route_of(old(hub)@, bundle_id@)) is None
                    &&& final(self).phase() == phase
                    &&& action == ConnAction::Wait
                    &&& final(hub)@ == old(hub)@
                    &&& final(hub).subscribers() == old(hub).subscribers()
                },
            }),
    {
        match self.phase {
            ConnPhase::Resolving { client, dest } => {
                let local = client.to_text();
                let remote = dest.to_text();
                let routing = hub.handle_flow_start(
                    self.flow_id,
                    pid,
                    process_name,
                    bundle_id,
                    local.as_str(),
                    remote.as_str(),
                    Proto::Tcp,
                );
                proof {
                    let now = choose|now: u64|
                        {
                            let s = #[trigger] start_of(
                                self.flow_id,
                                pid,
                                process_name@,
                                bundle_id@,
                                local@,
                                remote@,
                                Proto::Tcp,
                                now,
                            );
                            &&& hub@ == started(old(hub)@, s)
                            &&& told(
                                hub.subscribers(),
                                old(hub).subscribers(),
                                start_messages(old(hub)@, s),
                            )
                        };
                    let s = start_of(
                        old(self).flow_id(),
                        pid,
                        process_name@,
                        bundle_id@,
                        client@.text(),
                        dest@.text(),
                        Proto::Tcp,
                        now,
                    );
                    assert(hub@ == started(old(hub)@, s));
                    assert(told(
                        hub.subscribers(),
                        old(hub).subscribers(),
                        start_messages(old(hub)@, s),
                    ));
                }
                self.phase = ConnPhase::Connecting { dest, routing };
                match routing {
                    RouteAction::Passthrough => ConnAction::ConnectDirect { dest },
                    RouteAction::RouteToProxy => ConnAction::ConnectProxy {
                        dest,
                        is_tls: dest.port == TLS_PORT,
                    },
                }
            },
            _ => ConnAction::Wait,
        }
    }

    /// Reports the end of the flow to the hub once its data has passed. Before
    /// that, or afterwards, nothing happens.
    pub fn finish(&mut self, hub: &mut Hub, bytes_in: u64, bytes_out: u64) -> (action: ConnAction)
        requires
            old(hub).wf(),
            end_fits(old(hub)@, old(self).flow_id(), bytes_in, bytes_out),
        ensures
            final(hub).wf(),
            final(hub).notifier() == old(hub).notifier(),
            final(self).flow_id() == old(self).flow_id(),
            (match old(self).phase() {
                ConnPhase::Bridging => {
                    &&& Some((final(self).phase(), action)) == settled(old(self).phase())
                    &&& final(self).phase() == ConnPhase::Over
                    &&& action == ConnAction::Finish
                    &&& final(hub)@ == ended(old(hub)@, old(self).flow_id(), bytes_in, bytes_out)
                    &&& told(
                        final(hub).subscribers(),
                        old(hub).subscribers(),
                        end_messages(old(hub)@, old(self).flow_id(), bytes_in, bytes_out),
                    )
                },
                phase => {
                    &&& settled(phase) is None
                    &&& final(self).phase() == phase
                    &&& action == ConnAction::Wait
                    &&& final(hub)@ == old(hub)@
                    &&& final(hub).subscribers() == old(hub).subscribers()
                },
            }),
    {
        match self.phase {
            ConnPhase::Bridging => {
                hub.handle_flow_end(self.flow_id, bytes_in, bytes_out);
                self.phase = ConnPhase::Over;
                ConnAction::Finish
            },
            _ => ConnAction::Wait,
        }
    }
}

/// A connection that is over stays over and asks for nothing.
pub proof fn law_over_connections_rest(event: ConnEvent)
    ensures
        conn_next(ConnPhase::Over, event) == (ConnPhase::Over, ConnAction::Wait),
{
}

/// Data passes only over a connection whose destination was looked up and whose
/// flow was registered: the phase before it is the one that registration enters.
pub proof fn law_data_passes_after_registration(phase: ConnPhase, event: ConnEvent)
    requires
        conn_next(phase, event).0 is Bridging,
        !(phase is Bridging),
    ensures
        phase is Connecting,
        event is UpstreamConnected,
{
}

/// What a pump does: one direction of a connection.
#[derive(Debug, Clone, Copy, PartialEq, Eq, Structural)]
pub enum PumpPhase {
    /// Reading from the source.
    Reading,
    /// Writing this many bytes to the sink.
    Writing { n: usize },
    /// Shutting down the sink.
    ShuttingDown,
    /// Done.
    Over,
}

/// What happened to a pump's ends.
#[derive(Debug, Clone, Copy, PartialEq, Eq, Structural)]
pub enum PumpEvent {
    /// This many bytes were read; none means the source has ended.
    Read { n: usize },
    ReadFailed,
    Written,
    WriteFailed,
    ShutDown,
}

/// What to do with a pump's ends.
#[derive(Debug, Clone, Copy, PartialEq, Eq, Structural)]
pub enum PumpAction {
    /// Read from the source, once the bytes just written are counted.
    Read { counted: usize },
    /// Write what was read, this many bytes, to the sink.
    Write { n: usize },
    /// Shut down the sink.
    ShutDown,
    /// Stop; this many bytes have passed.
    Finish { total: u64 },
    /// Nothing new: what is under way goes on.
    Wait,
}

/// The contents of a `Pump`.
pub struct PumpView {
    pub total: nat,
    pub phase: PumpPhase,
}

/// Passes data in one direction and counts it.
#[derive(Debug)]
pub struct Pump {
    total: u64,
    phase: PumpPhase,
}

impl View for Pump {
    type V = PumpView;

    closed spec fn view(&self) -> PumpView {
        PumpView { total: self.total as nat, phase: self.phase }
    }
}

/// A pump after an event. Bytes count once they are written.
pub open spec fn pump_after(p: PumpView, event: PumpEvent) -> PumpView {
    match (p.phase, event) {
        (PumpPhase::Reading, PumpEvent::Read { n }) => if n == 0 {
            PumpView { phase: PumpPhase::ShuttingDown, ..p }
        } else {
            PumpView { phase: PumpPhase::Writing { n }, ..p }
        },
        (PumpPhase::Reading, PumpEvent::ReadFailed) => PumpView {
            phase: PumpPhase::ShuttingDown,
            ..p
        },
        (PumpPhase::Writing { n }, PumpEvent::Written) => PumpView {
            total: p.total + n as nat,
            phase: PumpPhase::Reading,
        },
        (PumpPhase::Writing { .. }, PumpEvent::WriteFailed) => PumpView {
            phase: PumpPhase::ShuttingDown,
            ..p
        },
        (PumpPhase::ShuttingDown, PumpEvent::ShutDown) => PumpView { phase: PumpPhase::Over, ..p },
        _ => p,
    }
}

/// How a pump begins.
pub open spec fn pump_first() -> (PumpView, PumpAction) {
    (PumpView { total: 0, phase: PumpPhase::Reading }, PumpAction::Read { counted: 0 })
}

/// What a pump does after an event.
pub open spec fn pump_action(p: PumpView, event: PumpEvent) -> PumpAction {
    match (p.phase, event) {
        (PumpPhase::Reading, PumpEvent::Read { n }) => if n == 0 {
            PumpAction::ShutDown
        } else {
            PumpAction::Write { n }
        },
        (PumpPhase::Reading, PumpEvent::ReadFailed) => PumpAction::ShutDown,
        (PumpPhase::Writing { n }, PumpEvent::Written) => PumpAction::Read { counted: n },
        (PumpPhase::Writing { .. }, PumpEvent::WriteFailed) => PumpAction::ShutDown,
        (PumpPhase::ShuttingDown, PumpEvent::ShutDown) => PumpAction::Finish {
            total: p.total as u64,
        },
        _ => PumpAction::Wait,
    }
}

impl Pump {
    /// A pump that has passed nothing yet, and begins by reading.
    pub fn new() -> (r: (Self, PumpAction))
        ensures
            (r.0@, r.1) == pump_first(),
            r.0@ == (PumpView { total: 0, phase: PumpPhase::Reading }),
            r.1 == (PumpAction::Read { counted: 0 }),
    {
        (Pump { total: 0, phase: PumpPhase::Reading }, PumpAction::Read { counted: 0 })
    }

    /// Whether the total can take what is being written.
    pub fn total_fits(&self) -> (b: bool)
        ensures
            b == (pump_after(self@, PumpEvent::Written).total <= u64::MAX),
    {
        match self.phase {
            PumpPhase::Writing { n } => n as u64 <= u64::MAX - self.total,
            _ => true,
        }
    }

    /// Takes note of what happened and says what to do next.
    pub fn step(&mut self, event: PumpEvent) -> (action: PumpAction)
        requires
            pump_after(old(self)@, event).total <= u64::MAX,
        ensures
            final(self)@ == pump_after(old(self)@, event),
            action == pump_action(old(self)@, event),
    {
        match (self.phase, event) {
            (PumpPhase::Reading, PumpEvent::Read { n }) => {
                if n == 0 {
                    self.phase = PumpPhase::ShuttingDown;
                    PumpAction::ShutDown
                } else {
                    self.phase = PumpPhase::Writing { n };
                    PumpAction::Write { n }
                }
            },
            (PumpPhase::Reading, PumpEvent::ReadFailed) => {
                self.phase = PumpPhase::ShuttingDown;
                PumpAction::ShutDown
            },
            (PumpPhase::Writing { n }, PumpEvent::Written) => {
                self.total = self.total + n as u64;
                self.phase = PumpPhase::Reading;
                PumpAction::Read { counted: n }
            },
            (PumpPhase::Writing { .. }, PumpEvent::WriteFailed) => {
                self.phase = PumpPhase::ShuttingDown;
                PumpAction::ShutDown
            },
            (PumpPhase::ShuttingDown, PumpEvent::ShutDown) => {
                self.phase = PumpPhase::Over;
                PumpAction::Finish { total: self.total }
            },
            _ => PumpAction::Wait,
        }
    }
}

/// The byte counts, in and out, from the totals of the two pumps.
pub open spec fn counts_of(out_total: Option<u64>, in_total: Option<u64>) -> (u64, u64) {
    (
        match in_total {
            Some(n) => n,
            None => 0,
        },
        match out_total {
            Some(n) => n,
            None => 0,
        },
    )
}

/// The byte counts of a connection, in and out, from the totals of its two
/// pumps; a pump that did not come to its end counts as none.
pub fn final_counts(out_total: Option<u64>, in_total: Option<u64>) -> (r: (u64, u64))
    ensures
        r == counts_of(out_total, in_total),
        r.0 == (match in_total {
            Some(n) => n,
            None => 0,
        }),
        r.1 == (match out_total {
            Some(n) => n,
            None => 0,
        }),
{
    let bytes_in: u64 = match in_total {
        Some(n) => n,
        None => 0,
    };
    let bytes_out: u64 = match out_total {
        Some(n) => n,
        None => 0,
    };
    (bytes_in, bytes_out)
}

/// A pump after events, first to last.
pub open spec fn pump_through(p: PumpView, events: Seq<PumpEvent>) -> PumpView
    decreases events.len(),
{
    if events.len() == 0 {
        p
    } else {
        pump_after(pump_through(p, events.drop_last()), events.last())
    }
}

/// The bytes that a pump was told to count along the way.
pub open spec fn counted_through(p: PumpView, events: Seq<PumpEvent>) -> nat
    decreases events.len(),
{
    if events.len() == 0 {
        0
    } else {
        let before = pump_through(p, events.drop_last());
        counted_through(p, events.drop_last()) + match pump_action(before, events.last()) {
            PumpAction::Read { counted } => counted as nat,
            _ => 0,
        }
    }
}

/// The total at the end is the sum of what was counted along the way.
pub proof fn law_total_is_what_was_counted(p: PumpView, events: Seq<PumpEvent>)
    ensures
        pump_through(p, events).total == p.total + counted_through(p, events),
    decreases events.len(),
{
    if events.len() > 0 {
        law_total_is_what_was_counted(p, events.drop_last());
    }
}

/// Bytes count only when they were read and then written: a count is as large
/// as the last read.
pub proof fn law_counts_follow_reads(p: PumpView, read: PumpEvent, next: PumpEvent)
    requires
        p.phase == PumpPhase::Reading,
        pump_action(pump_after(p, read), next) is Read,
    ensures
        next == PumpEvent::Written,
        read == (PumpEvent::Read {
            n: pump_action(pump_after(p, read), next)->Read_counted,
        }),
{
}

} // verus!

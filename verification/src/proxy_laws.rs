//! What holds of redirected connections and their data.

use vstd::prelude::*;

use crate::hub::{route_of, started, HubView};
use crate::net::{Endpoint, EndpointView};
use crate::proto::{Proto, RouteAction};
use crate::proxy::{
    conn_first, conn_next, conn_start, counts_of, listen_addr, pump_action, pump_after, pump_first,
    pump_through, registered, settled, upstream, ConnAction, ConnError, ConnEvent, ConnPhase,
    PeerAddr, PumpAction, PumpEvent, PumpPhase, PumpView,
};

verus! {

/// The bytes that a pump read along the way: those reported while it was
/// reading.
pub open spec fn read_through(p: PumpView, events: Seq<PumpEvent>) -> nat
    decreases events.len(),
{
    if events.len() == 0 {
        0
    } else {
        read_through(p, events.drop_last()) + match events.last() {
            PumpEvent::Read { n } if pump_through(p, events.drop_last()).phase is Reading =>
                n as nat,
            _ => 0,
        }
    }
}

/// The size of the last write that a pump asked for along the way.
pub open spec fn last_write(p: PumpView, events: Seq<PumpEvent>) -> nat
    decreases events.len(),
{
    if events.len() == 0 {
        0
    } else {
        match pump_action(pump_through(p, events.drop_last()), events.last()) {
            PumpAction::Write { n } => n as nat,
            _ => last_write(p, events.drop_last()),
        }
    }
}

/// A write was under way after the events.
pub open spec fn is_writing(p: PumpView, events: Seq<PumpEvent>) -> bool {
    pump_through(p, events).phase is Writing
}

/// The bytes of the writes that a pump asked for and that ended with `outcome`.
pub open spec fn written_through(p: PumpView, events: Seq<PumpEvent>, outcome: PumpEvent) -> nat
    decreases events.len(),
{
    if events.len() == 0 {
        0
    } else {
        let front = events.drop_last();
        written_through(p, front, outcome) + if is_writing(p, front) && events.last() == outcome {
            last_write(p, front)
        } else {
            0
        }
    }
}

/// Whatever is read is to be written, all of it: a read of some bytes is answered
/// by a write of as many.
pub proof fn law_chunks_are_written_whole(p: PumpView, n: usize)
    requires
        p.phase is Reading,
        n > 0,
    ensures
        pump_action(p, PumpEvent::Read { n }) == (PumpAction::Write { n }),
        pump_after(p, PumpEvent::Read { n }).total == p.total,
{
}

/// No byte is lost and none is counted that did not pass: over any run of a pump
/// that begins by reading, what it was told to write and wrote is what its total
/// grew by, and what it read is that, a chunk whose write failed, and a chunk
/// still being written.
pub proof fn law_bytes_are_conserved(p: PumpView, events: Seq<PumpEvent>)
    requires
        p.phase is Reading,
    ensures
        pump_through(p, events).total == p.total + written_through(p, events, PumpEvent::Written),
        read_through(p, events) == written_through(p, events, PumpEvent::Written)
            + written_through(p, events, PumpEvent::WriteFailed) + if is_writing(p, events) {
            last_write(p, events)
        } else {
            0
        },
    decreases events.len(),
{
    lemma_writing(p, events);
    if events.len() > 0 {
        lemma_writing(p, events.drop_last());
        law_bytes_are_conserved(p, events.drop_last());
    }
}

/// A pump that is writing writes what it asked for last.
proof fn lemma_writing(p: PumpView, events: Seq<PumpEvent>)
    requires
        p.phase is Reading,
    ensures
        pump_through(p, events).phase matches PumpPhase::Writing { n } ==> n == last_write(
            p,
            events,
        ),
    decreases events.len(),
{
    if events.len() > 0 {
        lemma_writing(p, events.drop_last());
    }
}

/// How a pump goes on: the bytes of a finished write are counted and the next are
/// read; where the source has ended or either end fails, the sink is shut down;
/// and then the total is reported. What does not belong changes nothing.
pub proof fn law_pump_takes_its_course(p: PumpView, event: PumpEvent)
    ensures
        p.phase matches PumpPhase::Writing { n } ==> event is Written ==> pump_action(p, event)
            == (PumpAction::Read { counted: n }) && pump_after(p, event).phase is Reading
            && pump_after(p, event).total == p.total + n,
        p.phase is Reading && (event is ReadFailed || event == (PumpEvent::Read { n: 0 }))
            ==> pump_action(p, event) is ShutDown && pump_after(p, event).phase is ShuttingDown,
        p.phase is Writing && event is WriteFailed ==> pump_action(p, event) is ShutDown
            && pump_after(p, event).phase is ShuttingDown,
        p.phase is ShuttingDown && event is ShutDown ==> pump_after(p, event).phase is Over
            && pump_action(p, event) == (PumpAction::Finish { total: p.total as u64 }),
        !(event is Written) ==> pump_after(p, event).total == p.total,
        pump_action(p, event) is Wait <==> pump_after(p, event) == p,
        pump_action(p, event) is Wait <==> {
            ||| p.phase is Reading && !(event is Read) && !(event is ReadFailed)
            ||| p.phase is Writing && !(event is Written) && !(event is WriteFailed)
            ||| p.phase is ShuttingDown && !(event is ShutDown)
            ||| p.phase is Over
        },
{
}

/// The two directions are reported side by side, neither for the other, and one
/// that did not come to its end as none.
pub proof fn law_directions_are_kept_apart(out_total: Option<u64>, in_total: Option<u64>, n: u64)
    ensures
        counts_of(out_total, Some(n)).0 == n,
        counts_of(Some(n), in_total).1 == n,
        counts_of(out_total, None).0 == 0,
        counts_of(None, in_total).1 == 0,
        counts_of(Some(n), in_total).0 == counts_of(None, in_total).0,
        counts_of(out_total, Some(n)).1 == counts_of(out_total, None).1,
{
}

/// A connection of an application that passes through is made to its destination
/// directly, whatever the destination's port. One of an application that is routed
/// to the proxy is made through it, with a tunnel exactly where the port is that
/// of HTTPS. An application's own rule decides, or else the global action.
pub proof fn law_routing_decides_how_to_connect(h: HubView, bundle_id: Seq<char>, dest: Endpoint)
    ensures
        ({
            let action = upstream(route_of(h, bundle_id), dest);
            let through = if h.routing_rules.contains_key(bundle_id) {
                h.routing_rules[bundle_id] == RouteAction::RouteToProxy
            } else {
                h.global_routing == RouteAction::RouteToProxy
            };
            &&& !through ==> action == (ConnAction::ConnectDirect { dest })
            &&& through ==> action == (ConnAction::ConnectProxy { dest, is_tls: dest.port == 443 })
        }),
{
}

/// A connection is asked about as it came in: the packet filter is asked with its
/// two ends, its owner is sought by the client's end, and where it goes is the
/// destination that the packet filter named.
pub proof fn law_connection_takes_its_course(
    client: Endpoint,
    listen: Endpoint,
    dest: Endpoint,
    routing: RouteAction,
)
    ensures
        ({
            let (opening, first) = conn_first(PeerAddr::V4(client));
            let (looking, second) = conn_next(
                opening,
                ConnEvent::Local { addr: PeerAddr::V4(listen) },
            );
            let (resolving, third) = conn_next(looking, ConnEvent::Destination { dest });
            &&& first == ConnAction::GetLocal
            &&& second == (ConnAction::Lookup { client, listen })
            &&& third == (ConnAction::Resolve { client })
            &&& resolving == (ConnPhase::Resolving { client, dest })
        }),
        conn_next(ConnPhase::Connecting { dest, routing }, ConnEvent::UpstreamConnected) == (
            ConnPhase::Bridging,
            ConnAction::PassData,
        ),
{
}

/// Whatever goes wrong ends the connection with the error that names it.
pub proof fn law_failures_end_connections(client: Endpoint, dest: Endpoint, routing: RouteAction)
    ensures
        conn_first(PeerAddr::V6) == (
            ConnPhase::Over,
            ConnAction::Fail { error: ConnError::Ipv6 },
        ),
        conn_next(ConnPhase::Opening { client }, ConnEvent::Local { addr: PeerAddr::V6 }) == (
            ConnPhase::Over,
            ConnAction::Fail { error: ConnError::Ipv6 },
        ),
        conn_next(ConnPhase::Opening { client }, ConnEvent::LocalFailed) == (
            ConnPhase::Over,
            ConnAction::Fail { error: ConnError::LocalAddr },
        ),
        conn_next(ConnPhase::Looking { client }, ConnEvent::LookupFailed) == (
            ConnPhase::Over,
            ConnAction::Fail { error: ConnError::Lookup },
        ),
        conn_next(ConnPhase::Resolving { client, dest }, ConnEvent::ResolveFailed) == (
            ConnPhase::Over,
            ConnAction::Fail { error: ConnError::Resolve },
        ),
        conn_next(
            ConnPhase::Connecting { dest, routing: RouteAction::Passthrough },
            ConnEvent::UpstreamFailed,
        ) == (ConnPhase::Over, ConnAction::Fail { error: ConnError::Upstream { dest } }),
        conn_next(
            ConnPhase::Connecting { dest, routing: RouteAction::RouteToProxy },
            ConnEvent::UpstreamFailed,
        ) == (ConnPhase::Over, ConnAction::Fail { error: ConnError::Proxy { dest } }),
{
}

/// The event is one that the phase waits for.
pub open spec fn is_awaited(phase: ConnPhase, event: ConnEvent) -> bool {
    match event {
        ConnEvent::Local { .. } | ConnEvent::LocalFailed => phase is Opening,
        ConnEvent::Destination { .. } | ConnEvent::LookupFailed => phase is Looking,
        ConnEvent::ResolveFailed => phase is Resolving,
        ConnEvent::UpstreamConnected | ConnEvent::UpstreamFailed => phase is Connecting,
    }
}

/// An event that the phase does not wait for changes nothing, and no other is
/// passed over.
pub proof fn law_only_awaited_events_count(phase: ConnPhase, event: ConnEvent)
    ensures
        !is_awaited(phase, event) ==> conn_next(phase, event) == (phase, ConnAction::Wait),
        is_awaited(phase, event) ==> !(conn_next(phase, event).1 is Wait),
{
}

/// A failed connection is reported with its destination.
pub proof fn law_errors_name_the_destination(dest: Endpoint)
    ensures
        (ConnError::Upstream { dest }).words() == "failed to connect to upstream "@ + dest@.text(),
        (ConnError::Proxy { dest }).words() == "failed to forward to proxy for "@ + dest@.text(),
{
}

/// The proxy listens on the local machine, at the port it is given.
pub proof fn law_listens_locally(port: u16)
    ensures
        listen_addr(port) == (EndpointView { ip: seq![127u8, 0, 0, 1], port }).text(),
{
    reveal_strlit("127.0.0.1:");
    reveal_strlit(".");
    reveal_strlit(":");
    crate::text_laws::law_decimal_grows_by_digits(0, 0);
    crate::text_laws::law_decimal_grows_by_digits(0, 1);
    crate::text_laws::law_decimal_grows_by_digits(1, 2);
    crate::text_laws::law_decimal_grows_by_digits(12, 7);
    reveal_strlit("0123456789");
    let e = EndpointView { ip: seq![127u8, 0, 0, 1], port };
    assert(crate::text::decimal(12) == seq!['1', '2']);
    assert(crate::text::decimal(127) == seq!['1', '2', '7']);
    assert(crate::net::dotted(e.ip) =~= seq!['1', '2', '7', '.', '0', '.', '0', '.', '1']);
    assert(listen_addr(port) =~= e.text());
}

/// Data passes sixteen KiB at a time, byte counts are reported every second, and
/// HTTPS is what goes to port 443.
pub proof fn law_proxy_limits()
    ensures
        crate::proxy::BRIDGE_BUF_SIZE == 16 * 0x400,
        crate::proxy::BYTE_REPORT_INTERVAL_SECS == 1,
        crate::proxy::TLS_PORT == 443,
{
}

/// What is registered of a connection is its number, its owner and both its ends,
/// and the hub holds exactly that.
pub proof fn law_registration_names_both_ends(
    h: HubView,
    flow_id: u64,
    client: EndpointView,
    dest: EndpointView,
    pid: u32,
    process_name: Seq<char>,
    bundle_id: Seq<char>,
    now: u64,
)
    ensures
        ({
            let s = conn_start(flow_id, (client, dest), pid, process_name, bundle_id, now);
            let flow = started(h, s).flows[flow_id];
            &&& started(h, s).flows.contains_key(flow_id)
            &&& flow.flow_id == flow_id
            &&& flow.local_addr == client.text()
            &&& flow.remote_addr == dest.text()
            &&& flow.proto == Proto::Tcp
            &&& flow.pid == pid
            &&& flow.process_name == process_name
            &&& flow.bundle_id == bundle_id
            &&& flow.started_at == now
        }),
{
}

/// A connection whose owner is known connects to its destination, the way it is
/// routed, and one whose data has passed is finished. At no other time does
/// registering or settling change anything.
pub proof fn law_registration_connects(phase: ConnPhase, client: Endpoint, dest: Endpoint)
    ensures
        registered(ConnPhase::Resolving { client, dest }, RouteAction::Passthrough) == Some(
            (
                ConnPhase::Connecting { dest, routing: RouteAction::Passthrough },
                ConnAction::ConnectDirect { dest },
            ),
        ),
        registered(ConnPhase::Resolving { client, dest }, RouteAction::RouteToProxy) == Some(
            (
                ConnPhase::Connecting { dest, routing: RouteAction::RouteToProxy },
                ConnAction::ConnectProxy { dest, is_tls: dest.port == 443 },
            ),
        ),
        !(phase is Resolving) ==> registered(phase, RouteAction::Passthrough) is None && registered(
            phase,
            RouteAction::RouteToProxy,
        ) is None,
        settled(ConnPhase::Bridging) == Some((ConnPhase::Over, ConnAction::Finish)),
        !(phase is Bridging) ==> settled(phase) is None,
{
}

/// A pump begins with nothing counted, and reads.
pub proof fn law_pump_begins_with_nothing()
    ensures
        pump_first().0.total == 0,
        pump_first().0.phase == PumpPhase::Reading,
        pump_first().1 == (PumpAction::Read { counted: 0 }),
{
}

} // verus!

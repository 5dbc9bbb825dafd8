//! What holds of the way to the upstream proxy.

use vstd::prelude::*;

use crate::forwarder::{
    after_reply, bridge_first, bridge_next, bridge_through, connect_request, forward_after_reply,
    forward_first, forward_next, found_reachable, grants_tunnel, host_port, probe_status, rejection,
    BridgeActionView, BridgeErrorView, BridgeEvent, BridgePhase, BridgeView, ForwardActionView,
    ForwardErrorView, ForwardEvent, ForwardPhase, ForwardView, Probe,
};
use crate::proto::ProxyStatus;
use crate::text::{
    after_last, decimal, law_lines_concatenate, lemma_position_at, lines_of, lossy_text,
};
use crate::text_laws::{
    digits, law_decimal_is_made_of_digits, law_line_endings, law_tail_after_last,
    law_what_is_put_in_is_found,
};

verus! {

/// The proxy is reachable exactly where a connection to it was made.
pub proof fn law_connections_show_reachability(probe: Probe)
    ensures
        probe_status(probe) == ProxyStatus::Reachable <==> probe == Probe::Connected,
        probe_status(probe) == ProxyStatus::Unreachable <==> probe != Probe::Connected,
{
}

/// A host and a port are told apart by the last colon.
pub proof fn law_port_follows_the_last_colon(host: Seq<char>, port: u16)
    ensures
        host_port(host, port).take(host.len() as int) == host,
        host_port(host, port)[host.len() as int] == ':',
        after_last(host_port(host, port), ':') == decimal(port as nat),
        host_port(host, port).len() == host.len() + 1 + decimal(port as nat).len(),
{
    reveal_strlit(":");
    let p = decimal(port as nat);
    law_decimal_is_made_of_digits(port as nat);
    reveal_strlit("0123456789");
    assert forall|i: int| 0 <= i < p.len() implies p[i] != ':' by {
        assert(digits().contains(p[i]));
    }
    assert(host_port(host, port) =~= host.push(':') + p);
    law_tail_after_last(host, p, ':');
    assert(host_port(host, port).take(host.len() as int) =~= host);
}

/// The request for a tunnel is three lines: it names the target, as it is, then
/// the target again as the host, and ends with an empty line.
pub proof fn law_request_names_the_target(target: Seq<char>)
    requires
        forall|i: int| 0 <= i < target.len() ==> target[i] != '\n',
    ensures
        lines_of(connect_request(target)) == seq![
            "CONNECT "@ + target + " HTTP/1.1"@,
            "Host: "@ + target,
            Seq::<char>::empty(),
        ],
{
    reveal_strlit("CONNECT ");
    reveal_strlit(" HTTP/1.1");
    reveal_strlit("Host: ");
    reveal_strlit(" HTTP/1.1\r\nHost: ");
    reveal_strlit("\r\n\r\n");
    let first = "CONNECT "@ + target + " HTTP/1.1"@;
    let second = "Host: "@ + target;
    let none = Seq::<char>::empty();
    let end = seq!['\r', '\n'];
    assert(connect_request(target) =~= (first + end) + ((second + end) + (none + end)));
    assert forall|i: int| 0 <= i < first.len() implies first[i] != '\n' by {
        if 8 <= i < 8 + target.len() {
            assert(first[i] == target[i - 8]);
        }
    }
    assert forall|i: int| 0 <= i < second.len() implies second[i] != '\n' by {
        if 6 <= i {
            assert(second[i] == target[i - 6]);
        }
    }
    assert(first + end =~= first.push('\r').push('\n'));
    assert(second + end =~= second.push('\r').push('\n'));
    assert(none + end =~= none.push('\r').push('\n'));
    law_line_endings(first);
    law_line_endings(second);
    law_line_endings(none);
    law_lines_concatenate(second + end, none + end);
    law_lines_concatenate(first + end, (second + end) + (none + end));
    assert(lines_of(connect_request(target)) =~= seq![first, second, none]);
}

/// A tunnel is granted by an answer whose first line has a 200 in it, wherever
/// there, and by no other.
pub proof fn law_two_hundred_grants(before: Seq<char>, after: Seq<char>, line: Seq<char>)
    requires
        forall|i: int| 0 <= i < before.len() ==> before[i] != '\n',
        forall|i: int| 0 <= i < after.len() ==> after[i] != '\n',
        forall|i: int| 0 <= i < line.len() ==> line[i] != '\n',
    ensures
        grants_tunnel(before + seq!['2', '0', '0'] + after),
        grants_tunnel(line) ==> exists|i: int|
            0 <= i <= line.len() - 3 && #[trigger] line[i] == '2' && line[i + 1] == '0' && line[i
                + 2] == '0',
{
    reveal_strlit("200");
    assert("200"@ =~= seq!['2', '0', '0']);
    let s = before + "200"@ + after;
    assert forall|i: int| 0 <= i < s.len() implies s[i] != '\n' by {
        if i < before.len() {
            assert(s[i] == before[i]);
        } else if i >= before.len() + 3 {
            assert(s[i] == after[i - before.len() - 3]);
        }
    }
    lemma_position_at(s, '\n', s.len() as int);
    assert(s.take(s.len() as int) =~= s);
    law_what_is_put_in_is_found(before, "200"@, after);
    lemma_position_at(line, '\n', line.len() as int);
    assert(line.take(line.len() as int) =~= line);
    law_what_is_put_in_is_found(line, "200"@, after);
    if grants_tunnel(line) {
        let i = choose|i: int|
            0 <= i <= line.len() - 3 && #[trigger] line.subrange(i, i + 3) == "200"@;
        assert(line[i] == line.subrange(i, i + 3)[0]);
        assert(line[i + 1] == line.subrange(i, i + 3)[1]);
        assert(line[i + 2] == line.subrange(i, i + 3)[2]);
    }
}

/// A bridge first asks for a tunnel where the flow is TLS, for the flow's target,
/// and otherwise passes data at once. The answer is waited for and decides.
pub proof fn law_bridge_opens_as_it_should(b: BridgeView, data: Vec<u8>)
    ensures
        b.phase is Connecting && b.is_tls ==> bridge_next(b, BridgeEvent::Connected) == (
            BridgePhase::Requesting,
            BridgeActionView::SendRequest { text: connect_request(b.target) },
        ),
        b.phase is Connecting && !b.is_tls ==> bridge_next(b, BridgeEvent::Connected) == (
            BridgePhase::Relaying,
            BridgeActionView::AwaitData,
        ),
        b.phase is Requesting ==> bridge_next(b, BridgeEvent::RequestSent) == (
            BridgePhase::Answering,
            BridgeActionView::ReadReply,
        ),
        b.phase is Answering && data@.len() > 0 && grants_tunnel(lossy_text(data@))
            ==> bridge_next(b, BridgeEvent::Reply { data }) == (
            BridgePhase::Relaying,
            BridgeActionView::AwaitData,
        ),
        b.phase is Answering && data@.len() > 0 && !grants_tunnel(lossy_text(data@))
            ==> bridge_next(b, BridgeEvent::Reply { data }) == (
            BridgePhase::Over,
            BridgeActionView::Fail {
                error: BridgeErrorView::Rejected {
                    target: b.target,
                    response: lossy_text(data@),
                },
            },
        ),
        b.phase is Answering && data@.len() == 0 ==> bridge_next(b, BridgeEvent::Reply { data })
            == (
            BridgePhase::Over,
            BridgeActionView::Fail {
                error: BridgeErrorView::ClosedBeforeReply { target: b.target },
            },
        ),
{
}

/// An answer, read as text, opens the tunnel or is reported whole.
pub proof fn law_answers_decide(target: Seq<char>, response: Seq<char>)
    ensures
        grants_tunnel(response) ==> after_reply(target, response) == (
            BridgePhase::Relaying,
            BridgeActionView::AwaitData,
        ) && forward_after_reply(target, response) == ForwardActionView::Ready,
        !grants_tunnel(response) ==> after_reply(target, response) == (
            BridgePhase::Over,
            BridgeActionView::Fail { error: BridgeErrorView::Rejected { target, response } },
        ) && forward_after_reply(target, response) == (ForwardActionView::Fail {
            error: ForwardErrorView::Rejected { target, response },
        }),
        rejection(target, response) == "proxy rejected CONNECT for "@ + target + ": "@ + response,
        (BridgeErrorView::Rejected { target, response }).words() == rejection(target, response),
        (ForwardErrorView::Rejected { target, response }).words() == rejection(target, response),
        (BridgeErrorView::ClosedBeforeReply { target }).words()
            == "proxy closed connection before sending CONNECT response for "@ + target,
        (BridgeErrorView::ReadFailed { cause: response }).words()
            == "error reading from proxy stream: "@ + response,
{
}

/// While data passes, every chunk goes on to the other side whole, and then the
/// next is waited for. Where the flow ends, the proxy is told; where the proxy
/// ends, the bridge does.
pub proof fn law_bridge_passes_every_chunk(b: BridgeView, data: Vec<u8>)
    requires
        b.phase is Relaying,
    ensures
        bridge_next(b, BridgeEvent::FlowData { data }) == (
            BridgePhase::Writing,
            BridgeActionView::WriteToProxy { data: data@ },
        ),
        data@.len() > 0 ==> bridge_next(b, BridgeEvent::ProxyData { data }) == (
            BridgePhase::Delivering,
            BridgeActionView::SendToFlow { data: data@ },
        ),
        data@.len() == 0 ==> bridge_next(b, BridgeEvent::ProxyData { data }) == (
            BridgePhase::Over,
            BridgeActionView::Finish,
        ),
        bridge_next(b, BridgeEvent::FlowClosed) == (
            BridgePhase::Closing,
            BridgeActionView::ShutDownWrite,
        ),
{
}

/// After a chunk has passed, data is waited for again, and a receiver that has
/// left, or a proxy that was told of the end, ends the bridge without an error.
pub proof fn law_bridge_goes_on_or_finishes(b: BridgeView)
    ensures
        b.phase is Writing ==> bridge_next(b, BridgeEvent::Written) == (
            BridgePhase::Relaying,
            BridgeActionView::AwaitData,
        ),
        b.phase is Delivering ==> bridge_next(b, BridgeEvent::Delivered) == (
            BridgePhase::Relaying,
            BridgeActionView::AwaitData,
        ),
        b.phase is Delivering ==> bridge_next(b, BridgeEvent::ReceiverGone) == (
            BridgePhase::Over,
            BridgeActionView::Finish,
        ),
        b.phase is Closing ==> bridge_next(b, BridgeEvent::WriteShutDown) == (
            BridgePhase::Over,
            BridgeActionView::Finish,
        ),
{
}

/// Every failure ends the bridge with the error that names it.
pub proof fn law_bridge_failures_are_named(b: BridgeView, cause: String)
    ensures
        b.phase is Connecting ==> bridge_next(b, BridgeEvent::ConnectFailed).1 == (
        BridgeActionView::Fail { error: BridgeErrorView::ConnectFailed }),
        b.phase is Connecting ==> bridge_next(b, BridgeEvent::ConnectTimedOut).1 == (
        BridgeActionView::Fail { error: BridgeErrorView::ConnectTimedOut }),
        b.phase is Requesting ==> bridge_next(b, BridgeEvent::RequestFailed).1 == (
        BridgeActionView::Fail { error: BridgeErrorView::RequestFailed }),
        b.phase is Answering ==> bridge_next(b, BridgeEvent::ReplyFailed).1 == (
        BridgeActionView::Fail { error: BridgeErrorView::ReplyFailed }),
        b.phase is Writing ==> bridge_next(b, BridgeEvent::WriteFailed).1 == (
        BridgeActionView::Fail { error: BridgeErrorView::WriteFailed }),
        b.phase is Closing ==> bridge_next(b, BridgeEvent::ShutdownFailed).1 == (
        BridgeActionView::Fail { error: BridgeErrorView::ShutdownFailed }),
        b.phase is Relaying ==> bridge_next(b, BridgeEvent::ProxyReadFailed { cause }).1 == (
        BridgeActionView::Fail { error: BridgeErrorView::ReadFailed { cause: cause@ } }),
{
}

/// The event is one that a bridge waits for in that phase.
pub open spec fn is_awaited(phase: BridgePhase, event: BridgeEvent) -> bool {
    match event {
        BridgeEvent::Connected | BridgeEvent::ConnectFailed | BridgeEvent::ConnectTimedOut =>
            phase is Connecting,
        BridgeEvent::RequestSent | BridgeEvent::RequestFailed => phase is Requesting,
        BridgeEvent::Reply { .. } | BridgeEvent::ReplyFailed => phase is Answering,
        BridgeEvent::FlowData { .. } | BridgeEvent::FlowClosed | BridgeEvent::ProxyData { .. }
        | BridgeEvent::ProxyReadFailed { .. } => phase is Relaying,
        BridgeEvent::Written | BridgeEvent::WriteFailed => phase is Writing,
        BridgeEvent::Delivered | BridgeEvent::ReceiverGone => phase is Delivering,
        BridgeEvent::WriteShutDown | BridgeEvent::ShutdownFailed => phase is Closing,
    }
}

/// A bridge passes over exactly the events that it does not wait for.
pub proof fn law_bridge_waits_for_its_events(b: BridgeView, event: BridgeEvent)
    ensures
        !is_awaited(b.phase, event) ==> bridge_next(b, event) == (
            b.phase,
            BridgeActionView::Wait,
        ),
        is_awaited(b.phase, event) ==> !(bridge_next(b, event).1 is Wait),
{
}

/// The data that came from the flow, in order, while a bridge waited for it.
pub open spec fn came_from_flow(b: BridgeView, events: Seq<BridgeEvent>) -> Seq<u8>
    decreases events.len(),
{
    if events.len() == 0 {
        Seq::empty()
    } else {
        came_from_flow(b, events.drop_last()) + match events.last() {
            BridgeEvent::FlowData { data } if bridge_through(b, events.drop_last()).phase
                is Relaying => data@,
            _ => Seq::empty(),
        }
    }
}

/// The data that came from the proxy, in order, while a bridge waited for it.
pub open spec fn came_from_proxy(b: BridgeView, events: Seq<BridgeEvent>) -> Seq<u8>
    decreases events.len(),
{
    if events.len() == 0 {
        Seq::empty()
    } else {
        came_from_proxy(b, events.drop_last()) + match events.last() {
            BridgeEvent::ProxyData { data } if bridge_through(b, events.drop_last()).phase
                is Relaying => data@,
            _ => Seq::empty(),
        }
    }
}

/// The data that a bridge had written to the proxy, and handed to the flow.
pub open spec fn went_on(b: BridgeView, events: Seq<BridgeEvent>) -> (Seq<u8>, Seq<u8>)
    decreases events.len(),
{
    if events.len() == 0 {
        (Seq::empty(), Seq::empty())
    } else {
        let (to_proxy, to_flow) = went_on(b, events.drop_last());
        match bridge_next(bridge_through(b, events.drop_last()), events.last()).1 {
            BridgeActionView::WriteToProxy { data } => (to_proxy + data, to_flow),
            BridgeActionView::SendToFlow { data } => (to_proxy, to_flow + data),
            _ => (to_proxy, to_flow),
        }
    }
}

/// Over any run of a bridge, what goes on to the proxy is what came from the flow,
/// byte for byte and in order, and what goes on to the flow is what came from the
/// proxy.
pub proof fn law_all_data_goes_on(b: BridgeView, events: Seq<BridgeEvent>)
    ensures
        went_on(b, events).0 == came_from_flow(b, events),
        went_on(b, events).1 == came_from_proxy(b, events),
    decreases events.len(),
{
    if events.len() > 0 {
        law_all_data_goes_on(b, events.drop_last());
        let f = came_from_flow(b, events.drop_last());
        let p = came_from_proxy(b, events.drop_last());
        assert(f + Seq::<u8>::empty() =~= f);
        assert(p + Seq::<u8>::empty() =~= p);
        assert(came_from_proxy(b, events) =~= went_on(b, events).1);
        assert(came_from_flow(b, events) =~= went_on(b, events).0);
    }
}

/// A connection through the proxy asks for a tunnel where it is TLS, for the
/// address given, and is ready at once otherwise; the answer decides.
pub proof fn law_forward_opens_as_it_should(f: ForwardView, data: Vec<u8>)
    ensures
        f.phase is Connecting && f.is_tls ==> forward_next(f, ForwardEvent::Connected) == (
            ForwardPhase::Requesting,
            ForwardActionView::SendRequest { text: connect_request(f.target) },
        ),
        f.phase is Connecting && !f.is_tls ==> forward_next(f, ForwardEvent::Connected) == (
            ForwardPhase::Over,
            ForwardActionView::Ready,
        ),
        f.phase is Requesting ==> forward_next(f, ForwardEvent::RequestSent) == (
            ForwardPhase::Answering,
            ForwardActionView::ReadReply,
        ),
        f.phase is Answering ==> forward_next(f, ForwardEvent::Reply { data }) == (
            ForwardPhase::Over,
            forward_after_reply(f.target, lossy_text(data@)),
        ),
{
}

/// Every failure ends the attempt with the error that names it, and what does not
/// belong changes nothing.
pub proof fn law_forward_failures_are_named(f: ForwardView, event: ForwardEvent)
    ensures
        f.phase is Connecting ==> forward_next(f, ForwardEvent::ConnectFailed) == (
            ForwardPhase::Over,
            ForwardActionView::Fail { error: ForwardErrorView::ConnectFailed },
        ),
        f.phase is Requesting ==> forward_next(f, ForwardEvent::RequestFailed) == (
            ForwardPhase::Over,
            ForwardActionView::Fail { error: ForwardErrorView::RequestFailed },
        ),
        f.phase is Answering ==> forward_next(f, ForwardEvent::ReplyFailed) == (
            ForwardPhase::Over,
            ForwardActionView::Fail { error: ForwardErrorView::ReplyFailed },
        ),
        forward_next(f, event).1 is Wait ==> forward_next(f, event).0 == f.phase,
        forward_next(f, event).1 is Wait <==> {
            ||| f.phase is Connecting && !(event is Connected) && !(event is ConnectFailed)
            ||| f.phase is Requesting && !(event is RequestSent) && !(event is RequestFailed)
            ||| f.phase is Answering && !(event is Reply) && !(event is ReplyFailed)
            ||| f.phase is Over
        },
{
}

/// The proxy is probed every five seconds, for two at most; a bridge waits five for
/// its connection; and answers are read up to one KiB, data sixteen KiB at a time.
pub proof fn law_forwarder_limits()
    ensures
        crate::forwarder::HEALTH_CHECK_INTERVAL_SECS == 5,
        crate::forwarder::CONNECT_TIMEOUT_SECS == 2,
        crate::forwarder::BRIDGE_CONNECT_TIMEOUT_SECS == 5,
        crate::forwarder::REPLY_BUF_SIZE == 0x400,
        crate::forwarder::PROXY_READ_BUF_SIZE == 16 * 0x400,
{
}

/// A bridge and a connection through the proxy begin at the proxy. Once there, TLS
/// asks for a tunnel to the destination that was given, and the rest goes ahead.
pub proof fn law_way_to_the_proxy_begins(
    proxy_addr: Seq<char>,
    host: Seq<char>,
    port: u16,
    target: Seq<char>,
    is_tls: bool,
)
    ensures
        bridge_first(proxy_addr, host, port, is_tls).1 == (BridgeActionView::Connect {
            addr: proxy_addr,
        }),
        bridge_next(bridge_first(proxy_addr, host, port, true).0, BridgeEvent::Connected).1 == (
        BridgeActionView::SendRequest { text: connect_request(host + ":"@ + decimal(port as nat)) }),
        bridge_next(bridge_first(proxy_addr, host, port, false).0, BridgeEvent::Connected).1 == (
        BridgeActionView::AwaitData),
        forward_first(target, is_tls, proxy_addr).1 == (ForwardActionView::Connect {
            addr: proxy_addr,
        }),
        forward_next(forward_first(target, true, proxy_addr).0, ForwardEvent::Connected).1 == (
        ForwardActionView::SendRequest { text: connect_request(target) }),
        forward_next(forward_first(target, false, proxy_addr).0, ForwardEvent::Connected).1 == (
        ForwardActionView::Ready),
{
}

/// The proxy was found reachable exactly where the probe's status says so, which
/// is where a connection was made.
pub proof fn law_reachable_is_what_connects(probe: Probe)
    ensures
        found_reachable(probe) <==> probe_status(probe) == ProxyStatus::Reachable,
        found_reachable(probe) <==> probe is Connected,
{
}

/// A bridge is over exactly where it fails or finishes, or was over before.
pub proof fn law_bridge_ends_once(b: BridgeView, event: BridgeEvent)
    ensures
        bridge_next(b, event).0 is Over <==> b.phase is Over || bridge_next(b, event).1 is Fail
            || bridge_next(b, event).1 is Finish,
{
}

/// Each way to fail has its own wording.
pub proof fn law_failures_are_worded()
    ensures
        BridgeErrorView::ConnectTimedOut.words() == "timed out connecting to proxy"@,
        BridgeErrorView::ConnectFailed.words() == "failed to connect to proxy"@,
        BridgeErrorView::RequestFailed.words() == "failed to send CONNECT request to proxy"@,
        BridgeErrorView::ReplyFailed.words() == "failed to read CONNECT response from proxy"@,
        BridgeErrorView::WriteFailed.words() == "failed to write to proxy stream"@,
        BridgeErrorView::ShutdownFailed.words() == "failed to shutdown proxy write half"@,
        ForwardErrorView::ConnectFailed.words() == "failed to connect to proxy"@,
        ForwardErrorView::RequestFailed.words() == "failed to send CONNECT request"@,
        ForwardErrorView::ReplyFailed.words() == "failed to read CONNECT response"@,
{
}

} // verus!

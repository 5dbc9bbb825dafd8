//! What each operation does to the daemon's state, entry by entry, what it
//! announces, and what the totals come to over time.

use vstd::prelude::*;

use crate::hub::{
    all_routed, app_routed, app_routed_messages, bytes_messages, bytes_updated, command_messages,
    commanded, empty_hub, end_fits, end_messages, ended, kept, reports, shut_down, start_fits,
    start_messages, start_of, started, status_messages, status_noted, wants_state, FlowStart,
    HubView,
};
use crate::proto::{AppView, CommandView, FlowView, MessageView, Proto, ProxyStatus, RouteAction};

verus! {

/// A flow that starts is held as it was given, without bytes, with the routing of
/// its application, and every other flow stays as it was.
pub proof fn law_started_flow_is_held(h: HubView, s: FlowStart, other: u64)
    requires
        other != s.flow_id,
    ensures
        ({
            let n = started(h, s);
            let f = n.flows[s.flow_id];
            &&& n.flows.contains_key(s.flow_id)
            &&& f.flow_id == s.flow_id
            &&& f.pid == s.pid
            &&& f.process_name == s.process_name
            &&& f.bundle_id == s.bundle_id
            &&& f.local_addr == s.local_addr
            &&& f.remote_addr == s.remote_addr
            &&& f.proto == s.proto
            &&& f.started_at == s.started_at
            &&& f.bytes_in == 0
            &&& f.bytes_out == 0
            &&& h.routing_rules.contains_key(s.bundle_id) ==> f.routing
                == h.routing_rules[s.bundle_id]
            &&& !h.routing_rules.contains_key(s.bundle_id) ==> f.routing == h.global_routing
            &&& n.flows.contains_key(other) == h.flows.contains_key(other)
            &&& h.flows.contains_key(other) ==> n.flows[other] == h.flows[other]
        }),
{
}

/// What is given of a flow is what is taken down of it.
pub proof fn law_start_takes_everything_down(
    flow_id: u64,
    pid: u32,
    process_name: Seq<char>,
    bundle_id: Seq<char>,
    local_addr: Seq<char>,
    remote_addr: Seq<char>,
    proto: Proto,
    started_at: u64,
)
    ensures
        ({
            let s = start_of(
                flow_id,
                pid,
                process_name,
                bundle_id,
                local_addr,
                remote_addr,
                proto,
                started_at,
            );
            &&& s.flow_id == flow_id
            &&& s.pid == pid
            &&& s.process_name == process_name
            &&& s.bundle_id == bundle_id
            &&& s.local_addr == local_addr
            &&& s.remote_addr == remote_addr
            &&& s.proto == proto
            &&& s.started_at == started_at
        }),
{
}

/// A flow of a known application leaves the application's name, its totals and
/// its routing alone. It is counted, and its process is listed, after those that
/// were listed, unless it was.
pub proof fn law_start_keeps_the_application(h: HubView, s: FlowStart)
    requires
        h.apps.contains_key(s.bundle_id),
        start_fits(h, s.bundle_id),
    ensures
        ({
            let before = h.apps[s.bundle_id];
            let after = started(h, s).apps[s.bundle_id];
            &&& started(h, s).apps.contains_key(s.bundle_id)
            &&& after.bundle_id == before.bundle_id
            &&& after.name == before.name
            &&& after.bytes_in == before.bytes_in
            &&& after.bytes_out == before.bytes_out
            &&& after.routing == before.routing
            &&& after.flow_count == before.flow_count + 1
            &&& before.pids.contains(s.pid) ==> after.pids == before.pids
            &&& !before.pids.contains(s.pid) ==> after.pids == before.pids.push(s.pid)
        }),
{
}

/// The first flow of an application makes it known: by the process's name, with
/// that one process and that one flow, without bytes.
pub proof fn law_start_makes_the_application_known(h: HubView, s: FlowStart)
    requires
        !h.apps.contains_key(s.bundle_id),
    ensures
        ({
            let a = started(h, s).apps[s.bundle_id];
            &&& started(h, s).apps.contains_key(s.bundle_id)
            &&& a.bundle_id == s.bundle_id
            &&& a.name == s.process_name
            &&& a.pids == seq![s.pid]
            &&& a.flow_count == 1
            &&& a.bytes_in == 0
            &&& a.bytes_out == 0
            &&& a.routing == started(h, s).flows[s.flow_id].routing
        }),
{
    assert(Seq::<u32>::empty().push(s.pid) =~= seq![s.pid]);
}

/// A flow that starts changes no other application, no rule and no status.
pub proof fn law_start_touches_nothing_else(h: HubView, s: FlowStart, other: Seq<char>)
    requires
        other != s.bundle_id,
    ensures
        ({
            let n = started(h, s);
            &&& n.apps.contains_key(other) == h.apps.contains_key(other)
            &&& h.apps.contains_key(other) ==> n.apps[other] == h.apps[other]
            &&& n.routing_rules == h.routing_rules
            &&& n.global_routing == h.global_routing
            &&& n.proxy_status == h.proxy_status
            &&& n.shutdowns == h.shutdowns
        }),
{
}

/// Clients are told of a flow that starts and of its application as the daemon
/// then holds them.
pub proof fn law_start_is_announced(h: HubView, s: FlowStart)
    ensures
        start_messages(h, s) == seq![
            MessageView::FlowUpdate { flow: started(h, s).flows[s.flow_id] },
            MessageView::AppUpdate { app: started(h, s).apps[s.bundle_id] },
        ],
{
}

/// Reported byte counts become those of the flow. Nothing else about the flow
/// changes, nor anything else the daemon holds.
pub proof fn law_reported_bytes_are_held(
    h: HubView,
    flow_id: u64,
    bytes_in: u64,
    bytes_out: u64,
    other: u64,
)
    requires
        h.flows.contains_key(flow_id),
        other != flow_id,
    ensures
        ({
            let n = bytes_updated(h, flow_id, bytes_in, bytes_out);
            let f = n.flows[flow_id];
            &&& f.bytes_in == bytes_in
            &&& f.bytes_out == bytes_out
            &&& n.flows.contains_key(flow_id)
            &&& h.flows[flow_id] == (FlowView {
                bytes_in: h.flows[flow_id].bytes_in,
                bytes_out: h.flows[flow_id].bytes_out,
                ..f
            })
            &&& n.flows.contains_key(other) == h.flows.contains_key(other)
            &&& h.flows.contains_key(other) ==> n.flows[other] == h.flows[other]
            &&& n.apps == h.apps
            &&& n.routing_rules == h.routing_rules
            &&& n.global_routing == h.global_routing
            &&& n.proxy_status == h.proxy_status
            &&& n.shutdowns == h.shutdowns
        }),
{
}

/// Clients are told of reported byte counts exactly where they change something,
/// and then of the flow as the daemon holds it.
pub proof fn law_changed_bytes_are_announced(
    h: HubView,
    flow_id: u64,
    bytes_in: u64,
    bytes_out: u64,
)
    ensures
        ({
            let n = bytes_updated(h, flow_id, bytes_in, bytes_out);
            let messages = bytes_messages(h, flow_id, bytes_in, bytes_out);
            &&& n == h ==> messages == Seq::<MessageView>::empty()
            &&& n != h ==> messages == seq![MessageView::FlowUpdate { flow: n.flows[flow_id] }]
        }),
{
    let n = bytes_updated(h, flow_id, bytes_in, bytes_out);
    if h.flows.contains_key(flow_id) {
        if h.flows[flow_id].bytes_in == bytes_in && h.flows[flow_id].bytes_out == bytes_out {
            assert(n.flows =~= h.flows);
        } else {
            assert(n.flows[flow_id] != h.flows[flow_id]);
        }
    }
}

/// A flow that ends is gone, and no other is. Its bytes are added to its
/// application, which counts one flow less. Nothing else about the application
/// changes.
pub proof fn law_ended_flow_is_settled(h: HubView, flow_id: u64, bytes_in: u64, bytes_out: u64)
    requires
        h.flows.contains_key(flow_id),
        h.apps.contains_key(h.flows[flow_id].bundle_id),
        end_fits(h, flow_id, bytes_in, bytes_out),
    ensures
        ({
            let n = ended(h, flow_id, bytes_in, bytes_out);
            let b = h.flows[flow_id].bundle_id;
            &&& n.flows == h.flows.remove(flow_id)
            &&& n.apps.contains_key(b)
            &&& n.apps[b].bytes_in == h.apps[b].bytes_in + bytes_in
            &&& n.apps[b].bytes_out == h.apps[b].bytes_out + bytes_out
            &&& h.apps[b].flow_count > 0 ==> n.apps[b].flow_count == h.apps[b].flow_count - 1
            &&& h.apps[b].flow_count == 0 ==> n.apps[b].flow_count == 0
            &&& n.apps[b].bundle_id == h.apps[b].bundle_id
            &&& n.apps[b].name == h.apps[b].name
            &&& n.apps[b].pids == h.apps[b].pids
            &&& n.apps[b].routing == h.apps[b].routing
            &&& n.apps.remove(b) == h.apps.remove(b)
            &&& end_messages(h, flow_id, bytes_in, bytes_out) == seq![
                MessageView::AppUpdate { app: n.apps[b] },
                MessageView::FlowRemoved { flow_id },
            ]
        }),
{
    let n = ended(h, flow_id, bytes_in, bytes_out);
    let b = h.flows[flow_id].bundle_id;
    assert(n.apps.remove(b) =~= h.apps.remove(b));
}

/// A flow that ends changes no rule and no status, and no application where it
/// has none.
pub proof fn law_end_touches_nothing_else(h: HubView, flow_id: u64, bytes_in: u64, bytes_out: u64)
    ensures
        ({
            let n = ended(h, flow_id, bytes_in, bytes_out);
            &&& n.flows == h.flows.remove(flow_id)
            &&& n.apps.dom() == h.apps.dom()
            &&& n.routing_rules == h.routing_rules
            &&& n.global_routing == h.global_routing
            &&& n.proxy_status == h.proxy_status
            &&& n.shutdowns == h.shutdowns
            &&& h.flows.contains_key(flow_id) && !h.apps.contains_key(h.flows[flow_id].bundle_id)
                ==> n.apps == h.apps && end_messages(h, flow_id, bytes_in, bytes_out) == seq![
                MessageView::FlowRemoved { flow_id },
            ]
        }),
{
    let n = ended(h, flow_id, bytes_in, bytes_out);
    assert(n.apps.dom() =~= h.apps.dom());
}

/// Flows can start as long as the application's count can take one more, and end
/// as long as its totals can take their bytes.
pub proof fn law_only_full_counters_stop_flows(
    h: HubView,
    bundle_id: Seq<char>,
    flow_id: u64,
    bytes_in: u64,
    bytes_out: u64,
)
    ensures
        start_fits(h, bundle_id) <==> (h.apps.contains_key(bundle_id) ==> h.apps[bundle_id].flow_count
            + 1 <= usize::MAX),
        end_fits(h, flow_id, bytes_in, bytes_out) <==> (h.flows.contains_key(flow_id)
            && h.apps.contains_key(h.flows[flow_id].bundle_id) ==> {
            &&& h.apps[h.flows[flow_id].bundle_id].bytes_in + bytes_in <= 0xffff_ffff_ffff_ffff
            &&& h.apps[h.flows[flow_id].bundle_id].bytes_out + bytes_out <= 0xffff_ffff_ffff_ffff
        }),
{
}

/// A rule is held for its application and for no other.
pub proof fn law_rule_is_held(
    h: HubView,
    bundle_id: Seq<char>,
    action: RouteAction,
    other: Seq<char>,
)
    requires
        other != bundle_id,
    ensures
        ({
            let n = app_routed(h, bundle_id, action);
            &&& n.routing_rules.contains_key(bundle_id)
            &&& n.routing_rules[bundle_id] == action
            &&& n.routing_rules.contains_key(other) == h.routing_rules.contains_key(other)
            &&& h.routing_rules.contains_key(other) ==> n.routing_rules[other]
                == h.routing_rules[other]
            &&& n.global_routing == h.global_routing
            &&& n.proxy_status == h.proxy_status
            &&& n.shutdowns == h.shutdowns
        }),
{
}

/// A rule changes the routing of its application and of that application's flows,
/// and nothing else about any application or flow. Clients are told of the
/// application as it then is, if it is known.
pub proof fn law_rule_takes_effect(
    h: HubView,
    bundle_id: Seq<char>,
    action: RouteAction,
    b: Seq<char>,
    f: u64,
)
    ensures
        ({
            let n = app_routed(h, bundle_id, action);
            &&& n.apps.contains_key(b) == h.apps.contains_key(b)
            &&& h.apps.contains_key(b) ==> n.apps[b] == (AppView {
                routing: if b == bundle_id {
                    action
                } else {
                    h.apps[b].routing
                },
                ..h.apps[b]
            })
            &&& n.flows.contains_key(f) == h.flows.contains_key(f)
            &&& h.flows.contains_key(f) ==> n.flows[f] == (FlowView {
                routing: if h.flows[f].bundle_id == bundle_id {
                    action
                } else {
                    h.flows[f].routing
                },
                ..h.flows[f]
            })
            &&& h.apps.contains_key(bundle_id) ==> app_routed_messages(h, bundle_id, action)
                == seq![MessageView::AppUpdate { app: n.apps[bundle_id] }]
            &&& !h.apps.contains_key(bundle_id) ==> app_routed_messages(h, bundle_id, action)
                == Seq::<MessageView>::empty()
        }),
{
}

/// The global action changes the routing of the applications and flows without a
/// rule, and nothing else about any, and no rule.
pub proof fn law_global_action_takes_effect(h: HubView, action: RouteAction, b: Seq<char>, f: u64)
    requires
        h.apps.contains_key(b) ==> h.apps[b].bundle_id == b,
    ensures
        ({
            let n = all_routed(h, action);
            &&& n.global_routing == action
            &&& n.routing_rules == h.routing_rules
            &&& n.proxy_status == h.proxy_status
            &&& n.shutdowns == h.shutdowns
            &&& n.apps.contains_key(b) == h.apps.contains_key(b)
            &&& h.apps.contains_key(b) ==> n.apps[b] == (AppView {
                routing: if h.routing_rules.contains_key(b) {
                    h.apps[b].routing
                } else {
                    action
                },
                ..h.apps[b]
            })
            &&& n.flows.contains_key(f) == h.flows.contains_key(f)
            &&& h.flows.contains_key(f) ==> n.flows[f] == (FlowView {
                routing: if h.routing_rules.contains_key(h.flows[f].bundle_id) {
                    h.flows[f].routing
                } else {
                    action
                },
                ..h.flows[f]
            })
        }),
{
}

/// Asking for the state changes nothing and is answered; a shutdown is only
/// signalled; and a change of routing is not answered, and announced only where it
/// is about one application.
pub proof fn law_commands_do_what_they_say(
    h: HubView,
    bundle_id: Seq<char>,
    action: RouteAction,
)
    ensures
        commanded(h, CommandView::Subscribe) == h,
        commanded(h, CommandView::GetState) == h,
        commanded(h, CommandView::Shutdown) == (HubView { shutdowns: h.shutdowns + 1, ..h }),
        commanded(h, CommandView::SetAppRouting { bundle_id, action }) == app_routed(
            h,
            bundle_id,
            action,
        ),
        commanded(h, CommandView::SetGlobalRouting { action }) == all_routed(h, action),
        wants_state(CommandView::Subscribe),
        wants_state(CommandView::GetState),
        !wants_state(CommandView::Shutdown),
        !wants_state(CommandView::SetAppRouting { bundle_id, action }),
        !wants_state(CommandView::SetGlobalRouting { action }),
        command_messages(h, CommandView::Subscribe) == Seq::<MessageView>::empty(),
        command_messages(h, CommandView::GetState) == Seq::<MessageView>::empty(),
        command_messages(h, CommandView::Shutdown) == Seq::<MessageView>::empty(),
        command_messages(h, CommandView::SetGlobalRouting { action })
            == Seq::<MessageView>::empty(),
        command_messages(h, CommandView::SetAppRouting { bundle_id, action })
            == app_routed_messages(h, bundle_id, action),
{
}

/// A new status of the proxy is announced, and one that is not new is not.
pub proof fn law_new_status_is_announced(h: HubView, status: ProxyStatus)
    ensures
        h.proxy_status == status ==> status_messages(h, status) == Seq::<MessageView>::empty(),
        h.proxy_status != status ==> status_messages(h, status) == seq![
            MessageView::ProxyStatusUpdate { status },
        ],
{
}

/// A report lists what the daemon holds and nothing else, each application and
/// each flow once, as it is held.
pub proof fn law_reports_are_complete(m: MessageView, h: HubView)
    requires
        reports(m, h),
    ensures
        m is FullState,
        m->proxy_status == h.proxy_status,
        forall|i: int|
            0 <= i < m->apps.len() ==> h.apps.contains_key((#[trigger] m->apps[i]).bundle_id)
                && h.apps[m->apps[i].bundle_id] == m->apps[i],
        forall|b: Seq<char>| #[trigger]
            h.apps.contains_key(b) ==> exists|i: int|
                0 <= i < m->apps.len() && #[trigger] m->apps[i] == h.apps[b],
        forall|i: int, j: int|
            0 <= i < j < m->apps.len() ==> (#[trigger] m->apps[i]).bundle_id != (
            #[trigger] m->apps[j]).bundle_id,
        forall|i: int|
            0 <= i < m->flows.len() ==> h.flows.contains_key((#[trigger] m->flows[i]).flow_id)
                && h.flows[m->flows[i].flow_id] == m->flows[i],
        forall|f: u64| #[trigger]
            h.flows.contains_key(f) ==> exists|i: int|
                0 <= i < m->flows.len() && #[trigger] m->flows[i] == h.flows[f],
        forall|i: int, j: int|
            0 <= i < j < m->flows.len() ==> (#[trigger] m->flows[i]).flow_id != (
            #[trigger] m->flows[j]).flow_id,
{
    let apps = m->apps;
    let flows = m->flows;
    let ak = crate::hub::app_key();
    let fk = crate::hub::flow_key();
    assert forall|i: int| 0 <= i < apps.len() implies h.apps.contains_key(
        (#[trigger] apps[i]).bundle_id,
    ) && h.apps[apps[i].bundle_id] == apps[i] by {
        crate::table::lemma_lookup(apps, ak, i);
        assert(ak(apps[i]) == apps[i].bundle_id);
    }
    assert forall|b: Seq<char>| #[trigger] h.apps.contains_key(b) implies exists|i: int|
        0 <= i < apps.len() && #[trigger] apps[i] == h.apps[b] by {
        let i = choose|i: int| 0 <= i < apps.len() && ak(#[trigger] apps[i]) == b;
        crate::table::lemma_lookup(apps, ak, i);
        assert(apps[i] == h.apps[b]);
    }
    assert forall|i: int, j: int| 0 <= i < j < apps.len() implies (#[trigger] apps[i]).bundle_id
        != (#[trigger] apps[j]).bundle_id by {
        assert(ak(apps[i]) != ak(apps[j]));
    }
    assert forall|i: int| 0 <= i < flows.len() implies h.flows.contains_key(
        (#[trigger] flows[i]).flow_id,
    ) && h.flows[flows[i].flow_id] == flows[i] by {
        crate::table::lemma_lookup(flows, fk, i);
        assert(fk(flows[i]) == flows[i].flow_id);
    }
    assert forall|f: u64| #[trigger] h.flows.contains_key(f) implies exists|i: int|
        0 <= i < flows.len() && #[trigger] flows[i] == h.flows[f] by {
        let i = choose|i: int| 0 <= i < flows.len() && fk(#[trigger] flows[i]) == f;
        crate::table::lemma_lookup(flows, fk, i);
        assert(flows[i] == h.flows[f]);
    }
    assert forall|i: int, j: int| 0 <= i < j < flows.len() implies (#[trigger] flows[i]).flow_id
        != (#[trigger] flows[j]).flow_id by {
        assert(fk(flows[i]) != fk(flows[j]));
    }
}

/// What happens to the daemon's state.
pub enum HubEvent {
    Start { start: FlowStart },
    Bytes { flow_id: u64, bytes_in: u64, bytes_out: u64 },
    End { flow_id: u64, bytes_in: u64, bytes_out: u64 },
    Command { cmd: CommandView },
    Status { status: ProxyStatus },
}

/// The state after something happened.
pub open spec fn hub_after(h: HubView, event: HubEvent) -> HubView {
    match event {
        HubEvent::Start { start } => started(h, start),
        HubEvent::Bytes { flow_id, bytes_in, bytes_out } => bytes_updated(
            h,
            flow_id,
            bytes_in,
            bytes_out,
        ),
        HubEvent::End { flow_id, bytes_in, bytes_out } => ended(h, flow_id, bytes_in, bytes_out),
        HubEvent::Command { cmd } => commanded(h, cmd),
        HubEvent::Status { status } => HubView { proxy_status: status, ..h },
    }
}

/// The state after all that happened since the daemon began, first to last.
pub open spec fn hub_through(events: Seq<HubEvent>) -> HubView
    decreases events.len(),
{
    if events.len() == 0 {
        empty_hub()
    } else {
        hub_after(hub_through(events.drop_last()), events.last())
    }
}

/// The counters could take all that happened.
pub open spec fn all_fits(events: Seq<HubEvent>) -> bool
    decreases events.len(),
{
    events.len() > 0 ==> {
        let h = hub_through(events.drop_last());
        &&& all_fits(events.drop_last())
        &&& match events.last() {
            HubEvent::Start { start } => start_fits(h, start.bundle_id),
            HubEvent::End { flow_id, bytes_in, bytes_out } => end_fits(
                h,
                flow_id,
                bytes_in,
                bytes_out,
            ),
            _ => true,
        }
    }
}

/// The bytes, in and out, with which flows of the application have ended.
pub open spec fn ended_bytes(events: Seq<HubEvent>, bundle_id: Seq<char>) -> (nat, nat)
    decreases events.len(),
{
    if events.len() == 0 {
        (0, 0)
    } else {
        let (i, o) = ended_bytes(events.drop_last(), bundle_id);
        let live = hub_through(events.drop_last()).flows;
        match events.last() {
            HubEvent::End { flow_id, bytes_in, bytes_out } if live.contains_key(flow_id)
                && live[flow_id].bundle_id == bundle_id => (
                i + bytes_in as nat,
                o + bytes_out as nat,
            ),
            _ => (i, o),
        }
    }
}

/// The totals of an application are the bytes of all its flows that have ended, no
/// more and no less, whatever else happened; and an application that is not known
/// has none.
pub proof fn law_totals_are_the_ended_bytes(events: Seq<HubEvent>, bundle_id: Seq<char>)
    requires
        all_fits(events),
    ensures
        ({
            let apps = hub_through(events).apps;
            let (i, o) = ended_bytes(events, bundle_id);
            &&& apps.contains_key(bundle_id) ==> apps[bundle_id].bytes_in == i
                && apps[bundle_id].bytes_out == o
            &&& !apps.contains_key(bundle_id) ==> i == 0 && o == 0
        }),
    decreases events.len(),
{
    if events.len() > 0 {
        let front = events.drop_last();
        let h = hub_through(front);
        law_totals_are_the_ended_bytes(front, bundle_id);
        lemma_flows_have_applications(front);
        match events.last() {
            HubEvent::Command { cmd } => {
                assert(commanded(h, cmd).apps.dom() =~= h.apps.dom());
            },
            HubEvent::End { flow_id, bytes_in, bytes_out } => {
                if h.flows.contains_key(flow_id) {
                    assert(h.apps.contains_key(h.flows[flow_id].bundle_id));
                }
            },
            _ => {},
        }
    }
}

/// Every live flow's application is known.
proof fn lemma_flows_have_applications(events: Seq<HubEvent>)
    ensures
        forall|f: u64| #[trigger]
            hub_through(events).flows.contains_key(f) ==> hub_through(events).apps.contains_key(
                hub_through(events).flows[f].bundle_id,
            ),
    decreases events.len(),
{
    if events.len() > 0 {
        let front = events.drop_last();
        let h = hub_through(front);
        let n = hub_through(events);
        lemma_flows_have_applications(front);
        assert forall|f: u64| #[trigger] n.flows.contains_key(f) implies n.apps.contains_key(
            n.flows[f].bundle_id,
        ) by {
            match events.last() {
                HubEvent::Start { start } => {
                    if f != start.flow_id {
                        assert(h.flows.contains_key(f));
                    }
                },
                _ => {
                    assert(h.flows.contains_key(f));
                },
            }
        }
    }
}

/// Those who stay after a round of deliveries are those with a delivery, in their
/// order: each stays or goes on its own account, and whoever came first stays
/// first.
pub proof fn law_each_stays_on_its_own_account<T>(
    a: Seq<T>,
    b: Seq<T>,
    got_a: Seq<bool>,
    got_b: Seq<bool>,
    x: T,
)
    requires
        got_a.len() == a.len(),
        got_b.len() == b.len(),
    ensures
        kept(a + b, got_a + got_b) == kept(a, got_a) + kept(b, got_b),
        kept(seq![x], seq![true]) == seq![x],
        kept(seq![x], seq![false]) == Seq::<T>::empty(),
    decreases b.len(),
{
    reveal_with_fuel(kept, 3);
    assert(seq![x].drop_last() =~= Seq::<T>::empty());
    assert(Seq::<T>::empty().push(x) =~= seq![x]);
    if b.len() == 0 {
        assert(a + b =~= a);
        assert(got_a + got_b =~= got_a);
        assert(kept(a, got_a) + kept(b, got_b) =~= kept(a, got_a));
    } else {
        let p = b.drop_last();
        let got_p = got_b.drop_last();
        law_each_stays_on_its_own_account(a, p, got_a, got_p, x);
        assert((a + b).drop_last() =~= a + p);
        lemma_kept_reads_its_part(a + p, got_a + got_p, got_a + got_b);
        lemma_kept_reads_its_part(p, got_p, got_b);
        assert((got_a + got_b)[(a + b).len() - 1] == got_b[b.len() - 1]);
        assert((a + b).last() == b.last());
        let k = kept(p, got_b);
        assert((kept(a, got_a) + k).push(b.last()) =~= kept(a, got_a) + k.push(b.last()));
    }
}

/// Only the deliveries to the members themselves count.
proof fn lemma_kept_reads_its_part<T>(s: Seq<T>, got: Seq<bool>, more: Seq<bool>)
    requires
        got.len() >= s.len(),
        more.len() >= s.len(),
        forall|i: int| 0 <= i < s.len() ==> got[i] == more[i],
    ensures
        kept(s, got) == kept(s, more),
    decreases s.len(),
{
    if s.len() > 0 {
        lemma_kept_reads_its_part(s.drop_last(), got, more);
    }
}

/// A noted status is held until the next one is noted, and nothing else changes.
pub proof fn law_status_is_held(h: HubView, first: ProxyStatus, second: ProxyStatus)
    ensures
        status_noted(h, first).proxy_status == first,
        status_noted(status_noted(h, first), second) == status_noted(h, second),
        status_noted(status_noted(h, first), h.proxy_status) == h,
{
}

/// Every signal to shut down counts, and changes nothing else.
pub proof fn law_signals_count(h: HubView)
    ensures
        shut_down(h).shutdowns == h.shutdowns + 1,
        (HubView { shutdowns: h.shutdowns, ..shut_down(h) }) == h,
{
}

} // verus!

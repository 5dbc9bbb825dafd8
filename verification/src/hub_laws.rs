//! What holds of the daemon's state across its operations.

use tokio::sync::mpsc::UnboundedReceiver;
use vstd::prelude::*;

use crate::hub::{
    all_routed, app_before, app_routed, app_with_flow, broadcasts, bytes_messages, bytes_updated,
    commanded, empty_hub, end_fits, end_messages, ended, has_app, joined, kept, left, listens,
    outcomes, route_of, sends, speaks, start_fits, started, status_messages, told, took, FlowStart,
    HubView, Subscriber,
};
use crate::proto::{CommandView, DaemonToTuiMessage, MessageView, ProxyStatus, RouteAction};

verus! {

/// Every application and every flow shows the routing that is in force for it,
/// and every application is held under its own identifier.
pub open spec fn routes_agree(h: HubView) -> bool {
    &&& forall|b: Seq<char>| #[trigger]
        h.apps.contains_key(b) ==> h.apps[b].bundle_id == b && h.apps[b].routing == route_of(h, b)
    &&& forall|f: u64| #[trigger]
        h.flows.contains_key(f) ==> h.flows[f].routing == route_of(h, h.flows[f].bundle_id)
}

/// The shown routing is right from the start.
pub proof fn law_routes_agree_at_first()
    ensures
        routes_agree(empty_hub()),
{
}

/// A flow that starts keeps the shown routing right.
pub proof fn law_start_keeps_routes(h: HubView, s: FlowStart)
    requires
        routes_agree(h),
    ensures
        routes_agree(started(h, s)),
{
    let n = started(h, s);
    assert forall|b: Seq<char>| route_of(n, b) == route_of(h, b) by {}
    assert forall|f: u64| #[trigger] n.flows.contains_key(f) implies n.flows[f].routing
        == route_of(n, n.flows[f].bundle_id) by {
        if f != s.flow_id {
            assert(h.flows.contains_key(f));
        }
    }
    assert forall|b: Seq<char>| #[trigger] n.apps.contains_key(b) implies n.apps[b].bundle_id == b
        && n.apps[b].routing == route_of(n, b) by {
        if b != s.bundle_id {
            assert(h.apps.contains_key(b));
        }
    }
}

/// Reported byte counts keep the shown routing right.
pub proof fn law_bytes_keep_routes(h: HubView, flow_id: u64, bytes_in: u64, bytes_out: u64)
    requires
        routes_agree(h),
    ensures
        routes_agree(bytes_updated(h, flow_id, bytes_in, bytes_out)),
{
    let n = bytes_updated(h, flow_id, bytes_in, bytes_out);
    assert forall|f: u64| #[trigger] n.flows.contains_key(f) implies n.flows[f].routing
        == route_of(n, n.flows[f].bundle_id) by {
        assert(h.flows.contains_key(f));
    }
}

/// A flow that ends keeps the shown routing right.
pub proof fn law_end_keeps_routes(h: HubView, flow_id: u64, bytes_in: u64, bytes_out: u64)
    requires
        routes_agree(h),
    ensures
        routes_agree(ended(h, flow_id, bytes_in, bytes_out)),
{
    let n = ended(h, flow_id, bytes_in, bytes_out);
    assert forall|f: u64| #[trigger] n.flows.contains_key(f) implies n.flows[f].routing
        == route_of(n, n.flows[f].bundle_id) by {
        assert(h.flows.contains_key(f));
    }
    assert forall|b: Seq<char>| #[trigger] n.apps.contains_key(b) implies n.apps[b].bundle_id == b
        && n.apps[b].routing == route_of(n, b) by {
        assert(h.apps.contains_key(b));
    }
}

/// A client's command keeps the shown routing right.
pub proof fn law_commands_keep_routes(h: HubView, cmd: CommandView)
    requires
        routes_agree(h),
    ensures
        routes_agree(commanded(h, cmd)),
{
    let n = commanded(h, cmd);
    assert forall|f: u64| #[trigger] n.flows.contains_key(f) implies n.flows[f].routing
        == route_of(n, n.flows[f].bundle_id) by {
        assert(h.flows.contains_key(f));
    }
    assert forall|b: Seq<char>| #[trigger] n.apps.contains_key(b) implies n.apps[b].bundle_id == b
        && n.apps[b].routing == route_of(n, b) by {
        assert(h.apps.contains_key(b));
    }
}

/// A rule for one application decides for it, and for no other.
pub proof fn law_rule_decides(h: HubView, bundle_id: Seq<char>, action: RouteAction, other: Seq<char>)
    requires
        other != bundle_id,
    ensures
        route_of(app_routed(h, bundle_id, action), bundle_id) == action,
        route_of(app_routed(h, bundle_id, action), other) == route_of(h, other),
{
}

/// The global action decides for the applications without a rule, and for no
/// other.
pub proof fn law_global_is_the_fallback(h: HubView, action: RouteAction, bundle_id: Seq<char>)
    ensures
        route_of(all_routed(h, action), bundle_id) == (if h.routing_rules.contains_key(bundle_id) {
            h.routing_rules[bundle_id]
        } else {
            action
        }),
{
}

/// The live flows of one application.
pub open spec fn live_flows(h: HubView, bundle_id: Seq<char>) -> Set<u64> {
    Set::new(|f: u64| h.flows.contains_key(f) && h.flows[f].bundle_id == bundle_id)
}

/// Every flow belongs to an application that lists its process, no process is
/// listed twice, and every application counts its live flows.
pub open spec fn counts_agree(h: HubView) -> bool {
    &&& h.flows.dom().finite()
    &&& forall|f: u64| #[trigger]
        h.flows.contains_key(f) ==> h.apps.contains_key(h.flows[f].bundle_id)
            && h.apps[h.flows[f].bundle_id].pids.contains(h.flows[f].pid)
    &&& forall|b: Seq<char>| #[trigger]
        h.apps.contains_key(b) ==> h.apps[b].pids.no_duplicates() && h.apps[b].flow_count
            == live_flows(h, b).len()
}

/// The live flows of one application are finitely many.
proof fn lemma_live_finite(h: HubView, bundle_id: Seq<char>)
    requires
        h.flows.dom().finite(),
    ensures
        live_flows(h, bundle_id).finite(),
{
    assert(live_flows(h, bundle_id).subset_of(h.flows.dom()));
    vstd::set_lib::lemma_set_subset_finite(h.flows.dom(), live_flows(h, bundle_id));
}

/// The counts are right from the start.
pub proof fn law_counts_agree_at_first()
    ensures
        counts_agree(empty_hub()),
{
}

/// A flow with a new number keeps the counts right.
pub proof fn law_start_keeps_counts(h: HubView, s: FlowStart)
    requires
        counts_agree(h),
        start_fits(h, s.bundle_id),
        !h.flows.contains_key(s.flow_id),
    ensures
        counts_agree(started(h, s)),
{
    let n = started(h, s);
    let a = app_with_flow(h, s);
    let before = app_before(h, s).pids;
    assert(h.apps.contains_key(s.bundle_id) ==> before.no_duplicates());
    assert(a.pids.no_duplicates()) by {
        assert(before.no_duplicates());
    }
    assert(a.pids.contains(s.pid)) by {
        if !before.contains(s.pid) {
            assert(a.pids[before.len() as int] == s.pid);
        }
    }
    assert forall|p: u32| before.contains(p) implies a.pids.contains(p) by {
        let i = choose|i: int| 0 <= i < before.len() && before[i] == p;
        assert(a.pids[i] == p);
    }
    assert forall|f: u64| #[trigger] n.flows.contains_key(f) implies n.apps.contains_key(
        n.flows[f].bundle_id,
    ) && n.apps[n.flows[f].bundle_id].pids.contains(n.flows[f].pid) by {
        if f != s.flow_id {
            assert(h.flows.contains_key(f));
        }
    }
    assert forall|b: Seq<char>| #[trigger] n.apps.contains_key(b) implies n.apps[b].flow_count
        == live_flows(n, b).len() && n.apps[b].pids.no_duplicates() by {
        lemma_live_finite(h, b);
        if b == s.bundle_id {
            assert(live_flows(n, b) =~= live_flows(h, b).insert(s.flow_id));
            if !h.apps.contains_key(b) {
                assert(live_flows(h, b) =~= Set::empty());
            }
        } else {
            assert(h.apps.contains_key(b));
            assert(live_flows(n, b) =~= live_flows(h, b));
        }
    }
}

/// Reported byte counts keep the counts of flows right.
pub proof fn law_bytes_keep_counts(h: HubView, flow_id: u64, bytes_in: u64, bytes_out: u64)
    requires
        counts_agree(h),
    ensures
        counts_agree(bytes_updated(h, flow_id, bytes_in, bytes_out)),
{
    let n = bytes_updated(h, flow_id, bytes_in, bytes_out);
    assert(n.flows.dom() =~= h.flows.dom());
    assert forall|f: u64| #[trigger] n.flows.contains_key(f) implies n.apps.contains_key(
        n.flows[f].bundle_id,
    ) && n.apps[n.flows[f].bundle_id].pids.contains(n.flows[f].pid) by {
        assert(h.flows.contains_key(f));
    }
    assert forall|b: Seq<char>| #[trigger] n.apps.contains_key(b) implies n.apps[b].flow_count
        == live_flows(n, b).len() by {
        assert(live_flows(n, b) =~= live_flows(h, b));
    }
}

/// A flow that ends keeps the counts right.
pub proof fn law_end_keeps_counts(h: HubView, flow_id: u64, bytes_in: u64, bytes_out: u64)
    requires
        counts_agree(h),
    ensures
        counts_agree(ended(h, flow_id, bytes_in, bytes_out)),
{
    let n = ended(h, flow_id, bytes_in, bytes_out);
    assert forall|f: u64| #[trigger] n.flows.contains_key(f) implies n.apps.contains_key(
        n.flows[f].bundle_id,
    ) && n.apps[n.flows[f].bundle_id].pids.contains(n.flows[f].pid) by {
        assert(h.flows.contains_key(f));
    }
    assert forall|b: Seq<char>| #[trigger] n.apps.contains_key(b) implies n.apps[b].flow_count
        == live_flows(n, b).len() && n.apps[b].pids.no_duplicates() by {
        lemma_live_finite(h, b);
        assert(h.apps.contains_key(b));
        if h.flows.contains_key(flow_id) && b == h.flows[flow_id].bundle_id {
            assert(live_flows(h, b).contains(flow_id));
            assert(live_flows(n, b) =~= live_flows(h, b).remove(flow_id));
        } else {
            assert(live_flows(n, b) =~= live_flows(h, b));
        }
    }
}

/// A client's command keeps the counts right.
pub proof fn law_commands_keep_counts(h: HubView, cmd: CommandView)
    requires
        counts_agree(h),
    ensures
        counts_agree(commanded(h, cmd)),
{
    let n = commanded(h, cmd);
    assert(n.flows.dom() =~= h.flows.dom());
    assert forall|f: u64| #[trigger] n.flows.contains_key(f) implies n.apps.contains_key(
        n.flows[f].bundle_id,
    ) && n.apps[n.flows[f].bundle_id].pids.contains(n.flows[f].pid) by {
        assert(h.flows.contains_key(f));
    }
    assert forall|b: Seq<char>| #[trigger] n.apps.contains_key(b) implies n.apps[b].flow_count
        == live_flows(n, b).len() && n.apps[b].pids.no_duplicates() by {
        assert(h.apps.contains_key(b));
        assert(live_flows(n, b) =~= live_flows(h, b));
    }
}

/// A noted status keeps the shown routing and the counts right.
pub proof fn law_status_keeps_agreement(h: HubView, status: ProxyStatus)
    requires
        routes_agree(h),
        counts_agree(h),
    ensures
        routes_agree(HubView { proxy_status: status, ..h }),
        counts_agree(HubView { proxy_status: status, ..h }),
{
    let n = HubView { proxy_status: status, ..h };
    assert forall|b: Seq<char>| live_flows(n, b) == live_flows(h, b) by {
        assert(live_flows(n, b) =~= live_flows(h, b));
    }
    assert forall|b: Seq<char>| route_of(n, b) == route_of(h, b) by {}
}

/// A flow that starts with a new number and then ends leaves the live flows as
/// they were. Its application keeps its flow count, or begins with none, and
/// its totals grow by the flow's bytes. No other application changes.
pub proof fn law_end_undoes_start(h: HubView, s: FlowStart, bytes_in: u64, bytes_out: u64)
    requires
        !h.flows.contains_key(s.flow_id),
        start_fits(h, s.bundle_id),
        end_fits(started(h, s), s.flow_id, bytes_in, bytes_out),
    ensures
        ({
            let a = app_before(h, s);
            let n = ended(started(h, s), s.flow_id, bytes_in, bytes_out);
            &&& n.flows == h.flows
            &&& n.apps.contains_key(s.bundle_id)
            &&& n.apps[s.bundle_id].flow_count == a.flow_count
            &&& n.apps[s.bundle_id].bytes_in == a.bytes_in + bytes_in
            &&& n.apps[s.bundle_id].bytes_out == a.bytes_out + bytes_out
            &&& n.apps.remove(s.bundle_id) == h.apps.remove(s.bundle_id)
        }),
{
    let m = started(h, s);
    let n = ended(m, s.flow_id, bytes_in, bytes_out);
    assert(has_app(m, s.flow_id));
    assert(n.flows =~= h.flows);
    assert(n.apps.remove(s.bundle_id) =~= h.apps.remove(s.bundle_id));
}

/// Byte counts that were just reported are not announced again.
pub proof fn law_same_bytes_announced_once(
    h: HubView,
    flow_id: u64,
    bytes_in: u64,
    bytes_out: u64,
)
    ensures
        bytes_messages(
            bytes_updated(h, flow_id, bytes_in, bytes_out),
            flow_id,
            bytes_in,
            bytes_out,
        ) == Seq::<MessageView>::empty(),
{
}

/// A status that was just noted is not announced again.
pub proof fn law_same_status_announced_once(h: HubView, status: ProxyStatus)
    ensures
        status_messages(HubView { proxy_status: status, ..h }, status)
            == Seq::<MessageView>::empty(),
{
}

/// A flow that is not live neither changes anything nor is announced.
pub proof fn law_unknown_flow_is_ignored(h: HubView, flow_id: u64, bytes_in: u64, bytes_out: u64)
    requires
        !h.flows.contains_key(flow_id),
    ensures
        bytes_updated(h, flow_id, bytes_in, bytes_out) == h,
        bytes_messages(h, flow_id, bytes_in, bytes_out) == Seq::<MessageView>::empty(),
        ended(h, flow_id, bytes_in, bytes_out) == h,
        end_messages(h, flow_id, bytes_in, bytes_out) == Seq::<MessageView>::empty(),
{
    assert(h.flows.remove(flow_id) =~= h.flows);
}

/// What is kept are the members with a delivery, all of them.
proof fn lemma_kept<T>(s: Seq<T>, delivered: Seq<bool>)
    ensures
        kept(s, delivered).len() <= s.len(),
        forall|j: int|
            0 <= j < kept(s, delivered).len() ==> is_kept(s, delivered, #[trigger] kept(
                s,
                delivered,
            )[j]),
        forall|i: int|
            0 <= i < s.len() && delivered[i] ==> kept(s, delivered).contains(#[trigger] s[i]),
    decreases s.len(),
{
    if s.len() > 0 {
        let p = s.drop_last();
        let k = kept(s, delivered);
        let kp = kept(p, delivered);
        lemma_kept(p, delivered);
        assert forall|j: int| 0 <= j < k.len() implies is_kept(s, delivered, #[trigger] k[j]) by {
            if j < kp.len() {
                assert(k[j] == kp[j]);
                assert(is_kept(p, delivered, kp[j]));
                let i = choose|i: int| 0 <= i < p.len() && delivered[i] && kp[j] == #[trigger] p[i];
                assert(k[j] == s[i]);
            } else {
                assert(k[j] == s[s.len() - 1]);
            }
        }
        assert forall|i: int| 0 <= i < s.len() && delivered[i] implies k.contains(
            #[trigger] s[i],
        ) by {
            if i < p.len() {
                assert(p[i] == s[i]);
                let j = choose|j: int| 0 <= j < kp.len() && kp[j] == p[i];
                assert(k[j] == s[i]);
            } else {
                assert(k[k.len() - 1] == s[i]);
            }
        }
    }
}

/// `x` is a member of `s` with a delivery.
spec fn is_kept<T>(s: Seq<T>, delivered: Seq<bool>, x: T) -> bool {
    exists|i: int| 0 <= i < s.len() && delivered[i] && x == #[trigger] s[i]
}

/// The messages, each of them taken.
pub open spec fn all_taken(messages: Seq<MessageView>) -> Seq<(MessageView, bool)> {
    messages.map_values(|m: MessageView| (m, true))
}

/// `now` is the subscriber `before` after it took `messages`.
pub open spec fn went_on(now: Subscriber, before: Subscriber, messages: Seq<MessageView>) -> bool {
    speaks(now) == speaks(before) && sends(now) == sends(before) + all_taken(messages)
}

/// `gone` is the subscriber `before` after it took the first `k` of `messages`
/// and did not take the next.
pub open spec fn gave_up(
    gone: Subscriber,
    before: Subscriber,
    messages: Seq<MessageView>,
    k: int,
) -> bool {
    &&& 0 <= k < messages.len()
    &&& speaks(gone) == speaks(before)
    &&& sends(gone) == (sends(before) + all_taken(messages.take(k))).push((messages[k], false))
}

/// `x` is one of `before` after it took `messages`.
pub open spec fn stems_from(
    x: Subscriber,
    before: Seq<Subscriber>,
    messages: Seq<MessageView>,
) -> bool {
    exists|i: int| 0 <= i < before.len() && went_on(x, #[trigger] before[i], messages)
}

/// `x` is among `now` after it took `messages`.
pub open spec fn stays(x: Subscriber, now: Seq<Subscriber>, messages: Seq<MessageView>) -> bool {
    exists|j: int| 0 <= j < now.len() && went_on(#[trigger] now[j], x, messages)
}

/// In one of the rounds `x` did not take the message of the round.
pub open spec fn leaves(
    x: Subscriber,
    messages: Seq<MessageView>,
    rounds: Seq<Seq<Subscriber>>,
) -> bool {
    exists|r: int, i: int|
        0 <= r < rounds.len() && 0 <= i < rounds[r].len() && gave_up(
            #[trigger] rounds[r][i],
            x,
            messages,
            r,
        )
}

/// The rounds leave those of `before` that took every message, and cost no other
/// than those that did not take one.
proof fn lemma_broadcasts(
    before: Seq<Subscriber>,
    messages: Seq<MessageView>,
    rounds: Seq<Seq<Subscriber>>,
)
    requires
        broadcasts(before, messages, rounds),
    ensures
        left(before, rounds).len() <= before.len(),
        forall|j: int|
            0 <= j < left(before, rounds).len() ==> stems_from(
                #[trigger] left(before, rounds)[j],
                before,
                messages,
            ),
        forall|i: int|
            0 <= i < before.len() ==> stays(#[trigger] before[i], left(before, rounds), messages)
                || leaves(before[i], messages, rounds),
    decreases messages.len(),
{
    let now = left(before, rounds);
    if messages.len() == 0 {
        assert forall|j: int| 0 <= j < now.len() implies stems_from(
            #[trigger] now[j],
            before,
            messages,
        ) && stays(before[j], now, messages) by {
            assert(sends(before[j]) + all_taken(messages) == sends(before[j]));
            assert(went_on(now[j], before[j], messages));
        }
        assert forall|i: int| 0 <= i < before.len() implies stays(
            #[trigger] before[i],
            now,
            messages,
        ) || leaves(before[i], messages, rounds) by {
            assert(stems_from(now[i], before, messages));
        }
    } else {
        let m = messages.last();
        let first = messages.drop_last();
        let mid = left(before, rounds.drop_last());
        let after = rounds.last();
        lemma_broadcasts(before, first, rounds.drop_last());
        lemma_kept(after, outcomes(after));
        assert(first.push(m) == messages);
        assert(messages.take(messages.len() - 1) == first);
        assert forall|j: int| 0 <= j < now.len() implies stems_from(
            #[trigger] now[j],
            before,
            messages,
        ) by {
            assert(is_kept(after, outcomes(after), now[j]));
            let k = choose|k: int|
                0 <= k < after.len() && outcomes(after)[k] && now[j] == #[trigger] after[k];
            assert(stems_from(mid[k], before, first));
            let i = choose|i: int|
                0 <= i < before.len() && went_on(mid[k], #[trigger] before[i], first);
            lemma_step(before[i], mid[k], after[k], first, m);
            assert(went_on(now[j], before[i], messages));
        }
        assert forall|i: int| 0 <= i < before.len() implies stays(
            #[trigger] before[i],
            now,
            messages,
        ) || leaves(before[i], messages, rounds) by {
            if stays(before[i], mid, first) {
                let k = choose|k: int|
                    0 <= k < mid.len() && went_on(#[trigger] mid[k], before[i], first);
                assert(speaks(after[k]) == speaks(mid[k]));
                lemma_step(before[i], mid[k], after[k], first, m);
                if outcomes(after)[k] {
                    assert(now.contains(after[k]));
                    let j = choose|j: int| 0 <= j < now.len() && now[j] == after[k];
                    assert(went_on(now[j], before[i], messages));
                } else {
                    let r = rounds.len() - 1;
                    assert(gave_up(rounds[r][k], before[i], messages, r));
                }
            } else {
                let early = rounds.drop_last();
                assert(leaves(before[i], first, early));
                let (r, k) = choose|r: int, k: int|
                    0 <= r < early.len() && 0 <= k < early[r].len() && gave_up(
                        #[trigger] early[r][k],
                        before[i],
                        first,
                        r,
                    );
                assert(messages.take(r) == first.take(r));
                assert(rounds[r] == early[r]);
                assert(gave_up(rounds[r][k], before[i], messages, r));
            }
        }
    }
}

/// One send more.
proof fn lemma_step(
    before: Subscriber,
    mid: Subscriber,
    after: Subscriber,
    first: Seq<MessageView>,
    m: MessageView,
)
    requires
        went_on(mid, before, first),
        speaks(after) == speaks(mid),
        sends(after) == sends(mid).push((m, took(after))),
    ensures
        speaks(after) == speaks(before),
        sends(after) == (sends(before) + all_taken(first)).push((m, took(after))),
        took(after) ==> went_on(after, before, first.push(m)),
{
    assert(all_taken(first.push(m)) == all_taken(first).push((m, true)));
    assert((sends(before) + all_taken(first)).push((m, true)) == sends(before) + all_taken(
        first.push(m),
    ));
}

/// Whoever is still subscribed after a broadcast was subscribed before and took
/// every message of it, in order, after all that was sent to it before; and no
/// subscriber appears.
pub proof fn law_subscribers_hear_everything(
    now: Seq<Subscriber>,
    before: Seq<Subscriber>,
    messages: Seq<MessageView>,
)
    requires
        told(now, before, messages),
    ensures
        now.len() <= before.len(),
        forall|j: int|
            0 <= j < now.len() ==> stems_from(#[trigger] now[j], before, messages),
{
    let rounds = choose|rounds: Seq<Seq<Subscriber>>|
        #[trigger] broadcasts(before, messages, rounds) && now == left(before, rounds);
    lemma_broadcasts(before, messages, rounds);
}

/// Nobody loses a subscription but by not taking a message: after a broadcast
/// whoever was subscribed before either still is and took every message of it,
/// or did not take the message of one of its rounds.
pub proof fn law_only_refusals_end_subscriptions(
    before: Seq<Subscriber>,
    messages: Seq<MessageView>,
    rounds: Seq<Seq<Subscriber>>,
    i: int,
)
    requires
        broadcasts(before, messages, rounds),
        0 <= i < before.len(),
    ensures
        stays(before[i], left(before, rounds), messages) || leaves(before[i], messages, rounds),
{
    lemma_broadcasts(before, messages, rounds);
}

/// A new subscriber comes after all others, which stay as they were, hears nothing
/// of the past, and listens at the end that it was given.
pub proof fn law_new_subscribers_come_last(
    now: Seq<Subscriber>,
    before: Seq<Subscriber>,
    rx: UnboundedReceiver<DaemonToTuiMessage>,
)
    requires
        joined(now, before, rx),
    ensures
        now.len() == before.len() + 1,
        forall|i: int| 0 <= i < before.len() ==> #[trigger] now[i] == before[i],
        sends(now[now.len() - 1]).len() == 0,
        speaks(now[now.len() - 1]) == listens(rx),
{
    assert forall|i: int| 0 <= i < before.len() implies #[trigger] now[i] == before[i] by {
        assert(now.drop_last()[i] == now[i]);
    }
}

} // verus!

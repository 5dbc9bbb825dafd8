//! What holds of the client's state across keys and messages, and between the
//! client's state and the daemon's.

use vstd::prelude::*;

use crate::app::{
    app_position, applied, blank_screen, flow_position, key_fits, keyed_screen, moved, with_app,
    with_flow, without_flow, Screen,
};
use crate::event::Key;
use crate::hub::{
    app_key, app_routed, app_routed_messages, app_with, app_with_flow, app_without_flow,
    bytes_messages, bytes_updated, counted, end_messages, ended, flow_key, has_app, new_flow,
    reports, start_messages, started, status_messages, FlowStart, HubView,
};
use crate::proto::{AppView, FlowView, MessageView, ProxyStatus, RouteAction};
use crate::table::{has_key, keyed, lemma_lookup, lemma_push, lemma_remove, lemma_update, table};

verus! {

/// A selection lies within a list of `len`, or at the first place where the
/// list is empty.
pub open spec fn within(selected: usize, len: nat) -> bool {
    selected < len || (selected == 0 && len == 0)
}

/// Both selections lie within their lists.
pub open spec fn selections_within(s: Screen) -> bool {
    within(s.selected_app, s.apps.len()) && within(s.selected_flow, s.flows.len())
}

/// The selections lie within their lists from the start.
pub proof fn law_selections_within_at_first()
    ensures
        selections_within(blank_screen()),
{
}

/// A message keeps the selections within their lists.
pub proof fn law_messages_keep_selections_within(s: Screen, msg: MessageView)
    requires
        selections_within(s),
    ensures
        selections_within(applied(s, msg)),
{
}

/// With lists of up to 2^31 - 1 entries, every key can be handled, and keeps the
/// selections within their lists.
pub proof fn law_keys_keep_selections_within(s: Screen, key: Key)
    requires
        selections_within(s),
        s.apps.len() <= i32::MAX,
        s.flows.len() <= i32::MAX,
    ensures
        key_fits(s, key),
        selections_within(keyed_screen(s, key)),
{
    lemma_moved(s.selected_app, s.apps.len(), 1);
    lemma_moved(s.selected_app, s.apps.len(), -1);
    lemma_moved(s.selected_flow, s.flows.len(), 1);
    lemma_moved(s.selected_flow, s.flows.len(), -1);
}

proof fn lemma_moved(selected: usize, len: nat, delta: int)
    requires
        within(selected, len),
        len <= i32::MAX,
        delta == 1 || delta == -1,
    ensures
        within(moved(selected, len as usize, delta), len),
        len > 0 ==> moved(selected, len as usize, delta) == (selected + delta) % (len as int),
{
    if len > 0 {
        assert(len as usize as i32 == len);
        assert(selected as i32 == selected);
        let m = (selected + delta) % (len as int);
        assert(0 <= m < len) by (nonlinear_arith)
            requires
                len > 0,
                m == (selected + delta) % (len as int),
        ;
    }
}

/// A step down and a step up, or the other way round, lead back.
pub proof fn law_steps_cancel(selected: usize, len: nat)
    requires
        selected < len <= i32::MAX,
    ensures
        moved(moved(selected, len as usize, 1), len as usize, -1) == selected,
        moved(moved(selected, len as usize, -1), len as usize, 1) == selected,
{
    lemma_moved(selected, len, 1);
    lemma_moved(selected, len, -1);
    let down = moved(selected, len as usize, 1);
    let up = moved(selected, len as usize, -1);
    lemma_moved(down, len, -1);
    lemma_moved(up, len, 1);
    let n = len as int;
    if selected + 1 < n {
        vstd::arithmetic::div_mod::lemma_small_mod((selected + 1) as nat, len);
        vstd::arithmetic::div_mod::lemma_small_mod(selected as nat, len);
    } else {
        vstd::arithmetic::div_mod::lemma_mod_self_0(n);
        lemma_minus_one(n);
    }
    if selected > 0 {
        vstd::arithmetic::div_mod::lemma_small_mod((selected - 1) as nat, len);
        vstd::arithmetic::div_mod::lemma_small_mod(selected as nat, len);
    } else {
        lemma_minus_one(n);
        vstd::arithmetic::div_mod::lemma_mod_self_0(n);
    }
}

proof fn lemma_minus_one(n: int)
    requires
        n > 0,
    ensures
        (-1int) % n == n - 1,
{
    vstd::arithmetic::div_mod::lemma_fundamental_div_mod_converse(-1, n, -1, n - 1);
}

/// The selection goes around the ends: down from the last is the first, up from
/// the first is the last.
pub proof fn law_steps_wrap(len: nat)
    requires
        0 < len <= i32::MAX,
    ensures
        moved((len - 1) as usize, len as usize, 1) == 0,
        moved(0, len as usize, -1) == len - 1,
{
    lemma_moved((len - 1) as usize, len, 1);
    lemma_moved(0, len, -1);
    vstd::arithmetic::div_mod::lemma_mod_self_0(len as int);
    lemma_minus_one(len as int);
}

/// Switching the focus twice changes nothing.
pub proof fn law_tab_twice_is_nothing(s: Screen)
    ensures
        keyed_screen(keyed_screen(s, Key::Tab), Key::Tab) == s,
{
}

/// The client shows the applications that the daemon holds, each once.
pub open spec fn shows_apps(s: Screen, h: HubView) -> bool {
    keyed(s.apps, app_key()) && table(s.apps, app_key()) == h.apps
}

/// The client shows the flows that the daemon holds, each once.
pub open spec fn shows_flows(s: Screen, h: HubView) -> bool {
    keyed(s.flows, flow_key()) && table(s.flows, flow_key()) == h.flows
}

/// The client shows what the daemon holds.
pub open spec fn mirrors(s: Screen, h: HubView) -> bool {
    shows_apps(s, h) && shows_flows(s, h) && s.proxy_status == h.proxy_status
}

/// The state after messages, first to last.
pub open spec fn applied_all(s: Screen, messages: Seq<MessageView>) -> Screen
    decreases messages.len(),
{
    if messages.len() == 0 {
        s
    } else {
        applied(applied_all(s, messages.drop_last()), messages.last())
    }
}

proof fn lemma_flow_position(s: Seq<FlowView>, flow_id: u64)
    ensures
        flow_position(s, flow_id) <= s.len(),
        flow_position(s, flow_id) < s.len() ==> s[flow_position(s, flow_id) as int].flow_id
            == flow_id,
        flow_position(s, flow_id) == s.len() ==> !has_key(s, flow_key(), flow_id),
    decreases s.len(),
{
    if s.len() > 0 && s[0].flow_id != flow_id {
        let t = s.drop_first();
        lemma_flow_position(t, flow_id);
        if flow_position(t, flow_id) == t.len() {
            assert forall|i: int| 0 <= i < s.len() implies flow_key()(#[trigger] s[i]) != flow_id by {
                if i > 0 {
                    assert(s[i] == t[i - 1]);
                    assert(flow_key()(t[i - 1]) != flow_id);
                }
            }
        }
    }
}

proof fn lemma_app_position(s: Seq<AppView>, bundle_id: Seq<char>)
    ensures
        app_position(s, bundle_id) <= s.len(),
        app_position(s, bundle_id) < s.len() ==> s[app_position(s, bundle_id) as int].bundle_id
            == bundle_id,
        app_position(s, bundle_id) == s.len() ==> !has_key(s, app_key(), bundle_id),
    decreases s.len(),
{
    if s.len() > 0 && s[0].bundle_id != bundle_id {
        let t = s.drop_first();
        lemma_app_position(t, bundle_id);
        if app_position(t, bundle_id) == t.len() {
            assert forall|i: int| 0 <= i < s.len() implies app_key()(#[trigger] s[i])
                != bundle_id by {
                if i > 0 {
                    assert(s[i] == t[i - 1]);
                    assert(app_key()(t[i - 1]) != bundle_id);
                }
            }
        }
    }
}

/// Putting a flow in is an insertion into the table.
proof fn lemma_with_flow(s: Seq<FlowView>, flow: FlowView)
    requires
        keyed(s, flow_key()),
    ensures
        keyed(with_flow(s, flow), flow_key()),
        table(with_flow(s, flow), flow_key()) == table(s, flow_key()).insert(flow.flow_id, flow),
{
    lemma_flow_position(s, flow.flow_id);
    let i = flow_position(s, flow.flow_id) as int;
    if i < s.len() {
        lemma_update(s, flow_key(), i, flow);
    } else {
        lemma_push(s, flow_key(), flow);
    }
}

/// Putting an application in is an insertion into the table.
proof fn lemma_with_app(s: Seq<AppView>, app: AppView)
    requires
        keyed(s, app_key()),
    ensures
        keyed(with_app(s, app), app_key()),
        table(with_app(s, app), app_key()) == table(s, app_key()).insert(app.bundle_id, app),
{
    lemma_app_position(s, app.bundle_id);
    let i = app_position(s, app.bundle_id) as int;
    if i < s.len() {
        lemma_update(s, app_key(), i, app);
    } else {
        lemma_push(s, app_key(), app);
    }
}

/// Where no flow has the number, none is removed.
proof fn lemma_without_absent(s: Seq<FlowView>, flow_id: u64)
    requires
        forall|i: int| 0 <= i < s.len() ==> (#[trigger] s[i]).flow_id != flow_id,
    ensures
        without_flow(s, flow_id) == s,
    decreases s.len(),
{
    reveal(Seq::filter);
    if s.len() > 0 {
        assert forall|i: int| 0 <= i < s.drop_last().len() implies (#[trigger] s.drop_last()[i]).flow_id
            != flow_id by {
            assert(s.drop_last()[i] == s[i]);
        }
        lemma_without_absent(s.drop_last(), flow_id);
        assert(s.drop_last().push(s.last()) == s);
    }
}

/// Where one flow has the number, that one is removed.
proof fn lemma_without_present(s: Seq<FlowView>, flow_id: u64, i: int)
    requires
        keyed(s, flow_key()),
        0 <= i < s.len(),
        s[i].flow_id == flow_id,
    ensures
        without_flow(s, flow_id) == s.remove(i),
    decreases s.len(),
{
    reveal(Seq::filter);
    let front = s.drop_last();
    assert(keyed(front, flow_key())) by {
        assert forall|a: int, b: int| 0 <= a < front.len() && 0 <= b < front.len() && a != b implies flow_key()(
            #[trigger] front[a],
        ) != flow_key()(#[trigger] front[b]) by {
            assert(front[a] == s[a] && front[b] == s[b]);
        }
    }
    if i == s.len() - 1 {
        assert forall|j: int| 0 <= j < front.len() implies (#[trigger] front[j]).flow_id
            != flow_id by {
            assert(flow_key()(s[j]) != flow_key()(s[i]));
        }
        lemma_without_absent(front, flow_id);
        assert(front == s.remove(i));
    } else {
        lemma_without_present(front, flow_id, i);
        assert(flow_key()(s[s.len() - 1]) != flow_key()(s[i]));
        assert(front.remove(i).push(s.last()) == s.remove(i));
    }
}

/// Removing a flow is a removal from the table.
proof fn lemma_without_flow(s: Seq<FlowView>, flow_id: u64)
    requires
        keyed(s, flow_key()),
    ensures
        keyed(without_flow(s, flow_id), flow_key()),
        table(without_flow(s, flow_id), flow_key()) == table(s, flow_key()).remove(flow_id),
{
    lemma_flow_position(s, flow_id);
    let i = flow_position(s, flow_id) as int;
    if i < s.len() {
        lemma_without_present(s, flow_id, i);
        lemma_remove(s, flow_key(), i);
    } else {
        assert forall|j: int| 0 <= j < s.len() implies (#[trigger] s[j]).flow_id != flow_id by {
            assert(flow_key()(s[j]) != flow_id);
        }
        lemma_without_absent(s, flow_id);
        assert(table(s, flow_key()).remove(flow_id) =~= table(s, flow_key()));
    }
}

/// After a report of the full state, the client shows what the daemon held.
pub proof fn law_report_is_mirrored(s: Screen, m: MessageView, h: HubView)
    requires
        reports(m, h),
    ensures
        mirrors(applied(s, m), h),
{
}

/// A client that shows what the daemon holds still does once it has applied the
/// messages about a flow that started.
pub proof fn law_start_is_mirrored(s: Screen, h: HubView, start: FlowStart)
    requires
        mirrors(s, h),
    ensures
        mirrors(applied_all(s, start_messages(h, start)), started(h, start)),
{
    let ms = start_messages(h, start);
    let flow = new_flow(h, start);
    let app = app_with_flow(h, start);
    assert(ms.drop_last().drop_last() =~= Seq::empty());
    reveal_with_fuel(applied_all, 3);
    lemma_with_flow(s.flows, flow);
    lemma_with_app(s.apps, app);
    if h.apps.contains_key(start.bundle_id) {
        lemma_app_entry(s.apps, start.bundle_id);
    }
}

/// The same for reported byte counts.
pub proof fn law_bytes_are_mirrored(
    s: Screen,
    h: HubView,
    flow_id: u64,
    bytes_in: u64,
    bytes_out: u64,
)
    requires
        mirrors(s, h),
    ensures
        mirrors(
            applied_all(s, bytes_messages(h, flow_id, bytes_in, bytes_out)),
            bytes_updated(h, flow_id, bytes_in, bytes_out),
        ),
{
    reveal_with_fuel(applied_all, 2);
    let ms = bytes_messages(h, flow_id, bytes_in, bytes_out);
    if h.flows.contains_key(flow_id) {
        let flow = counted(h.flows[flow_id], bytes_in, bytes_out);
        lemma_flow_entry(s.flows, flow_id);
        if ms.len() > 0 {
            assert(ms.drop_last() =~= Seq::empty());
            lemma_with_flow(s.flows, flow);
        } else {
            assert(flow == h.flows[flow_id]);
            assert(h.flows.insert(flow_id, flow) =~= h.flows);
        }
    }
}

/// A flow is held under its own number.
proof fn lemma_flow_entry(s: Seq<FlowView>, flow_id: u64)
    requires
        keyed(s, flow_key()),
        table(s, flow_key()).contains_key(flow_id),
    ensures
        table(s, flow_key())[flow_id].flow_id == flow_id,
{
    let i = choose|i: int| 0 <= i < s.len() && flow_key()(#[trigger] s[i]) == flow_id;
    lemma_lookup(s, flow_key(), i);
}

/// An application is held under its own identifier.
proof fn lemma_app_entry(s: Seq<AppView>, bundle_id: Seq<char>)
    requires
        keyed(s, app_key()),
        table(s, app_key()).contains_key(bundle_id),
    ensures
        table(s, app_key())[bundle_id].bundle_id == bundle_id,
{
    let i = choose|i: int| 0 <= i < s.len() && app_key()(#[trigger] s[i]) == bundle_id;
    lemma_lookup(s, app_key(), i);
}

/// The same for a flow that ended.
pub proof fn law_end_is_mirrored(
    s: Screen,
    h: HubView,
    flow_id: u64,
    bytes_in: u64,
    bytes_out: u64,
)
    requires
        mirrors(s, h),
    ensures
        mirrors(
            applied_all(s, end_messages(h, flow_id, bytes_in, bytes_out)),
            ended(h, flow_id, bytes_in, bytes_out),
        ),
{
    reveal_with_fuel(applied_all, 3);
    let ms = end_messages(h, flow_id, bytes_in, bytes_out);
    lemma_without_flow(s.flows, flow_id);
    if has_app(h, flow_id) {
        let b = h.flows[flow_id].bundle_id;
        let app = app_without_flow(h.apps[b], bytes_in, bytes_out);
        lemma_app_entry(s.apps, b);
        lemma_with_app(s.apps, app);
        assert(ms.drop_last().drop_last() =~= Seq::empty());
    } else if h.flows.contains_key(flow_id) {
        assert(ms.drop_last() =~= Seq::empty());
    } else {
        assert(h.flows.remove(flow_id) =~= h.flows);
    }
}

/// The same for the proxy's status.
pub proof fn law_status_is_mirrored(s: Screen, h: HubView, status: ProxyStatus)
    requires
        mirrors(s, h),
    ensures
        mirrors(
            applied_all(s, status_messages(h, status)),
            HubView { proxy_status: status, ..h },
        ),
{
    reveal_with_fuel(applied_all, 2);
    let ms = status_messages(h, status);
    if ms.len() > 0 {
        assert(ms.drop_last() =~= Seq::empty());
    }
}

/// After a rule for one application, a client that showed the daemon's
/// applications still does once it has applied the messages about it.
pub proof fn law_rule_is_shown_on_applications(
    s: Screen,
    h: HubView,
    bundle_id: Seq<char>,
    action: RouteAction,
)
    requires
        shows_apps(s, h),
    ensures
        shows_apps(
            applied_all(s, app_routed_messages(h, bundle_id, action)),
            app_routed(h, bundle_id, action),
        ),
{
    reveal_with_fuel(applied_all, 2);
    let ms = app_routed_messages(h, bundle_id, action);
    if h.apps.contains_key(bundle_id) {
        let app = app_with(h.apps[bundle_id], action);
        lemma_app_entry(s.apps, bundle_id);
        lemma_with_app(s.apps, app);
        assert(ms.drop_last() =~= Seq::empty());
    }
}

} // verus!

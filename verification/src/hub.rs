//! The daemon's state: live flows, applications, routing rules, the proxy's
//! status and the terminal clients that follow along.

use std::collections::HashMap;
use std::sync::Arc;
use tokio::sync::mpsc::{UnboundedReceiver, UnboundedSender};
use tokio::sync::Notify;
use vstd::prelude::*;

use crate::proto::{
    app_views, copy_apps, flow_views, message_views, AppInfo, AppView, CommandView,
    DaemonToTuiMessage, FlowInfo, FlowView, MessageView, Proto, ProxyStatus, RouteAction,
    TuiCommand,
};
use crate::table::{
    has_key, keyed, lemma_lookup, lemma_map, lemma_push, lemma_update, table,
};

verus! {

broadcast use vstd::std_specs::hash::group_hash_axioms;

/// The sending half of an unbounded channel of `tokio`.
#[verifier::external_type_specification]
#[verifier::external_body]
#[verifier::reject_recursive_types(T)]
pub struct ExUnboundedSender<T>(tokio::sync::mpsc::UnboundedSender<T>);

/// The receiving half of an unbounded channel of `tokio`.
#[verifier::external_type_specification]
#[verifier::external_body]
#[verifier::reject_recursive_types(T)]
pub struct ExUnboundedReceiver<T>(tokio::sync::mpsc::UnboundedReceiver<T>);

/// A client that receives updates: the end at which they are sent to it.
pub type Subscriber = UnboundedSender<DaemonToTuiMessage>;

/// The messages that were sent on an `UnboundedSender`, first to last, each with
/// whether the channel took it.
pub uninterp spec fn sends(tx: UnboundedSender<DaemonToTuiMessage>) -> Seq<(MessageView, bool)>;

/// Which channel an `UnboundedSender` sends on.
pub uninterp spec fn speaks(tx: UnboundedSender<DaemonToTuiMessage>) -> int;

/// Which channel an `UnboundedReceiver` receives from.
pub uninterp spec fn listens(rx: UnboundedReceiver<DaemonToTuiMessage>) -> int;

/// `tokio::sync::mpsc::unbounded_channel` opens a channel: its two ends belong
/// together, and nothing was sent yet.
#[verifier::external_body]
fn open_channel() -> (ends: (
    UnboundedSender<DaemonToTuiMessage>,
    UnboundedReceiver<DaemonToTuiMessage>,
))
    ensures
        sends(ends.0) == Seq::<(MessageView, bool)>::empty(),
        speaks(ends.0) == listens(ends.1),
{
    tokio::sync::mpsc::unbounded_channel()
}

/// `UnboundedSender::send` puts a message into the channel, or hands it back
/// where the receiving end was closed or dropped. Whether it was depends on the
/// client there, so nothing is claimed of the answer but that the send went that
/// way. The call leaves the sender where it is: it is taken mutably so that what
/// was sent on it can be told.
#[verifier::external_body]
fn send_to(subscriber: &mut UnboundedSender<DaemonToTuiMessage>, msg: DaemonToTuiMessage) -> (taken:
    bool)
    ensures
        sends(*final(subscriber)) == sends(*old(subscriber)).push((msg@, taken)),
        speaks(*final(subscriber)) == speaks(*old(subscriber)),
{
    subscriber.send(msg).is_ok()
}

/// Wakes the tasks that wait for it, as `tokio` provides it.
#[verifier::external_type_specification]
#[verifier::external_body]
pub struct ExNotify(tokio::sync::Notify);

/// How often those that wait on a `Notify` were woken all at once through this
/// handle of it. What is done through another handle is not counted.
pub uninterp spec fn rung(n: Notify) -> nat;

/// Which `Notify` it is: what stays the same while its waiters are woken.
pub uninterp spec fn bell(n: Notify) -> int;

/// `Notify::new` makes a notifier whose waiters have not been woken yet.
#[verifier::external_body]
fn new_notify() -> (n: Notify)
    ensures
        rung(n) == 0,
{
    Notify::new()
}

/// `Notify::notify_waiters` wakes the tasks that wait at that moment, and counts
/// that it did. Nothing is claimed of the tasks. The notifier is taken mutably
/// so that the count can be told.
#[verifier::external_body]
fn wake_waiters(n: &mut Arc<Notify>)
    ensures
        rung(**final(n)) == rung(**old(n)) + 1,
        bell(**final(n)) == bell(**old(n)),
{
    n.notify_waiters()
}

/// `std::time::SystemTime::elapsed` on the Unix epoch gives the time passed
/// since then, or an error where the clock stands before it. Nothing is claimed
/// of the time.
#[verifier::external_body]
fn seconds_since_epoch() -> (t: Option<u64>) {
    std::time::UNIX_EPOCH.elapsed().ok().map(|d| d.as_secs())
}

/// The contents of a `Hub`.
#[verifier::ext_equal]
pub struct HubView {
    pub flows: Map<u64, FlowView>,
    pub apps: Map<Seq<char>, AppView>,
    pub routing_rules: Map<Seq<char>, RouteAction>,
    pub global_routing: RouteAction,
    pub proxy_status: ProxyStatus,
    pub shutdowns: nat,
}

/// The key of a flow: its number.
pub open spec fn flow_key() -> spec_fn(FlowView) -> u64 {
    |f: FlowView| f.flow_id
}

/// The key of an application: its bundle identifier.
pub open spec fn app_key() -> spec_fn(AppView) -> Seq<char> {
    |a: AppView| a.bundle_id
}

/// The key of a routing rule: the bundle identifier it is for.
pub open spec fn rule_key() -> spec_fn((Seq<char>, RouteAction)) -> Seq<char> {
    |r: (Seq<char>, RouteAction)| r.0
}

/// The contents of a list of routing rules.
pub open spec fn rule_views(s: Seq<(String, RouteAction)>) -> Seq<(Seq<char>, RouteAction)> {
    s.map_values(|r: (String, RouteAction)| (r.0@, r.1))
}

/// The map from bundle identifier to action that a list of rules stands for.
pub open spec fn rule_map(s: Seq<(Seq<char>, RouteAction)>) -> Map<Seq<char>, RouteAction> {
    table(s, rule_key()).map_values(|r: (Seq<char>, RouteAction)| r.1)
}

/// The contents of a map of flows.
pub open spec fn flow_map(m: Map<u64, FlowInfo>) -> Map<u64, FlowView> {
    m.map_values(|f: FlowInfo| f@)
}

/// Every flow is held under its number.
pub open spec fn numbered(m: Map<u64, FlowInfo>) -> bool {
    forall|k: u64| #[trigger] m.contains_key(k) ==> m[k].flow_id == k
}

/// A hub in which nothing has happened yet.
pub open spec fn empty_hub() -> HubView {
    HubView {
        flows: Map::empty(),
        apps: Map::empty(),
        routing_rules: Map::empty(),
        global_routing: RouteAction::Passthrough,
        proxy_status: ProxyStatus::Unknown,
        shutdowns: 0,
    }
}

/// The action for an application: its own rule, or else the global one.
pub open spec fn route_of(h: HubView, bundle_id: Seq<char>) -> RouteAction {
    if h.routing_rules.contains_key(bundle_id) {
        h.routing_rules[bundle_id]
    } else {
        h.global_routing
    }
}

/// What is known of a flow when it starts.
pub struct FlowStart {
    pub flow_id: u64,
    pub pid: u32,
    pub process_name: Seq<char>,
    pub bundle_id: Seq<char>,
    pub local_addr: Seq<char>,
    pub remote_addr: Seq<char>,
    pub proto: Proto,
    pub started_at: u64,
}

/// What is known of a flow when it starts, from its parts.
pub open spec fn start_of(
    flow_id: u64,
    pid: u32,
    process_name: Seq<char>,
    bundle_id: Seq<char>,
    local_addr: Seq<char>,
    remote_addr: Seq<char>,
    proto: Proto,
    started_at: u64,
) -> FlowStart {
    FlowStart {
        flow_id,
        pid,
        process_name,
        bundle_id,
        local_addr,
        remote_addr,
        proto,
        started_at,
    }
}

/// The flow that starts: no bytes yet, and the routing in force.
pub open spec fn new_flow(h: HubView, s: FlowStart) -> FlowView {
    FlowView {
        flow_id: s.flow_id,
        pid: s.pid,
        process_name: s.process_name,
        bundle_id: s.bundle_id,
        local_addr: s.local_addr,
        remote_addr: s.remote_addr,
        proto: s.proto,
        bytes_in: 0,
        bytes_out: 0,
        routing: route_of(h, s.bundle_id),
        started_at: s.started_at,
    }
}

/// The application of a flow that starts, before the flow is counted.
pub open spec fn app_before(h: HubView, s: FlowStart) -> AppView {
    if h.apps.contains_key(s.bundle_id) {
        h.apps[s.bundle_id]
    } else {
        AppView {
            bundle_id: s.bundle_id,
            name: s.process_name,
            pids: Seq::empty(),
            flow_count: 0,
            bytes_in: 0,
            bytes_out: 0,
            routing: route_of(h, s.bundle_id),
        }
    }
}

/// The application of a flow that starts: one flow more, and the process
/// listed once.
pub open spec fn app_with_flow(h: HubView, s: FlowStart) -> AppView {
    let a = app_before(h, s);
    AppView {
        flow_count: (a.flow_count + 1) as usize,
        pids: if a.pids.contains(s.pid) {
            a.pids
        } else {
            a.pids.push(s.pid)
        },
        ..a
    }
}

/// The flow count of an application can take one flow more.
pub open spec fn start_fits(h: HubView, bundle_id: Seq<char>) -> bool {
    h.apps.contains_key(bundle_id) ==> h.apps[bundle_id].flow_count < usize::MAX
}

/// The hub after a flow has started.
pub open spec fn started(h: HubView, s: FlowStart) -> HubView {
    HubView {
        flows: h.flows.insert(s.flow_id, new_flow(h, s)),
        apps: h.apps.insert(s.bundle_id, app_with_flow(h, s)),
        ..h
    }
}

/// The messages about a flow that has started.
pub open spec fn start_messages(h: HubView, s: FlowStart) -> Seq<MessageView> {
    seq![
        MessageView::FlowUpdate { flow: new_flow(h, s) },
        MessageView::AppUpdate { app: app_with_flow(h, s) },
    ]
}

/// A flow with other byte counts.
pub open spec fn counted(f: FlowView, bytes_in: u64, bytes_out: u64) -> FlowView {
    FlowView { bytes_in, bytes_out, ..f }
}

/// The hub after the byte counts of a flow were reported. A flow that is not
/// live changes nothing.
pub open spec fn bytes_updated(h: HubView, flow_id: u64, bytes_in: u64, bytes_out: u64) -> HubView {
    if h.flows.contains_key(flow_id) {
        HubView {
            flows: h.flows.insert(flow_id, counted(h.flows[flow_id], bytes_in, bytes_out)),
            ..h
        }
    } else {
        h
    }
}

/// The messages about reported byte counts: the flow, if they are new.
pub open spec fn bytes_messages(
    h: HubView,
    flow_id: u64,
    bytes_in: u64,
    bytes_out: u64,
) -> Seq<MessageView> {
    if h.flows.contains_key(flow_id) && (h.flows[flow_id].bytes_in != bytes_in
        || h.flows[flow_id].bytes_out != bytes_out) {
        seq![MessageView::FlowUpdate { flow: counted(h.flows[flow_id], bytes_in, bytes_out) }]
    } else {
        seq![]
    }
}

/// An application whose flow has ended: its bytes added, one flow less.
pub open spec fn app_without_flow(a: AppView, bytes_in: u64, bytes_out: u64) -> AppView {
    AppView {
        bytes_in: (a.bytes_in + bytes_in) as u64,
        bytes_out: (a.bytes_out + bytes_out) as u64,
        flow_count: if a.flow_count > 0 {
            (a.flow_count - 1) as usize
        } else {
            0
        },
        ..a
    }
}

/// The live flow `flow_id` belongs to an application that the hub holds.
pub open spec fn has_app(h: HubView, flow_id: u64) -> bool {
    h.flows.contains_key(flow_id) && h.apps.contains_key(h.flows[flow_id].bundle_id)
}

/// The totals of the flow's application can take the bytes.
pub open spec fn end_fits(h: HubView, flow_id: u64, bytes_in: u64, bytes_out: u64) -> bool {
    has_app(h, flow_id) ==> {
        let a = h.apps[h.flows[flow_id].bundle_id];
        a.bytes_in + bytes_in <= u64::MAX && a.bytes_out + bytes_out <= u64::MAX
    }
}

/// The hub after a flow has ended. A flow that is not live changes nothing.
pub open spec fn ended(h: HubView, flow_id: u64, bytes_in: u64, bytes_out: u64) -> HubView {
    if has_app(h, flow_id) {
        let b = h.flows[flow_id].bundle_id;
        HubView {
            flows: h.flows.remove(flow_id),
            apps: h.apps.insert(b, app_without_flow(h.apps[b], bytes_in, bytes_out)),
            ..h
        }
    } else {
        HubView { flows: h.flows.remove(flow_id), ..h }
    }
}

/// The messages about a flow that has ended.
pub open spec fn end_messages(
    h: HubView,
    flow_id: u64,
    bytes_in: u64,
    bytes_out: u64,
) -> Seq<MessageView> {
    if has_app(h, flow_id) {
        let b = h.flows[flow_id].bundle_id;
        seq![
            MessageView::AppUpdate { app: app_without_flow(h.apps[b], bytes_in, bytes_out) },
            MessageView::FlowRemoved { flow_id },
        ]
    } else if h.flows.contains_key(flow_id) {
        seq![MessageView::FlowRemoved { flow_id }]
    } else {
        seq![]
    }
}

/// A flow with another routing.
pub open spec fn flow_with(f: FlowView, action: RouteAction) -> FlowView {
    FlowView { routing: action, ..f }
}

/// An application with another routing.
pub open spec fn app_with(a: AppView, action: RouteAction) -> AppView {
    AppView { routing: action, ..a }
}

/// Gives the flows of one application a routing.
pub open spec fn reroute_flows_of(bundle_id: Seq<char>, action: RouteAction) -> spec_fn(
    FlowView,
) -> FlowView {
    |f: FlowView|
        if f.bundle_id == bundle_id {
            flow_with(f, action)
        } else {
            f
        }
}

/// The hub after a rule for one application was set.
pub open spec fn app_routed(h: HubView, bundle_id: Seq<char>, action: RouteAction) -> HubView {
    HubView {
        routing_rules: h.routing_rules.insert(bundle_id, action),
        apps: if h.apps.contains_key(bundle_id) {
            h.apps.insert(bundle_id, app_with(h.apps[bundle_id], action))
        } else {
            h.apps
        },
        flows: h.flows.map_values(reroute_flows_of(bundle_id, action)),
        ..h
    }
}

/// The messages about a rule for one application: the application, if known.
pub open spec fn app_routed_messages(h: HubView, bundle_id: Seq<char>, action: RouteAction) -> Seq<
    MessageView,
> {
    if h.apps.contains_key(bundle_id) {
        seq![MessageView::AppUpdate { app: app_with(h.apps[bundle_id], action) }]
    } else {
        seq![]
    }
}

/// Gives the flows without a rule of their own a routing.
pub open spec fn reroute_flows(
    rules: Map<Seq<char>, RouteAction>,
    action: RouteAction,
) -> spec_fn(FlowView) -> FlowView {
    |f: FlowView|
        if rules.contains_key(f.bundle_id) {
            f
        } else {
            flow_with(f, action)
        }
}

/// Gives the applications without a rule of their own a routing.
pub open spec fn reroute_apps(
    rules: Map<Seq<char>, RouteAction>,
    action: RouteAction,
) -> spec_fn(AppView) -> AppView {
    |a: AppView|
        if rules.contains_key(a.bundle_id) {
            a
        } else {
            app_with(a, action)
        }
}

/// The hub after the global action was set.
pub open spec fn all_routed(h: HubView, action: RouteAction) -> HubView {
    HubView {
        global_routing: action,
        apps: h.apps.map_values(reroute_apps(h.routing_rules, action)),
        flows: h.flows.map_values(reroute_flows(h.routing_rules, action)),
        ..h
    }
}

/// The hub after a command of a client.
pub open spec fn commanded(h: HubView, cmd: CommandView) -> HubView {
    match cmd {
        CommandView::Subscribe => h,
        CommandView::GetState => h,
        CommandView::SetAppRouting { bundle_id, action } => app_routed(h, bundle_id, action),
        CommandView::SetGlobalRouting { action } => all_routed(h, action),
        CommandView::Shutdown => HubView { shutdowns: h.shutdowns + 1, ..h },
    }
}

/// The messages about a client's command: those of a rule for one application.
pub open spec fn command_messages(h: HubView, cmd: CommandView) -> Seq<MessageView> {
    match cmd {
        CommandView::SetAppRouting { bundle_id, action } => app_routed_messages(
            h,
            bundle_id,
            action,
        ),
        _ => seq![],
    }
}

/// The hub after the proxy's status was noted.
pub open spec fn status_noted(h: HubView, status: ProxyStatus) -> HubView {
    HubView { proxy_status: status, ..h }
}

/// The hub after a shutdown was signalled.
pub open spec fn shut_down(h: HubView) -> HubView {
    HubView { shutdowns: h.shutdowns + 1, ..h }
}

/// The messages about the proxy's status: the status, if it is new.
pub open spec fn status_messages(h: HubView, status: ProxyStatus) -> Seq<MessageView> {
    if h.proxy_status != status {
        seq![MessageView::ProxyStatusUpdate { status }]
    } else {
        seq![]
    }
}

/// The command asks for the full state.
pub open spec fn wants_state(cmd: CommandView) -> bool {
    cmd is Subscribe || cmd is GetState
}

/// `m` reports the full state of `h`: every application and every flow once,
/// in some order.
pub open spec fn reports(m: MessageView, h: HubView) -> bool {
    match m {
        MessageView::FullState { apps, flows, proxy_status } => {
            &&& keyed(apps, app_key())
            &&& table(apps, app_key()) == h.apps
            &&& keyed(flows, flow_key())
            &&& table(flows, flow_key()) == h.flows
            &&& proxy_status == h.proxy_status
        },
        _ => false,
    }
}

/// The members of `s` whose delivery succeeded.
pub open spec fn kept<T>(s: Seq<T>, delivered: Seq<bool>) -> Seq<T>
    decreases s.len(),
{
    if s.len() == 0 {
        s
    } else {
        let k = kept(s.drop_last(), delivered);
        if delivered[s.len() - 1] {
            k.push(s.last())
        } else {
            k
        }
    }
}

/// The last message sent to the subscriber was taken.
pub open spec fn took(s: Subscriber) -> bool {
    sends(s).len() > 0 && sends(s).last().1
}

/// Whether each subscriber took the last message sent to it.
pub open spec fn outcomes(s: Seq<Subscriber>) -> Seq<bool> {
    s.map_values(|x: Subscriber| took(x))
}

/// `after` are the subscribers `before` once `m` was sent to each of them.
pub open spec fn offered(before: Seq<Subscriber>, after: Seq<Subscriber>, m: MessageView) -> bool {
    &&& after.len() == before.len()
    &&& forall|i: int|
        0 <= i < after.len() ==> speaks(#[trigger] after[i]) == speaks(before[i]) && sends(after[i])
            == sends(before[i]).push((m, took(after[i])))
}

/// The subscribers that took the last message.
pub open spec fn still_listening(s: Seq<Subscriber>) -> Seq<Subscriber> {
    kept(s, outcomes(s))
}

/// The subscribers left of `before` after the rounds of sends, each of which
/// costs those that did not take the message.
pub open spec fn left(before: Seq<Subscriber>, rounds: Seq<Seq<Subscriber>>) -> Seq<Subscriber> {
    if rounds.len() == 0 {
        before
    } else {
        still_listening(rounds.last())
    }
}

/// Each of the messages was sent, in order, to each of the subscribers left by
/// then, which gives the rounds.
pub open spec fn broadcasts(
    before: Seq<Subscriber>,
    messages: Seq<MessageView>,
    rounds: Seq<Seq<Subscriber>>,
) -> bool
    decreases messages.len(),
{
    if messages.len() == 0 {
        rounds.len() == 0
    } else {
        &&& rounds.len() == messages.len()
        &&& broadcasts(before, messages.drop_last(), rounds.drop_last())
        &&& offered(left(before, rounds.drop_last()), rounds.last(), messages.last())
    }
}

/// `now` are the subscribers left of `before` after each of `messages` was sent,
/// in order, to each of those left by then: those that took them all.
pub open spec fn told(
    now: Seq<Subscriber>,
    before: Seq<Subscriber>,
    messages: Seq<MessageView>,
) -> bool {
    exists|rounds: Seq<Seq<Subscriber>>|
        #[trigger] broadcasts(before, messages, rounds) && now == left(before, rounds)
}

/// `now` are the subscribers `before` and one more: the one that `rx` listens to,
/// to which nothing was sent yet.
pub open spec fn joined(
    now: Seq<Subscriber>,
    before: Seq<Subscriber>,
    rx: UnboundedReceiver<DaemonToTuiMessage>,
) -> bool {
    &&& now.len() == before.len() + 1
    &&& now.drop_last() == before
    &&& speaks(now.last()) == listens(rx)
    &&& sends(now.last()) == Seq::<(MessageView, bool)>::empty()
}

/// There is one round for each message.
proof fn lemma_rounds_len(
    before: Seq<Subscriber>,
    messages: Seq<MessageView>,
    rounds: Seq<Seq<Subscriber>>,
)
    requires
        broadcasts(before, messages, rounds),
    ensures
        rounds.len() == messages.len(),
{
}

/// Drops the members to which a delivery failed.
pub fn prune<T>(members: &mut Vec<T>, delivered: &Vec<bool>)
    requires
        delivered@.len() == old(members)@.len(),
    ensures
        final(members)@ == kept(old(members)@, delivered@),
{
    let ghost all = members@;
    let mut i: usize = 0;
    let mut j: usize = 0;
    assert(all.take(0) =~= Seq::empty());
    while j < delivered.len()
        invariant
            i <= j <= delivered@.len() == all.len(),
            i == kept(all.take(j as int), delivered@).len(),
            i + (all.len() - j) == members@.len(),
            members@ == kept(all.take(j as int), delivered@) + all.skip(j as int),
        decreases delivered@.len() - j,
    {
        assert(all.take(j + 1).drop_last() == all.take(j as int));
        let ghost k = kept(all.take(j as int), delivered@);
        assert(members@[i as int] == all[j as int]);
        if delivered[j] {
            assert(k + all.skip(j as int) == k.push(all[j as int]) + all.skip(j + 1));
            i = i + 1;
        } else {
            let _gone = members.remove(i);
            assert((k + all.skip(j as int)).remove(k.len() as int) == k + all.skip(j + 1));
        }
        j = j + 1;
    }
    assert(all.take(all.len() as int) == all);
    assert(all.skip(all.len() as int) =~= Seq::empty());
}

/// The daemon's state.
pub struct Hub {
    flows: HashMap<u64, FlowInfo>,
    apps: Vec<AppInfo>,
    routing_rules: Vec<(String, RouteAction)>,
    global_routing: RouteAction,
    proxy_status: ProxyStatus,
    tui_subscribers: Vec<Subscriber>,
    shutdown: Arc<Notify>,
}

impl View for Hub {
    type V = HubView;

    closed spec fn view(&self) -> HubView {
        HubView {
            flows: flow_map(self.flows@),
            apps: table(app_views(self.apps@), app_key()),
            routing_rules: rule_map(rule_views(self.routing_rules@)),
            global_routing: self.global_routing,
            proxy_status: self.proxy_status,
            shutdowns: rung(*self.shutdown),
        }
    }
}

impl Hub {
    /// Every flow is held under its number, and no application or rule is held
    /// twice.
    pub closed spec fn wf(&self) -> bool {
        &&& numbered(self.flows@)
        &&& keyed(app_views(self.apps@), app_key())
        &&& keyed(rule_views(self.routing_rules@), rule_key())
    }

    /// The clients that receive updates.
    pub closed spec fn subscribers(&self) -> Seq<Subscriber> {
        self.tui_subscribers@
    }

    /// Which notifier those that wait for a shutdown wait on.
    pub closed spec fn notifier(&self) -> int {
        bell(*self.shutdown)
    }

    /// An empty hub.
    pub fn new() -> (h: Self)
        ensures
            h.wf(),
            h@ == empty_hub(),
            h.subscribers().len() == 0,
    {
        let h = Hub {
            flows: HashMap::new(),
            apps: Vec::new(),
            routing_rules: Vec::new(),
            global_routing: RouteAction::default(),
            proxy_status: ProxyStatus::default(),
            tui_subscribers: Vec::new(),
            shutdown: Arc::new(new_notify()),
        };
        assert(h@.flows =~= empty_hub().flows);
        assert(h@.apps =~= empty_hub().apps);
        assert(h@.routing_rules =~= empty_hub().routing_rules);
        h
    }

    /// The flow with a number.
    fn find_flow(&self, flow_id: u64) -> (r: Option<&FlowInfo>)
        requires
            self.wf(),
        ensures
            (match r {
                Some(f) => f.flow_id == flow_id && self@.flows.contains_key(flow_id)
                    && self@.flows[flow_id] == f@,
                None => !self@.flows.contains_key(flow_id),
            }),
    {
        self.flows.get(&flow_id)
    }

    /// The position of an application.
    fn find_app(&self, bundle_id: &String) -> (r: Option<usize>)
        requires
            self.wf(),
        ensures
            (match r {
                Some(i) => i < self.apps@.len() && self.apps@[i as int].bundle_id@ == bundle_id@
                    && self@.apps.contains_key(bundle_id@) && self@.apps[bundle_id@]
                    == self.apps@[i as int]@,
                None => !self@.apps.contains_key(bundle_id@),
            }),
    {
        for i in 0..self.apps.len()
            invariant
                self.wf(),
                forall|j: int| 0 <= j < i ==> self.apps@[j].bundle_id@ != bundle_id@,
        {
            if self.apps[i].bundle_id == *bundle_id {
                proof {
                    lemma_lookup(app_views(self.apps@), app_key(), i as int);
                }
                return Some(i);
            }
        }
        assert(!has_key(app_views(self.apps@), app_key(), bundle_id@));
        None
    }

    /// The position of a routing rule.
    fn find_rule(&self, bundle_id: &String) -> (r: Option<usize>)
        requires
            self.wf(),
        ensures
            (match r {
                Some(i) => i < self.routing_rules@.len() && self.routing_rules@[i as int].0@
                    == bundle_id@ && self@.routing_rules.contains_key(bundle_id@)
                    && self@.routing_rules[bundle_id@] == self.routing_rules@[i as int].1,
                None => !self@.routing_rules.contains_key(bundle_id@),
            }),
    {
        let r = rule_position(&self.routing_rules, bundle_id);
        proof {
            if let Some(i) = r {
                lemma_lookup(rule_views(self.routing_rules@), rule_key(), i as int);
            }
        }
        r
    }

    /// Inserts a flow, or replaces the one with its number.
    fn put_flow(&mut self, flow: FlowInfo)
        requires
            old(self).wf(),
        ensures
            final(self).wf(),
            final(self).subscribers() == old(self).subscribers(),
            final(self).notifier() == old(self).notifier(),
            final(self)@ == (HubView {
                flows: old(self)@.flows.insert(flow.flow_id, flow@),
                ..old(self)@
            }),
    {
        let ghost f = flow@;
        let _replaced = self.flows.insert(flow.flow_id, flow);
        assert(self@.flows =~= old(self)@.flows.insert(f.flow_id, f));
    }

    /// Inserts an application, or replaces the one with its identifier.
    fn put_app(&mut self, app: AppInfo)
        requires
            old(self).wf(),
        ensures
            final(self).wf(),
            final(self).subscribers() == old(self).subscribers(),
            final(self).notifier() == old(self).notifier(),
            final(self)@ == (HubView {
                apps: old(self)@.apps.insert(app.bundle_id@, app@),
                ..old(self)@
            }),
    {
        let ghost before = app_views(self.apps@);
        match self.find_app(&app.bundle_id) {
            Some(i) => {
                proof {
                    lemma_update(before, app_key(), i as int, app@);
                }
                self.apps[i] = app;
                assert(app_views(self.apps@) == before.update(i as int, app@));
            },
            None => {
                proof {
                    lemma_push(before, app_key(), app@);
                }
                self.apps.push(app);
                assert(app_views(self.apps@) == before.push(app@));
            },
        }
    }

    /// Inserts a rule, or replaces the one for its application.
    fn put_rule(&mut self, bundle_id: String, action: RouteAction)
        requires
            old(self).wf(),
        ensures
            final(self).wf(),
            final(self).subscribers() == old(self).subscribers(),
            final(self).notifier() == old(self).notifier(),
            final(self)@ == (HubView {
                routing_rules: old(self)@.routing_rules.insert(bundle_id@, action),
                ..old(self)@
            }),
    {
        let ghost before = rule_views(self.routing_rules@);
        let ghost rule = (bundle_id@, action);
        match self.find_rule(&bundle_id) {
            Some(i) => {
                proof {
                    lemma_update(before, rule_key(), i as int, rule);
                }
                self.routing_rules[i] = (bundle_id, action);
                assert(rule_views(self.routing_rules@) == before.update(i as int, rule));
            },
            None => {
                proof {
                    lemma_push(before, rule_key(), rule);
                }
                self.routing_rules.push((bundle_id, action));
                assert(rule_views(self.routing_rules@) == before.push(rule));
            },
        }
        assert(self@.routing_rules =~= old(self)@.routing_rules.insert(rule.0, action));
    }

    /// The action for an application.
    pub fn get_route_action(&self, bundle_id: &str) -> (a: RouteAction)
        requires
            self.wf(),
        ensures
            a == route_of(self@, bundle_id@),
    {
        match self.find_rule(&bundle_id.to_string()) {
            Some(i) => self.routing_rules[i].1,
            None => self.global_routing,
        }
    }

    /// Whether the application's flow count can take one flow more.
    pub fn flow_start_fits(&self, bundle_id: &str) -> (b: bool)
        requires
            self.wf(),
        ensures
            b == start_fits(self@, bundle_id@),
    {
        match self.find_app(&bundle_id.to_string()) {
            Some(i) => self.apps[i].flow_count < usize::MAX,
            None => true,
        }
    }

    /// Registers a flow that starts at the time `now`. Returns its routing and
    /// the messages for the subscribers.
    pub fn begin_flow(
        &mut self,
        flow_id: u64,
        pid: u32,
        process_name: &str,
        bundle_id: &str,
        local_addr: &str,
        remote_addr: &str,
        proto: Proto,
        now: u64,
    ) -> (r: (RouteAction, Vec<DaemonToTuiMessage>))
        requires
            old(self).wf(),
            start_fits(old(self)@, bundle_id@),
        ensures
            final(self).wf(),
            final(self).subscribers() == old(self).subscribers(),
            final(self).notifier() == old(self).notifier(),
            r.0 == route_of(old(self)@, bundle_id@),
            ({
                let s = start_of(
                    flow_id,
                    pid,
                    process_name@,
                    bundle_id@,
                    local_addr@,
                    remote_addr@,
                    proto,
                    now,
                );
                &&& final(self)@ == started(old(self)@, s)
                &&& message_views(r.1@) == start_messages(old(self)@, s)
            }),
    {
        let ghost s = start_of(
            flow_id,
            pid,
            process_name@,
            bundle_id@,
            local_addr@,
            remote_addr@,
            proto,
            now,
        );
        let ghost h = self@;
        let routing = self.get_route_action(bundle_id);
        let bundle = bundle_id.to_string();
        let mut app = match self.find_app(&bundle) {
            Some(i) => self.apps[i].clone(),
            None => AppInfo {
                bundle_id: bundle_id.to_string(),
                name: process_name.to_string(),
                pids: Vec::new(),
                flow_count: 0,
                bytes_in: 0,
                bytes_out: 0,
                routing,
            },
        };
        assert(app@ == app_before(h, s));
        assert(app.bundle_id@ == s.bundle_id) by {
            if h.apps.contains_key(s.bundle_id) {
                self.lemma_app_key(s.bundle_id);
            }
        }
        app.flow_count = app.flow_count + 1;
        if !lists_pid(&app.pids, pid) {
            app.pids.push(pid);
        }
        assert(app@ == app_with_flow(h, s));
        let flow = FlowInfo {
            flow_id,
            pid,
            process_name: process_name.to_string(),
            bundle_id: bundle,
            local_addr: local_addr.to_string(),
            remote_addr: remote_addr.to_string(),
            proto,
            bytes_in: 0,
            bytes_out: 0,
            routing,
            started_at: now,
        };
        assert(flow@ == new_flow(h, s));
        let mut messages: Vec<DaemonToTuiMessage> = Vec::new();
        messages.push(DaemonToTuiMessage::FlowUpdate { flow: flow.clone() });
        messages.push(DaemonToTuiMessage::AppUpdate { app: app.clone() });
        self.put_flow(flow);
        self.put_app(app);
        assert(message_views(messages@) =~= start_messages(h, s));
        (routing, messages)
    }

    /// An application is held under its own identifier.
    proof fn lemma_app_key(&self, bundle_id: Seq<char>)
        requires
            self.wf(),
            self@.apps.contains_key(bundle_id),
        ensures
            self@.apps[bundle_id].bundle_id == bundle_id,
    {
    }

    /// Sets the byte counts of a live flow. Returns the messages for the
    /// subscribers.
    pub fn count_flow_bytes(&mut self, flow_id: u64, bytes_in: u64, bytes_out: u64) -> (messages:
        Vec<DaemonToTuiMessage>)
        requires
            old(self).wf(),
        ensures
            final(self).wf(),
            final(self).subscribers() == old(self).subscribers(),
            final(self).notifier() == old(self).notifier(),
            final(self)@ == bytes_updated(old(self)@, flow_id, bytes_in, bytes_out),
            message_views(messages@) == bytes_messages(old(self)@, flow_id, bytes_in, bytes_out),
    {
        let mut messages: Vec<DaemonToTuiMessage> = Vec::new();
        if let Some(found) = self.find_flow(flow_id) {
            let mut flow = found.clone();
            if flow.bytes_in != bytes_in || flow.bytes_out != bytes_out {
                flow.bytes_in = bytes_in;
                flow.bytes_out = bytes_out;
                messages.push(DaemonToTuiMessage::FlowUpdate { flow: flow.clone() });
                self.put_flow(flow);
            } else {
                assert(self@.flows =~= self@.flows.insert(
                    flow_id,
                    counted(self@.flows[flow_id], bytes_in, bytes_out),
                ));
            }
        }
        assert(message_views(messages@) =~= bytes_messages(
            old(self)@,
            flow_id,
            bytes_in,
            bytes_out,
        ));
        messages
    }

    /// Whether the totals of the flow's application can take the bytes.
    pub fn flow_end_fits(&self, flow_id: u64, bytes_in: u64, bytes_out: u64) -> (b: bool)
        requires
            self.wf(),
        ensures
            b == end_fits(self@, flow_id, bytes_in, bytes_out),
    {
        if let Some(flow) = self.find_flow(flow_id) {
            if let Some(j) = self.find_app(&flow.bundle_id) {
                return bytes_in <= u64::MAX - self.apps[j].bytes_in && bytes_out <= u64::MAX
                    - self.apps[j].bytes_out;
            }
        }
        true
    }

    /// Removes a flow and adds its bytes to its application. Returns the
    /// messages for the subscribers.
    pub fn finish_flow(&mut self, flow_id: u64, bytes_in: u64, bytes_out: u64) -> (messages: Vec<
        DaemonToTuiMessage,
    >)
        requires
            old(self).wf(),
            end_fits(old(self)@, flow_id, bytes_in, bytes_out),
        ensures
            final(self).wf(),
            final(self).subscribers() == old(self).subscribers(),
            final(self).notifier() == old(self).notifier(),
            final(self)@ == ended(old(self)@, flow_id, bytes_in, bytes_out),
            message_views(messages@) == end_messages(old(self)@, flow_id, bytes_in, bytes_out),
    {
        let ghost h = self@;
        let mut messages: Vec<DaemonToTuiMessage> = Vec::new();
        let removed = self.flows.remove(&flow_id);
        assert(self@.flows =~= h.flows.remove(flow_id));
        match removed {
            Some(flow) => {
                if let Some(j) = self.find_app(&flow.bundle_id) {
                    let mut app = self.apps[j].clone();
                    app.bytes_in = app.bytes_in + bytes_in;
                    app.bytes_out = app.bytes_out + bytes_out;
                    app.flow_count = app.flow_count.saturating_sub(1);
                    messages.push(DaemonToTuiMessage::AppUpdate { app: app.clone() });
                    self.put_app(app);
                }
                messages.push(DaemonToTuiMessage::FlowRemoved { flow_id });
            },
            None => {},
        }
        assert(message_views(messages@) =~= end_messages(h, flow_id, bytes_in, bytes_out));
        messages
    }

    /// Sets the rule of one application. Returns the messages for the
    /// subscribers.
    pub fn route_app(&mut self, bundle_id: &str, action: RouteAction) -> (messages: Vec<
        DaemonToTuiMessage,
    >)
        requires
            old(self).wf(),
        ensures
            final(self).wf(),
            final(self).subscribers() == old(self).subscribers(),
            final(self).notifier() == old(self).notifier(),
            final(self)@ == app_routed(old(self)@, bundle_id@, action),
            message_views(messages@) == app_routed_messages(old(self)@, bundle_id@, action),
    {
        let ghost h = self@;
        let ghost b = bundle_id@;
        let mut messages: Vec<DaemonToTuiMessage> = Vec::new();
        let bundle = bundle_id.to_string();
        self.put_rule(bundle_id.to_string(), action);
        if let Some(i) = self.find_app(&bundle) {
            let mut app = self.apps[i].clone();
            app.routing = action;
            messages.push(DaemonToTuiMessage::AppUpdate { app: app.clone() });
            self.put_app(app);
        }
        set_routing_of(&mut self.flows, &bundle, action);
        assert(message_views(messages@) =~= app_routed_messages(h, b, action));
        messages
    }

    /// Sets the global action. Applications and flows with a rule of their own
    /// keep their routing.
    pub fn route_all(&mut self, action: RouteAction)
        requires
            old(self).wf(),
        ensures
            final(self).wf(),
            final(self).subscribers() == old(self).subscribers(),
            final(self).notifier() == old(self).notifier(),
            final(self)@ == all_routed(old(self)@, action),
    {
        let ghost rules = rule_map(rule_views(self.routing_rules@));
        proof {
            lemma_map(app_views(self.apps@), app_key(), reroute_apps(rules, action));
        }
        self.global_routing = action;
        set_app_default(&mut self.apps, &self.routing_rules, action);
        set_flow_default(&mut self.flows, &self.routing_rules, action);
    }

    /// Notes the proxy's status. Returns the messages for the subscribers.
    pub fn note_proxy_status(&mut self, status: ProxyStatus) -> (messages: Vec<DaemonToTuiMessage>)
        requires
            old(self).wf(),
        ensures
            final(self).wf(),
            final(self).subscribers() == old(self).subscribers(),
            final(self).notifier() == old(self).notifier(),
            final(self)@ == status_noted(old(self)@, status),
            final(self)@ == (HubView { proxy_status: status, ..old(self)@ }),
            message_views(messages@) == status_messages(old(self)@, status),
    {
        let mut messages: Vec<DaemonToTuiMessage> = Vec::new();
        if self.proxy_status != status {
            self.proxy_status = status;
            messages.push(DaemonToTuiMessage::ProxyStatusUpdate { status });
        }
        assert(message_views(messages@) =~= status_messages(old(self)@, status));
        messages
    }

    /// Sends a message to all subscribers and drops those that do not take it.
    fn notify_tui_inner(&mut self, msg: &DaemonToTuiMessage)
        requires
            old(self).wf(),
        ensures
            final(self).wf(),
            final(self)@ == old(self)@,
            final(self).notifier() == old(self).notifier(),
            exists|after: Seq<Subscriber>| #[trigger]
                offered(old(self).subscribers(), after, msg@) && final(self).subscribers()
                    == still_listening(after),
    {
        let taken = send_all(&mut self.tui_subscribers, msg);
        assert(offered(old(self).subscribers(), self.subscribers(), msg@));
        prune(&mut self.tui_subscribers, &taken);
    }

    /// Sends messages to all subscribers, one after the other.
    fn broadcast_all(&mut self, messages: Vec<DaemonToTuiMessage>)
        requires
            old(self).wf(),
        ensures
            final(self).wf(),
            final(self)@ == old(self)@,
            final(self).notifier() == old(self).notifier(),
            told(final(self).subscribers(), old(self).subscribers(), message_views(messages@)),
    {
        let ghost before = self.subscribers();
        let ghost all = message_views(messages@);
        let ghost mut rounds: Seq<Seq<Subscriber>> = Seq::empty();
        for i in 0..messages.len()
            invariant
                self.wf(),
                self@ == old(self)@,
                self.notifier() == old(self).notifier(),
                all == message_views(messages@),
                broadcasts(before, all.take(i as int), rounds),
                self.subscribers() == left(before, rounds),
        {
            let ghost mid = self.subscribers();
            self.notify_tui_inner(&messages[i]);
            proof {
                let m = messages@[i as int]@;
                let after = choose|after: Seq<Subscriber>| #[trigger]
                    offered(mid, after, m) && self.subscribers() == still_listening(after);
                let next = rounds.push(after);
                assert(next.drop_last() == rounds);
                assert(all.take(i + 1).drop_last() == all.take(i as int));
                assert(all.take(i + 1).last() == m);
                lemma_rounds_len(before, all.take(i as int), rounds);
                rounds = next;
            }
        }
        assert(all.take(all.len() as int) == all);
    }

    /// Registers a flow that starts now and tells the subscribers. Returns the
    /// flow's routing.
    pub fn handle_flow_start(
        &mut self,
        flow_id: u64,
        pid: u32,
        process_name: &str,
        bundle_id: &str,
        local_addr: &str,
        remote_addr: &str,
        proto: Proto,
    ) -> (routing: RouteAction)
        requires
            old(self).wf(),
            start_fits(old(self)@, bundle_id@),
        ensures
            final(self).wf(),
            final(self).notifier() == old(self).notifier(),
            routing == route_of(old(self)@, bundle_id@),
            exists|now: u64|
                {
                    let s = #[trigger] start_of(
                        flow_id,
                        pid,
                        process_name@,
                        bundle_id@,
                        local_addr@,
                        remote_addr@,
                        proto,
                        now,
                    );
                    &&& final(self)@ == started(old(self)@, s)
                    &&& told(
                        final(self).subscribers(),
                        old(self).subscribers(),
                        start_messages(old(self)@, s),
                    )
                },
    {
        let now: u64 = match seconds_since_epoch() {
            Some(t) => t,
            None => 0,
        };
        let (routing, messages) = self.begin_flow(
            flow_id,
            pid,
            process_name,
            bundle_id,
            local_addr,
            remote_addr,
            proto,
            now,
        );
        self.broadcast_all(messages);
        proof {
            let s = start_of(
                flow_id,
                pid,
                process_name@,
                bundle_id@,
                local_addr@,
                remote_addr@,
                proto,
                now,
            );
            assert(self@ == started(old(self)@, s));
        }
        routing
    }

    /// Sets the byte counts of a live flow and tells the subscribers if they
    /// are new.
    pub fn update_flow_bytes(&mut self, flow_id: u64, bytes_in: u64, bytes_out: u64)
        requires
            old(self).wf(),
        ensures
            final(self).wf(),
            final(self).notifier() == old(self).notifier(),
            final(self)@ == bytes_updated(old(self)@, flow_id, bytes_in, bytes_out),
            told(
                final(self).subscribers(),
                old(self).subscribers(),
                bytes_messages(old(self)@, flow_id, bytes_in, bytes_out),
            ),
    {
        let messages = self.count_flow_bytes(flow_id, bytes_in, bytes_out);
        self.broadcast_all(messages);
    }

    /// Removes a flow, adds its bytes to its application and tells the
    /// subscribers. A flow that is not live changes nothing.
    pub fn handle_flow_end(&mut self, flow_id: u64, bytes_in: u64, bytes_out: u64)
        requires
            old(self).wf(),
            end_fits(old(self)@, flow_id, bytes_in, bytes_out),
        ensures
            final(self).wf(),
            final(self).notifier() == old(self).notifier(),
            final(self)@ == ended(old(self)@, flow_id, bytes_in, bytes_out),
            told(
                final(self).subscribers(),
                old(self).subscribers(),
                end_messages(old(self)@, flow_id, bytes_in, bytes_out),
            ),
    {
        let messages = self.finish_flow(flow_id, bytes_in, bytes_out);
        self.broadcast_all(messages);
    }

    /// Notes the proxy's status and tells the subscribers if it is new.
    pub fn set_proxy_status(&mut self, status: ProxyStatus)
        requires
            old(self).wf(),
        ensures
            final(self).wf(),
            final(self).notifier() == old(self).notifier(),
            final(self)@ == status_noted(old(self)@, status),
            final(self)@ == (HubView { proxy_status: status, ..old(self)@ }),
            told(
                final(self).subscribers(),
                old(self).subscribers(),
                status_messages(old(self)@, status),
            ),
    {
        let messages = self.note_proxy_status(status);
        self.broadcast_all(messages);
    }

    /// Wakes all that wait for a shutdown.
    pub fn signal_shutdown(&mut self)
        requires
            old(self).wf(),
        ensures
            final(self).wf(),
            final(self).subscribers() == old(self).subscribers(),
            final(self).notifier() == old(self).notifier(),
            final(self)@ == shut_down(old(self)@),
            final(self)@ == (HubView { shutdowns: old(self)@.shutdowns + 1, ..old(self)@ }),
    {
        wake_waiters(&mut self.shutdown);
    }

    /// What to wait on for a shutdown.
    pub fn shutdown_notifier(&self) -> (n: Arc<Notify>)
        ensures
            bell(*n) == self.notifier(),
    {
        self.shutdown.clone()
    }

    /// Carries out a client's command. Returns the full state if the command
    /// asks for it.
    pub fn handle_tui_command(&mut self, cmd: TuiCommand) -> (answer: Option<DaemonToTuiMessage>)
        requires
            old(self).wf(),
        ensures
            final(self).wf(),
            final(self).notifier() == old(self).notifier(),
            final(self)@ == commanded(old(self)@, cmd@),
            told(
                final(self).subscribers(),
                old(self).subscribers(),
                command_messages(old(self)@, cmd@),
            ),
            answer is Some <==> wants_state(cmd@),
            answer matches Some(m) ==> reports(m@, old(self)@),
    {
        let mut messages: Vec<DaemonToTuiMessage> = Vec::new();
        let mut answer: Option<DaemonToTuiMessage> = None;
        match cmd {
            TuiCommand::Subscribe => {
                answer = Some(self.get_full_state());
            },
            TuiCommand::GetState => {
                answer = Some(self.get_full_state());
            },
            TuiCommand::SetAppRouting { bundle_id, action } => {
                messages = self.route_app(bundle_id.as_str(), action);
            },
            TuiCommand::SetGlobalRouting { action } => {
                self.route_all(action);
            },
            TuiCommand::Shutdown => {
                self.signal_shutdown();
            },
        }
        assert(message_views(messages@) =~= command_messages(old(self)@, cmd@));
        self.broadcast_all(messages);
        answer
    }

    /// Adds a subscriber and returns the end at which it receives updates.
    pub fn subscribe_tui(&mut self) -> (rx: UnboundedReceiver<DaemonToTuiMessage>)
        requires
            old(self).wf(),
        ensures
            final(self).wf(),
            final(self)@ == old(self)@,
            final(self).notifier() == old(self).notifier(),
            joined(final(self).subscribers(), old(self).subscribers(), rx),
    {
        let (tx, rx) = open_channel();
        self.tui_subscribers.push(tx);
        assert(self.subscribers().drop_last() == old(self).subscribers());
        rx
    }

    /// A report of the full state.
    pub fn get_full_state(&self) -> (m: DaemonToTuiMessage)
        requires
            self.wf(),
        ensures
            reports(m@, self@),
    {
        DaemonToTuiMessage::FullState {
            apps: copy_apps(&self.apps),
            flows: list_flows(&self.flows),
            proxy_status: self.proxy_status,
        }
    }
}

/// Sends a message to each subscriber. Tells which of them took it.
fn send_all(subscribers: &mut Vec<Subscriber>, msg: &DaemonToTuiMessage) -> (taken: Vec<bool>)
    ensures
        offered(old(subscribers)@, final(subscribers)@, msg@),
        taken@ == outcomes(final(subscribers)@),
{
    let ghost before = subscribers@;
    let n: usize = subscribers.len();
    let mut taken: Vec<bool> = Vec::new();
    for i in 0..n
        invariant
            n == subscribers@.len() == before.len(),
            taken@.len() == i,
            forall|j: int|
                0 <= j < i ==> speaks(#[trigger] subscribers@[j]) == speaks(before[j]) && sends(
                    subscribers@[j],
                ) == sends(before[j]).push((msg@, took(subscribers@[j]))) && taken@[j] == took(
                    subscribers@[j],
                ),
            forall|j: int| i <= j < n ==> (#[trigger] subscribers@[j]) == before[j],
    {
        let ok = send_to(&mut subscribers[i], msg.clone());
        taken.push(ok);
    }
    assert(taken@ =~= outcomes(subscribers@));
    taken
}

/// The position of the first rule for an application.
fn rule_position(rules: &Vec<(String, RouteAction)>, bundle_id: &String) -> (r: Option<usize>)
    ensures
        (match r {
            Some(i) => i < rules@.len() && rules@[i as int].0@ == bundle_id@,
            None => true,
        }),
        r is Some <==> rule_map(rule_views(rules@)).contains_key(bundle_id@),
{
    for i in 0..rules.len()
        invariant
            forall|j: int| 0 <= j < i ==> rules@[j].0@ != bundle_id@,
    {
        if rules[i].0 == *bundle_id {
            assert(rule_key()(rule_views(rules@)[i as int]) == bundle_id@);
            return Some(i);
        }
    }
    assert(!has_key(rule_views(rules@), rule_key(), bundle_id@));
    None
}

/// The numbers of the flows in a map, in some order.
fn flow_ids(flows: &HashMap<u64, FlowInfo>) -> (ids: Vec<u64>)
    ensures
        ids@.no_duplicates(),
        ids@.to_set() == flows@.dom(),
{
    let mut ids: Vec<u64> = Vec::new();
    for k in it: flows.keys()
        invariant
            ids@ == it.seq().unref().take(it.index() as int),
            it.index() == it.seq().len() ==> ids@ == it.seq().unref(),
            it.seq().no_duplicates(),
            it.seq().unref().to_set() == flows@.dom(),
    {
        ids.push(*k);
    }
    ids
}

/// The flows in a map, in some order.
fn list_flows(flows: &HashMap<u64, FlowInfo>) -> (r: Vec<FlowInfo>)
    requires
        numbered(flows@),
    ensures
        keyed(flow_views(r@), flow_key()),
        table(flow_views(r@), flow_key()) == flow_map(flows@),
{
    let ids = flow_ids(flows);
    let mut r: Vec<FlowInfo> = Vec::new();
    for i in 0..ids.len()
        invariant
            ids@.to_set() == flows@.dom(),
            r@.len() == i,
            forall|j: int| 0 <= j < i ==> (#[trigger] r@[j])@ == flow_map(flows@)[ids@[j]],
    {
        assert(ids@.to_set().contains(ids@[i as int]));
        if let Some(flow) = flows.get(&ids[i]) {
            r.push(flow.clone());
        }
    }
    proof {
        let s = flow_views(r@);
        let t = table(s, flow_key());
        assert forall|j: int| 0 <= j < s.len() implies flow_key()(#[trigger] s[j]) == ids@[j] by {
            assert(s[j] == r@[j]@);
            assert(ids@.to_set().contains(ids@[j]));
        }
        assert forall|k: u64| t.contains_key(k) == flow_map(flows@).contains_key(k) by {
            if flows@.contains_key(k) {
                assert(ids@.to_set().contains(k));
                let j = choose|j: int| 0 <= j < ids@.len() && ids@[j] == k;
                assert(flow_key()(s[j]) == k);
            }
            if has_key(s, flow_key(), k) {
                let j = choose|j: int| 0 <= j < s.len() && flow_key()(#[trigger] s[j]) == k;
                assert(ids@.to_set().contains(ids@[j]));
            }
        }
        assert forall|k: u64| t.contains_key(k) implies t[k] == flow_map(flows@)[k] by {
            let j = choose|j: int| 0 <= j < s.len() && flow_key()(#[trigger] s[j]) == k;
            lemma_lookup(s, flow_key(), j);
            assert(s[j] == r@[j]@);
        }
        assert(t =~= flow_map(flows@));
    }
    r
}

/// Sets the routing of the flows of one application.
fn set_routing_of(flows: &mut HashMap<u64, FlowInfo>, bundle_id: &String, action: RouteAction)
    requires
        numbered(old(flows)@),
    ensures
        numbered(final(flows)@),
        flow_map(final(flows)@) == flow_map(old(flows)@).map_values(
            reroute_flows_of(bundle_id@, action),
        ),
{
    let ghost before = flows@;
    let ghost f = reroute_flows_of(bundle_id@, action);
    let ids = flow_ids(flows);
    for i in 0..ids.len()
        invariant
            ids@.no_duplicates(),
            ids@.to_set() == before.dom(),
            f == reroute_flows_of(bundle_id@, action),
            flows@.dom() == before.dom(),
            numbered(flows@),
            forall|j: int| 0 <= j < i ==> flows@[#[trigger] ids@[j]]@ == f(before[ids@[j]]@),
            forall|j: int| i <= j < ids@.len() ==> flows@[#[trigger] ids@[j]] == before[ids@[j]],
    {
        assert(ids@.to_set().contains(ids@[i as int]));
        if let Some(found) = flows.get(&ids[i]) {
            if found.bundle_id == *bundle_id {
                let mut flow = found.clone();
                flow.routing = action;
                let _replaced = flows.insert(ids[i], flow);
                assert(flows@.dom() =~= before.dom());
            }
        }
    }
    proof {
        lemma_rerouted(before, flows@, ids@, f);
    }
}

/// Where the flow under each number was changed, the whole map was.
proof fn lemma_rerouted(
    before: Map<u64, FlowInfo>,
    after: Map<u64, FlowInfo>,
    ids: Seq<u64>,
    f: spec_fn(FlowView) -> FlowView,
)
    requires
        ids.to_set() == before.dom(),
        after.dom() == before.dom(),
        forall|j: int| 0 <= j < ids.len() ==> after[#[trigger] ids[j]]@ == f(before[ids[j]]@),
    ensures
        flow_map(after) == flow_map(before).map_values(f),
{
    assert forall|k: u64| before.contains_key(k) implies after[k]@ == f(before[k]@) by {
        assert(ids.to_set().contains(k));
        let j = choose|j: int| 0 <= j < ids.len() && ids[j] == k;
        assert(after[ids[j]]@ == f(before[ids[j]]@));
    }
    assert(flow_map(after) =~= flow_map(before).map_values(f));
}

/// Sets the routing of the flows without a rule of their own.
fn set_flow_default(
    flows: &mut HashMap<u64, FlowInfo>,
    rules: &Vec<(String, RouteAction)>,
    action: RouteAction,
)
    requires
        numbered(old(flows)@),
    ensures
        numbered(final(flows)@),
        flow_map(final(flows)@) == flow_map(old(flows)@).map_values(
            reroute_flows(rule_map(rule_views(rules@)), action),
        ),
{
    let ghost before = flows@;
    let ghost f = reroute_flows(rule_map(rule_views(rules@)), action);
    let ids = flow_ids(flows);
    for i in 0..ids.len()
        invariant
            ids@.no_duplicates(),
            ids@.to_set() == before.dom(),
            f == reroute_flows(rule_map(rule_views(rules@)), action),
            flows@.dom() == before.dom(),
            numbered(flows@),
            forall|j: int| 0 <= j < i ==> flows@[#[trigger] ids@[j]]@ == f(before[ids@[j]]@),
            forall|j: int| i <= j < ids@.len() ==> flows@[#[trigger] ids@[j]] == before[ids@[j]],
    {
        assert(ids@.to_set().contains(ids@[i as int]));
        if let Some(found) = flows.get(&ids[i]) {
            if rule_position(rules, &found.bundle_id).is_none() {
                let mut flow = found.clone();
                flow.routing = action;
                let _replaced = flows.insert(ids[i], flow);
                assert(flows@.dom() =~= before.dom());
            }
        }
    }
    proof {
        lemma_rerouted(before, flows@, ids@, f);
    }
}

/// Sets the routing of the applications without a rule of their own.
fn set_app_default(
    apps: &mut Vec<AppInfo>,
    rules: &Vec<(String, RouteAction)>,
    action: RouteAction,
)
    ensures
        app_views(final(apps)@) == app_views(old(apps)@).map_values(
            reroute_apps(rule_map(rule_views(rules@)), action),
        ),
{
    let ghost before = app_views(apps@);
    let ghost f = reroute_apps(rule_map(rule_views(rules@)), action);
    let n: usize = apps.len();
    for i in 0..n
        invariant
            n == apps@.len() == before.len(),
            f == reroute_apps(rule_map(rule_views(rules@)), action),
            forall|j: int| 0 <= j < i ==> (#[trigger] app_views(apps@)[j]) == f(before[j]),
            forall|j: int| i <= j < n ==> (#[trigger] app_views(apps@)[j]) == before[j],
    {
        let ghost v = apps@;
        assert(app_views(v)[i as int] == before[i as int]);
        if rule_position(rules, &apps[i].bundle_id).is_none() {
            let mut app = apps[i].clone();
            app.routing = action;
            apps[i] = app;
        }
        assert forall|j: int| 0 <= j < n && j != i implies (#[trigger] app_views(apps@)[j])
            == app_views(v)[j] by {}
    }
    assert(app_views(apps@) =~= before.map_values(f));
}

/// Whether `pids` holds `pid`.
fn lists_pid(pids: &Vec<u32>, pid: u32) -> (b: bool)
    ensures
        b == pids@.contains(pid),
{
    for i in 0..pids.len()
        invariant
            forall|j: int| 0 <= j < i ==> pids@[j] != pid,
    {
        if pids[i] == pid {
            return true;
        }
    }
    false
}

} // verus!

//! Messages exchanged between the daemon and its terminal clients.

use vstd::prelude::*;

verus! {

/// Transport protocol of a flow.
#[derive(Debug, Clone, Copy, PartialEq, Eq, Structural)]
pub enum Proto {
    Tcp,
    Udp,
}

/// Which end opened a connection.
#[derive(Debug, Clone, Copy, PartialEq, Eq, Structural)]
pub enum Direction {
    Inbound,
    Outbound,
}

/// What happens to an application's traffic.
#[derive(Debug, Clone, Copy, PartialEq, Eq, Structural)]
pub enum RouteAction {
    Passthrough,
    RouteToProxy,
}

impl Default for RouteAction {
    /// Traffic passes through until told otherwise.
    fn default() -> (r: Self)
        ensures
            r == RouteAction::Passthrough,
    {
        RouteAction::Passthrough
    }
}

/// Whether the upstream proxy answers.
#[derive(Debug, Clone, Copy, PartialEq, Eq, Structural)]
pub enum ProxyStatus {
    Unknown,
    Reachable,
    Unreachable,
}

impl Default for ProxyStatus {
    /// Nothing is known before the first probe.
    fn default() -> (r: Self)
        ensures
            r == ProxyStatus::Unknown,
    {
        ProxyStatus::Unknown
    }
}

/// A request from a terminal client to the daemon.
#[derive(Debug)]
pub enum TuiCommand {
    Subscribe,
    SetAppRouting { bundle_id: String, action: RouteAction },
    SetGlobalRouting { action: RouteAction },
    GetState,
    Shutdown,
}

/// The contents of a `TuiCommand`.
pub enum CommandView {
    Subscribe,
    SetAppRouting { bundle_id: Seq<char>, action: RouteAction },
    SetGlobalRouting { action: RouteAction },
    GetState,
    Shutdown,
}

impl View for TuiCommand {
    type V = CommandView;

    open spec fn view(&self) -> CommandView {
        match self {
            TuiCommand::Subscribe => CommandView::Subscribe,
            TuiCommand::SetAppRouting { bundle_id, action } => CommandView::SetAppRouting {
                bundle_id: bundle_id@,
                action: *action,
            },
            TuiCommand::SetGlobalRouting { action } => CommandView::SetGlobalRouting {
                action: *action,
            },
            TuiCommand::GetState => CommandView::GetState,
            TuiCommand::Shutdown => CommandView::Shutdown,
        }
    }
}

impl Clone for TuiCommand {
    fn clone(&self) -> (r: Self)
        ensures
            r@ == self@,
    {
        match self {
            TuiCommand::Subscribe => TuiCommand::Subscribe,
            TuiCommand::SetAppRouting { bundle_id, action } => TuiCommand::SetAppRouting {
                bundle_id: bundle_id.clone(),
                action: *action,
            },
            TuiCommand::SetGlobalRouting { action } => TuiCommand::SetGlobalRouting {
                action: *action,
            },
            TuiCommand::GetState => TuiCommand::GetState,
            TuiCommand::Shutdown => TuiCommand::Shutdown,
        }
    }
}

/// One application and the totals of its finished flows.
#[derive(Debug)]
pub struct AppInfo {
    pub bundle_id: String,
    pub name: String,
    pub pids: Vec<u32>,
    pub flow_count: usize,
    pub bytes_in: u64,
    pub bytes_out: u64,
    pub routing: RouteAction,
}

/// The contents of an `AppInfo`.
#[verifier::ext_equal]
pub struct AppView {
    pub bundle_id: Seq<char>,
    pub name: Seq<char>,
    pub pids: Seq<u32>,
    pub flow_count: usize,
    pub bytes_in: u64,
    pub bytes_out: u64,
    pub routing: RouteAction,
}

impl View for AppInfo {
    type V = AppView;

    open spec fn view(&self) -> AppView {
        AppView {
            bundle_id: self.bundle_id@,
            name: self.name@,
            pids: self.pids@,
            flow_count: self.flow_count,
            bytes_in: self.bytes_in,
            bytes_out: self.bytes_out,
            routing: self.routing,
        }
    }
}

impl Clone for AppInfo {
    fn clone(&self) -> (r: Self)
        ensures
            r@ == self@,
    {
        AppInfo {
            bundle_id: self.bundle_id.clone(),
            name: self.name.clone(),
            pids: self.pids.clone(),
            flow_count: self.flow_count,
            bytes_in: self.bytes_in,
            bytes_out: self.bytes_out,
            routing: self.routing,
        }
    }
}

/// One live connection.
#[derive(Debug)]
pub struct FlowInfo {
    pub flow_id: u64,
    pub pid: u32,
    pub process_name: String,
    pub bundle_id: String,
    pub local_addr: String,
    pub remote_addr: String,
    pub proto: Proto,
    pub bytes_in: u64,
    pub bytes_out: u64,
    pub routing: RouteAction,
    pub started_at: u64,
}

/// The contents of a `FlowInfo`.
#[verifier::ext_equal]
pub struct FlowView {
    pub flow_id: u64,
    pub pid: u32,
    pub process_name: Seq<char>,
    pub bundle_id: Seq<char>,
    pub local_addr: Seq<char>,
    pub remote_addr: Seq<char>,
    pub proto: Proto,
    pub bytes_in: u64,
    pub bytes_out: u64,
    pub routing: RouteAction,
    pub started_at: u64,
}

impl View for FlowInfo {
    type V = FlowView;

    open spec fn view(&self) -> FlowView {
        FlowView {
            flow_id: self.flow_id,
            pid: self.pid,
            process_name: self.process_name@,
            bundle_id: self.bundle_id@,
            local_addr: self.local_addr@,
            remote_addr: self.remote_addr@,
            proto: self.proto,
            bytes_in: self.bytes_in,
            bytes_out: self.bytes_out,
            routing: self.routing,
            started_at: self.started_at,
        }
    }
}

impl Clone for FlowInfo {
    fn clone(&self) -> (r: Self)
        ensures
            r@ == self@,
    {
        FlowInfo {
            flow_id: self.flow_id,
            pid: self.pid,
            process_name: self.process_name.clone(),
            bundle_id: self.bundle_id.clone(),
            local_addr: self.local_addr.clone(),
            remote_addr: self.remote_addr.clone(),
            proto: self.proto,
            bytes_in: self.bytes_in,
            bytes_out: self.bytes_out,
            routing: self.routing,
            started_at: self.started_at,
        }
    }
}

/// A report from the daemon to a terminal client.
#[derive(Debug)]
pub enum DaemonToTuiMessage {
    FullState { apps: Vec<AppInfo>, flows: Vec<FlowInfo>, proxy_status: ProxyStatus },
    FlowUpdate { flow: FlowInfo },
    FlowRemoved { flow_id: u64 },
    AppUpdate { app: AppInfo },
    ProxyStatusUpdate { status: ProxyStatus },
}

/// The contents of a `DaemonToTuiMessage`.
#[verifier::ext_equal]
pub enum MessageView {
    FullState { apps: Seq<AppView>, flows: Seq<FlowView>, proxy_status: ProxyStatus },
    FlowUpdate { flow: FlowView },
    FlowRemoved { flow_id: u64 },
    AppUpdate { app: AppView },
    ProxyStatusUpdate { status: ProxyStatus },
}

/// The contents of a list of applications.
pub open spec fn app_views(s: Seq<AppInfo>) -> Seq<AppView> {
    s.map_values(|a: AppInfo| a@)
}

/// The contents of a list of flows.
pub open spec fn flow_views(s: Seq<FlowInfo>) -> Seq<FlowView> {
    s.map_values(|f: FlowInfo| f@)
}

/// The contents of a list of messages.
pub open spec fn message_views(s: Seq<DaemonToTuiMessage>) -> Seq<MessageView> {
    s.map_values(|m: DaemonToTuiMessage| m@)
}

impl View for DaemonToTuiMessage {
    type V = MessageView;

    open spec fn view(&self) -> MessageView {
        match self {
            DaemonToTuiMessage::FullState { apps, flows, proxy_status } => MessageView::FullState {
                apps: app_views(apps@),
                flows: flow_views(flows@),
                proxy_status: *proxy_status,
            },
            DaemonToTuiMessage::FlowUpdate { flow } => MessageView::FlowUpdate { flow: flow@ },
            DaemonToTuiMessage::FlowRemoved { flow_id } => MessageView::FlowRemoved {
                flow_id: *flow_id,
            },
            DaemonToTuiMessage::AppUpdate { app } => MessageView::AppUpdate { app: app@ },
            DaemonToTuiMessage::ProxyStatusUpdate { status } => MessageView::ProxyStatusUpdate {
                status: *status,
            },
        }
    }
}

/// Copies a list of applications.
pub fn copy_apps(v: &Vec<AppInfo>) -> (r: Vec<AppInfo>)
    ensures
        app_views(r@) == app_views(v@),
{
    let mut r: Vec<AppInfo> = Vec::new();
    for i in 0..v.len()
        invariant
            app_views(r@) == app_views(v@.take(i as int)),
    {
        let ghost before = r@;
        r.push(v[i].clone());
        assert(app_views(r@) == app_views(before).push(v@[i as int]@));
        assert(app_views(v@.take(i + 1)) == app_views(v@.take(i as int)).push(v@[i as int]@));
    }
    assert(v@.take(v@.len() as int) == v@);
    r
}

/// Copies a list of flows.
pub fn copy_flows(v: &Vec<FlowInfo>) -> (r: Vec<FlowInfo>)
    ensures
        flow_views(r@) == flow_views(v@),
{
    let mut r: Vec<FlowInfo> = Vec::new();
    for i in 0..v.len()
        invariant
            flow_views(r@) == flow_views(v@.take(i as int)),
    {
        let ghost before = r@;
        r.push(v[i].clone());
        assert(flow_views(r@) == flow_views(before).push(v@[i as int]@));
        assert(flow_views(v@.take(i + 1)) == flow_views(v@.take(i as int)).push(v@[i as int]@));
    }
    assert(v@.take(v@.len() as int) == v@);
    r
}

impl Clone for DaemonToTuiMessage {
    fn clone(&self) -> (r: Self)
        ensures
            r@ == self@,
    {
        match self {
            DaemonToTuiMessage::FullState { apps, flows, proxy_status } => {
                DaemonToTuiMessage::FullState {
                    apps: copy_apps(apps),
                    flows: copy_flows(flows),
                    proxy_status: *proxy_status,
                }
            },
            DaemonToTuiMessage::FlowUpdate { flow } => DaemonToTuiMessage::FlowUpdate {
                flow: flow.clone(),
            },
            DaemonToTuiMessage::FlowRemoved { flow_id } => DaemonToTuiMessage::FlowRemoved {
                flow_id: *flow_id,
            },
            DaemonToTuiMessage::AppUpdate { app } => DaemonToTuiMessage::AppUpdate {
                app: app.clone(),
            },
            DaemonToTuiMessage::ProxyStatusUpdate { status } => {
                DaemonToTuiMessage::ProxyStatusUpdate { status: *status }
            },
        }
    }
}

/// The contents of a flow are those of its fields.
pub proof fn law_flows_show_their_fields(f: FlowInfo)
    ensures
        f@.flow_id == f.flow_id,
        f@.pid == f.pid,
        f@.process_name == f.process_name@,
        f@.bundle_id == f.bundle_id@,
        f@.local_addr == f.local_addr@,
        f@.remote_addr == f.remote_addr@,
        f@.proto == f.proto,
        f@.bytes_in == f.bytes_in,
        f@.bytes_out == f.bytes_out,
        f@.routing == f.routing,
        f@.started_at == f.started_at,
{
}

/// The contents of an application are those of its fields.
pub proof fn law_applications_show_their_fields(a: AppInfo)
    ensures
        a@.bundle_id == a.bundle_id@,
        a@.name == a.name@,
        a@.pids == a.pids@,
        a@.flow_count == a.flow_count,
        a@.bytes_in == a.bytes_in,
        a@.bytes_out == a.bytes_out,
        a@.routing == a.routing,
{
}

/// Lists are shown entry by entry, in order.
pub proof fn law_lists_show_every_entry(apps: Seq<AppInfo>, flows: Seq<FlowInfo>, i: int)
    ensures
        app_views(apps).len() == apps.len(),
        flow_views(flows).len() == flows.len(),
        0 <= i < apps.len() ==> app_views(apps)[i] == apps[i]@,
        0 <= i < flows.len() ==> flow_views(flows)[i] == flows[i]@,
{
}

/// The contents of a message are its kind and those of what it carries.
pub proof fn law_messages_show_what_they_carry(m: DaemonToTuiMessage)
    ensures
        m matches DaemonToTuiMessage::FullState { apps, flows, proxy_status } ==> m@ == (
        MessageView::FullState {
            apps: app_views(apps@),
            flows: flow_views(flows@),
            proxy_status,
        }),
        m matches DaemonToTuiMessage::FlowUpdate { flow } ==> m@ == (MessageView::FlowUpdate {
            flow: flow@,
        }),
        m matches DaemonToTuiMessage::FlowRemoved { flow_id } ==> m@ == (MessageView::FlowRemoved {
            flow_id,
        }),
        m matches DaemonToTuiMessage::AppUpdate { app } ==> m@ == (MessageView::AppUpdate {
            app: app@,
        }),
        m matches DaemonToTuiMessage::ProxyStatusUpdate { status } ==> m@ == (
        MessageView::ProxyStatusUpdate { status }),
{
}

/// The contents of a command are its kind and those of what it carries.
pub proof fn law_commands_show_what_they_carry(c: TuiCommand)
    ensures
        c is Subscribe <==> c@ is Subscribe,
        c is GetState <==> c@ is GetState,
        c is Shutdown <==> c@ is Shutdown,
        c matches TuiCommand::SetAppRouting { bundle_id, action } ==> c@ == (
        CommandView::SetAppRouting { bundle_id: bundle_id@, action }),
        c matches TuiCommand::SetGlobalRouting { action } ==> c@ == (
        CommandView::SetGlobalRouting { action }),
{
}

} // verus!

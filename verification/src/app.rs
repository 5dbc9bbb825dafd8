//! The terminal client's state: what it shows, what is selected, and what keys
//! and messages do to it.

use vstd::prelude::*;
use vstd::string::StringExecFns;

use crate::event::{Event, Key};
use crate::proto::{
    app_views, flow_views, AppInfo, AppView, CommandView, DaemonToTuiMessage, FlowInfo, FlowView,
    MessageView, ProxyStatus, RouteAction, TuiCommand,
};

verus! {

/// Seconds between two attempts to reconnect.
pub const RECONNECT_SECS: u64 = 3;

/// Milliseconds left to the daemon to shut down.
pub const QUIT_DELAY_MILLIS: u64 = 200;

/// Which panel the keys are for.
#[derive(Debug, Clone, Copy, PartialEq, Eq, Structural)]
pub enum Focus {
    Apps,
    Flows,
}

/// The client's state.
#[derive(Debug)]
pub struct App {
    pub focus: Focus,
    pub apps: Vec<AppInfo>,
    pub flows: Vec<FlowInfo>,
    pub proxy_status: ProxyStatus,
    pub selected_app: usize,
    pub selected_flow: usize,
    pub should_quit: bool,
    pub connected: bool,
    pub status_message: String,
}

/// The contents of an `App`.
#[verifier::ext_equal]
pub struct Screen {
    pub focus: Focus,
    pub apps: Seq<AppView>,
    pub flows: Seq<FlowView>,
    pub proxy_status: ProxyStatus,
    pub selected_app: usize,
    pub selected_flow: usize,
    pub should_quit: bool,
    pub connected: bool,
    pub status_message: Seq<char>,
}

impl View for App {
    type V = Screen;

    open spec fn view(&self) -> Screen {
        Screen {
            focus: self.focus,
            apps: app_views(self.apps@),
            flows: flow_views(self.flows@),
            proxy_status: self.proxy_status,
            selected_app: self.selected_app,
            selected_flow: self.selected_flow,
            should_quit: self.should_quit,
            connected: self.connected,
            status_message: self.status_message@,
        }
    }
}

/// The state at the start.
pub open spec fn blank_screen() -> Screen {
    Screen {
        focus: Focus::Apps,
        apps: Seq::empty(),
        flows: Seq::empty(),
        proxy_status: ProxyStatus::Unknown,
        selected_app: 0,
        selected_flow: 0,
        should_quit: false,
        connected: false,
        status_message: ""@,
    }
}

/// A selection no further than the last entry of a list of `len`, or the first
/// place where there is none.
pub open spec fn clamped(selected: usize, len: nat) -> usize {
    if len == 0 {
        0
    } else if selected < len {
        selected
    } else {
        (len - 1) as usize
    }
}

/// The state with both selections within their lists.
pub open spec fn clamped_screen(s: Screen) -> Screen {
    Screen {
        selected_app: clamped(s.selected_app, s.apps.len()),
        selected_flow: clamped(s.selected_flow, s.flows.len()),
        ..s
    }
}

/// The position of the first flow with a number, or the length.
pub open spec fn flow_position(s: Seq<FlowView>, flow_id: u64) -> nat
    decreases s.len(),
{
    if s.len() == 0 || s[0].flow_id == flow_id {
        0
    } else {
        1 + flow_position(s.drop_first(), flow_id)
    }
}

/// The flows with one put in the place of the first with its number, or at the
/// end.
pub open spec fn with_flow(s: Seq<FlowView>, flow: FlowView) -> Seq<FlowView> {
    let i = flow_position(s, flow.flow_id) as int;
    if i < s.len() {
        s.update(i, flow)
    } else {
        s.push(flow)
    }
}

/// The flows that do not have the number.
pub open spec fn without_flow(s: Seq<FlowView>, flow_id: u64) -> Seq<FlowView> {
    s.filter(|f: FlowView| f.flow_id != flow_id)
}

/// The position of the first application with an identifier, or the length.
pub open spec fn app_position(s: Seq<AppView>, bundle_id: Seq<char>) -> nat
    decreases s.len(),
{
    if s.len() == 0 || s[0].bundle_id == bundle_id {
        0
    } else {
        1 + app_position(s.drop_first(), bundle_id)
    }
}

/// The applications with one put in the place of the first with its identifier,
/// or at the end.
pub open spec fn with_app(s: Seq<AppView>, app: AppView) -> Seq<AppView> {
    let i = app_position(s, app.bundle_id) as int;
    if i < s.len() {
        s.update(i, app)
    } else {
        s.push(app)
    }
}

/// The state after a message of the daemon.
pub open spec fn applied(s: Screen, msg: MessageView) -> Screen {
    match msg {
        MessageView::FullState { apps, flows, proxy_status } => clamped_screen(
            Screen { apps, flows, proxy_status, status_message: "Connected"@, ..s },
        ),
        MessageView::FlowUpdate { flow } => Screen { flows: with_flow(s.flows, flow), ..s },
        MessageView::FlowRemoved { flow_id } => clamped_screen(
            Screen { flows: without_flow(s.flows, flow_id), ..s },
        ),
        MessageView::AppUpdate { app } => Screen { apps: with_app(s.apps, app), ..s },
        MessageView::ProxyStatusUpdate { status } => Screen { proxy_status: status, ..s },
    }
}

/// Moving from `selected` by `delta` in a list of `len` stays within the range
/// of 32-bit numbers, in which the move is computed. With lists of up to
/// 2^31 - 1 entries and a selection within, one step always does.
pub open spec fn move_fits(selected: usize, len: usize, delta: int) -> bool {
    len > 0 ==> {
        &&& len as i32 != 0
        &&& i32::MIN <= selected as i32 + delta <= i32::MAX
        &&& !(selected as i32 + delta == i32::MIN && len as i32 == -1)
    }
}

/// The selection after a move by `delta`, around the ends of the list.
pub open spec fn moved(selected: usize, len: usize, delta: int) -> usize {
    if len == 0 {
        selected
    } else {
        ((selected as i32 + delta) % (len as i32 as int)) as usize
    }
}

/// The state after the selection of the panel in focus moved.
pub open spec fn selection_moved(s: Screen, delta: int) -> Screen {
    match s.focus {
        Focus::Apps => Screen {
            selected_app: moved(s.selected_app, s.apps.len() as usize, delta),
            ..s
        },
        Focus::Flows => Screen {
            selected_flow: moved(s.selected_flow, s.flows.len() as usize, delta),
            ..s
        },
    }
}

/// The panel in focus can be moved in.
pub open spec fn focus_move_fits(s: Screen, delta: int) -> bool {
    match s.focus {
        Focus::Apps => move_fits(s.selected_app, s.apps.len() as usize, delta),
        Focus::Flows => move_fits(s.selected_flow, s.flows.len() as usize, delta),
    }
}

/// The other action.
pub open spec fn toggled(action: RouteAction) -> RouteAction {
    match action {
        RouteAction::Passthrough => RouteAction::RouteToProxy,
        RouteAction::RouteToProxy => RouteAction::Passthrough,
    }
}

/// The name of an action.
pub open spec fn action_name(action: RouteAction) -> Seq<char> {
    match action {
        RouteAction::Passthrough => "Passthrough"@,
        RouteAction::RouteToProxy => "RouteToProxy"@,
    }
}

/// Some application goes through the proxy.
pub open spec fn any_routed(apps: Seq<AppView>) -> bool {
    exists|i: int| 0 <= i < apps.len() && (#[trigger] apps[i]).routing == RouteAction::RouteToProxy
}

/// The global action to ask for: through the proxy, unless some application
/// goes through it already.
pub open spec fn next_global(apps: Seq<AppView>) -> RouteAction {
    if any_routed(apps) {
        RouteAction::Passthrough
    } else {
        RouteAction::RouteToProxy
    }
}

/// A command for the daemon, and what to show once it is sent.
#[derive(Debug)]
pub struct Request {
    pub command: TuiCommand,
    pub note: String,
}

/// The contents of a `Request`.
pub struct RequestView {
    pub command: CommandView,
    pub note: Seq<char>,
}

impl View for Request {
    type V = RequestView;

    open spec fn view(&self) -> RequestView {
        RequestView { command: self.command@, note: self.note@ }
    }
}

/// The request to toggle the routing of the selected application, if there is
/// one.
pub open spec fn app_request(s: Screen) -> Option<RequestView> {
    if s.selected_app < s.apps.len() {
        let a = s.apps[s.selected_app as int];
        Some(
            RequestView {
                command: CommandView::SetAppRouting {
                    bundle_id: a.bundle_id,
                    action: toggled(a.routing),
                },
                note: "Routing for "@ + a.name + " -> "@ + action_name(toggled(a.routing)),
            },
        )
    } else {
        None
    }
}

/// The request to toggle the global routing.
pub open spec fn global_request(s: Screen) -> RequestView {
    RequestView {
        command: CommandView::SetGlobalRouting { action: next_global(s.apps) },
        note: "Global routing -> "@ + action_name(next_global(s.apps)),
    }
}

/// The state after a key.
pub open spec fn keyed_screen(s: Screen, key: Key) -> Screen {
    match key {
        Key::Char(c) => if c == 'q' {
            Screen { should_quit: true, ..s }
        } else {
            s
        },
        Key::Tab => Screen {
            focus: match s.focus {
                Focus::Apps => Focus::Flows,
                Focus::Flows => Focus::Apps,
            },
            ..s
        },
        Key::Up => selection_moved(s, -1),
        Key::Down => selection_moved(s, 1),
        Key::Other => s,
    }
}

/// The request that a key makes.
pub open spec fn key_request(s: Screen, key: Key) -> Option<RequestView> {
    match key {
        Key::Char(c) => if c == 'r' && s.focus == Focus::Apps {
            app_request(s)
        } else if c == 'g' {
            Some(global_request(s))
        } else {
            None
        },
        _ => None,
    }
}

/// A key can be handled: the move that it makes, if any, fits.
pub open spec fn key_fits(s: Screen, key: Key) -> bool {
    match key {
        Key::Up => focus_move_fits(s, -1),
        Key::Down => focus_move_fits(s, 1),
        _ => true,
    }
}

/// The contents of an optional request.
pub open spec fn request_view(r: Option<Request>) -> Option<RequestView> {
    match r {
        Some(q) => Some(q@),
        None => None,
    }
}

/// What is shown after a request was sent, or could not be.
pub open spec fn send_note(note: Seq<char>, error: Option<Seq<char>>) -> Seq<char> {
    match error {
        Some(e) => "Send error: "@ + e,
        None => note,
    }
}

/// The screen after a request was sent, or could not be.
pub open spec fn send_noted(s: Screen, note: Seq<char>, error: Option<Seq<char>>) -> Screen {
    Screen { status_message: send_note(note, error), ..s }
}

/// Whether it is the first attempt to connect.
#[derive(Debug, Clone, Copy, PartialEq, Eq, Structural)]
pub enum Attempt {
    First,
    Again,
}

/// What is shown after an attempt to connect.
pub open spec fn connect_note(attempt: Attempt, error: Option<Seq<char>>) -> Seq<char> {
    match (attempt, error) {
        (Attempt::First, None) => "Connected"@,
        (Attempt::Again, None) => "Reconnected"@,
        (Attempt::First, Some(e)) => "Daemon not available: "@ + e,
        (Attempt::Again, Some(e)) => "Reconnect failed: "@ + e,
    }
}

/// The state after an attempt to connect.
pub open spec fn connect_noted(s: Screen, attempt: Attempt, error: Option<Seq<char>>) -> Screen {
    Screen {
        connected: s.connected || error is None,
        status_message: connect_note(attempt, error),
        ..s
    }
}

/// The state after what the daemon sent: a message, or none where the connection
/// brought nothing more.
pub open spec fn after_reception(s: Screen, msg: Option<MessageView>) -> Screen {
    match msg {
        Some(m) => applied(s, m),
        None => Screen { connected: false, status_message: "Daemon disconnected"@, ..s },
    }
}

/// The state after an event, and the request that it makes.
pub open spec fn after_event(s: Screen, event: Event) -> (Screen, Option<RequestView>) {
    match event {
        Event::Key(k) if k.pressed => (keyed_screen(s, k.code), key_request(s, k.code)),
        _ => (s, None),
    }
}

/// The command to send before quitting.
pub open spec fn parting_command(s: Screen, client_connected: bool) -> Option<CommandView> {
    if s.should_quit && client_connected {
        Some(CommandView::Shutdown)
    } else {
        None
    }
}

/// The contents of an optional message.
pub open spec fn message_view(m: Option<DaemonToTuiMessage>) -> Option<MessageView> {
    match m {
        Some(x) => Some(x@),
        None => None,
    }
}

/// The contents of an optional command.
pub open spec fn command_view(c: Option<TuiCommand>) -> Option<CommandView> {
    match c {
        Some(x) => Some(x@),
        None => None,
    }
}

/// The text of an optional string.
pub open spec fn text_view(s: Option<&str>) -> Option<Seq<char>> {
    match s {
        Some(t) => Some(t@),
        None => None,
    }
}

impl App {
    /// The state at the start.
    pub fn new() -> (a: Self)
        ensures
            a@ == blank_screen(),
    {
        let a = App {
            focus: Focus::Apps,
            apps: Vec::new(),
            flows: Vec::new(),
            proxy_status: ProxyStatus::default(),
            selected_app: 0,
            selected_flow: 0,
            should_quit: false,
            connected: false,
            status_message: "".to_string(),
        };
        assert(a@ =~= blank_screen());
        a
    }

    /// Brings both selections within their lists.
    fn clamp_selections(&mut self)
        ensures
            final(self)@ == clamped_screen(old(self)@),
    {
        self.selected_app = clamp(self.selected_app, self.apps.len());
        self.selected_flow = clamp(self.selected_flow, self.flows.len());
    }

    /// The position of a flow, or the number of flows.
    fn find_flow(&self, flow_id: u64) -> (i: usize)
        ensures
            i == flow_position(self@.flows, flow_id),
            i <= self.flows@.len(),
    {
        let n: usize = self.flows.len();
        let mut i: usize = 0;
        assert(self@.flows.skip(0) == self@.flows);
        while i < n && self.flows[i].flow_id != flow_id
            invariant
                i <= n == self.flows@.len(),
                flow_position(self@.flows, flow_id) == i + flow_position(
                    self@.flows.skip(i as int),
                    flow_id,
                ),
            decreases n - i,
        {
            let ghost rest = self@.flows.skip(i as int);
            assert(rest[0] == self.flows@[i as int]@);
            assert(rest.drop_first() == self@.flows.skip(i + 1));
            i = i + 1;
        }
        proof {
            let rest = self@.flows.skip(i as int);
            if i < n {
                assert(rest[0] == self.flows@[i as int]@);
            }
        }
        i
    }

    /// The position of an application, or the number of applications.
    fn find_app(&self, bundle_id: &String) -> (i: usize)
        ensures
            i == app_position(self@.apps, bundle_id@),
            i <= self.apps@.len(),
    {
        let n: usize = self.apps.len();
        let mut i: usize = 0;
        assert(self@.apps.skip(0) == self@.apps);
        while i < n && self.apps[i].bundle_id != *bundle_id
            invariant
                i <= n == self.apps@.len(),
                app_position(self@.apps, bundle_id@) == i + app_position(
                    self@.apps.skip(i as int),
                    bundle_id@,
                ),
            decreases n - i,
        {
            let ghost rest = self@.apps.skip(i as int);
            assert(rest[0] == self.apps@[i as int]@);
            assert(rest.drop_first() == self@.apps.skip(i + 1));
            i = i + 1;
        }
        proof {
            let rest = self@.apps.skip(i as int);
            if i < n {
                assert(rest[0] == self.apps@[i as int]@);
            }
        }
        i
    }

    /// Applies a message of the daemon.
    pub fn apply_daemon_message(&mut self, msg: DaemonToTuiMessage)
        ensures
            final(self)@ == applied(old(self)@, msg@),
    {
        let ghost before = self@;
        match msg {
            DaemonToTuiMessage::FullState { apps, flows, proxy_status } => {
                self.apps = apps;
                self.flows = flows;
                self.proxy_status = proxy_status;
                self.clamp_selections();
                self.status_message = "Connected".to_string();
            },
            DaemonToTuiMessage::FlowUpdate { flow } => {
                let i: usize = self.find_flow(flow.flow_id);
                let ghost f = flow@;
                if i < self.flows.len() {
                    self.flows[i] = flow;
                    assert(flow_views(self.flows@) == before.flows.update(i as int, f));
                } else {
                    self.flows.push(flow);
                    assert(flow_views(self.flows@) == before.flows.push(f));
                }
            },
            DaemonToTuiMessage::FlowRemoved { flow_id } => {
                drop_flow(&mut self.flows, flow_id);
                self.clamp_selections();
            },
            DaemonToTuiMessage::AppUpdate { app } => {
                let i: usize = self.find_app(&app.bundle_id);
                let ghost a = app@;
                if i < self.apps.len() {
                    self.apps[i] = app;
                    assert(app_views(self.apps@) == before.apps.update(i as int, a));
                } else {
                    self.apps.push(app);
                    assert(app_views(self.apps@) == before.apps.push(a));
                }
            },
            DaemonToTuiMessage::ProxyStatusUpdate { status } => {
                self.proxy_status = status;
            },
        }
    }

    /// Whether a key can be handled.
    pub fn key_is_handled(&self, key: Key) -> (b: bool)
        ensures
            b == key_fits(self@, key),
    {
        let (selected, len): (usize, usize) = match self.focus {
            Focus::Apps => (self.selected_app, self.apps.len()),
            Focus::Flows => (self.selected_flow, self.flows.len()),
        };
        match key {
            Key::Up => step_fits(selected, len, -1),
            Key::Down => step_fits(selected, len, 1),
            _ => true,
        }
    }

    /// Moves the selection of the panel in focus.
    fn move_selection(&mut self, delta: i32)
        requires
            focus_move_fits(old(self)@, delta as int),
        ensures
            final(self)@ == selection_moved(old(self)@, delta as int),
    {
        match self.focus {
            Focus::Apps => {
                self.selected_app = step(self.selected_app, self.apps.len(), delta);
            },
            Focus::Flows => {
                self.selected_flow = step(self.selected_flow, self.flows.len(), delta);
            },
        }
    }

    /// Handles a key. Returns the request that it makes, if any.
    pub fn on_key(&mut self, key: Key) -> (r: Option<Request>)
        requires
            key_fits(old(self)@, key),
        ensures
            final(self)@ == keyed_screen(old(self)@, key),
            request_view(r) == key_request(old(self)@, key),
    {
        match key {
            Key::Char(c) => {
                if c == 'q' {
                    self.should_quit = true;
                    None
                } else if c == 'r' {
                    match self.focus {
                        Focus::Apps => self.toggle_app_routing(),
                        Focus::Flows => None,
                    }
                } else if c == 'g' {
                    Some(self.toggle_global_routing())
                } else {
                    None
                }
            },
            Key::Tab => {
                self.focus = match self.focus {
                    Focus::Apps => Focus::Flows,
                    Focus::Flows => Focus::Apps,
                };
                None
            },
            Key::Up => {
                self.move_selection(-1);
                None
            },
            Key::Down => {
                self.move_selection(1);
                None
            },
            Key::Other => None,
        }
    }

    /// The request to toggle the routing of the selected application.
    fn toggle_app_routing(&self) -> (r: Option<Request>)
        ensures
            request_view(r) == app_request(self@),
    {
        if self.selected_app < self.apps.len() {
            let app = &self.apps[self.selected_app];
            assert(self@.apps[self.selected_app as int] == app@);
            let action = match app.routing {
                RouteAction::Passthrough => RouteAction::RouteToProxy,
                RouteAction::RouteToProxy => RouteAction::Passthrough,
            };
            let mut note = "Routing for ".to_string();
            note.append(app.name.as_str());
            note.append(" -> ");
            note.append(name_action(action));
            let command = TuiCommand::SetAppRouting { bundle_id: app.bundle_id.clone(), action };
            Some(Request { command, note })
        } else {
            None
        }
    }

    /// The request to toggle the global routing.
    fn toggle_global_routing(&self) -> (r: Request)
        ensures
            r@ == global_request(self@),
    {
        let mut routed: bool = false;
        for i in 0..self.apps.len()
            invariant
                routed <==> exists|j: int|
                    0 <= j < i && (#[trigger] self@.apps[j]).routing == RouteAction::RouteToProxy,
        {
            assert(self@.apps[i as int] == self.apps@[i as int]@);
            if self.apps[i].routing == RouteAction::RouteToProxy {
                routed = true;
            }
        }
        assert(routed == any_routed(self@.apps));
        let action = if routed {
            RouteAction::Passthrough
        } else {
            RouteAction::RouteToProxy
        };
        let mut note = "Global routing -> ".to_string();
        note.append(name_action(action));
        Request { command: TuiCommand::SetGlobalRouting { action }, note }
    }

    /// Shows how the sending of a request went.
    pub fn note_sent(&mut self, note: String, error: Option<&str>)
        ensures
            final(self)@ == send_noted(old(self)@, note@, text_view(error)),
            final(self)@ == (Screen {
                status_message: send_note(note@, text_view(error)),
                ..old(self)@
            }),
    {
        match error {
            Some(e) => {
                let mut s = "Send error: ".to_string();
                s.append(e);
                self.status_message = s;
            },
            None => {
                self.status_message = note;
            },
        }
    }

    /// Shows how an attempt to connect went.
    pub fn note_connect(&mut self, attempt: Attempt, error: Option<&str>)
        ensures
            final(self)@ == (Screen {
                connected: old(self)@.connected || error is None,
                status_message: connect_note(attempt, text_view(error)),
                ..old(self)@
            }),
            final(self)@ == connect_noted(old(self)@, attempt, text_view(error)),
    {
        match error {
            None => {
                self.connected = true;
                self.status_message = match attempt {
                    Attempt::First => "Connected".to_string(),
                    Attempt::Again => "Reconnected".to_string(),
                };
            },
            Some(e) => {
                let mut s = match attempt {
                    Attempt::First => "Daemon not available: ".to_string(),
                    Attempt::Again => "Reconnect failed: ".to_string(),
                };
                s.append(e);
                self.status_message = s;
            },
        }
    }

    /// Takes note of what the daemon sent: a message, or none where the
    /// connection brought nothing more.
    pub fn on_received(&mut self, msg: Option<DaemonToTuiMessage>)
        ensures
            final(self)@ == after_reception(old(self)@, message_view(msg)),
            final(self)@ == (match msg {
                Some(m) => applied(old(self)@, m@),
                None => Screen {
                    connected: false,
                    status_message: "Daemon disconnected"@,
                    ..old(self)@
                },
            }),
    {
        match msg {
            Some(m) => self.apply_daemon_message(m),
            None => {
                self.connected = false;
                self.status_message = "Daemon disconnected".to_string();
            },
        }
    }

    /// Handles an event. Only a key that goes down does anything.
    pub fn on_event(&mut self, event: Event) -> (r: Option<Request>)
        requires
            event matches Event::Key(k) ==> k.pressed ==> key_fits(old(self)@, k.code),
        ensures
            (final(self)@, request_view(r)) == after_event(old(self)@, event),
            (match event {
                Event::Key(k) => if k.pressed {
                    final(self)@ == keyed_screen(old(self)@, k.code) && request_view(r)
                        == key_request(old(self)@, k.code)
                } else {
                    final(self)@ == old(self)@ && r is None
                },
                _ => final(self)@ == old(self)@ && r is None,
            }),
    {
        match event {
            Event::Key(k) => {
                if k.pressed {
                    self.on_key(k.code)
                } else {
                    None
                }
            },
            Event::Tick => None,
            Event::Resize => None,
        }
    }

    /// The command to send before quitting: to shut down, if there is a
    /// connection.
    pub fn quit_command(&self, client_connected: bool) -> (c: Option<TuiCommand>)
        ensures
            command_view(c) == parting_command(self@, client_connected),
            c is Some <==> self@.should_quit && client_connected,
            c matches Some(cmd) ==> cmd@ == CommandView::Shutdown,
    {
        if self.should_quit && client_connected {
            Some(TuiCommand::Shutdown)
        } else {
            None
        }
    }
}

/// The name of an action.
fn name_action(action: RouteAction) -> (s: &'static str)
    ensures
        s@ == action_name(action),
{
    match action {
        RouteAction::Passthrough => "Passthrough",
        RouteAction::RouteToProxy => "RouteToProxy",
    }
}

/// A selection no further than the last of `len` entries.
fn clamp(selected: usize, len: usize) -> (r: usize)
    ensures
        r == clamped(selected, len as nat),
{
    if len == 0 {
        0
    } else if selected < len {
        selected
    } else {
        len - 1
    }
}

/// Whether a move fits.
fn step_fits(selected: usize, len: usize, delta: i32) -> (b: bool)
    ensures
        b == move_fits(selected, len, delta as int),
{
    if len == 0 {
        return true;
    }
    let n: i32 = len as i32;
    let to: i64 = selected as i32 as i64 + delta as i64;
    n != 0 && i32::MIN as i64 <= to && to <= i32::MAX as i64 && !(to == i32::MIN as i64 && n == -1)
}

/// Moves a selection around the ends of its list.
fn step(selected: usize, len: usize, delta: i32) -> (r: usize)
    requires
        move_fits(selected, len, delta as int),
    ensures
        r == moved(selected, len, delta as int),
{
    if len == 0 {
        return selected;
    }
    let n: i32 = len as i32;
    let to: i32 = selected as i32 + delta;
    match to.checked_rem_euclid(n) {
        Some(new) => new as usize,
        None => selected,
    }
}

/// Removes the flows with a number.
fn drop_flow(flows: &mut Vec<FlowInfo>, flow_id: u64)
    ensures
        flow_views(final(flows)@) == without_flow(flow_views(old(flows)@), flow_id),
{
    let ghost all = flow_views(flows@);
    let ghost pred = |f: FlowView| f.flow_id != flow_id;
    let n: usize = flows.len();
    let mut i: usize = 0;
    let mut j: usize = 0;
    proof {
        reveal(Seq::filter);
        assert(all.take(0) =~= Seq::empty());
        assert(all.skip(0) == all);
        assert(all.take(0).filter(pred) + all.skip(0) == all);
    }
    while j < n
        invariant
            i <= j <= n == all.len(),
            pred == (|f: FlowView| f.flow_id != flow_id),
            i == all.take(j as int).filter(pred).len(),
            flows@.len() == i + (n - j),
            flow_views(flows@) == all.take(j as int).filter(pred) + all.skip(j as int),
        decreases n - j,
    {
        let ghost k = all.take(j as int).filter(pred);
        let ghost before = flows@;
        proof {
            reveal(Seq::filter);
            assert(all.take(j + 1).drop_last() == all.take(j as int));
            assert(flow_views(flows@)[i as int] == all[j as int]);
        }
        if flows[i].flow_id != flow_id {
            assert(k + all.skip(j as int) == k.push(all[j as int]) + all.skip(j + 1));
            i = i + 1;
        } else {
            let _gone = flows.remove(i);
            assert(flow_views(flows@) == flow_views(before).remove(i as int));
            assert((k + all.skip(j as int)).remove(k.len() as int) == k + all.skip(j + 1));
        }
        j = j + 1;
    }
    assert(all.take(n as int) == all);
    assert(all.skip(n as int) =~= Seq::empty());
}

} // verus!

//! What each key, message and event does to the client's state, and what it
//! leaves alone.

use vstd::prelude::*;

use crate::app::{
    after_event, after_reception, app_request, applied, clamped, connect_note, connect_noted,
    global_request, key_fits, key_request, keyed_screen, moved, parting_command, send_note,
    send_noted, with_app, with_flow, without_flow, App, Attempt, Focus, Screen,
};
use crate::app_laws::{selections_within, within};
use crate::event::{Event, Key, KeyEvent};
use crate::proto::{AppView, CommandView, FlowView, MessageView, ProxyStatus, RouteAction};

verus! {

/// A selection that lies within its list stays; one beyond goes to the last entry,
/// or to the first place where there is none.
pub proof fn law_selections_move_no_further_than_needed(selected: usize, len: nat)
    requires
        len <= usize::MAX,
    ensures
        selected < len ==> clamped(selected, len) == selected,
        selected >= len && len > 0 ==> clamped(selected, len) == len - 1,
        len == 0 ==> clamped(selected, len) == 0,
{
}

/// A flow takes the place of the first with its number, and the end of the list
/// where there is none. No other flow changes or moves.
pub proof fn law_updated_flow_takes_its_place(s: Seq<FlowView>, flow: FlowView, i: int)
    requires
        0 <= i <= s.len(),
        forall|j: int| 0 <= j < i ==> (#[trigger] s[j]).flow_id != flow.flow_id,
        i < s.len() ==> s[i].flow_id == flow.flow_id,
    ensures
        i < s.len() ==> with_flow(s, flow) == s.update(i, flow),
        i == s.len() ==> with_flow(s, flow) == s.push(flow),
{
    lemma_flow_position_at(s, flow.flow_id, i);
}

proof fn lemma_flow_position_at(s: Seq<FlowView>, flow_id: u64, i: int)
    requires
        0 <= i <= s.len(),
        forall|j: int| 0 <= j < i ==> (#[trigger] s[j]).flow_id != flow_id,
        i < s.len() ==> s[i].flow_id == flow_id,
    ensures
        crate::app::flow_position(s, flow_id) == i,
    decreases s.len(),
{
    if i > 0 {
        let t = s.drop_first();
        assert(s[0].flow_id != flow_id);
        assert forall|j: int| 0 <= j < i - 1 implies (#[trigger] t[j]).flow_id != flow_id by {
            assert(t[j] == s[j + 1]);
        }
        lemma_flow_position_at(t, flow_id, i - 1);
    }
}

/// An application takes the place of the first with its identifier, and the end of
/// the list where there is none. No other application changes or moves.
pub proof fn law_updated_application_takes_its_place(s: Seq<AppView>, app: AppView, i: int)
    requires
        0 <= i <= s.len(),
        forall|j: int| 0 <= j < i ==> (#[trigger] s[j]).bundle_id != app.bundle_id,
        i < s.len() ==> s[i].bundle_id == app.bundle_id,
    ensures
        i < s.len() ==> with_app(s, app) == s.update(i, app),
        i == s.len() ==> with_app(s, app) == s.push(app),
{
    lemma_app_position_at(s, app.bundle_id, i);
}

proof fn lemma_app_position_at(s: Seq<AppView>, bundle_id: Seq<char>, i: int)
    requires
        0 <= i <= s.len(),
        forall|j: int| 0 <= j < i ==> (#[trigger] s[j]).bundle_id != bundle_id,
        i < s.len() ==> s[i].bundle_id == bundle_id,
    ensures
        crate::app::app_position(s, bundle_id) == i,
    decreases s.len(),
{
    if i > 0 {
        let t = s.drop_first();
        assert(s[0].bundle_id != bundle_id);
        assert forall|j: int| 0 <= j < i - 1 implies (#[trigger] t[j]).bundle_id != bundle_id by {
            assert(t[j] == s[j + 1]);
        }
        lemma_app_position_at(t, bundle_id, i - 1);
    }
}

/// Removing a number takes out the flows with it, and keeps all others in their
/// order.
pub proof fn law_removed_flows_are_gone(
    a: Seq<FlowView>,
    b: Seq<FlowView>,
    f: FlowView,
    flow_id: u64,
)
    ensures
        without_flow(a + b, flow_id) == without_flow(a, flow_id) + without_flow(b, flow_id),
        f.flow_id == flow_id ==> without_flow(seq![f], flow_id) == Seq::<FlowView>::empty(),
        f.flow_id != flow_id ==> without_flow(seq![f], flow_id) == seq![f],
    decreases b.len(),
{
    reveal_with_fuel(Seq::filter, 3);
    assert(seq![f].drop_last() =~= Seq::<FlowView>::empty());
    assert(Seq::<FlowView>::empty().push(f) =~= seq![f]);
    if b.len() == 0 {
        assert(a + b =~= a);
        assert(without_flow(a, flow_id) + without_flow(b, flow_id) =~= without_flow(a, flow_id));
    } else {
        law_removed_flows_are_gone(a, b.drop_last(), f, flow_id);
        assert((a + b).drop_last() =~= a + b.drop_last());
        assert((a + b).last() == b.last());
        let x = without_flow(a, flow_id);
        let y = without_flow(b.drop_last(), flow_id);
        assert((x + y).push(b.last()) =~= x + y.push(b.last()));
    }
}

/// A full state replaces the lists and the proxy's status, whatever they were. The
/// client says that it is connected, and keeps its selections as far as the lists
/// reach.
pub proof fn law_full_state_is_taken_over(
    s: Screen,
    apps: Seq<AppView>,
    flows: Seq<FlowView>,
    proxy_status: ProxyStatus,
)
    ensures
        applied(s, MessageView::FullState { apps, flows, proxy_status }) == (Screen {
            focus: s.focus,
            apps,
            flows,
            proxy_status,
            selected_app: clamped(s.selected_app, apps.len()),
            selected_flow: clamped(s.selected_flow, flows.len()),
            should_quit: s.should_quit,
            connected: s.connected,
            status_message: "Connected"@,
        }),
{
}

/// Every other message changes the list or the status that it is about, and
/// nothing else; where a flow goes, the selections stay within their lists.
pub proof fn law_messages_change_what_they_are_about(
    s: Screen,
    flow: FlowView,
    app: AppView,
    flow_id: u64,
    status: ProxyStatus,
)
    ensures
        applied(s, MessageView::FlowUpdate { flow }) == (Screen {
            flows: with_flow(s.flows, flow),
            ..s
        }),
        applied(s, MessageView::AppUpdate { app }) == (Screen { apps: with_app(s.apps, app), ..s }),
        applied(s, MessageView::ProxyStatusUpdate { status }) == (Screen {
            proxy_status: status,
            ..s
        }),
        applied(s, MessageView::FlowRemoved { flow_id }) == (Screen {
            flows: without_flow(s.flows, flow_id),
            selected_app: clamped(s.selected_app, s.apps.len()),
            selected_flow: clamped(s.selected_flow, without_flow(s.flows, flow_id).len()),
            ..s
        }),
{
}

/// A step goes to the next or the previous entry, and at either end to the other.
pub proof fn law_steps_go_to_neighbours(selected: usize, len: usize)
    requires
        selected < len <= i32::MAX,
    ensures
        selected + 1 < len ==> moved(selected, len, 1) == selected + 1,
        selected + 1 == len ==> moved(selected, len, 1) == 0,
        selected > 0 ==> moved(selected, len, -1) == selected - 1,
        selected == 0 ==> moved(selected, len, -1) == len - 1,
        moved(selected, 0, 1) == selected,
        moved(selected, 0, -1) == selected,
{
    assert(len as i32 == len);
    assert(selected as i32 == selected);
    let n = len as int;
    if selected + 1 < len {
        vstd::arithmetic::div_mod::lemma_small_mod((selected + 1) as nat, n as nat);
    } else {
        vstd::arithmetic::div_mod::lemma_mod_self_0(n);
    }
    if selected > 0 {
        vstd::arithmetic::div_mod::lemma_small_mod((selected - 1) as nat, n as nat);
    } else {
        vstd::arithmetic::div_mod::lemma_fundamental_div_mod_converse(-1, n, -1, n - 1);
    }
}

/// The arrows move the selection of the panel in focus, and nothing else. Tab
/// moves the focus, and nothing else. `q` asks to quit, and nothing else. No other
/// key changes the state.
pub proof fn law_keys_do_what_they_say(s: Screen, c: char)
    ensures
        s.focus == Focus::Apps ==> keyed_screen(s, Key::Up) == (Screen {
            selected_app: moved(s.selected_app, s.apps.len() as usize, -1),
            ..s
        }),
        s.focus == Focus::Apps ==> keyed_screen(s, Key::Down) == (Screen {
            selected_app: moved(s.selected_app, s.apps.len() as usize, 1),
            ..s
        }),
        s.focus == Focus::Flows ==> keyed_screen(s, Key::Up) == (Screen {
            selected_flow: moved(s.selected_flow, s.flows.len() as usize, -1),
            ..s
        }),
        s.focus == Focus::Flows ==> keyed_screen(s, Key::Down) == (Screen {
            selected_flow: moved(s.selected_flow, s.flows.len() as usize, 1),
            ..s
        }),
        keyed_screen(s, Key::Tab).focus != s.focus,
        keyed_screen(s, Key::Tab) == (Screen { focus: keyed_screen(s, Key::Tab).focus, ..s }),
        keyed_screen(s, Key::Char('q')) == (Screen { should_quit: true, ..s }),
        c != 'q' ==> keyed_screen(s, Key::Char(c)) == s,
        keyed_screen(s, Key::Other) == s,
{
}

/// Requests are made by `r` while the applications are in focus, and by `g`, and
/// by no other key.
pub proof fn law_two_keys_make_requests(s: Screen, c: char)
    ensures
        s.focus == Focus::Apps ==> key_request(s, Key::Char('r')) == app_request(s),
        s.focus == Focus::Flows ==> key_request(s, Key::Char('r')) is None,
        key_request(s, Key::Char('g')) == Some(global_request(s)),
        c != 'r' && c != 'g' ==> key_request(s, Key::Char(c)) is None,
        key_request(s, Key::Tab) is None,
        key_request(s, Key::Up) is None,
        key_request(s, Key::Down) is None,
        key_request(s, Key::Other) is None,
{
}

/// The request for one application is about the selected one, and asks for the
/// other of the two actions. Without a selected application there is none.
pub proof fn law_selected_application_is_toggled(s: Screen)
    ensures
        s.selected_app >= s.apps.len() ==> app_request(s) is None,
        s.selected_app < s.apps.len() ==> {
            let a = s.apps[s.selected_app as int];
            let request = app_request(s);
            &&& request is Some
            &&& request->0.command is SetAppRouting
            &&& request->0.command->bundle_id == a.bundle_id
            &&& request->0.command->SetAppRouting_action != a.routing
            &&& a.routing == RouteAction::Passthrough ==> request->0.note == "Routing for "@
                + a.name + " -> "@ + "RouteToProxy"@
            &&& a.routing == RouteAction::RouteToProxy ==> request->0.note == "Routing for "@
                + a.name + " -> "@ + "Passthrough"@
        },
{
}

/// The global request is to route everything to the proxy where no application is
/// routed there yet, and to let everything pass where any is.
pub proof fn law_global_routing_is_toggled(s: Screen)
    ensures
        ({
            let none = forall|i: int|
                0 <= i < s.apps.len() ==> (#[trigger] s.apps[i]).routing
                    == RouteAction::Passthrough;
            &&& none ==> global_request(s).command == (CommandView::SetGlobalRouting {
                action: RouteAction::RouteToProxy,
            })
            &&& none ==> global_request(s).note == "Global routing -> "@ + "RouteToProxy"@
            &&& !none ==> global_request(s).command == (CommandView::SetGlobalRouting {
                action: RouteAction::Passthrough,
            })
            &&& !none ==> global_request(s).note == "Global routing -> "@ + "Passthrough"@
        }),
{
    let none = forall|i: int|
        0 <= i < s.apps.len() ==> (#[trigger] s.apps[i]).routing == RouteAction::Passthrough;
    if !none {
        let i = choose|i: int|
            0 <= i < s.apps.len() && (#[trigger] s.apps[i]).routing != RouteAction::Passthrough;
        assert(s.apps[i].routing == RouteAction::RouteToProxy);
    }
}

/// Only a key that goes down does anything, and then what the key does.
pub proof fn law_only_pressed_keys_count(s: Screen, k: KeyEvent)
    ensures
        k.pressed ==> after_event(s, Event::Key(k)) == (
            keyed_screen(s, k.code),
            key_request(s, k.code),
        ),
        !k.pressed ==> after_event(s, Event::Key(k)) == (s, None::<crate::app::RequestView>),
        after_event(s, Event::Tick) == (s, None::<crate::app::RequestView>),
        after_event(s, Event::Resize) == (s, None::<crate::app::RequestView>),
{
}

/// The daemon is told to shut down where the user quits and there is a connection
/// to tell it by, and nowhere else.
pub proof fn law_quitting_shuts_down(s: Screen, client_connected: bool)
    ensures
        s.should_quit && client_connected ==> parting_command(s, client_connected) == Some(
            CommandView::Shutdown,
        ),
        !s.should_quit || !client_connected ==> parting_command(s, client_connected) is None,
{
}

/// A message is applied, and a connection that has ended is shown as such; all else
/// stays.
pub proof fn law_receptions_are_shown(s: Screen, m: MessageView)
    ensures
        after_reception(s, Some(m)) == applied(s, m),
        after_reception(s, None) == (Screen {
            connected: false,
            status_message: "Daemon disconnected"@,
            ..s
        }),
{
}

/// How a request or an attempt to connect went is shown, with the error where
/// there was one. Only a successful attempt changes anything else: the client is
/// connected.
pub proof fn law_outcomes_are_shown(s: Screen, attempt: Attempt, note: Seq<char>, e: Seq<char>)
    ensures
        send_note(note, None) == note,
        send_note(note, Some(e)) == "Send error: "@ + e,
        connect_note(Attempt::First, None) == "Connected"@,
        connect_note(Attempt::Again, None) == "Reconnected"@,
        connect_note(Attempt::First, Some(e)) == "Daemon not available: "@ + e,
        connect_note(Attempt::Again, Some(e)) == "Reconnect failed: "@ + e,
        connect_noted(s, attempt, None) == (Screen {
            connected: true,
            status_message: connect_note(attempt, None),
            ..s
        }),
        connect_noted(s, attempt, Some(e)) == (Screen {
            status_message: connect_note(attempt, Some(e)),
            ..s
        }),
{
}

/// A lost connection is sought again every three seconds, and the daemon has a
/// fifth of a second to shut down.
pub proof fn law_client_timings()
    ensures
        crate::app::RECONNECT_SECS == 3,
        crate::app::QUIT_DELAY_MILLIS * 5 == 1000,
{
}

/// The client's state is shown field by field, its lists entry by entry.
pub proof fn law_state_is_shown(a: App, i: int)
    ensures
        a@.focus == a.focus,
        a@.apps.len() == a.apps@.len(),
        0 <= i < a.apps@.len() ==> a@.apps[i] == a.apps@[i]@,
        a@.flows.len() == a.flows@.len(),
        0 <= i < a.flows@.len() ==> a@.flows[i] == a.flows@[i]@,
        a@.proxy_status == a.proxy_status,
        a@.selected_app == a.selected_app,
        a@.selected_flow == a.selected_flow,
        a@.should_quit == a.should_quit,
        a@.connected == a.connected,
        a@.status_message == a.status_message@,
{
}

/// A request that was sent, or could not be, is noted; nothing else changes.
pub proof fn law_sending_changes_the_note_alone(
    s: Screen,
    note: Seq<char>,
    e: Seq<char>,
    earlier: Seq<char>,
)
    ensures
        send_noted(s, note, None).status_message == note,
        send_noted(s, note, Some(e)).status_message == "Send error: "@ + e,
        send_noted(send_noted(s, note, Some(e)), s.status_message, None) == s,
        send_noted(send_noted(s, earlier, None), note, None) == send_noted(s, note, None),
{
}

/// Where the lists are no longer than a signed number can say, every key is
/// handled.
pub proof fn law_keys_are_handled(s: Screen, key: Key)
    requires
        selections_within(s),
        s.apps.len() <= i32::MAX,
        s.flows.len() <= i32::MAX,
    ensures
        key_fits(s, key),
{
}

} // verus!

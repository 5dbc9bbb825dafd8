use zq::client::{DaemonClient, Incoming, Reception};
use zq::config::Config;
use zq::event::{Event, EventReader, Key, KeyEvent, TerminalInput};
use zq::hub::Hub;
use zq::install::{setup_line, SETUP_DONE, SETUP_HINT, TEARDOWN_DONE, TEARDOWN_START};
use zq::proto::{DaemonToTuiMessage, ProxyStatus, RouteAction, TuiCommand};
use zq::startup::{await_daemon, Wait};
use zq::status::{anchor_line, daemon_line, proxy_line, upstream_line, TITLE, TITLE_RULE};
use zq::tui_server::{Session, SessionEvent, SessionFate};

#[test]
fn a_session_subscribes_once_and_is_answered_each_time() {
    let mut hub = Hub::new();
    let mut s = Session::new();
    let (rx, answer) = s.on_command(&mut hub, TuiCommand::Subscribe);
    let mut rx = rx.expect("a subscription");
    assert!(matches!(answer, Some(DaemonToTuiMessage::FullState { .. })));
    let (again, answer) = s.on_command(&mut hub, TuiCommand::Subscribe);
    assert!(again.is_none());
    assert!(matches!(answer, Some(DaemonToTuiMessage::FullState { .. })));
    hub.set_proxy_status(ProxyStatus::Reachable);
    assert!(rx.try_recv().is_ok());
    assert!(rx.try_recv().is_err());
}

#[test]
fn a_session_answers_only_questions() {
    let mut hub = Hub::new();
    let mut s = Session::new();
    let (rx, answer) = s.on_command(&mut hub, TuiCommand::GetState);
    assert!(rx.is_none() && answer.is_some());
    let (rx, answer) = s.on_command(
        &mut hub,
        TuiCommand::SetAppRouting {
            bundle_id: "b".to_string(),
            action: RouteAction::RouteToProxy,
        },
    );
    assert!(rx.is_none() && answer.is_none());
    assert_eq!(hub.get_route_action("b"), RouteAction::RouteToProxy);
    let (rx, answer) = s.on_command(&mut hub, TuiCommand::Shutdown);
    assert!(rx.is_none() && answer.is_none());
}

#[test]
fn mishaps_lead_where_they_should() {
    let s = Session::new();
    assert_eq!(s.on_event(SessionEvent::Undecodable), SessionFate::GoesOn);
    assert_eq!(s.on_event(SessionEvent::ReadFailed), SessionFate::Ends);
    assert_eq!(s.on_event(SessionEvent::Disconnected), SessionFate::Ends);
    assert_eq!(s.on_event(SessionEvent::UpdatesEnded), SessionFate::Ends);
    assert_eq!(s.on_event(SessionEvent::UpdateUnsent), SessionFate::Ends);
    assert_eq!(s.on_event(SessionEvent::AnswerUnsent), SessionFate::EndsWithError);
}

#[test]
fn a_client_connects_and_asks_for_everything() {
    let mut c = DaemonClient::new("/tmp/x.sock".to_string());
    assert_eq!(c.path(), "/tmp/x.sock");
    assert!(!c.is_connected());
    assert_eq!(
        c.send(TuiCommand::GetState).err(),
        Some("not connected to daemon")
    );
    assert_eq!(c.connect(false).err(), Some("failed to connect to /tmp/x.sock".to_string()));
    assert!(!c.is_connected());
    let first = c.connect(true).expect("connected");
    assert!(matches!(first[..], [TuiCommand::Subscribe, TuiCommand::GetState]));
    assert!(c.is_connected());
    assert!(matches!(c.send(TuiCommand::Shutdown), Ok(TuiCommand::Shutdown)));
}

#[test]
fn a_client_loses_its_connection_with_the_socket_only() {
    let msg = || DaemonToTuiMessage::FlowRemoved { flow_id: 3 };
    let mut c = DaemonClient::new("s".to_string());
    assert!(c.recv(Incoming::Message(msg())).is_none());
    assert!(c.recv(Incoming::Undecodable).is_none());
    c.connect(true).unwrap();
    assert!(matches!(
        c.recv(Incoming::Message(msg())),
        Some(Reception::Message(DaemonToTuiMessage::FlowRemoved { flow_id: 3 }))
    ));
    assert!(matches!(c.recv(Incoming::Undecodable), Some(Reception::Undecodable)));
    assert!(c.is_connected());
    assert!(c.recv(Incoming::ReadFailed).is_none());
    assert!(!c.is_connected());
    c.connect(true).unwrap();
    assert!(c.recv(Incoming::Closed).is_none());
    assert!(!c.is_connected());
}

#[test]
fn a_reader_passes_keys_sizes_and_ticks_on() {
    let mut r = EventReader::new();
    let key = KeyEvent { code: Key::Char('x'), pressed: true };
    assert_eq!(r.next(TerminalInput::Key(key)), Some(Event::Key(key)));
    assert_eq!(r.next(TerminalInput::Resize), Some(Event::Resize));
    assert_eq!(r.next(TerminalInput::TimedOut), Some(Event::Tick));
    assert_eq!(r.next(TerminalInput::Other), None);
    assert_eq!(r.next(TerminalInput::PollFailed), None);
    assert_eq!(r.next(TerminalInput::ReadFailed), None);
    r.delivered(true);
    assert!(r.is_active());
    r.delivered(false);
    assert!(!r.is_active());
    r.delivered(true);
    assert!(!r.is_active());
}

#[test]
fn the_status_report_reads_as_it_should() {
    assert_eq!(TITLE, "zq status");
    assert_eq!(TITLE_RULE, "=========");
    assert_eq!(daemon_line(true), "Daemon:     running");
    assert_eq!(daemon_line(false), "Daemon:     not running");
    assert_eq!(anchor_line(true), "PF anchor:  loaded");
    assert_eq!(anchor_line(false), "PF anchor:  not loaded");
    assert_eq!(proxy_line(true, 8888), "Proxy:      listening (127.0.0.1:8888)");
    assert_eq!(proxy_line(false, 1), "Proxy:      not listening (127.0.0.1:1)");
    assert_eq!(upstream_line(true, "a:1"), "Upstream:   reachable (a:1)");
    assert_eq!(upstream_line(false, "a:1"), "Upstream:   unreachable (a:1)");
}

#[test]
fn setup_says_what_it_does() {
    assert_eq!(
        setup_line(&Config::default(), 501),
        "Loading pf rules (proxy port 8888, interface en0, excluded uid 501)..."
    );
    assert_eq!(SETUP_DONE, "Done. PF anchor 'zq' is active.");
    assert_eq!(SETUP_HINT, "Verify with: sudo pfctl -a zq -sr");
    assert_eq!(TEARDOWN_START, "Removing pf anchor 'zq'...");
    assert_eq!(TEARDOWN_DONE, "Done. PF anchor 'zq' has been flushed.");
}

#[test]
fn a_new_daemon_has_two_seconds_to_answer() {
    assert_eq!(await_daemon(0, false), Wait::Sleep { millis: 100 });
    assert_eq!(await_daemon(0, true), Wait::Ready);
    assert_eq!(await_daemon(1999, false), Wait::Sleep { millis: 100 });
    assert_eq!(await_daemon(2000, false), Wait::GiveUp);
    assert_eq!(await_daemon(u64::MAX, false), Wait::GiveUp);
    assert_eq!(await_daemon(2000, true), Wait::Ready);
}

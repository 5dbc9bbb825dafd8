use zq::app::{App, Attempt, Focus};
use zq::event::{Event, Key, KeyEvent};
use zq::hub::Hub;
use zq::proto::{
    AppInfo, DaemonToTuiMessage, FlowInfo, Proto, ProxyStatus, RouteAction, TuiCommand,
};
use zq::ui::{
    apps_table, bar_with_gap, flows_table, format_bytes, gap, header, status_bar, totals, Paint,
    TextSpan, Tone, Width, HELP,
};

fn app_info(bundle_id: &str, routing: RouteAction) -> AppInfo {
    AppInfo {
        bundle_id: bundle_id.to_string(),
        name: format!("{bundle_id} name"),
        pids: vec![1, 22, 333],
        flow_count: 4,
        bytes_in: 2048,
        bytes_out: 5,
        routing,
    }
}

fn flow_info(flow_id: u64) -> FlowInfo {
    FlowInfo {
        flow_id,
        pid: 9,
        process_name: "curl".to_string(),
        bundle_id: "proc.curl".to_string(),
        local_addr: "127.0.0.1:1".to_string(),
        remote_addr: "10.0.0.1:443".to_string(),
        proto: Proto::Tcp,
        bytes_in: 1536,
        bytes_out: 10,
        routing: RouteAction::Passthrough,
        started_at: 0,
    }
}

fn filled() -> App {
    let mut app = App::new();
    app.apply_daemon_message(DaemonToTuiMessage::FullState {
        apps: vec![
            app_info("a", RouteAction::Passthrough),
            app_info("b", RouteAction::RouteToProxy),
            app_info("c", RouteAction::Passthrough),
        ],
        flows: vec![flow_info(1), flow_info(2)],
        proxy_status: ProxyStatus::Reachable,
    });
    app
}

fn ids(app: &App) -> Vec<u64> {
    app.flows.iter().map(|f| f.flow_id).collect()
}

#[test]
fn the_client_begins_with_nothing() {
    let app = App::new();
    assert_eq!(app.focus, Focus::Apps);
    assert!(app.apps.is_empty() && app.flows.is_empty());
    assert_eq!(app.proxy_status, ProxyStatus::Unknown);
    assert!(!app.should_quit && !app.connected);
    assert_eq!(app.status_message, "");
}

#[test]
fn messages_change_what_is_shown() {
    let mut app = filled();
    assert_eq!(app.status_message, "Connected");
    let mut changed = flow_info(2);
    changed.bytes_in = 99;
    app.apply_daemon_message(DaemonToTuiMessage::FlowUpdate { flow: changed });
    assert_eq!(ids(&app), vec![1, 2]);
    assert_eq!(app.flows[1].bytes_in, 99);
    app.apply_daemon_message(DaemonToTuiMessage::FlowUpdate { flow: flow_info(7) });
    assert_eq!(ids(&app), vec![1, 2, 7]);
    app.apply_daemon_message(DaemonToTuiMessage::AppUpdate {
        app: app_info("b", RouteAction::Passthrough),
    });
    assert_eq!(app.apps.len(), 3);
    assert_eq!(app.apps[1].routing, RouteAction::Passthrough);
    app.apply_daemon_message(DaemonToTuiMessage::AppUpdate {
        app: app_info("d", RouteAction::Passthrough),
    });
    assert_eq!(app.apps[3].bundle_id, "d");
    app.apply_daemon_message(DaemonToTuiMessage::ProxyStatusUpdate {
        status: ProxyStatus::Unreachable,
    });
    assert_eq!(app.proxy_status, ProxyStatus::Unreachable);
}

#[test]
fn a_removed_flow_takes_the_selection_along() {
    let mut app = filled();
    app.selected_flow = 1;
    app.apply_daemon_message(DaemonToTuiMessage::FlowRemoved { flow_id: 2 });
    assert_eq!(ids(&app), vec![1]);
    assert_eq!(app.selected_flow, 0);
    app.apply_daemon_message(DaemonToTuiMessage::FlowRemoved { flow_id: 9 });
    assert_eq!(ids(&app), vec![1]);
    app.apply_daemon_message(DaemonToTuiMessage::FlowRemoved { flow_id: 1 });
    assert!(app.flows.is_empty());
    assert_eq!(app.selected_flow, 0);
}

#[test]
fn removal_takes_every_flow_with_the_number() {
    let mut app = App::new();
    app.flows = vec![flow_info(1), flow_info(2), flow_info(1), flow_info(3)];
    app.apply_daemon_message(DaemonToTuiMessage::FlowRemoved { flow_id: 1 });
    assert_eq!(ids(&app), vec![2, 3]);
}

#[test]
fn the_selection_goes_around_the_ends() {
    let mut app = filled();
    assert!(app.key_is_handled(Key::Up));
    assert!(app.on_key(Key::Up).is_none());
    assert_eq!(app.selected_app, 2);
    app.on_key(Key::Down);
    assert_eq!(app.selected_app, 0);
    app.on_key(Key::Tab);
    assert_eq!(app.focus, Focus::Flows);
    app.on_key(Key::Down);
    assert_eq!((app.selected_app, app.selected_flow), (0, 1));
    app.on_key(Key::Down);
    assert_eq!(app.selected_flow, 0);
    app.on_key(Key::Tab);
    assert_eq!(app.focus, Focus::Apps);
}

#[test]
fn an_empty_list_has_nothing_to_move_in() {
    let mut app = App::new();
    app.selected_app = 5;
    assert!(app.key_is_handled(Key::Down));
    app.on_key(Key::Down);
    assert_eq!(app.selected_app, 5);
}

#[test]
fn a_move_beyond_the_numbers_is_told_beforehand() {
    let mut app = filled();
    app.selected_app = i32::MAX as usize;
    assert!(!app.key_is_handled(Key::Down));
    assert!(app.key_is_handled(Key::Up));
    assert!(app.key_is_handled(Key::Tab));
}

#[test]
fn r_toggles_the_selected_application() {
    let mut app = filled();
    app.selected_app = 1;
    let r = app.on_key(Key::Char('r')).expect("a request");
    assert_eq!(r.note, "Routing for b name -> Passthrough");
    match r.command {
        TuiCommand::SetAppRouting { bundle_id, action } => {
            assert_eq!(bundle_id, "b");
            assert_eq!(action, RouteAction::Passthrough);
        }
        _ => panic!("expected SetAppRouting"),
    }
    app.selected_app = 0;
    let r = app.on_key(Key::Char('r')).expect("a request");
    assert_eq!(r.note, "Routing for a name -> RouteToProxy");
    app.selected_app = 3;
    assert!(app.on_key(Key::Char('r')).is_none());
    app.focus = Focus::Flows;
    app.selected_app = 0;
    assert!(app.on_key(Key::Char('r')).is_none());
}

#[test]
fn g_toggles_everything() {
    let mut app = filled();
    let r = app.on_key(Key::Char('g')).expect("a request");
    assert_eq!(r.note, "Global routing -> Passthrough");
    assert!(matches!(
        r.command,
        TuiCommand::SetGlobalRouting { action: RouteAction::Passthrough }
    ));
    let r = App::new().on_key(Key::Char('g')).expect("a request");
    assert_eq!(r.note, "Global routing -> RouteToProxy");
}

#[test]
fn q_quits_and_other_keys_do_nothing() {
    let mut app = filled();
    assert!(app.on_key(Key::Char('x')).is_none());
    assert!(app.on_key(Key::Other).is_none());
    assert!(!app.should_quit);
    assert!(app.quit_command(true).is_none());
    app.on_key(Key::Char('q'));
    assert!(app.should_quit);
    assert!(matches!(app.quit_command(true), Some(TuiCommand::Shutdown)));
    assert!(app.quit_command(false).is_none());
}

#[test]
fn only_a_key_that_goes_down_counts() {
    let mut app = filled();
    let up = KeyEvent { code: Key::Char('q'), pressed: false };
    assert!(app.on_event(Event::Key(up)).is_none());
    assert!(app.on_event(Event::Tick).is_none());
    assert!(app.on_event(Event::Resize).is_none());
    assert!(!app.should_quit);
    let down = KeyEvent { code: Key::Char('q'), pressed: true };
    app.on_event(Event::Key(down));
    assert!(app.should_quit);
}

#[test]
fn the_status_line_tells_what_happened() {
    let mut app = App::new();
    app.note_connect(Attempt::First, Some("no socket"));
    assert_eq!(app.status_message, "Daemon not available: no socket");
    assert!(!app.connected);
    app.note_connect(Attempt::Again, Some("no socket"));
    assert_eq!(app.status_message, "Reconnect failed: no socket");
    app.note_connect(Attempt::Again, None);
    assert_eq!(app.status_message, "Reconnected");
    assert!(app.connected);
    app.on_received(None);
    assert_eq!(app.status_message, "Daemon disconnected");
    assert!(!app.connected);
    app.note_connect(Attempt::First, None);
    assert_eq!(app.status_message, "Connected");
    app.note_sent("sent".to_string(), None);
    assert_eq!(app.status_message, "sent");
    app.note_sent("sent".to_string(), Some("broken pipe"));
    assert_eq!(app.status_message, "Send error: broken pipe");
    app.on_received(Some(DaemonToTuiMessage::FlowUpdate { flow: flow_info(3) }));
    assert_eq!(ids(&app), vec![3]);
}

#[test]
fn a_client_that_hears_everything_shows_what_the_daemon_holds() {
    let mut hub = Hub::new();
    let mut rx = hub.subscribe_tui();
    let mut app = App::new();
    app.apply_daemon_message(hub.get_full_state());
    hub.handle_flow_start(1, 5, "curl", "proc.curl", "l", "r", Proto::Tcp);
    hub.handle_flow_start(2, 6, "curl", "proc.curl", "l", "r", Proto::Tcp);
    hub.handle_flow_start(3, 7, "mail", "app.mail", "l", "r", Proto::Tcp);
    hub.update_flow_bytes(2, 10, 20);
    hub.handle_flow_end(1, 100, 200);
    hub.set_proxy_status(ProxyStatus::Reachable);
    while let Ok(m) = rx.try_recv() {
        app.apply_daemon_message(m);
    }
    match hub.get_full_state() {
        DaemonToTuiMessage::FullState { apps, flows, proxy_status } => {
            let mut held: Vec<String> = flows.iter().map(|f| format!("{:?}", f)).collect();
            let mut shown: Vec<String> = app.flows.iter().map(|f| format!("{:?}", f)).collect();
            held.sort();
            shown.sort();
            assert_eq!(held, shown);
            let mut held: Vec<String> = apps.iter().map(|a| format!("{:?}", a)).collect();
            let mut shown: Vec<String> = app.apps.iter().map(|a| format!("{:?}", a)).collect();
            held.sort();
            shown.sort();
            assert_eq!(held, shown);
            assert_eq!(proxy_status, app.proxy_status);
        }
        _ => panic!("expected FullState"),
    }
}

/// A byte count formatted with floating-point numbers.
fn float_bytes(bytes: u64) -> String {
    const KIB: u64 = 1024;
    const MIB: u64 = 1024 * KIB;
    const GIB: u64 = 1024 * MIB;

    if bytes >= GIB {
        format!("{:.1} GiB", bytes as f64 / GIB as f64)
    } else if bytes >= MIB {
        format!("{:.1} MiB", bytes as f64 / MIB as f64)
    } else if bytes >= KIB {
        format!("{:.1} KiB", bytes as f64 / KIB as f64)
    } else {
        format!("{bytes} B")
    }
}

#[test]
fn byte_counts_are_formatted_as_by_floating_point() {
    assert_eq!(format_bytes(0), "0 B");
    assert_eq!(format_bytes(1023), "1023 B");
    assert_eq!(format_bytes(1024), "1.0 KiB");
    assert_eq!(format_bytes(1536), "1.5 KiB");
    assert_eq!(format_bytes(1048575), "1024.0 KiB");
    assert_eq!(format_bytes(1048576), "1.0 MiB");
    assert_eq!(format_bytes(1288490189), "1.2 GiB");
    assert_eq!(format_bytes(u64::MAX), "17179869184.0 GiB");

    for n in 0..200_000u64 {
        assert_eq!(format_bytes(n), float_bytes(n));
    }
    let mut x: u64 = 0x9e37_79b9_7f4a_7c15;
    for _ in 0..200_000 {
        x ^= x << 13;
        x ^= x >> 7;
        x ^= x << 17;
        for shift in [0, 8, 11, 24, 34, 44] {
            let n = x >> shift;
            assert_eq!(format_bytes(n), float_bytes(n), "{n}");
        }
    }
    // Around ties and around the places where the spacing of numbers changes.
    for k in 10..64u32 {
        let base = 1u64 << k;
        for d in 0..2000u64 {
            for n in [base.wrapping_add(d), base.wrapping_sub(d)] {
                assert_eq!(format_bytes(n), float_bytes(n), "{n}");
            }
        }
        for odd in [1u64, 3, 5, 7, 9, 11, 13, 15, 17, 19] {
            if let Some(n) = (base / 4).checked_mul(odd) {
                assert_eq!(format_bytes(n), float_bytes(n), "{n}");
            }
        }
    }
}

fn texts(spans: &[TextSpan]) -> Vec<&str> {
    spans.iter().map(|s| s.text.as_str()).collect()
}

fn tones(spans: &[TextSpan]) -> Vec<Tone> {
    spans.iter().map(|s| s.tone).collect()
}

#[test]
fn the_header_sums_up() {
    let mut app = filled();
    app.connected = true;
    assert_eq!(totals(&app), Some((3072, 20)));
    let h = header(&app);
    assert_eq!(
        texts(&h),
        vec![
            " zq",
            " \u{25cf} ",
            "3 apps",
            "  ",
            "2 flows",
            "  ",
            "\u{2193}3.0 KiB",
            "  ",
            "\u{2191}20 B",
            "  ",
            "proxy:up",
        ]
    );
    assert_eq!(
        tones(&h),
        vec![
            Tone::Accent,
            Tone::Good,
            Tone::Muted,
            Tone::Plain,
            Tone::Muted,
            Tone::Plain,
            Tone::BytesIn,
            Tone::Plain,
            Tone::BytesOut,
            Tone::Plain,
            Tone::Good,
        ]
    );
    assert!(h[0].bold && !h[1].bold);
    app.connected = false;
    app.proxy_status = ProxyStatus::Unreachable;
    let h = header(&app);
    assert_eq!(h[1].tone, Tone::Bad);
    assert_eq!((h[10].text.as_str(), h[10].tone), ("proxy:down", Tone::Bad));
    app.proxy_status = ProxyStatus::Unknown;
    let h = header(&app);
    assert_eq!((h[10].text.as_str(), h[10].tone), ("proxy:?", Tone::Warn));
}

#[test]
fn totals_beyond_the_numbers_are_told() {
    let mut app = filled();
    app.flows[0].bytes_in = u64::MAX;
    assert_eq!(totals(&app), None);
}

#[test]
fn the_table_of_applications_is_laid_out() {
    let mut app = filled();
    app.selected_app = 2;
    let t = apps_table(&app);
    assert_eq!(t.title, " Applications ");
    assert_eq!(t.headers, vec!["Name", "PIDs", "Flows", "In", "Out", "Route"]);
    assert_eq!(
        t.widths,
        vec![
            Width::Min(16),
            Width::Length(12),
            Width::Length(6),
            Width::Length(10),
            Width::Length(10),
            Width::Length(8),
        ]
    );
    assert_eq!(t.rows.len(), 3);
    assert_eq!(texts(&t.rows[0]), vec!["a name", "1,22,333", "4", "2.0 KiB", "5 B", "PASS"]);
    assert_eq!(texts(&t.rows[1])[5], "PROXY");
    assert!(t.rows[1][5].bold);
    assert_eq!(t.rows[1][5].tone, Tone::Proxy);
    assert_eq!((t.border, t.selected), (Tone::Accent, Some(2)));
    app.focus = Focus::Flows;
    let t = apps_table(&app);
    assert_eq!((t.border, t.selected), (Tone::Muted, None));
    app.apps[0].pids = vec![];
    assert_eq!(texts(&apps_table(&app).rows[0])[1], "");
}

#[test]
fn the_table_of_flows_is_laid_out() {
    let mut app = filled();
    app.flows[1].proto = Proto::Udp;
    app.focus = Focus::Flows;
    let t = flows_table(&app);
    assert_eq!(t.title, " Flows ");
    assert_eq!(t.headers, vec!["ID", "App", "Proto", "Remote", "In", "Out", "Route"]);
    assert_eq!(
        t.widths,
        vec![
            Width::Length(6),
            Width::Min(12),
            Width::Length(5),
            Width::Length(22),
            Width::Length(10),
            Width::Length(10),
            Width::Length(8),
        ]
    );
    assert_eq!(
        texts(&t.rows[0]),
        vec!["1", "curl", "TCP", "10.0.0.1:443", "1.5 KiB", "10 B", "PASS"]
    );
    assert_eq!(t.rows[0][2].tone, Tone::Tcp);
    assert_eq!((t.rows[1][2].text.as_str(), t.rows[1][2].tone), ("UDP", Tone::Warn));
    assert_eq!((t.border, t.selected), (Tone::Accent, Some(0)));
    let mut empty = App::new();
    empty.focus = Focus::Flows;
    assert_eq!(flows_table(&empty).selected, None);
}

#[test]
fn the_gap_fills_the_bar() {
    assert_eq!(gap(100, 10, 20), Some(70));
    assert_eq!(gap(30, 10, 20), Some(1));
    assert_eq!(gap(29, 10, 20), None);
    assert_eq!(gap(10, usize::MAX, 0), Some(1));
    assert_eq!(gap(0, 0, 0), Some(1));
}

#[test]
fn the_status_bar_shows_message_and_help() {
    let mut app = filled();
    // One blank follows the help.
    let width = HELP.chars().count() as u16;
    let spans = status_bar(&app, 100).expect("it fits");
    let blanks = 100 - 1 - "Connected".len() - width as usize - 1;
    assert_eq!(
        texts(&spans),
        vec![" ", "Connected", &" ".repeat(blanks), HELP, " "]
    );
    assert_eq!(
        tones(&spans),
        vec![Tone::Plain, Tone::Muted, Tone::Plain, Tone::Muted, Tone::Plain]
    );
    assert!(status_bar(&app, width).is_none());
    // A wide character takes two columns.
    app.status_message = "\u{6f22}".to_string();
    let spans = status_bar(&app, 100).expect("it fits");
    assert_eq!(spans[2].text.len(), 100 - 1 - 2 - width as usize - 1);
    assert_eq!(texts(&bar_with_gap("m", 3))[2], "   ");
}

#[test]
fn tones_have_their_colours() {
    assert_eq!(Tone::Plain.paint(), Paint::Unset);
    assert_eq!(Tone::Accent.paint(), Paint::Cyan);
    assert_eq!(Tone::Header.paint(), Paint::Rgb { r: 180, g: 180, b: 220 });
    assert_eq!(Tone::Good.paint(), Paint::Green);
    assert_eq!(Tone::Warn.paint(), Paint::Yellow);
    assert_eq!(Tone::Bad.paint(), Paint::Red);
    assert_eq!(Tone::Muted.paint(), Paint::DarkGray);
    assert_eq!(Tone::Proxy.paint(), Paint::Magenta);
    assert_eq!(Tone::Tcp.paint(), Paint::Blue);
    assert_eq!(Tone::HighlightBg.paint(), Paint::Rgb { r: 40, g: 40, b: 60 });
    assert_eq!(Tone::BarBg.paint(), Paint::Rgb { r: 30, g: 30, b: 40 });
    assert_eq!(Tone::BytesIn.paint(), Paint::Rgb { r: 100, g: 200, b: 100 });
    assert_eq!(Tone::BytesOut.paint(), Paint::Rgb { r: 100, g: 150, b: 255 });
}

use zq::hub::{prune, Hub};
use zq::proto::{DaemonToTuiMessage, Proto, ProxyStatus, RouteAction, TuiCommand};

#[test]
fn test_hub_new_defaults() {
    let hub = Hub::new();
    assert_eq!(hub.get_route_action("com.example.app"), RouteAction::Passthrough);
}

#[test]
fn test_set_proxy_status() {
    let mut hub = Hub::new();
    hub.set_proxy_status(ProxyStatus::Reachable);
    let state = hub.get_full_state();
    match state {
        DaemonToTuiMessage::FullState { proxy_status, .. } => {
            assert_eq!(proxy_status, ProxyStatus::Reachable);
        }
        _ => panic!("expected FullState"),
    }
}

#[test]
fn test_routing_rules() {
    let mut hub = Hub::new();
    hub.handle_tui_command(TuiCommand::SetAppRouting {
        bundle_id: "com.example.app".to_string(),
        action: RouteAction::RouteToProxy,
    });
    assert_eq!(
        hub.get_route_action("com.example.app"),
        RouteAction::RouteToProxy
    );
    // Unset app still gets global default.
    assert_eq!(
        hub.get_route_action("com.other.app"),
        RouteAction::Passthrough
    );
}

#[test]
fn test_global_routing() {
    let mut hub = Hub::new();
    hub.handle_tui_command(TuiCommand::SetGlobalRouting {
        action: RouteAction::RouteToProxy,
    });
    assert_eq!(
        hub.get_route_action("com.anything.app"),
        RouteAction::RouteToProxy
    );
}

#[test]
fn test_subscribe_receives_updates() {
    let mut hub = Hub::new();
    let mut rx = hub.subscribe_tui();

    hub.set_proxy_status(ProxyStatus::Reachable);

    let msg = rx.try_recv().expect("should have received a message");
    match msg {
        DaemonToTuiMessage::ProxyStatusUpdate { status } => {
            assert_eq!(status, ProxyStatus::Reachable);
        }
        _ => panic!("expected ProxyStatusUpdate"),
    }
}

#[test]
fn test_flow_lifecycle() {
    let mut hub = Hub::new();
    let mut rx = hub.subscribe_tui();

    // Start a flow.
    let action = hub.handle_flow_start(
        1,
        4321,
        "test_process",
        "com.test.app",
        "127.0.0.1:50000",
        "10.0.0.1:443",
        Proto::Tcp,
    );
    assert_eq!(action, RouteAction::Passthrough);

    // Drain the FlowUpdate and AppUpdate messages.
    let mut saw_flow_update = false;
    while let Ok(msg) = rx.try_recv() {
        if matches!(msg, DaemonToTuiMessage::FlowUpdate { .. }) {
            saw_flow_update = true;
        }
    }
    assert!(saw_flow_update);

    // End the flow.
    hub.handle_flow_end(1, 1024, 512);

    let mut saw_flow_removed = false;
    while let Ok(msg) = rx.try_recv() {
        if matches!(msg, DaemonToTuiMessage::FlowRemoved { flow_id: 1 }) {
            saw_flow_removed = true;
        }
    }
    assert!(saw_flow_removed);
}

#[test]
fn test_update_flow_bytes() {
    let mut hub = Hub::new();
    let mut rx = hub.subscribe_tui();

    // Start a flow.
    hub.handle_flow_start(
        42,
        4321,
        "test",
        "com.test.app",
        "127.0.0.1:50000",
        "10.0.0.1:443",
        Proto::Tcp,
    );

    // Drain initial messages.
    while rx.try_recv().is_ok() {}

    // Update bytes.
    hub.update_flow_bytes(42, 100, 200);

    let msg = rx.try_recv().expect("should have received FlowUpdate");
    match msg {
        DaemonToTuiMessage::FlowUpdate { flow } => {
            assert_eq!(flow.flow_id, 42);
            assert_eq!(flow.bytes_in, 100);
            assert_eq!(flow.bytes_out, 200);
        }
        _ => panic!("expected FlowUpdate"),
    }

    // Same values should not re-broadcast.
    hub.update_flow_bytes(42, 100, 200);
    assert!(rx.try_recv().is_err(), "should not broadcast unchanged bytes");
}

#[test]
fn test_shutdown_signal() {
    let rt = tokio::runtime::Builder::new_current_thread()
        .enable_all()
        .build()
        .expect("runtime");
    let result = rt.block_on(async {
        let mut hub = Hub::new();
        let notifier = hub.shutdown_notifier();

        let handle = tokio::spawn(async move {
            notifier.notified().await;
            true
        });

        // Brief delay to ensure the waiter is registered.
        tokio::time::sleep(std::time::Duration::from_millis(10)).await;

        hub.signal_shutdown();

        tokio::time::timeout(std::time::Duration::from_secs(1), handle)
            .await
            .expect("timeout")
            .expect("join error")
    });
    assert!(result);
}

fn begin(hub: &mut Hub, flow_id: u64, pid: u32, bundle_id: &str) -> Vec<DaemonToTuiMessage> {
    hub.begin_flow(
        flow_id,
        pid,
        "proc",
        bundle_id,
        "127.0.0.1:50000",
        "10.0.0.1:443",
        Proto::Tcp,
        1700000000,
    )
    .1
}

fn apps_and_flows(
    hub: &Hub,
) -> (Vec<zq::proto::AppInfo>, Vec<zq::proto::FlowInfo>) {
    match hub.get_full_state() {
        DaemonToTuiMessage::FullState { apps, flows, .. } => (apps, flows),
        _ => panic!("expected FullState"),
    }
}

#[test]
fn a_flow_that_starts_is_registered_and_announced() {
    let mut hub = Hub::new();
    let messages = begin(&mut hub, 7, 99, "com.a");
    assert_eq!(messages.len(), 2);
    match &messages[0] {
        DaemonToTuiMessage::FlowUpdate { flow } => {
            assert_eq!(flow.flow_id, 7);
            assert_eq!(flow.pid, 99);
            assert_eq!(flow.process_name, "proc");
            assert_eq!(flow.bundle_id, "com.a");
            assert_eq!(flow.local_addr, "127.0.0.1:50000");
            assert_eq!(flow.remote_addr, "10.0.0.1:443");
            assert_eq!(flow.proto, Proto::Tcp);
            assert_eq!((flow.bytes_in, flow.bytes_out), (0, 0));
            assert_eq!(flow.routing, RouteAction::Passthrough);
            assert_eq!(flow.started_at, 1700000000);
        }
        _ => panic!("expected FlowUpdate"),
    }
    match &messages[1] {
        DaemonToTuiMessage::AppUpdate { app } => {
            assert_eq!(app.bundle_id, "com.a");
            assert_eq!(app.name, "proc");
            assert_eq!(app.pids, vec![99]);
            assert_eq!(app.flow_count, 1);
        }
        _ => panic!("expected AppUpdate"),
    }
}

#[test]
fn a_start_takes_the_time_from_the_clock() {
    let mut hub = Hub::new();
    let before = std::time::SystemTime::now()
        .duration_since(std::time::UNIX_EPOCH)
        .unwrap()
        .as_secs();
    hub.handle_flow_start(1, 2, "p", "b", "l", "r", Proto::Udp);
    let (_, flows) = apps_and_flows(&hub);
    assert!(flows[0].started_at >= before && flows[0].started_at <= before + 60);
    assert_eq!(flows[0].proto, Proto::Udp);
}

#[test]
fn processes_are_listed_once_and_flows_counted() {
    let mut hub = Hub::new();
    begin(&mut hub, 1, 5, "com.a");
    begin(&mut hub, 2, 5, "com.a");
    begin(&mut hub, 3, 6, "com.a");
    begin(&mut hub, 4, 6, "com.b");
    let (apps, flows) = apps_and_flows(&hub);
    assert_eq!(flows.len(), 4);
    let a = apps.iter().find(|a| a.bundle_id == "com.a").unwrap();
    assert_eq!(a.flow_count, 3);
    assert_eq!(a.pids, vec![5, 6]);
    let b = apps.iter().find(|a| a.bundle_id == "com.b").unwrap();
    assert_eq!(b.flow_count, 1);
    assert_eq!(b.pids, vec![6]);
}

#[test]
fn an_ended_flow_leaves_its_bytes_with_the_application() {
    let mut hub = Hub::new();
    begin(&mut hub, 1, 5, "com.a");
    assert!(hub.flow_end_fits(1, 10, 20));
    let messages = hub.finish_flow(1, 10, 20);
    assert_eq!(messages.len(), 2);
    match &messages[0] {
        DaemonToTuiMessage::AppUpdate { app } => {
            assert_eq!(app.flow_count, 0);
            assert_eq!((app.bytes_in, app.bytes_out), (10, 20));
        }
        _ => panic!("expected AppUpdate"),
    }
    assert!(matches!(messages[1], DaemonToTuiMessage::FlowRemoved { flow_id: 1 }));
    let (apps, flows) = apps_and_flows(&hub);
    assert!(flows.is_empty());
    assert_eq!(apps.len(), 1);
}

#[test]
fn an_unknown_flow_is_ignored() {
    let mut hub = Hub::new();
    assert!(hub.finish_flow(9, 1, 1).is_empty());
    assert!(hub.count_flow_bytes(9, 1, 1).is_empty());
    let (apps, flows) = apps_and_flows(&hub);
    assert!(apps.is_empty() && flows.is_empty());
}

#[test]
fn totals_that_would_overflow_are_told_beforehand() {
    let mut hub = Hub::new();
    begin(&mut hub, 1, 5, "com.a");
    hub.finish_flow(1, u64::MAX, 0);
    begin(&mut hub, 2, 5, "com.a");
    assert!(!hub.flow_end_fits(2, 1, 0));
    assert!(hub.flow_end_fits(2, 0, u64::MAX));
    assert!(hub.flow_start_fits("com.a"));
}

#[test]
fn a_rule_reroutes_the_application_and_its_live_flows() {
    let mut hub = Hub::new();
    begin(&mut hub, 1, 5, "com.a");
    begin(&mut hub, 2, 6, "com.b");
    let messages = hub.route_app("com.a", RouteAction::RouteToProxy);
    assert_eq!(messages.len(), 1);
    assert!(hub.route_app("com.unknown", RouteAction::RouteToProxy).is_empty());
    let (apps, flows) = apps_and_flows(&hub);
    for a in &apps {
        assert_eq!(a.routing, hub.get_route_action(&a.bundle_id));
    }
    for f in &flows {
        assert_eq!(f.routing, hub.get_route_action(&f.bundle_id));
    }
    assert_eq!(hub.get_route_action("com.a"), RouteAction::RouteToProxy);
    assert_eq!(hub.get_route_action("com.b"), RouteAction::Passthrough);
}

#[test]
fn a_rule_outlives_a_change_of_the_global_action() {
    let mut hub = Hub::new();
    begin(&mut hub, 1, 5, "com.a");
    begin(&mut hub, 2, 6, "com.b");
    hub.route_app("com.a", RouteAction::Passthrough);
    hub.route_all(RouteAction::RouteToProxy);
    let (apps, flows) = apps_and_flows(&hub);
    for a in &apps {
        let expected = if a.bundle_id == "com.a" {
            RouteAction::Passthrough
        } else {
            RouteAction::RouteToProxy
        };
        assert_eq!(a.routing, expected);
    }
    for f in &flows {
        assert_eq!(f.routing, hub.get_route_action(&f.bundle_id));
    }
}

#[test]
fn commands_answer_with_the_state_only_when_asked() {
    let mut hub = Hub::new();
    assert!(hub.handle_tui_command(TuiCommand::Subscribe).is_some());
    assert!(hub.handle_tui_command(TuiCommand::GetState).is_some());
    assert!(hub.handle_tui_command(TuiCommand::Shutdown).is_none());
    assert!(hub
        .handle_tui_command(TuiCommand::SetGlobalRouting {
            action: RouteAction::RouteToProxy
        })
        .is_none());
}

#[test]
fn only_a_shutdown_command_wakes_those_who_wait() {
    let rt = tokio::runtime::Builder::new_current_thread()
        .enable_all()
        .build()
        .expect("runtime");
    rt.block_on(async {
        let mut hub = Hub::new();
        let notifier = hub.shutdown_notifier();
        let handle = tokio::spawn(async move { notifier.notified().await });
        tokio::time::sleep(std::time::Duration::from_millis(10)).await;

        hub.handle_tui_command(TuiCommand::GetState);
        hub.handle_tui_command(TuiCommand::SetGlobalRouting { action: RouteAction::RouteToProxy });
        tokio::time::sleep(std::time::Duration::from_millis(10)).await;
        assert!(!handle.is_finished());

        assert!(hub.handle_tui_command(TuiCommand::Shutdown).is_none());
        tokio::time::timeout(std::time::Duration::from_secs(1), handle)
            .await
            .expect("timeout")
            .expect("join error");
    });
}

#[test]
fn every_subscriber_hears_every_message_in_order() {
    let mut hub = Hub::new();
    let mut first = hub.subscribe_tui();
    let mut second = hub.subscribe_tui();
    let start = |hub: &mut Hub, id: u64| {
        hub.handle_flow_start(id, 7, "p", "com.a", "127.0.0.1:1", "10.0.0.1:443", Proto::Tcp)
    };
    start(&mut hub, 1);
    hub.update_flow_bytes(1, 10, 20);
    let mut late = hub.subscribe_tui();
    hub.handle_flow_end(1, 30, 40);
    for rx in [&mut first, &mut second] {
        assert!(matches!(
            rx.try_recv(),
            Ok(DaemonToTuiMessage::FlowUpdate { flow }) if flow.bytes_in == 0
        ));
        assert!(matches!(
            rx.try_recv(),
            Ok(DaemonToTuiMessage::AppUpdate { app }) if app.flow_count == 1
        ));
        assert!(matches!(
            rx.try_recv(),
            Ok(DaemonToTuiMessage::FlowUpdate { flow }) if flow.bytes_in == 10
        ));
    }
    for rx in [&mut first, &mut second, &mut late] {
        assert!(matches!(
            rx.try_recv(),
            Ok(DaemonToTuiMessage::AppUpdate { app })
                if app.flow_count == 0 && app.bytes_in == 30 && app.bytes_out == 40
        ));
        assert!(matches!(
            rx.try_recv(),
            Ok(DaemonToTuiMessage::FlowRemoved { flow_id: 1 })
        ));
        assert!(rx.try_recv().is_err());
    }
}

#[test]
fn a_subscriber_that_left_is_dropped_and_the_others_hear_on() {
    let mut hub = Hub::new();
    let gone = hub.subscribe_tui();
    let mut stays = hub.subscribe_tui();
    drop(gone);
    hub.set_proxy_status(ProxyStatus::Reachable);
    hub.set_proxy_status(ProxyStatus::Reachable);
    hub.set_proxy_status(ProxyStatus::Unreachable);
    assert!(matches!(
        stays.try_recv(),
        Ok(DaemonToTuiMessage::ProxyStatusUpdate { status: ProxyStatus::Reachable })
    ));
    assert!(matches!(
        stays.try_recv(),
        Ok(DaemonToTuiMessage::ProxyStatusUpdate { status: ProxyStatus::Unreachable })
    ));
    assert!(stays.try_recv().is_err());
}

#[test]
fn those_without_a_delivery_are_dropped_in_order() {
    let mut members = vec!['a', 'b', 'c', 'd', 'e'];
    prune(&mut members, &vec![true, false, false, true, true]);
    assert_eq!(members, vec!['a', 'd', 'e']);
    prune(&mut members, &vec![false, false, false]);
    assert!(members.is_empty());
    prune(&mut members, &vec![]);
    assert!(members.is_empty());
}

use zq::hub::Hub;
use zq::net::Endpoint;
use zq::proto::{DaemonToTuiMessage, RouteAction, TuiCommand};
use zq::proxy::{
    final_counts, write_listen_addr, ConnAction, ConnEvent, Connection, FlowIds, PeerAddr, Pump,
    PumpAction, PumpEvent,
};

const CLIENT: Endpoint = Endpoint { ip: [192, 168, 1, 2], port: 50000 };
const LISTEN: Endpoint = Endpoint { ip: [127, 0, 0, 1], port: 8888 };

fn dest(port: u16) -> Endpoint {
    Endpoint { ip: [93, 184, 216, 34], port }
}

/// A connection whose destination is known.
fn resolving(flow_id: u64, port: u16) -> Connection {
    let (mut c, first) = Connection::open(flow_id, PeerAddr::V4(CLIENT));
    assert!(matches!(first, ConnAction::GetLocal));
    assert!(matches!(
        c.step(ConnEvent::Local { addr: PeerAddr::V4(LISTEN) }),
        ConnAction::Lookup { client, listen } if client == CLIENT && listen == LISTEN
    ));
    assert!(matches!(
        c.step(ConnEvent::Destination { dest: dest(port) }),
        ConnAction::Resolve { client } if client == CLIENT
    ));
    c
}

fn fail_text(action: ConnAction) -> String {
    match action {
        ConnAction::Fail { error } => error.message(),
        other => panic!("expected a failure, got {:?}", other),
    }
}

fn flows(hub: &Hub) -> Vec<zq::proto::FlowInfo> {
    match hub.get_full_state() {
        DaemonToTuiMessage::FullState { flows, .. } => flows,
        _ => panic!("expected FullState"),
    }
}

#[test]
fn numbers_begin_with_one_and_go_up() {
    let mut ids = FlowIds::new();
    assert_eq!((ids.take(), ids.take(), ids.take()), (1, 2, 3));
}

#[test]
fn the_proxy_listens_on_the_loopback() {
    assert_eq!(write_listen_addr(8888), "127.0.0.1:8888");
}

#[test]
fn a_connection_goes_straight_through() {
    let mut hub = Hub::new();
    let mut c = resolving(5, 443);
    assert!(matches!(
        c.register(&mut hub, 42, "curl", "proc.curl"),
        ConnAction::ConnectDirect { dest: d } if d == dest(443)
    ));
    let f = &flows(&hub)[0];
    assert_eq!(f.flow_id, 5);
    assert_eq!(f.local_addr, "192.168.1.2:50000");
    assert_eq!(f.remote_addr, "93.184.216.34:443");
    assert!(matches!(c.step(ConnEvent::UpstreamConnected), ConnAction::PassData));
    assert!(matches!(c.finish(&mut hub, 10, 20), ConnAction::Finish));
    assert!(flows(&hub).is_empty());
    assert!(matches!(c.finish(&mut hub, 10, 20), ConnAction::Wait));
}

#[test]
fn a_routed_connection_goes_through_the_proxy() {
    let mut hub = Hub::new();
    hub.handle_tui_command(TuiCommand::SetGlobalRouting { action: RouteAction::RouteToProxy });
    assert!(matches!(
        resolving(1, 443).register(&mut hub, 42, "curl", "proc.curl"),
        ConnAction::ConnectProxy { dest: d, is_tls: true } if d == dest(443)
    ));
    let mut c = resolving(2, 80);
    assert!(matches!(
        c.register(&mut hub, 42, "curl", "proc.curl"),
        ConnAction::ConnectProxy { dest: d, is_tls: false } if d == dest(80)
    ));
    assert_eq!(
        fail_text(c.step(ConnEvent::UpstreamFailed)),
        "failed to forward to proxy for 93.184.216.34:80"
    );
    // A flow whose upstream failed stays registered.
    assert_eq!(flows(&hub).len(), 2);
}

#[test]
fn every_connection_error_has_its_words() {
    let (_, first) = Connection::open(1, PeerAddr::V6);
    assert_eq!(fail_text(first), "IPv6 not supported");
    let (mut c, _) = Connection::open(1, PeerAddr::V4(CLIENT));
    assert_eq!(fail_text(c.step(ConnEvent::Local { addr: PeerAddr::V6 })), "IPv6 not supported");
    let (mut c, _) = Connection::open(1, PeerAddr::V4(CLIENT));
    assert_eq!(fail_text(c.step(ConnEvent::LocalFailed)), "failed to get local addr");
    let (mut c, _) = Connection::open(1, PeerAddr::V4(CLIENT));
    c.step(ConnEvent::Local { addr: PeerAddr::V4(LISTEN) });
    assert_eq!(fail_text(c.step(ConnEvent::LookupFailed)), "DIOCNATLOOK failed");
    assert_eq!(
        fail_text(resolving(1, 80).step(ConnEvent::ResolveFailed)),
        "PID resolution task failed"
    );
    let mut hub = Hub::new();
    let mut c = resolving(1, 80);
    c.register(&mut hub, 1, "n", "b");
    assert_eq!(
        fail_text(c.step(ConnEvent::UpstreamFailed)),
        "failed to connect to upstream 93.184.216.34:80"
    );
    assert!(matches!(c.step(ConnEvent::UpstreamConnected), ConnAction::Wait));
}

#[test]
fn nothing_is_registered_out_of_turn() {
    let mut hub = Hub::new();
    let (mut c, _) = Connection::open(1, PeerAddr::V4(CLIENT));
    assert!(matches!(c.register(&mut hub, 1, "n", "b"), ConnAction::Wait));
    assert!(flows(&hub).is_empty());
}

#[test]
fn a_pump_counts_what_was_written() {
    let (mut p, first) = Pump::new();
    assert_eq!(first, PumpAction::Read { counted: 0 });
    assert_eq!(p.step(PumpEvent::Read { n: 100 }), PumpAction::Write { n: 100 });
    assert!(p.total_fits());
    assert_eq!(p.step(PumpEvent::Written), PumpAction::Read { counted: 100 });
    assert_eq!(p.step(PumpEvent::Read { n: 7 }), PumpAction::Write { n: 7 });
    assert_eq!(p.step(PumpEvent::Written), PumpAction::Read { counted: 7 });
    assert_eq!(p.step(PumpEvent::Read { n: 5 }), PumpAction::Write { n: 5 });
    assert_eq!(p.step(PumpEvent::WriteFailed), PumpAction::ShutDown);
    assert_eq!(p.step(PumpEvent::ShutDown), PumpAction::Finish { total: 107 });
    assert_eq!(p.step(PumpEvent::Written), PumpAction::Wait);
}

#[test]
fn a_pump_ends_with_its_source() {
    let (mut p, _) = Pump::new();
    assert_eq!(p.step(PumpEvent::Read { n: 0 }), PumpAction::ShutDown);
    assert_eq!(p.step(PumpEvent::ShutDown), PumpAction::Finish { total: 0 });
    let (mut p, _) = Pump::new();
    assert_eq!(p.step(PumpEvent::ReadFailed), PumpAction::ShutDown);
}

#[test]
fn a_lost_pump_counts_as_none() {
    assert_eq!(final_counts(Some(1), Some(2)), (2, 1));
    assert_eq!(final_counts(None, Some(2)), (2, 0));
    assert_eq!(final_counts(Some(1), None), (0, 1));
}

use bytes::Bytes;
use std::time::Duration;
use tokio::io::{AsyncReadExt, AsyncWriteExt};
use tokio::io::DuplexStream;
use tokio::net::TcpStream;
use tokio::sync::mpsc;
use zq::forwarder::{
    forward_to_proxy, is_tunnel_granted, join_host_port, record_probe, write_connect_request,
    BridgeAction, BridgeError, BridgeEvent, ForwardAction, ForwardError, ForwardEvent, Probe, ProxyForwarder,
    CONNECT_TIMEOUT_SECS, PROXY_READ_BUF_SIZE, REPLY_BUF_SIZE,
};
use zq::hub::Hub;
use zq::proto::{DaemonToTuiMessage, ProxyStatus};

fn runtime() -> tokio::runtime::Runtime {
    tokio::runtime::Builder::new_current_thread()
        .enable_all()
        .build()
        .expect("runtime")
}

/// Works a bridge's connections until it is over, over a stream to the proxy
/// that stands ready.
async fn bridge_flow(
    fwd: ProxyForwarder,
    mut stream: DuplexStream,
    remote_host: &str,
    remote_port: u16,
    is_tls: bool,
    mut flow_reader: mpsc::Receiver<Bytes>,
    flow_writer: mpsc::Sender<Bytes>,
) -> Result<(), String> {
    let (mut bridge, mut action) = fwd.bridge_flow(remote_host, remote_port, is_tls);
    let mut buf = vec![0u8; PROXY_READ_BUF_SIZE];
    loop {
        let event = match action {
            BridgeAction::Connect { .. } => BridgeEvent::Connected,
            BridgeAction::SendRequest { text } => {
                match stream.write_all(text.as_bytes()).await {
                    Ok(()) => BridgeEvent::RequestSent,
                    Err(_) => BridgeEvent::RequestFailed,
                }
            }
            BridgeAction::ReadReply => {
                let mut reply = vec![0u8; REPLY_BUF_SIZE];
                match stream.read(&mut reply).await {
                    Ok(n) => BridgeEvent::Reply { data: reply[..n].to_vec() },
                    Err(_) => BridgeEvent::ReplyFailed,
                }
            }
            BridgeAction::AwaitData => {
                let read = stream.read(&mut buf);
                let recv = flow_reader.recv();
                let read = Box::pin(read);
                let recv = Box::pin(recv);
                match futures::future::select(recv, read).await {
                    futures::future::Either::Left((Some(data), _)) => {
                        BridgeEvent::FlowData { data: data.to_vec() }
                    }
                    futures::future::Either::Left((None, _)) => BridgeEvent::FlowClosed,
                    futures::future::Either::Right((Ok(n), _)) => {
                        BridgeEvent::ProxyData { data: buf[..n].to_vec() }
                    }
                    futures::future::Either::Right((Err(e), _)) => {
                        BridgeEvent::ProxyReadFailed { cause: e.to_string() }
                    }
                }
            }
            BridgeAction::WriteToProxy { data } => {
                match stream.write_all(&data).await {
                    Ok(()) => BridgeEvent::Written,
                    Err(_) => BridgeEvent::WriteFailed,
                }
            }
            BridgeAction::SendToFlow { data } => match flow_writer.send(Bytes::from(data)).await {
                Ok(()) => BridgeEvent::Delivered,
                Err(_) => BridgeEvent::ReceiverGone,
            },
            BridgeAction::ShutDownWrite => match stream.shutdown().await {
                Ok(()) => BridgeEvent::WriteShutDown,
                Err(_) => BridgeEvent::ShutdownFailed,
            },
            BridgeAction::Finish => return Ok(()),
            BridgeAction::Fail { error } => return Err(error.message()),
            BridgeAction::Wait => panic!("an event that does not belong to the phase"),
        };
        action = bridge.step(event);
    }
}

async fn check_reachable(fwd: &ProxyForwarder, addr: &str) -> bool {
    let limit = Duration::from_secs(CONNECT_TIMEOUT_SECS);
    let probe = match tokio::time::timeout(limit, TcpStream::connect(addr)).await {
        Ok(Ok(_)) => Probe::Connected,
        Ok(Err(_)) => Probe::Failed,
        Err(_) => Probe::TimedOut,
    };
    fwd.check_reachable(probe)
}

/// Helper: a mock proxy that accepts a CONNECT request, replies 200, then
/// echoes data back.
fn mock_proxy_connect_echo() -> (DuplexStream, tokio::task::JoinHandle<()>) {
    let (near, mut sock) = tokio::io::duplex(65536);

    let handle = tokio::spawn(async move {
        // Read the CONNECT request.
        let mut buf = [0u8; 1024];
        let n = sock.read(&mut buf).await.unwrap();
        let req = String::from_utf8_lossy(&buf[..n]);
        assert!(req.starts_with("CONNECT "), "expected CONNECT, got: {req}");

        // Reply 200.
        sock.write_all(b"HTTP/1.1 200 Connection established\r\n\r\n")
            .await
            .unwrap();

        // Echo loop: read data and send it back.
        let mut echo_buf = [0u8; 4096];
        loop {
            match sock.read(&mut echo_buf).await {
                Ok(0) | Err(_) => break,
                Ok(n) => {
                    if sock.write_all(&echo_buf[..n]).await.is_err() {
                        break;
                    }
                }
            }
        }
    });

    (near, handle)
}

/// Helper: a mock proxy for plain HTTP that echoes data.
fn mock_proxy_plain_echo() -> (DuplexStream, tokio::task::JoinHandle<()>) {
    let (near, mut sock) = tokio::io::duplex(65536);

    let handle = tokio::spawn(async move {
        // Echo loop.
        let mut echo_buf = [0u8; 4096];
        loop {
            match sock.read(&mut echo_buf).await {
                Ok(0) | Err(_) => break,
                Ok(n) => {
                    if sock.write_all(&echo_buf[..n]).await.is_err() {
                        break;
                    }
                }
            }
        }
    });

    (near, handle)
}

#[test]
fn test_bridge_flow_tls_connect() {
    runtime().block_on(async {
        let (stream, server) = mock_proxy_connect_echo();
        let fwd = ProxyForwarder::new("127.0.0.1:8080".to_string());

        let (flow_tx, flow_rx) = mpsc::channel::<Bytes>(16);
        let (resp_tx, mut resp_rx) = mpsc::channel::<Bytes>(16);

        let bridge = tokio::spawn(async move {
            bridge_flow(fwd, stream, "example.com", 443, true, flow_rx, resp_tx).await
        });

        // Send some data through the bridge.
        flow_tx.send(Bytes::from("hello from client")).await.unwrap();

        // Should get echoed back.
        let echoed = tokio::time::timeout(Duration::from_secs(2), resp_rx.recv())
            .await
            .expect("timeout waiting for echo")
            .expect("channel closed");

        assert_eq!(&echoed[..], b"hello from client");

        // Close the flow reader to signal the client is done.
        drop(flow_tx);

        // Bridge should complete.
        let result = tokio::time::timeout(Duration::from_secs(2), bridge)
            .await
            .expect("timeout waiting for bridge")
            .expect("bridge task panicked");

        assert!(result.is_ok(), "bridge returned error: {:?}", result.err());

        server.abort();
    });
}

#[test]
fn test_bridge_flow_plain_http() {
    runtime().block_on(async {
        let (stream, server) = mock_proxy_plain_echo();
        let fwd = ProxyForwarder::new("127.0.0.1:8080".to_string());

        let (flow_tx, flow_rx) = mpsc::channel::<Bytes>(16);
        let (resp_tx, mut resp_rx) = mpsc::channel::<Bytes>(16);

        let bridge = tokio::spawn(async move {
            bridge_flow(fwd, stream, "example.com", 80, false, flow_rx, resp_tx).await
        });

        flow_tx
            .send(Bytes::from("GET / HTTP/1.1\r\n\r\n"))
            .await
            .unwrap();

        let echoed = tokio::time::timeout(Duration::from_secs(2), resp_rx.recv())
            .await
            .expect("timeout waiting for echo")
            .expect("channel closed");

        assert_eq!(&echoed[..], b"GET / HTTP/1.1\r\n\r\n");

        drop(flow_tx);

        let result = tokio::time::timeout(Duration::from_secs(2), bridge)
            .await
            .expect("timeout waiting for bridge")
            .expect("bridge task panicked");

        assert!(result.is_ok(), "bridge returned error: {:?}", result.err());

        server.abort();
    });
}

#[test]
fn test_check_reachable_returns_false_when_nothing_listens() {
    runtime().block_on(async {
        // Use a port that is extremely unlikely to be in use.
        let fwd = ProxyForwarder::new("127.0.0.1:19999".to_string());
        assert!(!check_reachable(&fwd, "127.0.0.1:19999").await);
    });
}

#[test]
fn only_a_connection_shows_that_the_proxy_is_reachable() {
    let fwd = ProxyForwarder::new("127.0.0.1:8080".to_string());
    assert!(fwd.check_reachable(Probe::Connected));
    assert!(!fwd.check_reachable(Probe::Failed));
    assert!(!fwd.check_reachable(Probe::TimedOut));
}

#[test]
fn test_bridge_flow_connect_rejected() {
    runtime().block_on(async {
        // Mock proxy that rejects CONNECT with 403.
        let (stream, mut sock) = tokio::io::duplex(65536);

        let server = tokio::spawn(async move {
            let mut buf = [0u8; 1024];
            let _n = sock.read(&mut buf).await.unwrap();
            sock.write_all(b"HTTP/1.1 403 Forbidden\r\n\r\n")
                .await
                .unwrap();
        });

        let fwd = ProxyForwarder::new("127.0.0.1:0".to_string());
        let (_flow_tx, flow_rx) = mpsc::channel::<Bytes>(16);
        let (resp_tx, _resp_rx) = mpsc::channel::<Bytes>(16);

        let result = bridge_flow(fwd, stream, "evil.com", 443, true, flow_rx, resp_tx).await;

        assert!(result.is_err());
        let err_msg = format!("{}", result.unwrap_err());
        assert!(
            err_msg.contains("rejected CONNECT"),
            "unexpected error: {err_msg}"
        );

        server.abort();
    });
}

fn fail_text(action: BridgeAction) -> String {
    match action {
        BridgeAction::Fail { error } => error.message(),
        other => panic!("expected a failure, got {:?}", other),
    }
}

#[test]
fn the_request_names_the_target_twice() {
    assert_eq!(join_host_port("example.com", 443), "example.com:443");
    assert_eq!(
        write_connect_request("example.com:443"),
        "CONNECT example.com:443 HTTP/1.1\r\nHost: example.com:443\r\n\r\n"
    );
}

#[test]
fn every_bridge_error_has_its_words() {
    let begin = |tls: bool| ProxyForwarder::new("p:1".to_string()).bridge_flow("h", 1, tls).0;
    assert_eq!(
        fail_text(begin(true).step(BridgeEvent::ConnectTimedOut)),
        "timed out connecting to proxy"
    );
    assert_eq!(
        fail_text(begin(true).step(BridgeEvent::ConnectFailed)),
        "failed to connect to proxy"
    );
    let mut b = begin(true);
    b.step(BridgeEvent::Connected);
    assert_eq!(
        fail_text(b.step(BridgeEvent::RequestFailed)),
        "failed to send CONNECT request to proxy"
    );
    let answering = || {
        let mut b = begin(true);
        b.step(BridgeEvent::Connected);
        b.step(BridgeEvent::RequestSent);
        b
    };
    assert_eq!(
        fail_text(answering().step(BridgeEvent::ReplyFailed)),
        "failed to read CONNECT response from proxy"
    );
    assert_eq!(
        fail_text(answering().step(BridgeEvent::Reply { data: vec![] })),
        "proxy closed connection before sending CONNECT response for h:1"
    );
    assert_eq!(
        fail_text(answering().step(BridgeEvent::Reply { data: b"HTTP/1.1 403\xff".to_vec() })),
        "proxy rejected CONNECT for h:1: HTTP/1.1 403\u{fffd}"
    );
    let relaying = || {
        let mut b = begin(false);
        b.step(BridgeEvent::Connected);
        b
    };
    let mut b = relaying();
    b.step(BridgeEvent::FlowData { data: vec![1] });
    assert_eq!(
        fail_text(b.step(BridgeEvent::WriteFailed)),
        "failed to write to proxy stream"
    );
    let mut b = relaying();
    b.step(BridgeEvent::FlowClosed);
    assert_eq!(
        fail_text(b.step(BridgeEvent::ShutdownFailed)),
        "failed to shutdown proxy write half"
    );
    assert_eq!(
        fail_text(relaying().step(BridgeEvent::ProxyReadFailed { cause: "reset".to_string() })),
        "error reading from proxy stream: reset"
    );
}

#[test]
fn with_tls_no_data_passes_before_the_tunnel() {
    let (mut b, first) = ProxyForwarder::new("p:1".to_string()).bridge_flow("h", 443, true);
    assert!(matches!(first, BridgeAction::Connect { addr } if addr == "p:1"));
    assert!(matches!(b.step(BridgeEvent::FlowData { data: vec![1] }), BridgeAction::Wait));
    assert!(matches!(b.step(BridgeEvent::Connected), BridgeAction::SendRequest { .. }));
    assert!(matches!(b.step(BridgeEvent::FlowData { data: vec![1] }), BridgeAction::Wait));
    assert!(matches!(b.step(BridgeEvent::RequestSent), BridgeAction::ReadReply));
    assert!(matches!(
        b.step(BridgeEvent::Reply { data: b"HTTP/1.1 200 OK\r\n\r\n".to_vec() }),
        BridgeAction::AwaitData
    ));
    assert!(matches!(
        b.step(BridgeEvent::FlowData { data: vec![1, 2] }),
        BridgeAction::WriteToProxy { data } if data == vec![1, 2]
    ));
}

#[test]
fn data_passes_unchanged_until_either_side_ends() {
    let (mut b, _) = ProxyForwarder::new("p:1".to_string()).bridge_flow("h", 80, false);
    assert!(matches!(b.step(BridgeEvent::Connected), BridgeAction::AwaitData));
    assert!(matches!(
        b.step(BridgeEvent::ProxyData { data: vec![7, 8] }),
        BridgeAction::SendToFlow { data } if data == vec![7, 8]
    ));
    assert!(matches!(b.step(BridgeEvent::Delivered), BridgeAction::AwaitData));
    assert!(matches!(b.step(BridgeEvent::ProxyData { data: vec![] }), BridgeAction::Finish));
    assert!(matches!(b.step(BridgeEvent::FlowClosed), BridgeAction::Wait));

    let (mut b, _) = ProxyForwarder::new("p:1".to_string()).bridge_flow("h", 80, false);
    b.step(BridgeEvent::Connected);
    b.step(BridgeEvent::ProxyData { data: vec![1] });
    assert!(matches!(b.step(BridgeEvent::ReceiverGone), BridgeAction::Finish));
}

#[test]
fn an_answer_is_judged_by_its_status_line() {
    let (mut b, _) = ProxyForwarder::new("p:1".to_string()).bridge_flow("h", 443, true);
    assert!(matches!(b.judge_reply("x200y".to_string()), BridgeAction::AwaitData));
    assert!(is_tunnel_granted("HTTP/1.1 200 OK\r\nContent-Length: 0\r\n\r\n"));
    assert!(is_tunnel_granted("200"));
    assert!(is_tunnel_granted("200\n"));
    assert!(!is_tunnel_granted(""));
    assert!(!is_tunnel_granted("\n200"));
    assert!(!is_tunnel_granted("HTTP/1.1 20\n0"));
    assert!(!is_tunnel_granted("HTTP/1.1 502 Bad Gateway\r\nAge: 200\r\n\r\n"));
    let (mut b, _) = ProxyForwarder::new("p:1".to_string()).bridge_flow("h", 443, true);
    assert!(matches!(
        b.judge_reply("HTTP/1.1 502".to_string()),
        BridgeAction::Fail { error: BridgeError::Rejected { .. } }
    ));
}

#[test]
fn a_refusal_that_mentions_the_number_later_is_a_refusal() {
    let answer = "HTTP/1.1 403 Forbidden\r\nContent-Length: 200\r\n\r\n";
    let words = format!("proxy rejected CONNECT for evil.com:443: {}", answer);

    let (mut b, _) = ProxyForwarder::new("p:1".to_string()).bridge_flow("evil.com", 443, true);
    b.step(BridgeEvent::Connected);
    b.step(BridgeEvent::RequestSent);
    let refused = fail_text(b.step(BridgeEvent::Reply { data: answer.as_bytes().to_vec() }));
    assert!(refused.contains("rejected CONNECT"));
    assert_eq!(refused, words);

    let (mut f, _) = forward_to_proxy("evil.com:443", true, "p:1");
    f.step(ForwardEvent::Connected);
    f.step(ForwardEvent::RequestSent);
    let refused = forward_fail(f.step(ForwardEvent::Reply { data: answer.as_bytes().to_vec() }));
    assert_eq!(refused, words);
}

fn forward_fail(action: ForwardAction) -> String {
    match action {
        ForwardAction::Fail { error } => error.message(),
        other => panic!("expected a failure, got {:?}", other),
    }
}

#[test]
fn a_forwarded_connection_takes_its_steps() {
    let (mut f, first) = forward_to_proxy("10.0.0.1:443", true, "p:1");
    assert!(matches!(first, ForwardAction::Connect { addr } if addr == "p:1"));
    assert!(matches!(
        f.step(ForwardEvent::Connected),
        ForwardAction::SendRequest { text }
            if text == "CONNECT 10.0.0.1:443 HTTP/1.1\r\nHost: 10.0.0.1:443\r\n\r\n"
    ));
    assert!(matches!(f.step(ForwardEvent::RequestSent), ForwardAction::ReadReply));
    assert!(matches!(
        f.step(ForwardEvent::Reply { data: b"HTTP/1.1 200 OK".to_vec() }),
        ForwardAction::Ready
    ));
    assert!(matches!(f.step(ForwardEvent::Connected), ForwardAction::Wait));

    let (mut f, _) = forward_to_proxy("10.0.0.1:80", false, "p:1");
    assert!(matches!(f.step(ForwardEvent::Connected), ForwardAction::Ready));
}

#[test]
fn every_forward_error_has_its_words() {
    let begin = || forward_to_proxy("t:443", true, "p:1").0;
    assert_eq!(
        forward_fail(begin().step(ForwardEvent::ConnectFailed)),
        "failed to connect to proxy"
    );
    let mut f = begin();
    f.step(ForwardEvent::Connected);
    assert_eq!(
        forward_fail(f.step(ForwardEvent::RequestFailed)),
        "failed to send CONNECT request"
    );
    let answering = || {
        let mut f = begin();
        f.step(ForwardEvent::Connected);
        f.step(ForwardEvent::RequestSent);
        f
    };
    assert_eq!(
        forward_fail(answering().step(ForwardEvent::ReplyFailed)),
        "failed to read CONNECT response"
    );
    // Here an empty answer is a refusal like any other.
    assert_eq!(
        forward_fail(answering().step(ForwardEvent::Reply { data: vec![] })),
        "proxy rejected CONNECT for t:443: "
    );
    assert!(matches!(
        answering().judge_reply("no".to_string()),
        ForwardAction::Fail { error: ForwardError::Rejected { .. } }
    ));
}

#[test]
fn a_probe_sets_the_status_and_is_announced_once() {
    let mut hub = Hub::new();
    let mut rx = hub.subscribe_tui();
    record_probe(&mut hub, Probe::Failed);
    record_probe(&mut hub, Probe::TimedOut);
    record_probe(&mut hub, Probe::Connected);
    let mut seen = vec![];
    while let Ok(DaemonToTuiMessage::ProxyStatusUpdate { status }) = rx.try_recv() {
        seen.push(status);
    }
    assert_eq!(seen, vec![ProxyStatus::Unreachable, ProxyStatus::Reachable]);
}

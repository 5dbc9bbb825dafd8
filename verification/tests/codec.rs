use bytes::{BufMut, Bytes, BytesMut};
use zq::codec::{encode_message, FrameError, LengthPrefixedCodec};
use zq::proto::RouteAction;

#[test]
fn test_codec_encode_decode() {
    let mut codec = LengthPrefixedCodec::new();
    let payload = b"hello world";
    let bytes = Bytes::from_static(payload);

    let mut buf = BytesMut::new();
    codec.encode(bytes, &mut buf).unwrap();

    // Should have 4 byte prefix + payload.
    assert_eq!(buf.len(), 4 + payload.len());

    let decoded = codec.decode(&mut buf).unwrap().unwrap();
    assert_eq!(&decoded[..], payload);
}

#[test]
fn test_codec_partial_read() {
    let mut codec = LengthPrefixedCodec::new();
    let payload = b"hello";
    let bytes = Bytes::from_static(payload);

    let mut buf = BytesMut::new();
    codec.encode(bytes, &mut buf).unwrap();

    // Split the buffer to simulate partial reads.
    let mut partial = buf.split_to(3); // Only 3 of 4 header bytes
    assert!(codec.decode(&mut partial).unwrap().is_none());

    // Feed the rest.
    partial.extend_from_slice(&buf);
    let decoded = codec.decode(&mut partial).unwrap().unwrap();
    assert_eq!(&decoded[..], payload);
}

#[test]
fn test_codec_rejects_oversized_frame() {
    let mut codec = LengthPrefixedCodec::with_max_length(10);
    let mut buf = BytesMut::new();
    buf.put_u32_le(100); // Claim 100 bytes
    buf.extend_from_slice(&[0u8; 100]);

    let result = codec.decode(&mut buf);
    assert!(result.is_err());
}

#[test]
fn test_route_action_default() {
    assert_eq!(RouteAction::default(), RouteAction::Passthrough);
}

#[test]
fn refused_frames_say_why_and_stay() {
    let mut codec = LengthPrefixedCodec::with_max_length(10);
    let mut buf = BytesMut::new();
    buf.put_u32_le(11);
    let err = codec.decode(&mut buf).unwrap_err();
    assert_eq!(err, FrameError::FrameTooLarge { length: 11, max: 10 });
    assert_eq!(err.message(), "frame too large: 11 > 10");
    assert_eq!(buf.len(), 4);

    let err = codec.encode(Bytes::from(vec![7u8; 12]), &mut buf).unwrap_err();
    assert_eq!(err, FrameError::PayloadTooLarge { length: 12, max: 10 });
    assert_eq!(err.message(), "payload too large: 12 > 10");
    assert_eq!(buf.len(), 4);
}

#[test]
fn the_default_limit_is_sixteen_mebibytes() {
    for mut codec in [LengthPrefixedCodec::new(), LengthPrefixedCodec::default()] {
        let mut buf = BytesMut::new();
        buf.put_u32_le(16 * 1024 * 1024);
        assert!(codec.decode(&mut buf).unwrap().is_none());
        let mut buf = BytesMut::new();
        buf.put_u32_le(16 * 1024 * 1024 + 1);
        assert!(codec.decode(&mut buf).is_err());
    }
}

#[test]
fn what_was_encoded_decodes_whatever_follows() {
    let mut codec = LengthPrefixedCodec::with_max_length(5);
    for payload in [&b""[..], &b"a"[..], &b"hello"[..]] {
        let mut buf = BytesMut::new();
        codec.encode(Bytes::copy_from_slice(payload), &mut buf).unwrap();
        buf.extend_from_slice(&[255u8; 9]);
        assert_eq!(&codec.decode(&mut buf).unwrap().unwrap()[..], payload);
        assert_eq!(&buf[..], &[255u8; 9][..]);
    }
}

#[test]
fn a_small_payload_always_fits() {
    let codec = LengthPrefixedCodec::with_max_length(10);
    let buf = BytesMut::from(&[1u8, 2, 3][..]);
    assert!(codec.encode_fits(&Bytes::new(), &buf));
    assert!(codec.encode_fits(&Bytes::from(vec![7u8; 10]), &buf));
    // Beyond the limit nothing would be written.
    assert!(codec.encode_fits(&Bytes::from(vec![7u8; 11]), &buf));
}

#[test]
fn an_admissible_frame_always_fits_here() {
    let codec = LengthPrefixedCodec::new();
    for bytes in [&[][..], &[1, 0, 0][..], &[1, 0, 0, 0][..], &[1, 0, 0, 0, 9][..], &[255; 4][..]] {
        assert!(codec.decode_fits(&BytesMut::from(bytes)));
    }
}

#[test]
fn frames_come_out_in_order() {
    let mut codec = LengthPrefixedCodec::new();
    let mut buf = BytesMut::new();
    let payloads: Vec<Vec<u8>> = vec![vec![], vec![1], vec![2; 300], vec![3; 70000]];
    for p in &payloads {
        codec.encode(Bytes::from(p.clone()), &mut buf).unwrap();
    }
    for p in &payloads {
        assert_eq!(&codec.decode(&mut buf).unwrap().unwrap()[..], &p[..]);
    }
    assert!(codec.decode(&mut buf).unwrap().is_none());
    assert!(buf.is_empty());
}

#[test]
fn a_frame_missing_its_last_byte_waits() {
    let mut codec = LengthPrefixedCodec::new();
    let whole = encode_message(b"{\"type\":\"shutdown\"}");
    for n in 0..whole.len() {
        let mut buf = BytesMut::from(&whole[..n]);
        assert!(codec.decode(&mut buf).unwrap().is_none());
        assert_eq!(&buf[..], &whole[..n]);
    }
}

#[test]
fn messages_are_framed_little_endian() {
    let framed = encode_message(&[9u8; 258]);
    assert_eq!(&framed[..4], &[2, 1, 0, 0]);
    assert_eq!(&framed[4..], &[9u8; 258][..]);
}

fn object(fields: Vec<(&str, serde_json::Value)>) -> serde_json::Value {
    let mut map = serde_json::Map::new();
    for (k, v) in fields {
        map.insert(k.to_string(), v);
    }
    serde_json::Value::Object(map)
}

fn through_a_frame(msg: &serde_json::Value) -> serde_json::Value {
    let json = serde_json::to_vec(msg).unwrap();
    let encoded = encode_message(&json);
    let payload = &encoded[4..];
    serde_json::from_slice(payload).unwrap()
}

#[test]
fn test_tui_command_roundtrip() {
    let msg = object(vec![
        ("type", "set_app_routing".into()),
        ("bundle_id", "com.apple.Safari".into()),
        ("action", "route_to_proxy".into()),
    ]);

    let decoded = through_a_frame(&msg);

    assert_eq!(decoded["type"], "set_app_routing", "wrong variant");
    assert_eq!(decoded["bundle_id"], "com.apple.Safari");
    assert_eq!(decoded["action"], "route_to_proxy");
}

#[test]
fn test_daemon_to_tui_full_state_roundtrip() {
    let app = object(vec![
        ("bundle_id", "com.apple.Safari".into()),
        ("name", "Safari".into()),
        ("pids", serde_json::Value::Array(vec![1234.into()])),
        ("flow_count", 5.into()),
        ("bytes_in", 1024.into()),
        ("bytes_out", 512.into()),
        ("routing", "passthrough".into()),
    ]);
    let msg = object(vec![
        ("type", "full_state".into()),
        ("apps", serde_json::Value::Array(vec![app])),
        ("flows", serde_json::Value::Array(vec![])),
        ("proxy_status", "reachable".into()),
    ]);

    let decoded = through_a_frame(&msg);

    assert_eq!(decoded["type"], "full_state", "wrong variant");
    let apps = decoded["apps"].as_array().unwrap();
    assert_eq!(apps.len(), 1);
    assert_eq!(apps[0]["name"], "Safari");
    assert!(decoded["flows"].as_array().unwrap().is_empty());
    assert_eq!(decoded["proxy_status"], "reachable");
}

#[test]
fn test_shutdown_command_roundtrip() {
    let msg = object(vec![("type", "shutdown".into())]);
    let decoded = through_a_frame(&msg);
    assert_eq!(decoded["type"], "shutdown");
}

//! Framing, frame routing, handshake and the operation registry.

use bytes::{BufMut, BytesMut};
use meepo::json::Json;
use meepo::protocol::codec::{frame_text, next_line, CodecError, LfCodec};
use meepo::protocol::envelope::{
    decode_client_frame, decode_host_frame, ClientFrame, HostFrame, RequestFrame, ResponseFrame,
};
use meepo::protocol::errors::{
    OpErrorCode, OperationError, ProtocolError, MAX_ERROR_MESSAGE_CHARS,
};
use meepo::protocol::handshake::{
    negotiate_protocol, validate_protocol_range, AcceptedFrame, DrainingFrame, HandshakeError,
    HandshakeKind, HandshakeSurface, HelloFrame, IncompatibleFrame, LifecycleState,
    ReplacementPolicy,
};
use meepo::protocol::ops::{is_spine_op, spec_for, spine_specs};
use meepo::protocol::versions::{MAX_FRAME_BYTES, PROTOCOL_MAX, PROTOCOL_MIN};

fn json(text: &str) -> Json {
    Json::parse(text).expect("valid json")
}

fn encode(item: Json) -> BytesMut {
    let mut buf = BytesMut::new();
    LfCodec.encode(item, &mut buf).expect("encode");
    buf
}

fn decode_one(buf: &mut BytesMut) -> Json {
    LfCodec.decode(buf).expect("decode").expect("had a frame")
}

fn protocol_err(buf: &mut BytesMut) -> ProtocolError {
    match LfCodec.decode(buf) {
        Err(CodecError::Protocol(p)) => p,
        Err(other) => panic!("expected Protocol error, got {other:?}"),
        Ok(other) => panic!("expected error, got {other:?}"),
    }
}

#[test]
fn round_trips_a_frame() {
    let v = json(r#"{"requestId": "r1", "operation": "host.status", "input": {}}"#);
    let mut buf = encode(v.clone());
    let got = decode_one(&mut buf);
    assert_eq!(got, v);
    assert!(LfCodec.decode(&mut buf).unwrap().is_none(), "no second frame");
}

#[test]
fn strips_trailing_cr() {
    let mut buf = BytesMut::new();
    buf.put_slice(br#"{"ok":true}"#);
    buf.put_u8(b'\r');
    buf.put_u8(b'\n');
    let got = decode_one(&mut buf);
    assert_eq!(got, json(r#"{"ok": true}"#));
}

#[test]
fn rejects_empty_frame() {
    let mut buf = BytesMut::new();
    buf.put_u8(b'\n');
    assert_eq!(protocol_err(&mut buf), ProtocolError::InvalidFrame);
    let mut buf = BytesMut::new();
    buf.put_slice(b"\r\n");
    assert_eq!(protocol_err(&mut buf), ProtocolError::InvalidFrame);
}

#[test]
fn rejects_invalid_utf8() {
    let mut buf = BytesMut::new();
    buf.put_slice(b"{\"a\":\"");
    buf.put_u8(0xff);
    buf.put_slice(b"\"}\n");
    assert_eq!(protocol_err(&mut buf), ProtocolError::InvalidUtf8);
}

#[test]
fn rejects_invalid_json() {
    let mut buf = BytesMut::new();
    buf.put_slice(b"{not json}\n");
    match protocol_err(&mut buf) {
        ProtocolError::InvalidJson(_) => {}
        other => panic!("expected InvalidJson, got {other:?}"),
    }
}

#[test]
fn rejects_frame_over_cap_without_lf() {
    let mut buf = BytesMut::new();
    buf.resize(MAX_FRAME_BYTES + 1, b' ');
    assert_eq!(protocol_err(&mut buf), ProtocolError::FrameTooLarge);
}

#[test]
fn rejects_completed_frame_over_cap() {
    let mut buf = BytesMut::new();
    buf.resize(MAX_FRAME_BYTES, b' ');
    buf.put_u8(b'\n');
    assert_eq!(protocol_err(&mut buf), ProtocolError::FrameTooLarge);
}

#[test]
fn yields_none_for_partial_frame_under_cap() {
    let mut buf = BytesMut::new();
    buf.put_slice(b"{\"a\":1");
    assert!(LfCodec.decode(&mut buf).unwrap().is_none());
    assert_eq!(&buf[..], b"{\"a\":1", "an incomplete frame stays in the buffer");
}

#[test]
fn encode_rejects_oversized_value() {
    let huge = Json::Text("x".repeat(MAX_FRAME_BYTES));
    let mut buf = BytesMut::new();
    assert!(LfCodec.encode(huge, &mut buf).is_err());
    assert!(buf.is_empty());
}

#[test]
fn frames_follow_one_another() {
    let mut buf = encode(json(r#"{"a":"line\nbreak"}"#));
    LfCodec.encode(json("[1,-2,true,null]"), &mut buf).unwrap();
    assert_eq!(&buf[..], b"{\"a\":\"line\\nbreak\"}\n[1,-2,true,null]\n");
    assert_eq!(decode_one(&mut buf), json(r#"{"a":"line\nbreak"}"#));
    assert_eq!(decode_one(&mut buf), json("[1,-2,true,null]"));
    assert!(buf.is_empty());
}

#[test]
fn line_boundaries_are_exact() {
    assert_eq!(next_line(b"ab\r\ncd"), Ok(Some((2, 4))));
    assert_eq!(next_line(b"ab\ncd"), Ok(Some((2, 3))));
    assert_eq!(next_line(b"ab"), Ok(None));
    assert_eq!(next_line(b""), Ok(None));
    let mut largest = vec![b'x'; MAX_FRAME_BYTES - 1];
    largest.push(b'\n');
    assert_eq!(next_line(&largest), Ok(Some((MAX_FRAME_BYTES - 1, MAX_FRAME_BYTES))));
    assert_eq!(next_line(&vec![b'x'; MAX_FRAME_BYTES]), Ok(None));
    assert_eq!(frame_text("é").unwrap(), vec![0xc3, 0xa9, b'\n']);
    assert!(frame_text(&"x".repeat(MAX_FRAME_BYTES - 1)).is_ok());
    assert_eq!(frame_text(&"x".repeat(MAX_FRAME_BYTES)), Err(ProtocolError::FrameTooLarge));
}

#[test]
fn decodes_hello() {
    let v = json(
        r#"{"kind": "hello", "clientInstanceId": "c1", "surface": "tui",
            "protocolMin": 0, "protocolMax": 0}"#,
    );
    match decode_client_frame(v).unwrap() {
        ClientFrame::Hello(h) => assert_eq!(h.surface, HandshakeSurface::Tui),
        other => panic!("expected Hello, got {other:?}"),
    }
}

#[test]
fn decodes_request_without_kind() {
    let v = json(r#"{"requestId": "r1", "operation": "host.status", "input": {}}"#);
    match decode_client_frame(v).unwrap() {
        ClientFrame::Request(r) => assert_eq!(r.operation, "host.status"),
        other => panic!("expected Request, got {other:?}"),
    }
}

#[test]
fn rejects_unknown_client_kind() {
    let v = json(r#"{"kind": "client.capability.replace"}"#);
    assert_eq!(decode_client_frame(v), Err(ProtocolError::InvalidFrame));
}

#[test]
fn rejects_hello_with_unknown_key() {
    let v = json(
        r#"{"kind": "hello", "clientInstanceId": "c1", "surface": "tui",
            "protocolMin": 0, "protocolMax": 0, "extra": 1}"#,
    );
    assert!(matches!(decode_client_frame(v), Err(ProtocolError::InvalidJson(_))));
}

#[test]
fn round_trips_ok_response() {
    let r = ResponseFrame::ok("r1", "host.status", json(r#"{"state": "ready"}"#));
    let v = r.to_json();
    assert!(v.get("error").is_none());
    match decode_host_frame(v).unwrap() {
        HostFrame::Response(rf) => {
            assert!(rf.ok);
            assert_eq!(rf.result, Some(json(r#"{"state": "ready"}"#)));
        }
        other => panic!("expected Response, got {other:?}"),
    }
}

#[test]
fn round_trips_err_response() {
    let r = ResponseFrame::err(
        "r1",
        "turn.start",
        OperationError::new(OpErrorCode::NotFound, "no session"),
    );
    let v = r.to_json();
    match decode_host_frame(v).unwrap() {
        HostFrame::Response(rf) => {
            assert!(!rf.ok);
            assert_eq!(rf.error.unwrap().code, OpErrorCode::NotFound);
        }
        other => panic!("expected Response, got {other:?}"),
    }
}

#[test]
fn rejects_ok_with_error_payload() {
    let v = json(
        r#"{"requestId": "r1", "operation": "x", "ok": true,
            "error": {"code": "internal_failure", "message": "bad"}}"#,
    );
    assert_eq!(decode_host_frame(v), Err(ProtocolError::InvalidFrame));
}

#[test]
fn rejects_err_without_error_payload() {
    let v = json(r#"{"requestId": "r1", "operation": "x", "ok": false}"#);
    assert_eq!(decode_host_frame(v), Err(ProtocolError::InvalidFrame));
}

#[test]
fn decodes_accepted_and_subscription_routing() {
    let accepted = json(
        r#"{"kind": "accepted", "hostEpoch": "h1", "connectionId": "c1",
            "selectedProtocol": 0, "compatibilityEpoch": 10, "state": "ready"}"#,
    );
    match decode_host_frame(accepted).unwrap() {
        HostFrame::Accepted(a) => assert_eq!(a.state, LifecycleState::Ready),
        other => panic!("expected Accepted, got {other:?}"),
    }
    let sub = json(
        r#"{"kind": "subscription.session_delta", "subscriptionId": "s1", "sequence": 1}"#,
    );
    assert!(matches!(decode_host_frame(sub).unwrap(), HostFrame::Subscription(_)));
}

#[test]
fn request_rejects_unknown_key() {
    let v = json(r#"{"requestId": "r1", "operation": "x", "input": {}, "stray": true}"#);
    assert!(matches!(decode_client_frame(v), Err(ProtocolError::InvalidJson(_))));
}

#[test]
fn other_frames_are_routed() {
    assert_eq!(decode_client_frame(Json::Null), Err(ProtocolError::InvalidFrame));
    assert_eq!(decode_client_frame(json("{}")), Err(ProtocolError::InvalidFrame));
    assert_eq!(decode_host_frame(json("[]")), Err(ProtocolError::InvalidFrame));
    assert_eq!(decode_host_frame(json(r#"{"kind":"hello"}"#)), Err(ProtocolError::InvalidFrame));
    assert!(matches!(
        decode_host_frame(json(r#"{"kind":"configuration.changed"}"#)),
        Ok(HostFrame::ConfigChanged(_))
    ));
    assert!(matches!(
        decode_host_frame(json(r#"{"kind":"session.catalog.changed"}"#)),
        Ok(HostFrame::CatalogChanged(_))
    ));
    assert!(matches!(
        decode_host_frame(json(r#"{"kind":"draining","hostEpoch":"e","x":1}"#)),
        Err(ProtocolError::InvalidJson(_))
    ));
    let draining = DrainingFrame::new("e").to_json();
    assert!(matches!(decode_host_frame(draining), Ok(HostFrame::Draining(_))));
    let inc = IncompatibleFrame {
        kind: HandshakeKind::Incompatible,
        host_epoch: "e".into(),
        protocol_min: 1,
        protocol_max: 2,
        compatibility_epoch: 3,
        state: LifecycleState::Ready,
        replacement: ReplacementPolicy::WaitForIdleExit,
    };
    match decode_host_frame(inc.to_json()).unwrap() {
        HostFrame::Incompatible(f) => assert_eq!(f, inc),
        other => panic!("expected Incompatible, got {other:?}"),
    }
    let request = RequestFrame {
        request_id: "r".into(),
        operation: "o".into(),
        input: Json::Null,
    };
    assert_eq!(
        decode_client_frame(request.to_json()),
        Ok(ClientFrame::Request(request.clone()))
    );
    assert_eq!(
        ResponseFrame::ok("r", "o", Json::Null).validate(),
        Ok(())
    );
}

#[test]
fn valid_range_ok() {
    assert!(validate_protocol_range(0, 0).is_ok());
    assert!(validate_protocol_range(3, 7).is_ok());
}

#[test]
fn inverted_range_rejected() {
    assert!(matches!(
        validate_protocol_range(5, 2),
        Err(HandshakeError::InvalidRange { min: 5, max: 2 })
    ));
}

#[test]
fn negotiates_overlap_at_client_max() {
    // client 2..5, host 3..7 → min(5,7)=5 >= max(2,3)=3
    assert_eq!(negotiate_protocol(2, 5, 3, 7), Ok(5));
}

#[test]
fn negotiates_overlap_at_host_max() {
    // client 4..9, host 3..6 → min(9,6)=6 >= max(4,3)=4
    assert_eq!(negotiate_protocol(4, 9, 3, 6), Ok(6));
}

#[test]
fn no_overlap_rejected() {
    // client 0..1, host 5..7 → min(1,7)=1 < max(0,5)=5
    assert_eq!(negotiate_protocol(0, 1, 5, 7), Err(HandshakeError::NoOverlap));
}

#[test]
fn rejects_invalid_input_range_first() {
    assert!(matches!(
        negotiate_protocol(9, 2, 0, 0),
        Err(HandshakeError::InvalidRange { .. })
    ));
}

#[test]
fn handshake_error_messages() {
    assert_eq!(
        HandshakeError::InvalidRange { min: 9, max: 2 }.message(),
        "invalid protocol range: min 9 > max 2"
    );
    assert_eq!(HandshakeError::NoOverlap.message(), "no protocol overlap");
    assert_eq!(ProtocolError::InvalidJson("x".into()).message(), "invalid json: x");
    assert_eq!(ProtocolError::FrameTooLarge.message(), "frame too large");
}

#[test]
fn hello_round_trips_and_defaults_epoch() {
    let v = json(
        r#"{"kind": "hello", "clientInstanceId": "c1", "surface": "tui",
            "protocolMin": 0, "protocolMax": 0}"#,
    );
    let f = HelloFrame::from_json(&v).unwrap();
    assert_eq!(f.kind, HandshakeKind::Hello);
    assert_eq!(f.compatibility_epoch, 0, "missing epoch defaults to 0");
    let s = f.to_json().to_text();
    assert_eq!(s, HelloFrame::new("c1", HandshakeSurface::Tui, 0, 0, 0).to_json().to_text());
}

#[test]
fn accepted_rejects_unknown_key() {
    let v = json(
        r#"{"kind": "accepted", "hostEpoch": "h1", "connectionId": "x1",
            "selectedProtocol": 0, "compatibilityEpoch": 10, "state": "ready",
            "stray": true}"#,
    );
    assert!(AcceptedFrame::from_json(&v).is_none());
}

#[test]
fn every_op_declares_internal_failure() {
    for spec in spine_specs() {
        assert!(
            spec.allowed_error_codes.contains(&OpErrorCode::InternalFailure),
            "op {} must declare internal_failure",
            spec.name.0,
        );
    }
}

#[test]
fn spine_op_names_are_unique() {
    let specs = spine_specs();
    let n = specs.len();
    let unique =
        specs.iter().map(|s| s.name.0).collect::<std::collections::HashSet<_>>().len();
    assert_eq!(n, unique, "duplicate op names");
    assert_eq!(n, 23);
}

#[test]
fn recognizes_spine_ops() {
    assert!(is_spine_op("host.status"));
    assert!(is_spine_op("turn.start"));
    assert!(!is_spine_op("oauth.exchange"));
    let spec = spec_for("turn.query").unwrap();
    assert_eq!(
        spec.allowed_error_codes,
        vec![OpErrorCode::NotFound, OpErrorCode::InternalFailure]
    );
    assert!(spec_for("nope").is_none());
}

#[test]
fn error_messages_are_capped() {
    let long = "é".repeat(MAX_ERROR_MESSAGE_CHARS + 5);
    let e = OperationError::new(OpErrorCode::InvalidRequest, &long);
    assert_eq!(e.message.chars().count(), MAX_ERROR_MESSAGE_CHARS);
    assert!(long.starts_with(&e.message));
    assert_eq!(OperationError::new(OpErrorCode::NotFound, "short").message, "short");
    assert_eq!(OpErrorCode::HostNotReady.as_str(), "host_not_ready");
    assert_eq!(OpErrorCode::parse("revision_conflict"), Some(OpErrorCode::RevisionConflict));
}

#[test]
fn this_peer_speaks_one_version() {
    assert_eq!(negotiate_protocol(PROTOCOL_MIN, PROTOCOL_MAX, PROTOCOL_MIN, PROTOCOL_MAX), Ok(0));
}

#[test]
fn frames_are_read_in_every_form_of_their_members() {
    let hello = json(
        r#"{"kind":"hello","clientInstanceId":"c","surface":{"tui":null},"protocolMin":0,"protocolMax":1}"#,
    );
    match decode_client_frame(hello).unwrap() {
        ClientFrame::Hello(f) => assert_eq!(f.surface, HandshakeSurface::Tui),
        other => panic!("unexpected {other:?}"),
    }
    let response = json(
        r#"{"requestId":"r","operation":"o","ok":false,"error":["not_found","gone"]}"#,
    );
    match decode_host_frame(response).unwrap() {
        HostFrame::Response(f) => {
            assert_eq!(f.error, Some(OperationError::new(OpErrorCode::NotFound, "gone")))
        }
        other => panic!("unexpected {other:?}"),
    }
    // A frame itself is an object.
    assert_eq!(
        decode_client_frame(json(r#"["r","o",{}]"#)).unwrap_err(),
        ProtocolError::InvalidFrame
    );
    assert_eq!(
        RequestFrame::from_json(&json(r#"["r","o",{}]"#)).unwrap().request_id,
        "r"
    );
    // An optional member without a default has to be listed.
    assert!(ResponseFrame::from_json(&json(r#"["r","o",true,1]"#)).is_none());
    assert!(ResponseFrame::from_json(&json(r#"["r","o",true,1,null]"#)).is_some());
    assert_eq!(
        decode_client_frame(json(r#"{"requestId":1}"#)).unwrap_err(),
        ProtocolError::InvalidJson("not a well-formed request frame".into())
    );
}

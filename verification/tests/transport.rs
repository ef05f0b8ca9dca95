//! The bounded outbound queue.

use meepo::json::Json;
use meepo::transport::outbound::{
    BoundedSerialOutboundWriter, DrainStep, OutboundQueueError, MAX_QUEUED_BYTES,
    MAX_QUEUED_FRAMES,
};

fn numbered(i: usize) -> Json {
    Json::Object(vec![("i".into(), Json::Uint(i as u64))])
}

#[test]
fn enforces_frame_limit_when_sink_stalled() {
    let mut writer = BoundedSerialOutboundWriter::new();
    let mut accepted = 0usize;
    loop {
        match writer.enqueue(numbered(accepted)) {
            Ok(_) => accepted += 1,
            Err(OutboundQueueError::FrameLimit { .. })
            | Err(OutboundQueueError::ByteLimit { .. }) => break,
            Err(other) => panic!("unexpected error: {other:?}"),
        }
        assert!(accepted <= MAX_QUEUED_FRAMES + 1, "overflowed too late: {accepted}");
    }
    assert!(accepted <= MAX_QUEUED_FRAMES + 1, "accepted {accepted}");
    assert_eq!(accepted, MAX_QUEUED_FRAMES);
    assert_eq!(
        writer.enqueue(numbered(0)),
        Err(OutboundQueueError::FrameLimit { queued: 64, cap: 64 })
    );
}

#[test]
fn fifo_order_and_flushed_signal() {
    let mut writer = BoundedSerialOutboundWriter::new();
    for i in 0..5 {
        writer.enqueue(numbered(i)).unwrap();
    }
    let mut got = Vec::new();
    while let DrainStep::Send(v) = writer.next_frame() {
        got.push(v);
    }
    assert_eq!(got, (0..5).map(numbered).collect::<Vec<_>>(), "frames must leave in FIFO order");
    assert!(matches!(writer.next_frame(), DrainStep::Wait));
}

#[test]
fn enqueue_after_close_is_closed() {
    let mut writer = BoundedSerialOutboundWriter::new();
    writer.enqueue(numbered(1)).unwrap();
    writer.close();
    assert!(writer.is_closed());
    match writer.enqueue(Json::Object(vec![])) {
        Err(OutboundQueueError::Closed) => {}
        other => panic!("expected Closed, got {other:?}"),
    }
    // What is queued is still drained, then the drain ends.
    assert!(matches!(writer.next_frame(), DrainStep::Send(_)));
    assert!(matches!(writer.next_frame(), DrainStep::Exit));
}

#[test]
fn enforces_byte_limit() {
    let mut writer = BoundedSerialOutboundWriter::new();
    let half = Json::Text("x".repeat(MAX_QUEUED_BYTES / 2));
    writer.enqueue(half.clone()).unwrap();
    match writer.enqueue(half.clone()) {
        Err(OutboundQueueError::ByteLimit { queued, cap }) => {
            // Two quotes and the delimiter.
            assert_eq!(queued, MAX_QUEUED_BYTES / 2 + 3);
            assert_eq!(cap, MAX_QUEUED_BYTES);
        }
        other => panic!("expected ByteLimit, got {other:?}"),
    }
    // A frame that leaves makes room.
    assert!(matches!(writer.next_frame(), DrainStep::Send(_)));
    assert!(writer.enqueue(half).is_ok());
    // A frame of exactly the limit fits an empty queue.
    let mut empty = BoundedSerialOutboundWriter::new();
    assert!(empty.enqueue(Json::Text("x".repeat(MAX_QUEUED_BYTES - 3))).is_ok());
    let mut empty = BoundedSerialOutboundWriter::new();
    assert!(empty.enqueue(Json::Text("x".repeat(MAX_QUEUED_BYTES - 2))).is_err());
}

#[test]
fn overflow_messages() {
    assert_eq!(
        OutboundQueueError::FrameLimit { queued: 64, cap: 64 }.message(),
        "frame limit reached (64/64)"
    );
    assert_eq!(
        OutboundQueueError::ByteLimit { queued: 7, cap: 9 }.message(),
        "byte limit reached (7/9)"
    );
    assert_eq!(OutboundQueueError::Closed.message(), "connection closed");
}

//! Tests for the stream router and the per-kind fan-out channels.

use p4runtime_client::fanout::{FanOut, RecvOutcome, WaitError};
use p4runtime_client::router::{
    classify, DigestList, Envelope, MessageKind, Router, RouterState, StreamEvent,
};
use p4runtime_client::utils::de::TypedValue;

fn digest_envelope(list_id: u64) -> Envelope {
    Envelope::Digest(DigestList {
        digest_id: 7,
        list_id,
        data: vec![TypedValue::Bitstring(vec![1])],
        timestamp: 0,
    })
}

#[test]
fn classify_by_kind_tag() {
    assert_eq!(classify(&digest_envelope(0)), Some(MessageKind::Digest));
    assert_eq!(
        classify(&Envelope::Packet { payload: vec![] }),
        Some(MessageKind::Packet)
    );
    assert_eq!(
        classify(&Envelope::Arbitration {
            device_id: 1,
            election_id_high: 0,
            election_id_low: 1,
            status_code: 0,
        }),
        Some(MessageKind::Arbitration)
    );
    assert_eq!(
        classify(&Envelope::IdleNotice { payload: vec![] }),
        Some(MessageKind::IdleTimeout)
    );
    assert_eq!(
        classify(&Envelope::StreamError { canonical_code: 2, detail: vec![] }),
        Some(MessageKind::StreamError)
    );
    assert_eq!(classify(&Envelope::Unknown { tag: 99 }), None);
}

#[test]
fn same_kind_messages_arrive_in_order() {
    let mut router = Router::new(8);
    let mut cursor = router.subscribe(MessageKind::Digest);

    for list_id in 0..3u64 {
        let published = router.on_event(StreamEvent::Message(digest_envelope(list_id)));
        assert!(published);
    }

    for expected in 0..3u64 {
        match router.channel(MessageKind::Digest).recv(&mut cursor) {
            RecvOutcome::Message(Envelope::Digest(list)) => assert_eq!(list.list_id, expected),
            other_kind => panic!("expected a digest, got {:?}", discriminant_name(&other_kind)),
        }
    }
    assert!(matches!(
        router.channel(MessageKind::Digest).recv(&mut cursor),
        RecvOutcome::Empty
    ));
}

fn discriminant_name(r: &RecvOutcome<'_, Envelope>) -> &'static str {
    match r {
        RecvOutcome::Message(_) => "Message",
        RecvOutcome::Lagged(_) => "Lagged",
        RecvOutcome::Empty => "Empty",
        RecvOutcome::Closed => "Closed",
    }
}

#[test]
fn kinds_do_not_block_each_other() {
    // Fill the packet channel far past its capacity while a digest
    // subscriber sits idle: digests still arrive, in full.
    let mut router = Router::new(2);
    let mut digest_cursor = router.subscribe(MessageKind::Digest);
    let _lazy_packet_cursor = router.subscribe(MessageKind::Packet);

    for i in 0..10u8 {
        assert!(router.on_event(StreamEvent::Message(Envelope::Packet { payload: vec![i] })));
    }
    assert!(router.on_event(StreamEvent::Message(digest_envelope(42))));

    match router.channel(MessageKind::Digest).recv(&mut digest_cursor) {
        RecvOutcome::Message(Envelope::Digest(list)) => assert_eq!(list.list_id, 42),
        other => panic!("expected a digest, got {:?}", discriminant_name(&other)),
    }
}

#[test]
fn slow_subscriber_is_lagged_not_blocking() {
    let mut channel: FanOut<u8> = FanOut::new(2);
    let mut cursor = channel.subscribe();
    for i in 0..5u8 {
        channel.publish(i);
    }
    // Three of the five messages were dropped for this subscriber; it
    // resumes at the oldest retained one.
    assert!(matches!(channel.recv(&mut cursor), RecvOutcome::Lagged(3)));
    assert!(matches!(channel.recv(&mut cursor), RecvOutcome::Message(3)));
    assert!(matches!(channel.recv(&mut cursor), RecvOutcome::Message(4)));
    assert!(matches!(channel.recv(&mut cursor), RecvOutcome::Empty));
}

#[test]
fn each_subscriber_gets_every_message() {
    // Broadcast, not queue-stealing: independent cursors each see all
    // messages published after they subscribed.
    let mut channel: FanOut<u8> = FanOut::new(8);
    let mut first = channel.subscribe();
    channel.publish(1);
    let mut second = channel.subscribe();
    channel.publish(2);

    assert!(matches!(channel.recv(&mut first), RecvOutcome::Message(1)));
    assert!(matches!(channel.recv(&mut first), RecvOutcome::Message(2)));
    // The late subscriber sees only what came after it attached.
    assert!(matches!(channel.recv(&mut second), RecvOutcome::Message(2)));
    assert!(matches!(channel.recv(&mut second), RecvOutcome::Empty));
}

#[test]
fn unknown_kind_is_ignored_and_loop_continues() {
    let mut router = Router::new(4);
    let mut cursor = router.subscribe(MessageKind::Digest);
    let published = router.on_event(StreamEvent::Message(Envelope::Unknown { tag: 99 }));
    assert!(!published);
    assert_eq!(router.state(), RouterState::Running);
    // The router still routes after an unrecognized envelope.
    assert!(router.on_event(StreamEvent::Message(digest_envelope(1))));
    assert!(matches!(
        router.channel(MessageKind::Digest).recv(&mut cursor),
        RecvOutcome::Message(Envelope::Digest(_))
    ));
}

#[test]
fn cancellation_stops_publishing_at_once() {
    let mut router = Router::new(4);
    let mut cursor = router.subscribe(MessageKind::Packet);

    router.cancel();
    assert!(router.is_cancelled());
    assert_eq!(router.state(), RouterState::Cancelled);

    // Envelopes may keep arriving; none is published.
    for i in 0..3u8 {
        let published =
            router.on_event(StreamEvent::Message(Envelope::Packet { payload: vec![i] }));
        assert!(!published);
    }
    assert!(matches!(
        router.channel(MessageKind::Packet).recv(&mut cursor),
        RecvOutcome::Closed
    ));

    // Cancelling is idempotent.
    router.cancel();
    assert!(router.is_cancelled());
}

#[test]
fn cancellation_does_not_retract_published_messages() {
    let mut router = Router::new(4);
    let mut cursor = router.subscribe(MessageKind::Digest);
    assert!(router.on_event(StreamEvent::Message(digest_envelope(5))));
    router.cancel();
    // The in-flight publish committed before cancellation stays readable.
    match router.channel(MessageKind::Digest).recv(&mut cursor) {
        RecvOutcome::Message(Envelope::Digest(list)) => assert_eq!(list.list_id, 5),
        other => panic!("expected a digest, got {:?}", discriminant_name(&other)),
    }
    assert!(matches!(
        router.channel(MessageKind::Digest).recv(&mut cursor),
        RecvOutcome::Closed
    ));
}

#[test]
fn graceful_closure_and_failure_are_distinct() {
    let mut closed = Router::new(4);
    closed.on_event(StreamEvent::Closed);
    assert_eq!(closed.state(), RouterState::ClosedGracefully);
    assert!(!closed.is_cancelled());

    let mut failed = Router::new(4);
    failed.on_event(StreamEvent::ReadError);
    assert_eq!(failed.state(), RouterState::Failed);
    assert!(!failed.is_cancelled());

    // Both are terminal: nothing publishes afterwards.
    assert!(!failed.on_event(StreamEvent::Message(digest_envelope(0))));
    assert_eq!(failed.state(), RouterState::Failed);
}

#[test]
fn timeout_does_not_consume_the_next_message() {
    let mut router = Router::new(4);
    let mut cursor = router.subscribe(MessageKind::Arbitration);

    // The window elapsed with no message: a timeout, and nothing consumed.
    match router.channel(MessageKind::Arbitration).await_next(&mut cursor, true) {
        Err(WaitError::Timeout) => {}
        _ => panic!("expected a timeout"),
    }

    // A message arrives just after the window; the next wait returns it.
    assert!(router.on_event(StreamEvent::Message(Envelope::Arbitration {
        device_id: 1,
        election_id_high: 0,
        election_id_low: 1,
        status_code: 0,
    })));
    match router.channel(MessageKind::Arbitration).await_next(&mut cursor, false) {
        Ok(Envelope::Arbitration { device_id, .. }) => assert_eq!(*device_id, 1),
        _ => panic!("expected the arbitration update"),
    }
}

#[test]
fn wait_on_stopped_router_reports_closed() {
    let mut router = Router::new(4);
    let mut cursor = router.subscribe(MessageKind::Digest);
    router.on_event(StreamEvent::ReadError);
    match router.channel(MessageKind::Digest).await_next(&mut cursor, false) {
        Err(WaitError::Closed) => {}
        _ => panic!("expected the closed error"),
    }
}

#[test]
fn pending_message_wins_over_expired_timer() {
    let mut router = Router::new(4);
    let mut cursor = router.subscribe(MessageKind::Digest);
    assert!(router.on_event(StreamEvent::Message(digest_envelope(9))));
    match router.channel(MessageKind::Digest).await_next(&mut cursor, true) {
        Ok(Envelope::Digest(list)) => assert_eq!(list.list_id, 9),
        _ => panic!("expected the digest"),
    }
}

use zknet_core::relay::{conn_step, ConnAction, ConnEvent, ConnMap, RelayError, WsEvent};

#[test]
fn identifiers_are_fresh_and_never_reused() {
    let mut m = ConnMap::new();
    let a = m.accept();
    let b = m.accept();
    assert_ne!(a, b);
    assert!(m.close(a));
    let c = m.accept();
    assert_ne!(c, a);
    assert_ne!(c, b);
    assert_eq!((a, b, c), (1, 2, 3));
}

#[test]
fn n_connections_yield_n_distinct_tagged_events() {
    let mut m = ConnMap::new();
    let n = 8u32;
    let ids: Vec<u32> = (0..n).map(|_| m.accept()).collect();
    let events: Vec<WsEvent> = ids
        .iter()
        .enumerate()
        .map(
            |(i, &id)| match conn_step(id, ConnEvent::PeerText(format!("msg-{i}"))) {
                ConnAction::EmitRequest(ev) => ev,
                _ => panic!("a text frame must be forwarded as an event"),
            },
        )
        .collect();
    for (i, ev) in events.iter().enumerate() {
        assert_eq!(ev.conn_id, ids[i]);
        assert_eq!(ev.data, format!("msg-{i}"));
    }
    for i in 0..events.len() {
        for j in 0..i {
            assert_ne!(events[i].conn_id, events[j].conn_id);
        }
    }
}

#[test]
fn reply_to_unknown_connection_fails_without_side_effects() {
    let mut m = ConnMap::new();
    let a = m.accept();
    let b = m.accept();
    m.reply(a, "for-a".into()).unwrap();

    assert_eq!(
        m.reply(99, "never-assigned".into()),
        Err(RelayError::UnknownConnection)
    );
    assert!(m.close(b));
    assert_eq!(
        m.reply(b, "already-closed".into()),
        Err(RelayError::UnknownConnection)
    );

    assert!(m.contains(a));
    assert_eq!(m.next_outbound(a).as_deref(), Some("for-a"));
    assert_eq!(m.next_outbound(a), None);
}

#[test]
fn outbound_messages_leave_in_enqueue_order() {
    let mut m = ConnMap::new();
    let a = m.accept();
    m.reply(a, "one".into()).unwrap();
    m.reply(a, "two".into()).unwrap();
    m.reply(a, "three".into()).unwrap();
    assert_eq!(m.next_outbound(a).as_deref(), Some("one"));
    assert_eq!(m.next_outbound(a).as_deref(), Some("two"));
    assert_eq!(m.next_outbound(a).as_deref(), Some("three"));
    assert_eq!(m.next_outbound(a), None);
}

#[test]
fn close_reports_removal_exactly_once() {
    let mut m = ConnMap::new();
    let a = m.accept();
    assert!(m.close(a));
    assert!(!m.close(a));
    assert!(!m.contains(a));
}

#[test]
fn non_text_frames_ignored_and_failures_end_connection() {
    assert!(matches!(conn_step(1, ConnEvent::PeerNonText), ConnAction::Ignore));
    assert!(matches!(
        conn_step(1, ConnEvent::PeerReadFailed),
        ConnAction::EndConnection
    ));
    assert!(matches!(
        conn_step(1, ConnEvent::PeerWriteFailed),
        ConnAction::EndConnection
    ));
    assert!(matches!(
        conn_step(1, ConnEvent::ChannelsClosed),
        ConnAction::EndConnection
    ));
    match conn_step(4, ConnEvent::OutboundMessage("out".into())) {
        ConnAction::SendToPeer(s) => assert_eq!(s, "out"),
        _ => panic!("an outbound message must be written to the peer"),
    }
}

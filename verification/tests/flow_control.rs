use amqp_core::error::{AmqpError, AmqpTransportError, Condition};
use amqp_core::hb::{Heartbeat, HeartbeatAction};
use amqp_core::link::{SendResult, SenderLink};
use amqp_core::protocol::{Attach, Flow, Message, Role, Transfer};
use amqp_core::rcvlink::{LinkPoll, ReceiverAction, ReceiverLink};
use amqp_core::session::{receive_transfer, Session};

fn link_flow(delivery_count: u32, credit: u32, echo: bool) -> Flow {
    Flow {
        next_incoming_id: Some(0),
        incoming_window: 100,
        next_outgoing_id: 0,
        outgoing_window: 100,
        handle: Some(0),
        delivery_count: Some(delivery_count),
        link_credit: Some(credit),
        available: None,
        drain: false,
        echo,
    }
}

fn receiver_attach() -> Attach {
    Attach {
        name: "r".to_string(),
        handle: 0,
        role: Role::Receiver,
        initial_delivery_count: Some(0),
    }
}

fn transfer(n: u8) -> Transfer {
    Transfer {
        handle: 0,
        delivery_id: None,
        settled: false,
        message: Message::new(&[n]),
    }
}

#[test]
fn sends_without_credit_queue_in_order() {
    let mut link = SenderLink::new(0, "s".to_string(), 4);
    for (i, payload) in [&b"a"[..], &b"b"[..], &b"c"[..]].iter().enumerate() {
        match link.send(Message::new(payload)).unwrap() {
            SendResult::Queued(tag) => assert_eq!(tag, i as u32),
            SendResult::Emitted(_) => panic!("no credit was granted"),
        }
    }
    assert_eq!(link.delivery_count(), 0);

    // a Flow granting 2 drains the first two sends, in send order
    let (drained, _) = link.apply_flow(&link_flow(0, 2, false));
    assert_eq!(drained.len(), 2);
    assert!(drained[0].message.payload_eq(&Message::new(&b"a"[..])));
    assert!(drained[1].message.payload_eq(&Message::new(&b"b"[..])));
    assert_eq!(drained[0].remote_handle, 4);
    assert_eq!(link.credit_left(), 0);
    assert_eq!(link.delivery_count(), 2);

    // the rest follows once more credit arrives
    let (drained, _) = link.apply_flow(&link_flow(2, 5, false));
    assert_eq!(drained.len(), 1);
    assert!(drained[0].message.payload_eq(&Message::new(&b"c"[..])));
    assert_eq!(link.credit_left(), 4);
    assert_eq!(link.delivery_count(), 3);
}

#[test]
fn shrinking_flow_floors_credit_at_zero() {
    let mut link = SenderLink::new(0, "s".to_string(), 0);
    let (_, _) = link.apply_flow(&link_flow(0, 10, false));
    assert_eq!(link.credit_left(), 10);
    // the peer revokes more than we hold: credit contracts to zero, never
    // below
    let (drained, _) = link.apply_flow(&link_flow(0, 0, false));
    assert!(drained.is_empty());
    assert_eq!(link.credit_left(), 0);
}

#[test]
fn flow_echo_reports_current_counters() {
    let mut link = SenderLink::new(3, "s".to_string(), 0);
    let (_, reply) = link.apply_flow(&link_flow(0, 7, true));
    let reply = reply.unwrap();
    assert_eq!(reply.handle, Some(3));
    assert_eq!(reply.delivery_count, Some(0));
    assert_eq!(reply.link_credit, Some(7));
    assert!(!reply.echo);
}

#[test]
fn failed_link_refuses_sends_and_fails_pending() {
    let mut link = SenderLink::new(0, "s".to_string(), 0);
    link.send(Message::new(&b"a"[..])).unwrap();
    link.send(Message::new(&b"b"[..])).unwrap();
    let failed = link.set_error(AmqpTransportError::Disconnected);
    assert_eq!(failed, vec![0, 1]);
    match link.send(Message::new(&b"c"[..])) {
        Err(err) => assert_eq!(err, AmqpTransportError::Disconnected),
        Ok(_) => panic!("the link had failed"),
    }
}

#[test]
fn detached_link_drops_pending() {
    let mut link = SenderLink::new(0, "s".to_string(), 0);
    link.send(Message::new(&b"a"[..])).unwrap();
    let failed = link.detached(AmqpTransportError::LinkDetached(None));
    assert_eq!(failed, vec![0]);
}

/// Receiver over-credit: one credit, two back-to-back transfers; the first
/// is queued, the second detaches the link with transfer-limit-exceeded,
/// and the stream ends after the queued transfer is consumed.
#[test]
fn receiver_over_credit_detaches() {
    let mut r = ReceiverLink::new(0, receiver_attach());
    let flow = r.set_link_credit(1);
    assert_eq!(flow.handle, Some(0));
    assert_eq!(flow.link_credit, Some(1));
    assert_eq!(flow.delivery_count, Some(0));

    match r.handle_transfer(transfer(1)) {
        ReceiverAction::Queued(wake) => assert!(wake),
        ReceiverAction::Detached(_) => panic!("credit was granted"),
    }
    match r.handle_transfer(transfer(2)) {
        ReceiverAction::Detached(d) => {
            assert_eq!(d.handle, 0);
            assert!(d.closed);
            assert_eq!(d.error, Some(AmqpError::new(Condition::TransferLimitExceeded)));
        },
        ReceiverAction::Queued(_) => panic!("credit was exhausted"),
    }
    match r.poll() {
        LinkPoll::Item(t) => assert!(t.message.payload_eq(&Message::new(&[1]))),
        _ => panic!("one transfer was queued"),
    }
    assert!(matches!(r.poll(), LinkPoll::Closed));
}

#[test]
fn receiver_admission_counts() {
    let mut r = ReceiverLink::new(0, receiver_attach());
    r.set_link_credit(2);
    assert_eq!(r.credit(), 2);
    assert!(matches!(r.handle_transfer(transfer(1)), ReceiverAction::Queued(true)));
    assert!(matches!(r.handle_transfer(transfer(2)), ReceiverAction::Queued(false)));
    assert_eq!(r.credit(), 0);
    // granting again reopens admission
    let flow = r.set_link_credit(3);
    assert_eq!(flow.link_credit, Some(3));
    assert_eq!(flow.delivery_count, Some(2));
    assert!(matches!(r.handle_transfer(transfer(3)), ReceiverAction::Queued(false)));
}

#[test]
fn receiver_poll_parks_until_closed() {
    let mut r = ReceiverLink::new(7, receiver_attach());
    assert!(matches!(r.poll(), LinkPoll::Pending));
    let d = r.close(None).unwrap();
    assert_eq!(d.handle, 7);
    assert!(d.closed);
    assert_eq!(d.error, None);
    assert!(matches!(r.poll(), LinkPoll::Closed));
    // closing twice emits nothing more
    assert!(r.close(None).is_none());
}

#[test]
fn receiver_close_with_error_carries_it() {
    let mut r = ReceiverLink::new(1, receiver_attach());
    let d = r.close_with_error(AmqpError::new(Condition::DetachForced)).unwrap();
    assert_eq!(d.error, Some(AmqpError::new(Condition::DetachForced)));
    let disp = amqp_core::protocol::Disposition {
        role: Role::Receiver,
        first: 0,
        last: None,
        settled: true,
        state: Some(amqp_core::protocol::Outcome::Accepted),
    };
    assert_eq!(r.send_disposition(disp), disp);
}

#[test]
fn transfer_ingress_accounts_window_and_credit() {
    let mut session = Session::new(0, 7, 100);
    let mut link = ReceiverLink::new(0, receiver_attach());
    link.set_link_credit(1);

    let (flow, action) = receive_transfer(&mut session, &mut link, transfer(1)).unwrap();
    assert!(flow.is_none());
    assert!(matches!(action, ReceiverAction::Queued(true)));

    // the next transfer overruns the link credit
    let mut link2 = ReceiverLink::new(1, receiver_attach());
    let (_, action) = receive_transfer(&mut session, &mut link2, transfer(2)).unwrap();
    assert!(matches!(action, ReceiverAction::Detached(_)));

    // a session whose window is spent refuses the frame outright
    let mut tight = Session::new(1, 7, 0);
    let mut link3 = ReceiverLink::new(2, receiver_attach());
    match receive_transfer(&mut tight, &mut link3, transfer(3)) {
        Err(e) => assert_eq!(e.condition, Condition::WindowViolation),
        Ok(_) => panic!("the window was closed"),
    }
}

#[test]
fn receiver_open_echoes_attach() {
    let r = ReceiverLink::new(4, Attach {
        name: "queue-a".to_string(),
        handle: 9,
        role: Role::Sender,
        initial_delivery_count: Some(3),
    });
    let reply = r.open();
    assert_eq!(reply.name, "queue-a");
    assert_eq!(reply.handle, 4);
    assert!(matches!(reply.role, Role::Receiver));
    assert_eq!(reply.initial_delivery_count, Some(3));
}

#[test]
fn receiver_set_flow_grants_opening_credit() {
    let mut r = ReceiverLink::new(0, receiver_attach());
    let flow = r.set_flow();
    assert_eq!(flow.link_credit, Some(5000));
    assert_eq!(flow.handle, Some(0));
    assert_eq!(r.credit(), 5000);
}

#[test]
fn heartbeat_deadlines() {
    let mut hb = Heartbeat::new(1000, Some(500), 0);
    assert_eq!(hb.next_expire(), 500);
    assert_eq!(hb.poll(499), HeartbeatAction::Idle);
    assert_eq!(hb.poll(500), HeartbeatAction::Heartbeat);
    assert_eq!(hb.next_expire(), 1000);
    assert_eq!(hb.poll(999), HeartbeatAction::Idle);
    assert_eq!(hb.poll(1000), HeartbeatAction::Close);
}

#[test]
fn heartbeat_traffic_resets_clocks() {
    let mut hb = Heartbeat::new(1000, Some(500), 0);
    hb.update_local(true, 400);
    hb.update_remote(true, 300);
    assert_eq!(hb.next_expire(), 800);
    assert_eq!(hb.poll(799), HeartbeatAction::Idle);
    assert_eq!(hb.poll(800), HeartbeatAction::Heartbeat);
    assert_eq!(hb.poll(1400), HeartbeatAction::Close);
}

#[test]
fn heartbeat_without_remote_period_never_beats() {
    let mut hb = Heartbeat::new(1000, None, 0);
    assert_eq!(hb.next_expire(), 1000);
    assert_eq!(hb.poll(999), HeartbeatAction::Idle);
    assert_eq!(hb.poll(1000), HeartbeatAction::Close);
}

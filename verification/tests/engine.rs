use amqp_core::connection::{ChannelRoute, Connection, ConnectionState};
use amqp_core::error::{AmqpError, AmqpTransportError, Condition};
use amqp_core::handshake::{handshake, Handshake, HandshakeError};
use amqp_core::hb::HeartbeatAction;
use amqp_core::link::{SendResult, SenderLink, TransferOut};
use amqp_core::connection::open_connection;
use amqp_core::protocol::{parse_protocol_header, protocol_header, Attach, Begin, Close,
    Configuration, Flow, Message, Open, Outcome, Performative, ProtocolId, Role};
use amqp_core::server::{Server, ServiceFactory};
use amqp_core::session::{end_sessions, Session, UnsettledDelivery, SESSION_WINDOW};

fn server_config() -> Configuration {
    Configuration {
        max_frame_size: 65536,
        channel_max: 100,
        idle_timeout: None,
        container_id: "server".to_string(),
        hostname: None,
    }
}

fn link_flow(delivery_count: u32, credit: u32) -> Flow {
    Flow {
        next_incoming_id: Some(0),
        incoming_window: 100,
        next_outgoing_id: 0,
        outgoing_window: 100,
        handle: Some(0),
        delivery_count: Some(delivery_count),
        link_credit: Some(credit),
        available: None,
        drain: false,
        echo: false,
    }
}

fn begun_session() -> Session {
    let mut s = Session::new(0, 7, SESSION_WINDOW);
    let begin = Begin {
        remote_channel: None,
        next_outgoing_id: 0,
        incoming_window: 100,
        outgoing_window: 100,
        handle_max: 7,
    };
    s.on_begin(&begin, 0);
    s
}

/// Handshake: peer header, Open with container-id "c1" and idle-time-out
/// 30000; engine replies with the same header and its own Open; both reach
/// Opened.
#[test]
fn handshake_reaches_opened() {
    let mut conn = Connection::new(server_config());
    let wire = [0x41u8, 0x4d, 0x51, 0x50, 0x00, 0x01, 0x00, 0x00];
    let got = parse_protocol_header(&wire);
    assert_eq!(got, Some(ProtocolId::Amqp));
    conn.on_peer_header(got).unwrap();
    let reply = conn.send_header();
    assert_eq!(reply, wire);
    let open = Open {
        container_id: "c1".to_string(),
        hostname: None,
        max_frame_size: 65536,
        channel_max: 100,
        idle_timeout: Some(30000),
    };
    conn.on_peer_open(&open);
    assert_eq!(conn.state(), ConnectionState::OpenRcvd);
    let local_open = conn.send_open();
    assert_eq!(local_open.container_id, "server");
    assert_eq!(conn.state(), ConnectionState::Opened);
    let remote = conn.remote_config().as_ref().unwrap();
    assert_eq!(remote.container_id, "c1");
    assert_eq!(remote.idle_timeout, Some(30000));
}

#[test]
fn handshake_rejects_wrong_header() {
    let mut conn = Connection::new(server_config());
    let got = parse_protocol_header(&[0x41, 0x4d, 0x51, 0x50, 0x03, 0x01, 0x00, 0x00]);
    assert_eq!(got, Some(ProtocolId::AmqpTls));
    let err = conn.on_peer_header(got).unwrap_err();
    assert_eq!(err, HandshakeError::UnexpectedProtocol {
        expected: ProtocolId::Amqp,
        got: ProtocolId::AmqpTls,
    });
    assert_eq!(conn.state(), ConnectionState::Ended);
}

#[test]
fn client_handshake_order() {
    let mut conn = Connection::new(server_config());
    let hdr = conn.send_header();
    assert_eq!(hdr, protocol_header(ProtocolId::Amqp));
    assert_eq!(conn.state(), ConnectionState::HdrSent);
    conn.on_peer_header(Some(ProtocolId::Amqp)).unwrap();
    let _open = conn.send_open();
    assert_eq!(conn.state(), ConnectionState::OpenSent);
    conn.on_peer_open(&Open {
        container_id: "peer".to_string(),
        hostname: None,
        max_frame_size: 512,
        channel_max: 1,
        idle_timeout: None,
    });
    assert_eq!(conn.state(), ConnectionState::Opened);
}

/// Credit starvation: peer grants link-credit 2; three sends emit exactly
/// two Transfers with delivery ids 0 and 1; after the peer's Flow with
/// delivery-count 2 and link-credit 1 the third goes out with id 2.
#[test]
fn credit_starvation_defers_third_send() {
    let mut link = SenderLink::new(0, "s".to_string(), 0);
    let mut session = begun_session();

    let (drained, reply) = link.apply_flow(&link_flow(0, 2));
    assert!(drained.is_empty());
    assert!(reply.is_none());
    assert_eq!(link.credit_left(), 2);

    let t1 = match link.send(Message::new(&b"m1"[..])).unwrap() {
        SendResult::Emitted(t) => t,
        SendResult::Queued(_) => panic!("credit was available"),
    };
    let f1 = session.send_transfer(t1, false).unwrap();
    assert_eq!(f1.delivery_id, Some(0));

    let t2 = match link.send(Message::new(&b"m2"[..])).unwrap() {
        SendResult::Emitted(t) => t,
        SendResult::Queued(_) => panic!("credit was available"),
    };
    let f2 = session.send_transfer(t2, false).unwrap();
    assert_eq!(f2.delivery_id, Some(1));

    let tag3 = match link.send(Message::new(&b"m3"[..])).unwrap() {
        SendResult::Queued(tag) => tag,
        SendResult::Emitted(_) => panic!("credit was exhausted"),
    };
    assert_eq!(tag3, 2);
    assert_eq!(link.credit_left(), 0);
    assert_eq!(link.delivery_count(), 2);

    let (drained, _) = link.apply_flow(&link_flow(2, 1));
    assert_eq!(drained.len(), 1);
    assert_eq!(drained[0].tag, 2);
    assert!(drained[0].message.payload_eq(&Message::new(&b"m3"[..])));
    let mut f3 = None;
    for t in drained {
        f3 = session.send_transfer(t, false);
    }
    assert_eq!(f3.unwrap().delivery_id, Some(2));
    assert_eq!(link.delivery_count(), 3);

    // Disposition range: first=0 last=2 state=Accepted settles all three
    // promises in id order.
    let resolved = session.handle_disposition(0, Some(2));
    let outcomes: Vec<(u32, Outcome)> = resolved
        .iter()
        .map(|e| (e.delivery_id, Outcome::Accepted))
        .collect();
    assert_eq!(outcomes, vec![
        (0, Outcome::Accepted),
        (1, Outcome::Accepted),
        (2, Outcome::Accepted),
    ]);
    assert_eq!(resolved.iter().map(|e| e.tag).collect::<Vec<u32>>(), vec![0, 1, 2]);
    // a second disposition over the same range finds nothing: each promise
    // resolved exactly once
    assert!(session.handle_disposition(0, Some(2)).is_empty());
}

/// Idle close: remote idle-time-out 1000 ms; a heartbeat goes out by 500 ms,
/// and 1100 ms of inbound silence closes the connection with Timeout.
#[test]
fn idle_timeout_closes_connection() {
    let mut conn = Connection::new(server_config());
    conn.on_peer_header(Some(ProtocolId::Amqp)).unwrap();
    conn.on_peer_open(&Open {
        container_id: "c1".to_string(),
        hostname: None,
        max_frame_size: 65536,
        channel_max: 100,
        idle_timeout: Some(1000),
    });
    conn.send_open();
    conn.start_heartbeat(0);

    assert_eq!(conn.on_tick(499), HeartbeatAction::Idle);
    assert_eq!(conn.on_tick(500), HeartbeatAction::Heartbeat);
    assert_eq!(conn.on_tick(999), HeartbeatAction::Idle);
    assert_eq!(conn.on_tick(1100), HeartbeatAction::Close);

    let err = conn.on_idle_timeout();
    assert_eq!(err, AmqpTransportError::Timeout);
    assert_eq!(conn.state(), ConnectionState::Discarding);

    // every outstanding promise resolves once the sessions are torn down
    let mut session = begun_session();
    session.send_transfer(TransferOut {
        link: 0,
        remote_handle: 0,
        tag: 0,
        message: Message::new(&b"m"[..]),
    }, false);
    let mut sessions = vec![session];
    let failed = end_sessions(&mut sessions);
    let outcomes: Vec<(u32, AmqpTransportError)> = failed
        .iter()
        .map(|e| (e.tag, AmqpTransportError::Disconnected))
        .collect();
    assert_eq!(outcomes, vec![(0, AmqpTransportError::Disconnected)]);
}

/// Peer close with error: every session ends and every unsettled promise
/// resolves with a Protocol error carrying the peer's condition.
#[test]
fn peer_close_with_error_fails_promises() {
    let mut conn = Connection::new(server_config());
    conn.on_peer_header(Some(ProtocolId::Amqp)).unwrap();
    conn.on_peer_open(&Open {
        container_id: "c1".to_string(),
        hostname: None,
        max_frame_size: 65536,
        channel_max: 100,
        idle_timeout: None,
    });
    conn.send_open();

    let mut s1 = begun_session();
    s1.send_transfer(TransferOut {
        link: 0,
        remote_handle: 0,
        tag: 0,
        message: Message::new(&b"a"[..]),
    }, false);
    let mut s2 = begun_session();
    s2.send_transfer(TransferOut {
        link: 1,
        remote_handle: 1,
        tag: 0,
        message: Message::new(&b"b"[..]),
    }, false);

    let close = Close { error: Some(AmqpError::new(Condition::FramingError)) };
    let err = conn.on_peer_close(&close);
    assert_eq!(err, AmqpTransportError::Protocol(Some(AmqpError::new(
        Condition::FramingError))));
    assert_eq!(conn.state(), ConnectionState::CloseRcvd);

    let mut sessions = vec![s1, s2];
    let failed = end_sessions(&mut sessions);
    assert_eq!(failed.len(), 2);
    for e in &failed {
        let resolution = (e.tag, err);
        assert_eq!(resolution.1, AmqpTransportError::Protocol(Some(AmqpError::new(
            Condition::FramingError))));
    }
    let reply = conn.send_close(None);
    assert!(reply.error.is_none());
    assert_eq!(conn.state(), ConnectionState::Ended);
}

/// Handles: attaching three links and detaching the first yields handle 0
/// on the next attach.
#[test]
fn lowest_free_handle_allocation() {
    let mut s = Session::new(0, 7, SESSION_WINDOW);
    assert_eq!(s.alloc_handle(), Some(0));
    assert_eq!(s.alloc_handle(), Some(1));
    assert_eq!(s.alloc_handle(), Some(2));
    s.free_handle(0);
    assert_eq!(s.alloc_handle(), Some(0));
    assert_eq!(s.alloc_handle(), Some(3));
}

#[test]
fn handle_table_respects_handle_max() {
    let mut s = Session::new(0, 1, SESSION_WINDOW);
    assert_eq!(s.alloc_handle(), Some(0));
    assert_eq!(s.alloc_handle(), Some(1));
    assert_eq!(s.alloc_handle(), None);
}

#[test]
fn channel_demultiplexing() {
    let mut conn = Connection::new(server_config());
    assert_eq!(conn.route_channel(5, true), ChannelRoute::FreshBegin);
    assert_eq!(conn.route_channel(5, false), ChannelRoute::Refused);
    conn.register_remote_channel(5, 0);
    assert_eq!(conn.route_channel(5, false), ChannelRoute::Known(0));
    assert_eq!(conn.route_channel(4, false), ChannelRoute::Refused);
    conn.unregister_remote_channel(5);
    assert_eq!(conn.route_channel(5, true), ChannelRoute::FreshBegin);
    assert_eq!(amqp_core::connection::unknown_channel_error().condition,
        Condition::NotAllowed);
}

#[test]
fn session_channels_counted_out() {
    let mut conn = Connection::new(server_config());
    conn.on_peer_header(Some(ProtocolId::Amqp)).unwrap();
    conn.on_peer_open(&Open {
        container_id: "c1".to_string(),
        hostname: None,
        max_frame_size: 65536,
        channel_max: 1,
        idle_timeout: None,
    });
    conn.send_open();
    assert_eq!(conn.open_session(), Some(0));
    assert_eq!(conn.open_session(), Some(1));
    assert_eq!(conn.open_session(), None);
}

#[test]
fn incoming_window_violation_and_replenish() {
    let mut tight = Session::new(0, 7, 0);
    let err = tight.on_inbound_transfer().unwrap_err();
    assert_eq!(err.condition, Condition::WindowViolation);

    let mut s = Session::new(0, 7, 33);
    assert!(s.on_inbound_transfer().unwrap().is_none());
    let flow = s.on_inbound_transfer().unwrap().unwrap();
    assert_eq!(flow.incoming_window, SESSION_WINDOW);
    assert!(flow.handle.is_none());
}

#[test]
fn deferred_transfers_drain_on_flow() {
    let mut s = Session::new(0, 7, SESSION_WINDOW);
    // no Begin yet: the peer's incoming window is still zero
    let out = s.send_transfer(TransferOut {
        link: 0,
        remote_handle: 0,
        tag: 0,
        message: Message::new(&b"x"[..]),
    }, false);
    assert!(out.is_none());
    let flow = Flow {
        next_incoming_id: None,
        incoming_window: 5,
        next_outgoing_id: 9,
        outgoing_window: 100,
        handle: None,
        delivery_count: None,
        link_credit: None,
        available: None,
        drain: false,
        echo: false,
    };
    let (transfers, route) = s.handle_flow(&flow);
    assert!(route.is_none());
    assert_eq!(transfers.len(), 1);
    assert_eq!(transfers[0].delivery_id, Some(0));
    // the drained transfer was unsettled: it now awaits its disposition
    let resolved = s.handle_disposition(0, None);
    assert_eq!(resolved, vec![UnsettledDelivery { delivery_id: 0, link: 0, tag: 0 }]);
}

#[test]
fn link_detach_fails_only_its_deliveries() {
    let mut s = begun_session();
    s.send_transfer(TransferOut {
        link: 0,
        remote_handle: 0,
        tag: 0,
        message: Message::new(&b"a"[..]),
    }, false);
    s.send_transfer(TransferOut {
        link: 1,
        remote_handle: 1,
        tag: 0,
        message: Message::new(&b"b"[..]),
    }, false);
    s.send_transfer(TransferOut {
        link: 0,
        remote_handle: 0,
        tag: 1,
        message: Message::new(&b"c"[..]),
    }, false);
    let failed = s.fail_link(0);
    assert_eq!(failed.iter().map(|e| (e.delivery_id, e.tag)).collect::<Vec<(u32, u32)>>(),
        vec![(0, 0), (2, 1)]);
    let rest = s.drain_unsettled();
    assert_eq!(rest, vec![UnsettledDelivery { delivery_id: 1, link: 1, tag: 0 }]);
}

#[test]
fn pre_settled_transfers_stay_out_of_unsettled_map() {
    let mut s = begun_session();
    let t = s.send_transfer(TransferOut {
        link: 0,
        remote_handle: 0,
        tag: 0,
        message: Message::new(&b"a"[..]),
    }, true).unwrap();
    assert!(t.settled);
    assert!(s.drain_unsettled().is_empty());
}

#[test]
fn protocol_header_bytes() {
    assert_eq!(protocol_header(ProtocolId::Amqp), [0x41, 0x4d, 0x51, 0x50, 0, 1, 0, 0]);
    assert_eq!(protocol_header(ProtocolId::AmqpSasl), [0x41, 0x4d, 0x51, 0x50, 2, 1, 0, 0]);
    assert_eq!(protocol_header(ProtocolId::AmqpTls), [0x41, 0x4d, 0x51, 0x50, 3, 1, 0, 0]);
    assert_eq!(parse_protocol_header(&[0x41, 0x4d, 0x51, 0x50, 2, 1, 0, 0]),
        Some(ProtocolId::AmqpSasl));
    assert_eq!(parse_protocol_header(&[0x41, 0x4d, 0x51, 0x50, 1, 1, 0, 0]), None);
    assert_eq!(parse_protocol_header(&[0x42, 0x4d, 0x51, 0x50, 0, 1, 0, 0]), None);
    assert_eq!(parse_protocol_header(&[0x41, 0x4d, 0x51]), None);
}

#[test]
fn acceptor_decisions() {
    let plain = handshake();
    assert_eq!(plain.on_protocol_id(Some(ProtocolId::Amqp)), Ok(ProtocolId::Amqp));
    assert_eq!(plain.on_protocol_id(None), Err(HandshakeError::Disconnected));
    assert_eq!(plain.on_protocol_id(Some(ProtocolId::AmqpSasl)),
        Err(HandshakeError::UnexpectedProtocol {
            expected: ProtocolId::Amqp,
            got: ProtocolId::AmqpSasl,
        }));
    assert_eq!(plain.on_protocol_id(Some(ProtocolId::AmqpTls)),
        Err(HandshakeError::UnexpectedProtocol {
            expected: ProtocolId::Amqp,
            got: ProtocolId::AmqpTls,
        }));
    let with_sasl = Handshake::new().sasl();
    assert_eq!(with_sasl.on_protocol_id(Some(ProtocolId::AmqpSasl)),
        Ok(ProtocolId::AmqpSasl));
    assert_eq!(Handshake::expect_amqp(ProtocolId::Amqp), Ok(ProtocolId::Amqp));
    assert_eq!(Handshake::expect_amqp(ProtocolId::AmqpTls),
        Err(HandshakeError::UnexpectedProtocol {
            expected: ProtocolId::Amqp,
            got: ProtocolId::AmqpTls,
        }));
}

#[test]
fn service_factory_builders() {
    assert_eq!(ServiceFactory::service().on_protocol_id(Some(ProtocolId::AmqpSasl)),
        Err(HandshakeError::UnexpectedProtocol {
            expected: ProtocolId::Amqp,
            got: ProtocolId::AmqpSasl,
        }));
    let acceptor = ServiceFactory::state().service();
    assert_eq!(acceptor.on_protocol_id(Some(ProtocolId::Amqp)), Ok(ProtocolId::Amqp));
    let acceptor = ServiceFactory::state().sasl().service();
    assert_eq!(acceptor.on_protocol_id(Some(ProtocolId::AmqpSasl)),
        Ok(ProtocolId::AmqpSasl));
    let acceptor = ServiceFactory::sasl().service();
    assert_eq!(acceptor.on_protocol_id(Some(ProtocolId::AmqpSasl)),
        Ok(ProtocolId::AmqpSasl));
}

#[test]
fn open_connection_expects_open_first() {
    let mut conn = Connection::new(server_config());
    conn.on_peer_header(Some(ProtocolId::Amqp)).unwrap();
    let open = Open {
        container_id: "c1".to_string(),
        hostname: None,
        max_frame_size: 65536,
        channel_max: 100,
        idle_timeout: None,
    };
    let reply = open_connection(&mut conn, Some(Performative::Open(open))).unwrap();
    assert_eq!(reply.container_id, "server");
    assert_eq!(conn.state(), ConnectionState::Opened);

    let mut conn2 = Connection::new(server_config());
    conn2.on_peer_header(Some(ProtocolId::Amqp)).unwrap();
    match open_connection(&mut conn2, Some(Performative::Empty)) {
        Err(e) => assert_eq!(e, HandshakeError::UnexpectedFrame),
        Ok(_) => panic!("only Open is legal here"),
    }
    assert_eq!(conn2.state(), ConnectionState::Ended);

    let mut conn3 = Connection::new(server_config());
    conn3.on_peer_header(Some(ProtocolId::Amqp)).unwrap();
    match open_connection(&mut conn3, None) {
        Err(e) => assert_eq!(e, HandshakeError::Disconnected),
        Ok(_) => panic!("the stream ended"),
    }
}

#[test]
fn server_factory_dispatch() {
    let server = Server::new(server_config(), handshake().sasl());
    let svc = server.new_service();
    assert!(svc.poll_ready());
    assert_eq!(svc.call(Some(ProtocolId::Amqp)), Ok(ProtocolId::Amqp));
    assert_eq!(svc.call(Some(ProtocolId::AmqpSasl)), Ok(ProtocolId::AmqpSasl));
    assert_eq!(svc.call(None), Err(HandshakeError::Disconnected));
    let conn = svc.connection();
    assert_eq!(conn.state(), ConnectionState::Start);
    assert_eq!(conn.local_config().container_id, "server");
}

#[test]
fn attach_dispatch_flips_role_and_maps_handles() {
    let mut s = Session::new(0, 7, SESSION_WINDOW);
    let peer_attach = Attach {
        name: "q".to_string(),
        handle: 5,
        role: Role::Sender,
        initial_delivery_count: Some(0),
    };
    let (h, role) = s.on_attach(&peer_attach).unwrap();
    assert_eq!(h, 0);
    assert!(matches!(role, Role::Receiver));
    assert_eq!(s.route_handle(5), Some(0));
    assert_eq!(s.route_handle(4), None);

    let second = Attach {
        name: "q2".to_string(),
        handle: 3,
        role: Role::Receiver,
        initial_delivery_count: None,
    };
    let (h2, role2) = s.on_attach(&second).unwrap();
    assert_eq!(h2, 1);
    assert!(matches!(role2, Role::Sender));

    s.free_handle(0);
    s.unregister_remote_handle(5);
    assert_eq!(s.route_handle(5), None);
    let (h3, _) = s.on_attach(&peer_attach).unwrap();
    assert_eq!(h3, 0);
}

#[test]
fn default_configuration() {
    let c: Configuration = Default::default();
    assert_eq!(c.max_frame_size, 65536);
    assert_eq!(c.channel_max, u16::MAX);
    assert_eq!(c.idle_timeout, None);
    assert_eq!(c.container_id, "");
    assert_eq!(c.hostname, None);
    let with_timeout = Configuration { idle_timeout: Some(9), ..Default::default() };
    assert_eq!(with_timeout.heartbeat_period(), Some(4));
    assert_eq!(c.heartbeat_period(), None);
}

#[test]
fn condition_symbols() {
    assert_eq!(Condition::InternalError.symbol(), "amqp:internal-error");
    assert_eq!(Condition::NotAllowed.symbol(), "amqp:not-allowed");
    assert_eq!(Condition::FramingError.symbol(), "amqp:connection:framing-error");
    assert_eq!(Condition::WindowViolation.symbol(), "amqp:session:window-violation");
    assert_eq!(Condition::HandleInUse.symbol(), "amqp:session:handle-in-use");
    assert_eq!(Condition::UnattachedHandle.symbol(), "amqp:session:unattached-handle");
    assert_eq!(Condition::TransferLimitExceeded.symbol(),
        "amqp:link:transfer-limit-exceeded");
    assert_eq!(Condition::DetachForced.symbol(), "amqp:link:detach-forced");
    assert_eq!(Condition::MessageSizeExceeded.symbol(),
        "amqp:link:message-size-exceeded");
}

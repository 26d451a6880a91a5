use vulcan_relay::cmdline::{Opts, OptsError, WorkerLogTag};
use vulcan_relay::codecs::{media_codecs, MimeType, ParameterValue, RtcpFeedback};
use vulcan_relay::control_schema::{
    MutationRoot as ControlMutation, QueryRoot as ControlQuery, RegisterRoomResult,
    RegisterSessionResult, UnregisterRoomResult, UnregisterSessionResult,
};
use vulcan_relay::holdings::{Lifecycle, ResourceTable};
use vulcan_relay::keyed::KeyedTable;
use vulcan_relay::protocol::{deliver, ClientMessage, ClientPayload, Delivery, ServerMessage};
use vulcan_relay::registry::IdentityRegistry;
use vulcan_relay::relay_server::{
    ForeignRoomId, RegisterRoomError, RegisterSessionError, RelayServer, SessionOptions,
    SessionToken, UnregisterRoomError, UnregisterSessionError,
};
use vulcan_relay::relay_server::ForeignSessionId;
use vulcan_relay::room::{Message, Reception, Room, RoomId, RouterId, Step};
use vulcan_relay::session::{
    typed, ConsumerId, DataConsumerId, DataProducerId, MediaKind, ProducerId, Resource,
    RtpCapabilities, Session, SessionError, SessionEvent, SessionId, Stats, StatsQuery,
    StatsReply, TransportId, TransportListenIp,
};
use vulcan_relay::signal_schema::SignalError;

fn listen_ip() -> TransportListenIp {
    TransportListenIp {
        ip: "10.0.0.1".into(),
        announced_ip: None,
    }
}

fn session() -> Session {
    Session::new(SessionId(1), RoomId(2), SessionOptions::Vulcast, listen_ip())
}

#[test]
fn resource_table_keeps_one_entry_per_id() {
    let mut table = ResourceTable::new();
    assert_eq!(table.count_open(), 0);
    assert!(table.ids().is_empty());
    table.put(7, Lifecycle::Created);
    table.put(8, Lifecycle::Created);
    table.put(7, Lifecycle::Connected);
    assert_eq!(table.ids(), vec![7, 8]);
    assert_eq!(table.get(7), Some(Lifecycle::Connected));
    assert_eq!(table.get(8), Some(Lifecycle::Created));
    assert_eq!(table.get(9), None);
    assert!(table.contains(8));
    assert!(!table.contains(9));
    assert_eq!(table.count_open(), 2);
    table.put(8, Lifecycle::Closed);
    assert_eq!(table.count_open(), 1);
    assert_eq!(table.open(), vec![7]);
    assert_eq!(table.ids(), vec![7, 8]);
    assert!(table.remove(7));
    assert!(!table.remove(7));
    assert_eq!(table.ids(), vec![8]);
    assert_eq!(table.count_open(), 0);
    assert!(table.open().is_empty());
}

#[test]
fn keyed_table_finds_and_takes() {
    let mut table: KeyedTable<u32> = KeyedTable::new();
    assert_eq!(table.len(), 0);
    assert_eq!(table.find(&"a".to_string()), None);
    table.insert_new("a".into(), 1);
    table.insert_new("b".into(), 2);
    table.insert_new("c".into(), 3);
    assert_eq!(table.len(), 3);
    assert_eq!(table.find(&"b".to_string()), Some(1));
    assert_eq!(table.key_at(1), "b");
    assert_eq!(*table.value_at(1), 2);
    assert_eq!(table.take_at(0), ("a".to_string(), 1));
    assert_eq!(table.len(), 2);
    assert_eq!(table.find(&"a".to_string()), None);
    assert_eq!(table.find(&"b".to_string()), Some(0));
    assert_eq!(table.find(&"c".to_string()), Some(1));
}

#[test]
fn session_starts_empty() {
    let session = session();
    assert_eq!(session.id(), SessionId(1));
    assert_eq!(session.get_room(), RoomId(2));
    assert_eq!(session.get_session_options(), SessionOptions::Vulcast);
    assert_eq!(session.downgrade().id, SessionId(1));
    assert!(session.get_rtp_capabilities().is_none());
    for resource in [
        Resource::Consumer,
        Resource::Producer,
        Resource::DataConsumer,
        Resource::DataProducer,
        Resource::WebrtcTransport,
        Resource::PlainTransport,
    ] {
        assert_eq!(session.get_resource_count(&resource), 0);
        assert!(session.held(resource).is_empty());
        assert!(session.held_open(resource).is_empty());
    }
    assert!(session.get_stats().is_empty());
    let request = session.create_webrtc_transport();
    assert!(request.enable_sctp);
    assert_eq!(request.listen_ip.ip, "10.0.0.1");
    assert_eq!(request.listen_ip.announced_ip, None);
    let request = session.create_plain_transport();
    assert!(request.comedia);
    assert_eq!(request.listen_ip.ip, "10.0.0.1");
}

#[test]
fn session_decides_each_operation() {
    let mut session = session();
    assert_eq!(
        session.connect_webrtc_transport(TransportId(1)),
        Err(SessionError::TransportNotFound)
    );
    assert_eq!(
        session.consume(TransportId(1), ProducerId(1)).unwrap_err(),
        SessionError::TransportNotFound
    );
    assert_eq!(
        session.consumer_resume(ConsumerId(1)),
        Err(SessionError::ConsumerNotFound)
    );
    assert_eq!(
        session.produce(TransportId(1), MediaKind::Audio),
        Err(SessionError::TransportNotFound)
    );
    assert_eq!(
        session.produce_plain(TransportId(1), MediaKind::Audio),
        Err(SessionError::TransportNotFound)
    );
    assert_eq!(
        session.consume_data(TransportId(1), DataProducerId(1)),
        Err(SessionError::TransportNotFound)
    );
    assert_eq!(
        session.produce_data(TransportId(1)),
        Err(SessionError::TransportNotFound)
    );

    session.add_webrtc_transport(TransportId(1));
    session.add_plain_transport(TransportId(2));
    assert_eq!(session.connect_webrtc_transport(TransportId(1)), Ok(TransportId(1)));
    assert_eq!(
        session.connect_webrtc_transport(TransportId(2)),
        Err(SessionError::TransportNotFound)
    );
    assert_eq!(
        session.consume(TransportId(1), ProducerId(1)).unwrap_err(),
        SessionError::MissingRtpCapabilities
    );
    session.set_rtp_capabilities(RtpCapabilities("caps".into()));
    let request = session.consume(TransportId(1), ProducerId(9)).unwrap();
    assert!(request.paused);
    assert_eq!(request.transport_id, TransportId(1));
    assert_eq!(request.producer_id, ProducerId(9));
    assert_eq!(request.rtp_capabilities.0, "caps");
    assert_eq!(
        session.produce(TransportId(1), MediaKind::Video).unwrap().kind,
        MediaKind::Video
    );
    assert_eq!(
        session.produce_plain(TransportId(2), MediaKind::Audio).unwrap().transport_id,
        TransportId(2)
    );
    assert_eq!(
        session.produce_plain(TransportId(1), MediaKind::Audio),
        Err(SessionError::TransportNotFound)
    );
    assert_eq!(
        session
            .consume_data(TransportId(1), DataProducerId(4))
            .unwrap()
            .data_producer_id,
        DataProducerId(4)
    );
    assert_eq!(
        session.produce_data(TransportId(1)).unwrap().transport_id,
        TransportId(1)
    );

    session.add_consumer(ConsumerId(5));
    assert_eq!(session.consumer_resume(ConsumerId(5)), Ok(ConsumerId(5)));
    assert_eq!(session.get_consumer(ConsumerId(5)), Some(Lifecycle::Created));
    assert_eq!(session.get_consumer(ConsumerId(6)), None);
    assert_eq!(
        session.add_producer(ProducerId(6)),
        Message::ProducerAvailable(ProducerId(6))
    );
    assert_eq!(
        session.add_data_producer(DataProducerId(7)),
        Message::DataProducerAvailable(DataProducerId(7))
    );
    session.add_data_consumer(DataConsumerId(8));

    assert_eq!(session.get_webrtc_transports(), vec![TransportId(1)]);
    assert_eq!(session.get_plain_transports(), vec![TransportId(2)]);
    assert_eq!(session.get_consumers(), vec![ConsumerId(5)]);
    assert_eq!(session.get_producers(), vec![ProducerId(6)]);
    assert_eq!(session.get_data_producers(), vec![DataProducerId(7)]);
    assert_eq!(session.get_data_consumers(), vec![DataConsumerId(8)]);
    assert_eq!(typed::<ProducerId>(vec![3, 1, 2]), vec![ProducerId(3), ProducerId(1), ProducerId(2)]);

    assert_eq!(
        session.get_stats(),
        vec![
            StatsQuery { resource: Resource::Consumer, id: 5 },
            StatsQuery { resource: Resource::Producer, id: 6 },
            StatsQuery { resource: Resource::DataConsumer, id: 8 },
            StatsQuery { resource: Resource::DataProducer, id: 7 },
            StatsQuery { resource: Resource::WebrtcTransport, id: 1 },
            StatsQuery { resource: Resource::PlainTransport, id: 2 },
        ]
    );
}

#[test]
fn session_records_events() {
    let mut session = session();
    assert_eq!(
        session.record(SessionEvent::RtpCapabilities(RtpCapabilities("a".into()))),
        None
    );
    assert_eq!(session.get_rtp_capabilities().unwrap().0, "a");
    assert_eq!(session.record(SessionEvent::WebRtcTransportCreated(TransportId(1))), None);
    assert_eq!(session.record(SessionEvent::PlainTransportCreated(TransportId(2))), None);
    assert_eq!(session.record(SessionEvent::TransportConnected(TransportId(1))), None);
    assert_eq!(session.record(SessionEvent::ConsumerCreated(ConsumerId(3))), None);
    assert_eq!(
        session.record(SessionEvent::ProducerCreated(ProducerId(4))),
        Some(Message::ProducerAvailable(ProducerId(4)))
    );
    assert_eq!(session.record(SessionEvent::DataConsumerCreated(DataConsumerId(5))), None);
    assert_eq!(
        session.record(SessionEvent::DataProducerCreated(DataProducerId(6))),
        Some(Message::DataProducerAvailable(DataProducerId(6)))
    );
    assert_eq!(
        session.get_webrtc_transport(TransportId(1)),
        Some(Lifecycle::Connected)
    );
    assert_eq!(session.get_plain_transport(TransportId(2)), Some(Lifecycle::Created));
    assert_eq!(session.get_resource_count(&Resource::Producer), 1);
    assert_eq!(session.record(SessionEvent::Closed(Resource::Producer, 4)), None);
    assert_eq!(session.get_resource_count(&Resource::Producer), 0);
    assert_eq!(session.get_producers(), vec![ProducerId(4)]);
    assert!(session.held_open(Resource::Producer).is_empty());
    // closing what the session does not hold changes nothing
    assert_eq!(session.record(SessionEvent::Closed(Resource::Consumer, 99)), None);
    assert_eq!(session.get_consumers(), vec![ConsumerId(3)]);
    assert_eq!(session.get_resource_count(&Resource::Consumer), 1);
}

#[test]
fn resource_names() {
    assert_eq!(Resource::Consumer.name(), "Consumer");
    assert_eq!(Resource::Producer.name(), "Producer");
    assert_eq!(Resource::DataConsumer.name(), "DataConsumer");
    assert_eq!(Resource::DataProducer.name(), "DataProducer");
    assert_eq!(Resource::WebrtcTransport.name(), "WebrtcTransport");
    assert_eq!(Resource::PlainTransport.name(), "PlainTransport");
}

#[test]
fn session_errors_are_shown_as_they_are() {
    assert_eq!(
        SignalError::from_session_error(SessionError::TransportNotFound),
        SignalError::TransportNotFound
    );
    assert_eq!(
        SignalError::from_session_error(SessionError::ConsumerNotFound),
        SignalError::ConsumerNotFound
    );
    assert_eq!(
        SignalError::from_session_error(SessionError::MissingRtpCapabilities),
        SignalError::MissingRtpCapabilities
    );
    assert_eq!(
        SignalError::from_session_error(SessionError::WorkerError),
        SignalError::WorkerError
    );
}

#[test]
fn statistics_leave_out_what_failed() {
    let replies = vec![
        StatsReply { resource: Resource::Consumer, id: 1, stats: Some("c1".into()) },
        StatsReply { resource: Resource::Producer, id: 2, stats: None },
        StatsReply { resource: Resource::Producer, id: 3, stats: Some("p3".into()) },
        StatsReply { resource: Resource::WebrtcTransport, id: 4, stats: None },
    ];
    let stats = Stats::collect(replies);
    let entries: Vec<(Resource, u128, &str)> = stats
        .entries
        .iter()
        .map(|entry| (entry.resource, entry.id, entry.stats.as_str()))
        .collect();
    assert_eq!(
        entries,
        vec![(Resource::Consumer, 1, "c1"), (Resource::Producer, 3, "p3")]
    );
    assert!(Stats::collect(Vec::new()).entries.is_empty());
    let all_failed = vec![StatsReply { resource: Resource::Consumer, id: 1, stats: None }];
    assert!(Stats::collect(all_failed).entries.is_empty());
}

#[test]
fn room_keeps_its_first_router_and_its_members() {
    let mut room = Room::new(RoomId(9));
    assert_eq!(room.id(), RoomId(9));
    assert_eq!(room.downgrade().id, RoomId(9));
    assert!(room.is_empty());
    assert_eq!(room.get_router(), None);
    assert_eq!(room.set_router(RouterId(1)), RouterId(1));
    assert_eq!(room.set_router(RouterId(2)), RouterId(1));
    assert_eq!(room.get_router(), Some(RouterId(1)));
    room.add_session(SessionId(1));
    room.add_session(SessionId(2));
    room.add_session(SessionId(1));
    assert!(room.has_session(SessionId(1)));
    assert!(room.has_session(SessionId(2)));
    assert!(!room.has_session(SessionId(3)));
    room.remove_session(SessionId(1));
    assert!(!room.has_session(SessionId(1)));
    assert!(!room.is_empty());
    room.remove_session(SessionId(2));
    assert!(room.is_empty());
    // with nobody subscribed an announcement goes nowhere
    room.announce_producer(ProducerId(1));
    room.announce_data_producer(DataProducerId(1));
    let sessions: KeyedTable<Session> = KeyedTable::new();
    let (snapshot, mut stream) = room.available_producers(&sessions);
    assert!(snapshot.is_empty());
    assert!(stream.try_recv().is_err());
    room.announce_producer(ProducerId(2));
    assert_eq!(stream.try_recv().unwrap(), Message::ProducerAvailable(ProducerId(2)));
}

#[test]
fn codec_table() {
    let codecs = media_codecs();
    assert_eq!(codecs.len(), 5);
    assert_eq!(codecs[0].kind, MediaKind::Audio);
    assert_eq!(codecs[0].mime_type, MimeType::Opus);
    assert_eq!(codecs[0].clock_rate, 48000);
    assert_eq!(codecs[0].channels, Some(2));
    assert_eq!(codecs[0].preferred_payload_type, None);
    assert_eq!(codecs[0].rtcp_feedback, vec![RtcpFeedback::TransportCc]);
    assert_eq!(codecs[0].parameters.len(), 1);
    assert_eq!(codecs[0].parameters[0].name, "useinbandfec");
    assert!(matches!(codecs[0].parameters[0].value, ParameterValue::Number(1)));
    let profiles = ["42e01f", "4d0032", "64002a"];
    for (codec, profile) in codecs[1..4].iter().zip(profiles) {
        assert_eq!(codec.kind, MediaKind::Video);
        assert_eq!(codec.mime_type, MimeType::H264);
        assert_eq!(codec.clock_rate, 90000);
        assert_eq!(codec.channels, None);
        let names: Vec<&str> = codec.parameters.iter().map(|p| p.name.as_str()).collect();
        assert_eq!(
            names,
            vec!["packetization-mode", "level-asymmetry-allowed", "profile-level-id"]
        );
        assert!(matches!(codec.parameters[0].value, ParameterValue::Number(1)));
        assert!(matches!(codec.parameters[1].value, ParameterValue::Number(1)));
        assert!(matches!(&codec.parameters[2].value, ParameterValue::Text(text) if text == profile));
    }
    assert_eq!(codecs[4].mime_type, MimeType::Vp8);
    assert_eq!(codecs[4].clock_rate, 90000);
    assert!(codecs[4].parameters.is_empty());
    for codec in &codecs[1..] {
        assert_eq!(
            codec.rtcp_feedback,
            vec![
                RtcpFeedback::Nack,
                RtcpFeedback::NackPli,
                RtcpFeedback::CcmFir,
                RtcpFeedback::GoogRemb,
                RtcpFeedback::TransportCc
            ]
        );
    }
}

#[test]
fn log_tags_by_name() {
    let names = [
        "info", "ice", "dtls", "rtp", "srtp", "rtcp", "rtx", "bwe", "score", "simulcast", "svc",
        "sctp", "message",
    ];
    let tags = WorkerLogTag::all();
    assert_eq!(tags.len(), 13);
    for (name, tag) in names.iter().zip(tags) {
        assert_eq!(WorkerLogTag::parse(name), Ok(tag));
        assert_eq!(tag.name(), *name);
        assert_eq!(name.parse::<WorkerLogTag>(), Ok(tag));
    }
    assert_eq!(WorkerLogTag::parse("ice"), Ok(WorkerLogTag::Ice));
    assert_eq!(WorkerLogTag::parse("message"), Ok(WorkerLogTag::Message));
    assert_eq!(WorkerLogTag::parse("ICE"), Err("ICE".to_string()));
    assert_eq!(WorkerLogTag::parse(""), Err(String::new()));
    assert_eq!("warn".parse::<WorkerLogTag>(), Err("warn".to_string()));
}

#[test]
fn options_and_their_defaults() {
    let opts = Opts::default();
    assert_eq!(opts.signal_addr, "127.0.0.1:8443");
    assert_eq!(opts.control_addr, "127.0.0.1:9443");
    assert_eq!(opts.rtc_ip, "127.0.0.1");
    assert_eq!(opts.rtc_announce_ip, None);
    assert_eq!(opts.rtc_ports_range_min, 10000);
    assert_eq!(opts.rtc_ports_range_max, 59999);
    assert!(!opts.no_tls);
    assert!(!opts.no_cors);
    assert!(opts.log_tags.is_empty());
    assert_eq!(opts.check(), Err(OptsError::MissingCertPath));

    let with_cert = Opts { cert_path: Some("cert.pem".into()), ..Opts::default() };
    assert_eq!(with_cert.check(), Err(OptsError::MissingKeyPath));
    let with_key = Opts { key_path: Some("key.pem".into()), ..Opts::default() };
    assert_eq!(with_key.check(), Err(OptsError::MissingCertPath));
    let with_both = Opts {
        cert_path: Some("cert.pem".into()),
        key_path: Some("key.pem".into()),
        ..Opts::default()
    };
    assert_eq!(with_both.check(), Ok(()));
    let plain = Opts { no_tls: true, ..Opts::default() };
    assert_eq!(plain.check(), Ok(()));
    let confused = Opts { no_tls: true, key_path: Some("key.pem".into()), ..Opts::default() };
    assert_eq!(confused.check(), Err(OptsError::TlsDisabled));

    let announced = Opts {
        rtc_ip: "0.0.0.0".into(),
        rtc_announce_ip: Some("198.51.100.2".into()),
        ..Opts::default()
    };
    let listen_ip = announced.transport_listen_ip();
    assert_eq!(listen_ip.ip, "0.0.0.0");
    assert_eq!(listen_ip.announced_ip.as_deref(), Some("198.51.100.2"));
    assert_eq!(Opts::default().transport_listen_ip().announced_ip, None);
}

#[test]
fn client_follows_its_own_operation() {
    let op = "7".to_string();
    let data = |id: &str| ServerMessage::Data { id: id.into(), payload: "d".into() };
    assert!(matches!(deliver(&op, data("7")), Delivery::Data(payload) if payload == "d"));
    assert!(matches!(deliver(&op, data("8")), Delivery::Ignore));
    let error = |id: &str| ServerMessage::Error { id: id.into(), payload: "e".into() };
    assert!(matches!(deliver(&op, error("7")), Delivery::Failure(payload) if payload == "e"));
    assert!(matches!(deliver(&op, error("8")), Delivery::Ignore));
    assert!(matches!(
        deliver(&op, ServerMessage::Complete { id: "7".into() }),
        Delivery::Complete
    ));
    assert!(matches!(
        deliver(&op, ServerMessage::Complete { id: "70".into() }),
        Delivery::Ignore
    ));
    assert!(matches!(
        deliver(&op, ServerMessage::ConnectionError { payload: "x".into() }),
        Delivery::Fatal(payload) if payload == "x"
    ));
    assert!(matches!(deliver(&op, ServerMessage::ConnectionAck), Delivery::Ignore));
    assert!(matches!(deliver(&op, ServerMessage::ConnectionKeepAlive), Delivery::Ignore));
}

#[test]
fn messages_by_operation_and_type() {
    assert_eq!(data_message().id(), Some("1"));
    assert_eq!(
        ServerMessage::Error { id: "2".into(), payload: "{}".into() }.id(),
        Some("2")
    );
    assert_eq!(ServerMessage::Complete { id: "3".into() }.id(), Some("3"));
    assert_eq!(ServerMessage::ConnectionAck.id(), None);
    assert_eq!(ServerMessage::ConnectionKeepAlive.id(), None);
    assert_eq!(ServerMessage::ConnectionError { payload: "{}".into() }.id(), None);

    assert_eq!(data_message().wire_type(), "data");
    assert_eq!(ServerMessage::ConnectionAck.wire_type(), "connection_ack");
    assert_eq!(ServerMessage::ConnectionKeepAlive.wire_type(), "ka");
    assert_eq!(ServerMessage::Complete { id: "3".into() }.wire_type(), "complete");
    assert_eq!(
        ServerMessage::Error { id: "2".into(), payload: "{}".into() }.wire_type(),
        "error"
    );
    assert_eq!(
        ServerMessage::ConnectionError { payload: "{}".into() }.wire_type(),
        "error"
    );
    assert_eq!(
        ClientMessage::ConnectionInit { payload: None }.wire_type(),
        "connection_init"
    );
    let payload = ClientPayload {
        query: "query { version }".into(),
        variables: None,
        operation_name: None,
    };
    assert_eq!(
        ClientMessage::Start { id: "1".into(), payload }.wire_type(),
        "start"
    );
    assert_eq!(ClientMessage::Stop { id: "1".into() }.wire_type(), "stop");
    assert_eq!(ClientMessage::ConnectionTerminate.wire_type(), "connection_terminate");
}

fn data_message() -> ServerMessage {
    ServerMessage::Data { id: "1".into(), payload: "{}".into() }
}

fn control_server() -> RelayServer {
    RelayServer::new(listen_ip(), media_codecs())
}

#[test]
fn control_mutations_answer_in_kind() {
    let mut server = control_server();
    let control = ControlMutation;

    let vulcast = match control.register_vulcast_session(&mut server, "vulcast".into()) {
        RegisterSessionResult::Success(session) => session,
        other => panic!("{:?}", other),
    };
    assert_eq!(vulcast.id, "vulcast");
    let token = SessionToken::parse(&vulcast.access_token).unwrap();
    assert_eq!(
        server.registry().resolve_token(token),
        Some((ForeignSessionId("vulcast".into()), SessionOptions::Vulcast))
    );
    assert!(matches!(
        control.register_vulcast_session(&mut server, "vulcast".into()),
        RegisterSessionResult::NonUniqueId(told) if told.id == "vulcast"
    ));
    assert!(matches!(
        control.register_client_session(&mut server, "room".into(), "web".into()),
        RegisterSessionResult::UnknownRoom(told) if told.room.id == "room"
    ));
    assert!(matches!(
        control.register_host_session(&mut server, "room".into(), "host".into()),
        RegisterSessionResult::UnknownRoom(told) if told.room.id == "room"
    ));

    assert!(matches!(
        control.register_room(&mut server, "room".into(), "nobody".into()),
        RegisterRoomResult::UnknownSession(told) if told.session.id == "nobody"
    ));
    assert!(matches!(
        control.register_room(&mut server, "room".into(), "vulcast".into()),
        RegisterRoomResult::Success(room) if room.id == "room"
    ));
    assert!(matches!(
        control.register_room(&mut server, "room".into(), "vulcast".into()),
        RegisterRoomResult::NonUniqueId(told) if told.id == "room"
    ));
    assert!(matches!(
        control.register_room(&mut server, "room2".into(), "vulcast".into()),
        RegisterRoomResult::VulcastInRoom(told) if told.vulcast.id == "vulcast"
    ));

    let web = match control.register_client_session(&mut server, "room".into(), "web".into()) {
        RegisterSessionResult::Success(session) => session,
        other => panic!("{:?}", other),
    };
    assert_eq!(
        server
            .registry()
            .resolve_token(SessionToken::parse(&web.access_token).unwrap()),
        Some((
            ForeignSessionId("web".into()),
            SessionOptions::WebClient(ForeignRoomId("room".into()))
        ))
    );
    let host = match control.register_host_session(&mut server, "room".into(), "host".into()) {
        RegisterSessionResult::Success(session) => session,
        other => panic!("{:?}", other),
    };
    assert_eq!(
        server
            .registry()
            .resolve_token(SessionToken::parse(&host.access_token).unwrap()),
        Some((
            ForeignSessionId("host".into()),
            SessionOptions::Host(ForeignRoomId("room".into()))
        ))
    );

    assert!(matches!(
        control.unregister_session(&mut server, "web".into()),
        UnregisterSessionResult::Success(session) if session.id == "web"
    ));
    assert!(matches!(
        control.unregister_session(&mut server, "web".into()),
        UnregisterSessionResult::UnknownSession(told) if told.session.id == "web"
    ));
    assert!(matches!(
        control.unregister_room(&mut server, "room".into()),
        UnregisterRoomResult::Success(room) if room.id == "room"
    ));
    assert!(matches!(
        control.unregister_room(&mut server, "room".into()),
        UnregisterRoomResult::UnknownRoom(told) if told.room.id == "room"
    ));
    assert!(server
        .registry()
        .registration(&ForeignSessionId("host".into()))
        .is_none());
}

#[test]
fn control_responses_from_errors() {
    let fsid = |text: &str| ForeignSessionId(text.into());
    let frid = |text: &str| ForeignRoomId(text.into());
    assert!(matches!(
        RegisterRoomResult::from_error(RegisterRoomError::NonUniqueId(frid("r"))),
        RegisterRoomResult::NonUniqueId(told) if told.id == "r"
    ));
    assert!(matches!(
        RegisterRoomResult::from_error(RegisterRoomError::UnknownSession(fsid("s"))),
        RegisterRoomResult::UnknownSession(told) if told.session.id == "s"
    ));
    assert!(matches!(
        RegisterRoomResult::from_error(RegisterRoomError::VulcastInRoom(fsid("s"))),
        RegisterRoomResult::VulcastInRoom(told) if told.vulcast.id == "s"
    ));
    assert!(matches!(
        UnregisterRoomResult::from_error(UnregisterRoomError::UnknownRoom(frid("r"))),
        UnregisterRoomResult::UnknownRoom(told) if told.room.id == "r"
    ));
    assert!(matches!(
        RegisterSessionResult::from_error(RegisterSessionError::NonUniqueId(fsid("s"))),
        RegisterSessionResult::NonUniqueId(told) if told.id == "s"
    ));
    assert!(matches!(
        RegisterSessionResult::from_error(RegisterSessionError::UnknownRoom(frid("r"))),
        RegisterSessionResult::UnknownRoom(told) if told.room.id == "r"
    ));
    assert!(matches!(
        UnregisterSessionResult::from_error(UnregisterSessionError::UnknownSession(fsid("s"))),
        UnregisterSessionResult::UnknownSession(told) if told.session.id == "s"
    ));
}

#[test]
fn control_queries() {
    let mut server = control_server();
    let query = ControlQuery;
    assert_eq!(
        query.version("vulcan-relay", "0.1.0", "x86_64-unknown-linux-gnu", "release"),
        "vulcan-relay_0.1.0_x86_64-unknown-linux-gnu_release"
    );
    assert_eq!(query.stats(&server, "vulcast".into()), None);
    server
        .register_session_with_token(
            ForeignSessionId("vulcast".into()),
            SessionOptions::Vulcast,
            SessionToken(5),
        )
        .unwrap();
    assert_eq!(query.stats(&server, "vulcast".into()), None);
    server
        .session_from_token_with_ids(SessionToken(5), SessionId(1), RoomId(1))
        .unwrap();
    assert_eq!(query.stats(&server, "vulcast".into()), Some(Vec::new()));
    assert!(server.deliver(SessionId(1), SessionEvent::WebRtcTransportCreated(TransportId(3))));
    assert!(server.deliver(SessionId(1), SessionEvent::ProducerCreated(ProducerId(4))));
    assert_eq!(
        query.stats(&server, "vulcast".into()),
        Some(vec![
            StatsQuery { resource: Resource::Producer, id: 4 },
            StatsQuery { resource: Resource::WebrtcTransport, id: 3 },
        ])
    );
}

#[test]
fn registry_alone_removes_only_what_it_is_told() {
    let fsid = |text: &str| ForeignSessionId(text.into());
    let frid = |text: &str| ForeignRoomId(text.into());
    let mut registry = IdentityRegistry::new();
    let token = registry
        .register_session(fsid("vulcast"), SessionOptions::Vulcast)
        .unwrap();
    assert!(!token.is_nil());
    assert_eq!(
        registry.resolve_token(token),
        Some((fsid("vulcast"), SessionOptions::Vulcast))
    );
    assert_eq!(registry.register_room(frid("room"), fsid("vulcast")), Ok(()));
    assert_eq!(
        registry.register_session_with_token(
            fsid("web"),
            SessionOptions::WebClient(frid("room")),
            SessionToken(3)
        ),
        Ok(SessionToken(3))
    );
    assert_eq!(
        registry.register_session(fsid("web"), SessionOptions::Vulcast),
        Err(RegisterSessionError::NonUniqueId(fsid("web")))
    );
    assert_eq!(
        registry.register_session(fsid("x"), SessionOptions::Host(frid("nowhere"))),
        Err(RegisterSessionError::UnknownRoom(frid("nowhere")))
    );

    // the binding goes, its clients stay registered
    assert_eq!(registry.unregister_room(frid("room")), Ok(()));
    assert_eq!(
        registry.unregister_room(frid("room")),
        Err(UnregisterRoomError::UnknownRoom(frid("room")))
    );
    assert_eq!(
        registry.registration(&fsid("web")),
        Some((SessionToken(3), SessionOptions::WebClient(frid("room"))))
    );
    assert_eq!(registry.list_clients_of_room(&frid("room")), vec![fsid("web")]);

    // the registration goes, a binding of it stays
    assert_eq!(registry.register_room(frid("room"), fsid("vulcast")), Ok(()));
    assert_eq!(registry.unregister_session(fsid("vulcast")), Ok(()));
    assert_eq!(
        registry.unregister_session(fsid("vulcast")),
        Err(UnregisterSessionError::UnknownSession(fsid("vulcast")))
    );
    assert_eq!(registry.vulcast_of_room(&frid("room")), Some(fsid("vulcast")));
    assert_eq!(registry.resolve_token(token), None);
    assert_eq!(
        registry.register_room(frid("other"), fsid("vulcast")),
        Err(RegisterRoomError::UnknownSession(fsid("vulcast")))
    );
}

#[test]
fn a_lagging_subscriber_goes_on() {
    assert_eq!(Reception::Value(7).step(), Step::Yield(7));
    assert_eq!(Reception::<u8>::Lagged(3).step(), Step::Skip);
    assert_eq!(Reception::<u8>::Closed.step(), Step::End);
}

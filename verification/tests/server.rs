use tokio::sync::broadcast::error::TryRecvError;

use vulcan_relay::codecs::media_codecs;
use vulcan_relay::holdings::Lifecycle;
use vulcan_relay::relay_server::{
    ForeignRoomId, ForeignSessionId, RegisterRoomError, RegisterSessionError, RelayServer,
    SessionOptions, SessionToken, UnregisterRoomError, UnregisterSessionError,
};
use vulcan_relay::room::{Message, RoomId, RouterId, WeakRoom};
use vulcan_relay::session::{
    ClosedResource, ConsumerId, DataConsumerId, DataProducerId, MediaKind, ProducerId, Resource,
    RtpCapabilities, SessionEvent, SessionId, TransportId, TransportListenIp, WeakSession,
};
use vulcan_relay::signal_schema::{
    connect, presented_token, MutationRoot, QueryRoot, ResourceGuard, SignalError,
    SubscriptionRoot,
};

fn server() -> RelayServer {
    RelayServer::new(
        TransportListenIp {
            ip: "127.0.0.1".into(),
            announced_ip: Some("203.0.113.7".into()),
        },
        media_codecs(),
    )
}

fn fsid(text: &str) -> ForeignSessionId {
    ForeignSessionId(text.into())
}

fn frid(text: &str) -> ForeignRoomId {
    ForeignRoomId(text.into())
}

/// A server with the Vulcast "vulcast" (token 0xA), the room "ayush" bound
/// to it, and the web client "web" of that room (token 0xB).
fn staged() -> RelayServer {
    let mut server = server();
    assert_eq!(
        server.register_session_with_token(fsid("vulcast"), SessionOptions::Vulcast, SessionToken(0xA)),
        Ok(SessionToken(0xA))
    );
    assert_eq!(server.register_room(frid("ayush"), fsid("vulcast")), Ok(()));
    assert_eq!(
        server.register_session_with_token(
            fsid("web"),
            SessionOptions::WebClient(frid("ayush")),
            SessionToken(0xB)
        ),
        Ok(SessionToken(0xB))
    );
    server
}

#[test]
fn producer_consumer_connected_after_signalling() {
    let mut relay_server = server();
    let mutation = MutationRoot;
    let subscription = SubscriptionRoot;

    let foreign_room_id = ForeignRoomId("ayush".into());
    let vulcast_session_id = ForeignSessionId("vulcast".into());

    let token_a = relay_server
        .register_session(vulcast_session_id.clone(), SessionOptions::Vulcast)
        .unwrap();
    let vulcast = relay_server.session_from_token(token_a).unwrap();
    relay_server
        .register_room(foreign_room_id, vulcast_session_id)
        .unwrap();
    let token_b = relay_server
        .register_session(
            ForeignSessionId("webclient".into()),
            SessionOptions::WebClient(ForeignRoomId("ayush".into())),
        )
        .unwrap();
    let webclient = relay_server.session_from_token(token_b).unwrap();

    // two transports each: send and receive
    let ids = [
        (vulcast, TransportId(1)),
        (vulcast, TransportId(2)),
        (webclient, TransportId(3)),
        (webclient, TransportId(4)),
    ];
    for (session, transport) in ids {
        let request = mutation
            .create_webrtc_transport(&relay_server, Some(session))
            .unwrap();
        assert!(request.enable_sctp);
        assert_eq!(request.listen_ip.ip, "127.0.0.1");
        assert!(relay_server.deliver(session.id, SessionEvent::WebRtcTransportCreated(transport)));
    }

    for session in [vulcast, webclient] {
        assert_eq!(
            mutation.rtp_capabilities(
                &mut relay_server,
                Some(session),
                RtpCapabilities("{\"codecs\":[]}".into())
            ),
            Ok(true)
        );
    }

    for (session, transport) in ids {
        assert_eq!(
            mutation.connect_webrtc_transport(&relay_server, Some(session), transport),
            Ok(transport)
        );
        assert!(relay_server.deliver(session.id, SessionEvent::TransportConnected(transport)));
    }

    let (producers, mut producer_stream) = subscription
        .producer_available(&relay_server, Some(webclient))
        .unwrap();
    let (data_producers, mut data_producer_stream) = subscription
        .data_producer_available(&relay_server, Some(vulcast))
        .unwrap();
    assert!(producers.is_empty());
    assert!(data_producers.is_empty());

    let audio = mutation
        .produce(&relay_server, Some(vulcast), TransportId(1), MediaKind::Audio)
        .unwrap();
    assert_eq!(audio.kind, MediaKind::Audio);
    assert!(relay_server.deliver(vulcast.id, SessionEvent::ProducerCreated(ProducerId(100))));
    let video = mutation
        .produce(&relay_server, Some(vulcast), TransportId(1), MediaKind::Video)
        .unwrap();
    assert_eq!(video.kind, MediaKind::Video);
    assert!(relay_server.deliver(vulcast.id, SessionEvent::ProducerCreated(ProducerId(101))));

    let data = mutation
        .produce_data(&relay_server, Some(webclient), TransportId(3))
        .unwrap();
    assert_eq!(data.transport_id, TransportId(3));
    assert!(relay_server.deliver(
        webclient.id,
        SessionEvent::DataProducerCreated(DataProducerId(200))
    ));

    // the room's bus carries all three announcements, in the order made
    let mut producer_ids = Vec::new();
    while let Ok(message) = producer_stream.try_recv() {
        if let Some(id) = message.producer() {
            producer_ids.push(id);
        }
    }
    assert_eq!(producer_ids, vec![ProducerId(100), ProducerId(101)]);
    let mut data_producer_ids = Vec::new();
    while let Ok(message) = data_producer_stream.try_recv() {
        if let Some(id) = message.data_producer() {
            data_producer_ids.push(id);
        }
    }
    assert_eq!(data_producer_ids, vec![DataProducerId(200)]);

    for producer in producer_ids {
        let request = mutation
            .consume(&relay_server, Some(webclient), TransportId(4), producer)
            .unwrap();
        assert!(request.paused);
        assert_eq!(request.producer_id, producer);
        assert_eq!(request.transport_id, TransportId(4));
        assert_eq!(request.rtp_capabilities.0, "{\"codecs\":[]}");
    }
    assert!(relay_server.deliver(webclient.id, SessionEvent::ConsumerCreated(ConsumerId(300))));
    assert!(relay_server.deliver(webclient.id, SessionEvent::ConsumerCreated(ConsumerId(301))));

    let request = mutation
        .consume_data(&relay_server, Some(vulcast), TransportId(2), data_producer_ids[0])
        .unwrap();
    assert_eq!(request.data_producer_id, DataProducerId(200));
    assert!(relay_server.deliver(
        vulcast.id,
        SessionEvent::DataConsumerCreated(DataConsumerId(400))
    ));

    // a subscriber that comes late is shown what is open
    let (producers, _) = subscription
        .producer_available(&relay_server, Some(webclient))
        .unwrap();
    let mut producers = producers;
    producers.sort_by_key(|id| id.0);
    assert_eq!(producers, vec![ProducerId(100), ProducerId(101)]);
}

#[test]
fn room_outlives_all_but_its_last_session() {
    let mut server = staged();
    let vulcast = server
        .session_from_token_with_ids(SessionToken(0xA), SessionId(1), RoomId(50))
        .unwrap();
    let web = server
        .session_from_token_with_ids(SessionToken(0xB), SessionId(2), RoomId(51))
        .unwrap();
    let vulcast_room = vulcast.upgrade(&server).unwrap().get_room();
    let web_room = web.upgrade(&server).unwrap().get_room();
    assert_eq!(vulcast_room, RoomId(50));
    assert_eq!(web_room, RoomId(50));
    let room = WeakRoom { id: RoomId(50) };
    assert!(room.upgrade(&server).is_some());
    assert!(WeakRoom { id: RoomId(51) }.upgrade(&server).is_none());

    let taken = server.take_session(&fsid("web")).unwrap();
    assert_eq!(taken.id(), SessionId(2));
    assert!(room.upgrade(&server).is_some());
    assert!(room.upgrade(&server).unwrap().has_session(SessionId(1)));
    assert!(!room.upgrade(&server).unwrap().has_session(SessionId(2)));

    let taken = server.take_session_by_token(&SessionToken(0xA)).unwrap();
    assert_eq!(taken.id(), SessionId(1));
    assert!(room.upgrade(&server).is_none());
    assert!(vulcast.upgrade(&server).is_none());
    assert!(web.upgrade(&server).is_none());

    // taking again finds nothing, and the registrations are still there
    assert!(server.take_session(&fsid("web")).is_none());
    assert!(server.take_session_by_token(&SessionToken(0xA)).is_none());
    assert!(server.take_session_by_token(&SessionToken(0xC)).is_none());
    assert!(server.registry().registration(&fsid("web")).is_some());

    // a client that connects before its Vulcast opens the room under the Vulcast
    let web = server
        .session_from_token_with_ids(SessionToken(0xB), SessionId(3), RoomId(60))
        .unwrap();
    let vulcast = server
        .session_from_token_with_ids(SessionToken(0xA), SessionId(4), RoomId(61))
        .unwrap();
    assert_eq!(web.upgrade(&server).unwrap().get_room(), RoomId(60));
    assert_eq!(vulcast.upgrade(&server).unwrap().get_room(), RoomId(60));
}

#[test]
fn unregistering_a_room_drops_its_clients() {
    let mut server = staged();
    assert_eq!(
        server.register_session_with_token(
            fsid("host"),
            SessionOptions::Host(frid("ayush")),
            SessionToken(0xC)
        ),
        Ok(SessionToken(0xC))
    );
    let vulcast = server
        .session_from_token_with_ids(SessionToken(0xA), SessionId(1), RoomId(50))
        .unwrap();
    let web = server
        .session_from_token_with_ids(SessionToken(0xB), SessionId(2), RoomId(51))
        .unwrap();
    let host = server
        .session_from_token_with_ids(SessionToken(0xC), SessionId(3), RoomId(52))
        .unwrap();
    let mut clients = server.registry().list_clients_of_room(&frid("ayush"));
    clients.sort_by(|a, b| a.0.cmp(&b.0));
    assert_eq!(clients, vec![fsid("host"), fsid("web")]);

    assert_eq!(server.unregister_room(frid("ayush")), Ok(()));

    assert!(web.upgrade(&server).is_none());
    assert!(host.upgrade(&server).is_none());
    assert!(server.get_session(&fsid("web")).is_none());
    assert!(server
        .session_from_token_with_ids(SessionToken(0xB), SessionId(4), RoomId(53))
        .is_none());
    assert!(server.session_from_token(SessionToken(0xC)).is_none());
    assert!(server.registry().registration(&fsid("web")).is_none());
    assert!(server.registry().registration(&fsid("host")).is_none());
    assert!(server.registry().resolve_token(SessionToken(0xB)).is_none());

    // the Vulcast and its session stay, in the room they were in
    assert!(vulcast.upgrade(&server).is_some());
    assert!(WeakRoom { id: RoomId(50) }.upgrade(&server).is_some());
    assert!(server.registry().registration(&fsid("vulcast")).is_some());
    assert!(server.registry().room_of_vulcast(&fsid("vulcast")).is_none());
    assert_eq!(
        server.unregister_room(frid("ayush")),
        Err(UnregisterRoomError::UnknownRoom(frid("ayush")))
    );
}

#[test]
fn unregistering_a_vulcast_drops_its_room_and_clients() {
    let mut server = staged();
    let vulcast = server
        .session_from_token_with_ids(SessionToken(0xA), SessionId(1), RoomId(50))
        .unwrap();
    let web = server
        .session_from_token_with_ids(SessionToken(0xB), SessionId(2), RoomId(51))
        .unwrap();
    assert_eq!(server.unregister_session(fsid("vulcast")), Ok(()));
    assert!(vulcast.upgrade(&server).is_none());
    assert!(web.upgrade(&server).is_none());
    assert!(WeakRoom { id: RoomId(50) }.upgrade(&server).is_none());
    assert!(server.registry().vulcast_of_room(&frid("ayush")).is_none());
    assert!(server.registry().registration(&fsid("web")).is_none());
    assert!(server.registry().registration(&fsid("vulcast")).is_none());
    assert_eq!(
        server.unregister_session(fsid("vulcast")),
        Err(UnregisterSessionError::UnknownSession(fsid("vulcast")))
    );
}

#[test]
fn unregistering_a_client_leaves_the_rest() {
    let mut server = staged();
    let vulcast = server
        .session_from_token_with_ids(SessionToken(0xA), SessionId(1), RoomId(50))
        .unwrap();
    let web = server
        .session_from_token_with_ids(SessionToken(0xB), SessionId(2), RoomId(51))
        .unwrap();
    assert_eq!(server.unregister_session(fsid("web")), Ok(()));
    assert!(web.upgrade(&server).is_none());
    assert!(vulcast.upgrade(&server).is_some());
    assert_eq!(
        server.registry().vulcast_of_room(&frid("ayush")),
        Some(fsid("vulcast"))
    );
    assert_eq!(
        server.registry().room_of_vulcast(&fsid("vulcast")),
        Some(frid("ayush"))
    );
}

#[test]
fn third_transport_exceeds_the_limit() {
    let mut server = staged();
    let mutation = MutationRoot;
    let vulcast = server
        .session_from_token_with_ids(SessionToken(0xA), SessionId(1), RoomId(50))
        .unwrap();
    assert!(mutation.create_webrtc_transport(&server, Some(vulcast)).is_ok());
    assert!(server.deliver(SessionId(1), SessionEvent::WebRtcTransportCreated(TransportId(1))));
    assert!(mutation.create_webrtc_transport(&server, Some(vulcast)).is_ok());
    assert!(server.deliver(SessionId(1), SessionEvent::WebRtcTransportCreated(TransportId(2))));
    assert_eq!(
        mutation
            .create_webrtc_transport(&server, Some(vulcast))
            .unwrap_err(),
        SignalError::ResourceLimitExceeded(Resource::WebrtcTransport, 2)
    );
    // plain transports are counted apart
    assert!(mutation.create_plain_transport(&server, Some(vulcast)).is_ok());
    // a closed transport makes room for another
    assert!(server.deliver(
        SessionId(1),
        SessionEvent::Closed(Resource::WebrtcTransport, 1)
    ));
    assert_eq!(
        vulcast
            .upgrade(&server)
            .unwrap()
            .get_resource_count(&Resource::WebrtcTransport),
        1
    );
    assert!(mutation.create_webrtc_transport(&server, Some(vulcast)).is_ok());
}

#[test]
fn nil_token_admits_no_session() {
    let mut server = staged();
    assert!(server.session_from_token(SessionToken::nil()).is_none());
    assert!(server.session_from_token(SessionToken::default()).is_none());
    assert!(server
        .session_from_token_with_ids(SessionToken(0), SessionId(1), RoomId(1))
        .is_none());
    assert!(SessionToken::nil().is_nil());
    assert!(!SessionToken(1).is_nil());
    // no registration can be made under the nil token
    assert_eq!(
        server.register_session_with_token(fsid("other"), SessionOptions::Vulcast, SessionToken(0)),
        Err(RegisterSessionError::NonUniqueId(fsid("other")))
    );
    assert!(server.registry().registration(&fsid("other")).is_none());
}

#[test]
fn unknown_token_admits_no_session() {
    let mut server = staged();
    assert!(server.session_from_token(SessionToken(0xDEAD)).is_none());
    assert!(server
        .session_from_token_with_ids(SessionToken(0xDEAD), SessionId(1), RoomId(1))
        .is_none());
    assert!(server.get_session(&fsid("vulcast")).is_none());
}

#[test]
fn reconnecting_replaces_the_session() {
    let mut server = staged();
    let first = server
        .session_from_token_with_ids(SessionToken(0xA), SessionId(1), RoomId(50))
        .unwrap();
    let (_, mut old_stream) = server.available_producers(RoomId(50)).unwrap();
    let second = server
        .session_from_token_with_ids(SessionToken(0xA), SessionId(2), RoomId(51))
        .unwrap();
    assert_ne!(first.id, second.id);
    assert!(first.upgrade(&server).is_none());
    assert_eq!(second.upgrade(&server).unwrap().id(), SessionId(2));
    assert_eq!(server.get_session(&fsid("vulcast")).unwrap().id(), SessionId(2));
    // the first session was the only one in its room: the room went with it
    assert!(WeakRoom { id: RoomId(50) }.upgrade(&server).is_none());
    assert_eq!(second.upgrade(&server).unwrap().get_room(), RoomId(51));
    // the bus of the old room is closed: its subscribers stop receiving
    assert!(server.deliver(SessionId(2), SessionEvent::ProducerCreated(ProducerId(9))));
    assert!(matches!(old_stream.try_recv(), Err(TryRecvError::Closed)));

    // minted identifiers differ as well
    let third = server.session_from_token(SessionToken(0xA)).unwrap();
    let fourth = server.session_from_token(SessionToken(0xA)).unwrap();
    assert_ne!(third.id, fourth.id);
    assert!(second.upgrade(&server).is_none());
    assert!(third.upgrade(&server).is_none());
    assert!(fourth.upgrade(&server).is_some());
}

#[test]
fn identifiers_in_use_are_not_given_twice() {
    let mut server = staged();
    server
        .session_from_token_with_ids(SessionToken(0xA), SessionId(1), RoomId(50))
        .unwrap();
    // the session identifier is taken
    assert!(server
        .session_from_token_with_ids(SessionToken(0xB), SessionId(1), RoomId(51))
        .is_none());
    // the room identifier is taken
    assert!(server
        .session_from_token_with_ids(SessionToken(0xB), SessionId(2), RoomId(50))
        .is_none());
    assert!(server.get_session(&fsid("web")).is_none());
    assert!(server.get_session(&fsid("vulcast")).is_some());
    assert!(server
        .session_from_token_with_ids(SessionToken(0xB), SessionId(2), RoomId(51))
        .is_some());
}

#[test]
fn register_then_unregister_restores() {
    let mut server = staged();
    server
        .session_from_token_with_ids(SessionToken(0xA), SessionId(1), RoomId(50))
        .unwrap();
    // a session
    assert_eq!(
        server.register_session_with_token(fsid("extra"), SessionOptions::Vulcast, SessionToken(0xE)),
        Ok(SessionToken(0xE))
    );
    assert_eq!(server.unregister_session(fsid("extra")), Ok(()));
    assert!(server.registry().registration(&fsid("extra")).is_none());
    assert!(server.registry().resolve_token(SessionToken(0xE)).is_none());
    assert!(server.registry().registration(&fsid("vulcast")).is_some());
    assert!(server.registry().registration(&fsid("web")).is_some());
    assert!(server.get_session(&fsid("vulcast")).is_some());
    // it can be registered again
    assert_eq!(
        server.register_session_with_token(fsid("extra"), SessionOptions::Vulcast, SessionToken(0xF)),
        Ok(SessionToken(0xF))
    );
    // a room
    assert_eq!(server.register_room(frid("second"), fsid("extra")), Ok(()));
    assert_eq!(server.unregister_room(frid("second")), Ok(()));
    assert!(server.registry().vulcast_of_room(&frid("second")).is_none());
    assert!(server.registry().room_of_vulcast(&fsid("extra")).is_none());
    assert_eq!(
        server.registry().vulcast_of_room(&frid("ayush")),
        Some(fsid("vulcast"))
    );
    assert!(server.registry().registration(&fsid("web")).is_some());
    assert!(server.get_session(&fsid("vulcast")).is_some());
}

#[test]
fn registration_errors() {
    let mut server = staged();
    // a session id that is taken
    assert_eq!(
        server.register_session(fsid("vulcast"), SessionOptions::Vulcast),
        Err(RegisterSessionError::NonUniqueId(fsid("vulcast")))
    );
    // a token that is held already
    assert_eq!(
        server.register_session_with_token(fsid("other"), SessionOptions::Vulcast, SessionToken(0xA)),
        Err(RegisterSessionError::NonUniqueId(fsid("other")))
    );
    // an unknown room is reported before a session id that is taken
    assert_eq!(
        server.register_session(fsid("vulcast"), SessionOptions::Host(frid("nowhere"))),
        Err(RegisterSessionError::UnknownRoom(frid("nowhere")))
    );
    assert_eq!(
        server.register_session(fsid("other"), SessionOptions::WebClient(frid("nowhere"))),
        Err(RegisterSessionError::UnknownRoom(frid("nowhere")))
    );
    // a room id that is taken is reported before anything else
    assert_eq!(
        server.register_room(frid("ayush"), fsid("nobody")),
        Err(RegisterRoomError::NonUniqueId(frid("ayush")))
    );
    assert_eq!(
        server.register_room(frid("ayush"), fsid("vulcast")),
        Err(RegisterRoomError::NonUniqueId(frid("ayush")))
    );
    // a session that is no Vulcast
    assert_eq!(
        server.register_room(frid("second"), fsid("web")),
        Err(RegisterRoomError::UnknownSession(fsid("web")))
    );
    assert_eq!(
        server.register_room(frid("second"), fsid("nobody")),
        Err(RegisterRoomError::UnknownSession(fsid("nobody")))
    );
    // a Vulcast that has a room
    assert_eq!(
        server.register_room(frid("second"), fsid("vulcast")),
        Err(RegisterRoomError::VulcastInRoom(fsid("vulcast")))
    );
    assert_eq!(
        server.unregister_room(frid("second")),
        Err(UnregisterRoomError::UnknownRoom(frid("second")))
    );
    assert_eq!(
        server.unregister_session(fsid("nobody")),
        Err(UnregisterSessionError::UnknownSession(fsid("nobody")))
    );
}

#[test]
fn registration_error_messages() {
    assert_eq!(
        RegisterSessionError::UnknownRoom(frid("r")).message(),
        "the room `r` is not registered"
    );
    assert_eq!(
        RegisterSessionError::NonUniqueId(fsid("s")).message(),
        "the session id `s` is already taken"
    );
    assert_eq!(
        UnregisterSessionError::UnknownSession(fsid("s")).message(),
        "the session `s` is not registered"
    );
    assert_eq!(
        RegisterRoomError::UnknownSession(fsid("s")).message(),
        "the session `s` is not registered"
    );
    assert_eq!(
        RegisterRoomError::VulcastInRoom(fsid("s")).message(),
        "the vulcast `s` is already in a room"
    );
    assert_eq!(
        RegisterRoomError::NonUniqueId(frid("r")).message(),
        "the room id `r` is already taken"
    );
    assert_eq!(
        UnregisterRoomError::UnknownRoom(frid("r")).message(),
        "the room `r` is not registered"
    );
}

#[test]
fn registry_resolves_tokens_and_lists_clients() {
    let server = staged();
    let registry = server.registry();
    assert_eq!(
        registry.resolve_token(SessionToken(0xA)),
        Some((fsid("vulcast"), SessionOptions::Vulcast))
    );
    assert_eq!(
        registry.resolve_token(SessionToken(0xB)),
        Some((fsid("web"), SessionOptions::WebClient(frid("ayush"))))
    );
    assert_eq!(registry.resolve_token(SessionToken(0xC)), None);
    assert_eq!(
        registry.registration(&fsid("web")),
        Some((SessionToken(0xB), SessionOptions::WebClient(frid("ayush"))))
    );
    assert_eq!(registry.registration(&fsid("nobody")), None);
    assert_eq!(registry.list_clients_of_room(&frid("ayush")), vec![fsid("web")]);
    assert!(registry.list_clients_of_room(&frid("nowhere")).is_empty());
    assert_eq!(registry.vulcast_of_room(&frid("ayush")), Some(fsid("vulcast")));
    assert_eq!(registry.vulcast_of_room(&frid("nowhere")), None);
    assert_eq!(registry.room_of_vulcast(&fsid("vulcast")), Some(frid("ayush")));
    assert_eq!(registry.room_of_vulcast(&fsid("web")), None);
}

#[test]
fn minted_tokens_are_not_nil_and_differ() {
    let a = SessionToken::new();
    let b = SessionToken::new();
    assert!(!a.is_nil());
    assert!(!b.is_nil());
    assert_ne!(a, b);
    assert_ne!(SessionId::new(), SessionId::new());
    assert_ne!(RoomId::new(), RoomId::new());
    assert_ne!(SessionId::new(), SessionId::default());
    assert_ne!(RoomId::new(), RoomId::default());
}

#[test]
fn tokens_are_written_and_read_as_text() {
    let token = SessionToken(0xa1a2a3a4b1b2c1c2d1d2d3d4d5d6d7d8);
    assert_eq!(token.to_text(), "a1a2a3a4-b1b2-c1c2-d1d2-d3d4d5d6d7d8");
    assert_eq!(
        SessionToken::parse("a1a2a3a4-b1b2-c1c2-d1d2-d3d4d5d6d7d8"),
        Some(token)
    );
    assert_eq!(
        SessionToken::parse("00000000-0000-0000-0000-000000000000"),
        Some(SessionToken::nil())
    );
    assert_eq!(SessionToken::parse("not a token"), None);
    assert_eq!(SessionToken::parse(""), None);
    let minted = SessionToken::new();
    assert_eq!(SessionToken::parse(&minted.to_text()), Some(minted));
}

#[test]
fn connection_presents_parameter_before_cookie() {
    assert_eq!(
        presented_token(Some(SessionToken(1)), Some(SessionToken(2))),
        Some(SessionToken(1))
    );
    assert_eq!(presented_token(None, Some(SessionToken(2))), Some(SessionToken(2)));
    assert_eq!(presented_token(Some(SessionToken(1)), None), Some(SessionToken(1)));
    assert_eq!(presented_token(None, None), None);

    let mut server = staged();
    assert!(connect(&mut server, None, None).is_none());
    assert!(connect(&mut server, Some(SessionToken(0xDEAD)), Some(SessionToken(0xA))).is_none());
    let (token, weak) = connect(&mut server, None, Some(SessionToken(0xA))).unwrap();
    assert_eq!(token, SessionToken(0xA));
    assert!(weak.upgrade(&server).is_some());
    let (token, web) = connect(&mut server, Some(SessionToken(0xB)), Some(SessionToken(0xA))).unwrap();
    assert_eq!(token, SessionToken(0xB));
    assert_eq!(
        web.upgrade(&server).unwrap().get_session_options(),
        SessionOptions::WebClient(frid("ayush"))
    );
    assert!(weak.upgrade(&server).is_some());
}

#[test]
fn operations_need_a_live_session() {
    let mut server = staged();
    let mutation = MutationRoot;
    let query = QueryRoot;
    let subscription = SubscriptionRoot;
    let gone = Some(WeakSession { id: SessionId(77) });
    for ctx in [None, gone] {
        assert_eq!(
            mutation.create_webrtc_transport(&server, ctx).unwrap_err(),
            SignalError::Unauthorized
        );
        assert_eq!(
            mutation.create_plain_transport(&server, ctx).unwrap_err(),
            SignalError::Unauthorized
        );
        assert_eq!(
            mutation.connect_webrtc_transport(&server, ctx, TransportId(1)),
            Err(SignalError::Unauthorized)
        );
        assert_eq!(
            mutation
                .consume(&server, ctx, TransportId(1), ProducerId(1))
                .unwrap_err(),
            SignalError::Unauthorized
        );
        assert_eq!(
            mutation.consumer_resume(&server, ctx, ConsumerId(1)),
            Err(SignalError::Unauthorized)
        );
        assert_eq!(
            mutation.produce(&server, ctx, TransportId(1), MediaKind::Audio),
            Err(SignalError::Unauthorized)
        );
        assert_eq!(
            mutation.produce_plain(&server, ctx, TransportId(1), MediaKind::Audio),
            Err(SignalError::Unauthorized)
        );
        assert_eq!(
            mutation.consume_data(&server, ctx, TransportId(1), DataProducerId(1)),
            Err(SignalError::Unauthorized)
        );
        assert_eq!(
            mutation.produce_data(&server, ctx, TransportId(1)),
            Err(SignalError::Unauthorized)
        );
        assert_eq!(
            mutation.rtp_capabilities(&mut server, ctx, RtpCapabilities("{}".into())),
            Err(SignalError::Unauthorized)
        );
        assert_eq!(
            query.server_rtp_capabilities(&server, ctx),
            Err(SignalError::Unauthorized)
        );
        assert_eq!(
            subscription.producer_available(&server, ctx).unwrap_err(),
            SignalError::Unauthorized
        );
        assert_eq!(
            subscription.data_producer_available(&server, ctx).unwrap_err(),
            SignalError::Unauthorized
        );
    }
    assert!(!server.deliver(SessionId(77), SessionEvent::ProducerCreated(ProducerId(1))));
}

#[test]
fn operations_on_missing_resources_are_refused() {
    let mut server = staged();
    let mutation = MutationRoot;
    let web = server
        .session_from_token_with_ids(SessionToken(0xB), SessionId(2), RoomId(51))
        .unwrap();
    let ctx = Some(web);
    assert_eq!(
        mutation.connect_webrtc_transport(&server, ctx, TransportId(1)),
        Err(SignalError::TransportNotFound)
    );
    assert_eq!(
        mutation.produce(&server, ctx, TransportId(1), MediaKind::Video),
        Err(SignalError::TransportNotFound)
    );
    assert_eq!(
        mutation.produce_plain(&server, ctx, TransportId(1), MediaKind::Video),
        Err(SignalError::TransportNotFound)
    );
    assert_eq!(
        mutation.consume_data(&server, ctx, TransportId(1), DataProducerId(1)),
        Err(SignalError::TransportNotFound)
    );
    assert_eq!(
        mutation.produce_data(&server, ctx, TransportId(1)),
        Err(SignalError::TransportNotFound)
    );
    assert_eq!(
        mutation
            .consume(&server, ctx, TransportId(1), ProducerId(1))
            .unwrap_err(),
        SignalError::TransportNotFound
    );
    assert_eq!(
        mutation.consumer_resume(&server, ctx, ConsumerId(1)),
        Err(SignalError::ConsumerNotFound)
    );

    // a plain transport is no WebRTC transport, and the other way round
    assert!(server.deliver(SessionId(2), SessionEvent::PlainTransportCreated(TransportId(1))));
    assert_eq!(
        mutation.produce(&server, ctx, TransportId(1), MediaKind::Video),
        Err(SignalError::TransportNotFound)
    );
    assert_eq!(
        mutation.produce_plain(&server, ctx, TransportId(1), MediaKind::Video),
        Ok(vulcan_relay::session::ProduceRequest {
            transport_id: TransportId(1),
            kind: MediaKind::Video
        })
    );
    let request = mutation.create_plain_transport(&server, ctx).unwrap();
    assert!(request.comedia);
    assert_eq!(request.listen_ip.ip, "127.0.0.1");
    assert_eq!(request.listen_ip.announced_ip.as_deref(), Some("203.0.113.7"));

    // capabilities are asked for once the transport is there
    assert!(server.deliver(SessionId(2), SessionEvent::WebRtcTransportCreated(TransportId(2))));
    assert_eq!(
        mutation
            .consume(&server, ctx, TransportId(2), ProducerId(1))
            .unwrap_err(),
        SignalError::MissingRtpCapabilities
    );
    assert_eq!(
        mutation.rtp_capabilities(&mut server, ctx, RtpCapabilities("first".into())),
        Ok(true)
    );
    assert_eq!(
        mutation.rtp_capabilities(&mut server, ctx, RtpCapabilities("second".into())),
        Ok(true)
    );
    let request = mutation
        .consume(&server, ctx, TransportId(2), ProducerId(1))
        .unwrap();
    assert_eq!(request.rtp_capabilities.0, "second");
    assert_eq!(
        web.upgrade(&server).unwrap().get_rtp_capabilities().unwrap().0,
        "second"
    );

    assert!(server.deliver(SessionId(2), SessionEvent::ConsumerCreated(ConsumerId(5))));
    assert_eq!(
        mutation.consumer_resume(&server, ctx, ConsumerId(5)),
        Ok(ConsumerId(5))
    );
}

#[test]
fn a_transport_connects_once() {
    let mut server = staged();
    let mutation = MutationRoot;
    let web = server
        .session_from_token_with_ids(SessionToken(0xB), SessionId(2), RoomId(51))
        .unwrap();
    let ctx = Some(web);
    assert!(server.deliver(SessionId(2), SessionEvent::WebRtcTransportCreated(TransportId(1))));
    assert_eq!(
        web.upgrade(&server).unwrap().get_webrtc_transport(TransportId(1)),
        Some(Lifecycle::Created)
    );
    assert_eq!(
        mutation.connect_webrtc_transport(&server, ctx, TransportId(1)),
        Ok(TransportId(1))
    );
    assert!(server.deliver(SessionId(2), SessionEvent::TransportConnected(TransportId(1))));
    assert_eq!(
        web.upgrade(&server).unwrap().get_webrtc_transport(TransportId(1)),
        Some(Lifecycle::Connected)
    );
    assert_eq!(
        mutation.connect_webrtc_transport(&server, ctx, TransportId(1)),
        Err(SignalError::WorkerError)
    );
    // closure is final
    assert!(server.deliver(
        SessionId(2),
        SessionEvent::Closed(Resource::WebrtcTransport, 1)
    ));
    assert_eq!(
        mutation.connect_webrtc_transport(&server, ctx, TransportId(1)),
        Err(SignalError::WorkerError)
    );
    assert_eq!(
        web.upgrade(&server).unwrap().get_webrtc_transport(TransportId(1)),
        Some(Lifecycle::Closed)
    );
    // an event about a transport that the session does not hold changes nothing
    assert!(server.deliver(SessionId(2), SessionEvent::TransportConnected(TransportId(9))));
    assert_eq!(
        web.upgrade(&server).unwrap().get_webrtc_transport(TransportId(9)),
        None
    );
    assert_eq!(
        web.upgrade(&server).unwrap().get_plain_transport(TransportId(1)),
        None
    );
}

#[test]
fn quotas_by_kind() {
    let mut server = staged();
    let mutation = MutationRoot;
    let web = server
        .session_from_token_with_ids(SessionToken(0xB), SessionId(2), RoomId(51))
        .unwrap();
    let ctx = Some(web);
    assert!(server.deliver(SessionId(2), SessionEvent::WebRtcTransportCreated(TransportId(1))));
    assert!(server.deliver(
        SessionId(2),
        SessionEvent::RtpCapabilities(RtpCapabilities("{}".into()))
    ));

    assert_eq!(ResourceGuard::new(Resource::Consumer).limit, 2);
    assert_eq!(ResourceGuard::new(Resource::Producer).limit, 2);
    assert_eq!(ResourceGuard::new(Resource::DataProducer).limit, 2);
    assert_eq!(ResourceGuard::new(Resource::WebrtcTransport).limit, 2);
    assert_eq!(ResourceGuard::new(Resource::PlainTransport).limit, 2);
    assert_eq!(ResourceGuard::new(Resource::DataConsumer).limit, 128);
    assert_eq!(ResourceGuard::new(Resource::DataConsumer).expected, 1);

    for id in 0..2 {
        assert!(mutation.produce(&server, ctx, TransportId(1), MediaKind::Audio).is_ok());
        assert!(server.deliver(SessionId(2), SessionEvent::ProducerCreated(ProducerId(id))));
        assert!(mutation.produce_data(&server, ctx, TransportId(1)).is_ok());
        assert!(server.deliver(
            SessionId(2),
            SessionEvent::DataProducerCreated(DataProducerId(id))
        ));
        assert!(mutation
            .consume(&server, ctx, TransportId(1), ProducerId(id))
            .is_ok());
        assert!(server.deliver(SessionId(2), SessionEvent::ConsumerCreated(ConsumerId(id))));
        assert!(mutation.create_plain_transport(&server, ctx).is_ok());
        assert!(server.deliver(
            SessionId(2),
            SessionEvent::PlainTransportCreated(TransportId(10 + id))
        ));
    }
    assert_eq!(
        mutation.produce(&server, ctx, TransportId(1), MediaKind::Audio),
        Err(SignalError::ResourceLimitExceeded(Resource::Producer, 2))
    );
    // the limit comes before the look at the transport
    assert_eq!(
        mutation.produce_plain(&server, ctx, TransportId(99), MediaKind::Audio),
        Err(SignalError::ResourceLimitExceeded(Resource::Producer, 2))
    );
    assert_eq!(
        mutation.produce_data(&server, ctx, TransportId(1)),
        Err(SignalError::ResourceLimitExceeded(Resource::DataProducer, 2))
    );
    assert_eq!(
        mutation
            .consume(&server, ctx, TransportId(1), ProducerId(0))
            .unwrap_err(),
        SignalError::ResourceLimitExceeded(Resource::Consumer, 2)
    );
    assert_eq!(
        mutation.create_plain_transport(&server, ctx).unwrap_err(),
        SignalError::ResourceLimitExceeded(Resource::PlainTransport, 2)
    );

    for id in 0..128 {
        assert!(mutation
            .consume_data(&server, ctx, TransportId(1), DataProducerId(0))
            .is_ok());
        assert!(server.deliver(
            SessionId(2),
            SessionEvent::DataConsumerCreated(DataConsumerId(id))
        ));
    }
    assert_eq!(
        mutation.consume_data(&server, ctx, TransportId(1), DataProducerId(0)),
        Err(SignalError::ResourceLimitExceeded(Resource::DataConsumer, 128))
    );
    let session = web.upgrade(&server).unwrap();
    assert_eq!(session.get_resource_count(&Resource::DataConsumer), 128);
    assert_eq!(session.get_resource_count(&Resource::Producer), 2);
    assert_eq!(session.get_resource_count(&Resource::WebrtcTransport), 1);

    let guard = ResourceGuard {
        resource: Resource::Producer,
        expected: usize::MAX,
        limit: 3,
    };
    assert_eq!(
        guard.check(session),
        Err(SignalError::ResourceLimitExceeded(Resource::Producer, 3))
    );
    let guard = ResourceGuard {
        resource: Resource::Producer,
        expected: 1,
        limit: 3,
    };
    assert_eq!(guard.check(session), Ok(()));
}

#[test]
fn routers_are_made_once() {
    let mut server = staged();
    let query = QueryRoot;
    let web = server
        .session_from_token_with_ids(SessionToken(0xB), SessionId(2), RoomId(51))
        .unwrap();
    assert_eq!(query.server_rtp_capabilities(&server, Some(web)), Ok(None));
    assert_eq!(
        server.offer_router(RoomId(51), RouterId(7)),
        Some(RouterId(7))
    );
    assert_eq!(
        server.offer_router(RoomId(51), RouterId(8)),
        Some(RouterId(7))
    );
    assert_eq!(
        query.server_rtp_capabilities(&server, Some(web)),
        Ok(Some(RouterId(7)))
    );
    assert_eq!(server.offer_router(RoomId(99), RouterId(8)), None);
    assert_eq!(
        WeakRoom { id: RoomId(51) }
            .upgrade(&server)
            .unwrap()
            .get_router(),
        Some(RouterId(7))
    );
    assert_eq!(server.media_codecs().len(), 5);
}

#[test]
fn snapshot_skips_closed_and_foreign_producers() {
    let mut server = staged();
    assert_eq!(
        server.register_session_with_token(fsid("other"), SessionOptions::Vulcast, SessionToken(0xC)),
        Ok(SessionToken(0xC))
    );
    server
        .session_from_token_with_ids(SessionToken(0xA), SessionId(1), RoomId(50))
        .unwrap();
    server
        .session_from_token_with_ids(SessionToken(0xB), SessionId(2), RoomId(51))
        .unwrap();
    server
        .session_from_token_with_ids(SessionToken(0xC), SessionId(3), RoomId(52))
        .unwrap();
    assert!(server.deliver(SessionId(1), SessionEvent::ProducerCreated(ProducerId(10))));
    assert!(server.deliver(SessionId(1), SessionEvent::ProducerCreated(ProducerId(11))));
    assert!(server.deliver(SessionId(2), SessionEvent::ProducerCreated(ProducerId(12))));
    assert!(server.deliver(SessionId(3), SessionEvent::ProducerCreated(ProducerId(13))));
    assert!(server.deliver(SessionId(2), SessionEvent::DataProducerCreated(DataProducerId(20))));
    assert!(server.deliver(SessionId(1), SessionEvent::Closed(Resource::Producer, 11)));

    let (mut producers, _) = server.available_producers(RoomId(50)).unwrap();
    producers.sort_by_key(|id| id.0);
    assert_eq!(producers, vec![ProducerId(10), ProducerId(12)]);
    let (data_producers, _) = server.available_data_producers(RoomId(50)).unwrap();
    assert_eq!(data_producers, vec![DataProducerId(20)]);
    let (producers, _) = server.available_producers(RoomId(52)).unwrap();
    assert_eq!(producers, vec![ProducerId(13)]);
    assert!(server.available_producers(RoomId(51)).is_none());
    assert!(server.available_data_producers(RoomId(51)).is_none());

    // a producer that is dropped by its session is shown no longer
    let mut taken = server.take_session(&fsid("web")).unwrap();
    assert!(taken.remove_producer(ProducerId(12)));
    assert!(!taken.remove_producer(ProducerId(12)));
    assert!(taken.remove_data_producer(DataProducerId(20)));
    let (producers, _) = server.available_producers(RoomId(50)).unwrap();
    assert_eq!(producers, vec![ProducerId(10)]);
}

#[test]
fn announcements_reach_subscribers_in_order() {
    let mut server = staged();
    server
        .session_from_token_with_ids(SessionToken(0xA), SessionId(1), RoomId(50))
        .unwrap();
    // nobody listens: the announcement is dropped
    assert!(server.deliver(SessionId(1), SessionEvent::ProducerCreated(ProducerId(1))));
    let (snapshot, mut first) = server.available_producers(RoomId(50)).unwrap();
    assert_eq!(snapshot, vec![ProducerId(1)]);
    assert!(matches!(first.try_recv(), Err(TryRecvError::Empty)));
    assert!(server.deliver(SessionId(1), SessionEvent::ProducerCreated(ProducerId(2))));
    let (_, mut second) = server.available_data_producers(RoomId(50)).unwrap();
    assert!(server.deliver(SessionId(1), SessionEvent::DataProducerCreated(DataProducerId(3))));
    assert_eq!(first.try_recv().unwrap(), Message::ProducerAvailable(ProducerId(2)));
    assert_eq!(
        first.try_recv().unwrap(),
        Message::DataProducerAvailable(DataProducerId(3))
    );
    assert!(matches!(first.try_recv(), Err(TryRecvError::Empty)));
    assert_eq!(
        second.try_recv().unwrap(),
        Message::DataProducerAvailable(DataProducerId(3))
    );
    // an event that opens nothing announces nothing
    assert!(server.deliver(SessionId(1), SessionEvent::ConsumerCreated(ConsumerId(4))));
    assert!(matches!(first.try_recv(), Err(TryRecvError::Empty)));

    // a subscriber that lags by more than the bus retains is told so and goes on
    for id in 0..20 {
        assert!(server.deliver(SessionId(1), SessionEvent::ProducerCreated(ProducerId(100 + id))));
    }
    assert!(matches!(first.try_recv(), Err(TryRecvError::Lagged(4))));
    assert_eq!(
        first.try_recv().unwrap(),
        Message::ProducerAvailable(ProducerId(104))
    );
    assert_eq!(Message::ProducerAvailable(ProducerId(5)).producer(), Some(ProducerId(5)));
    assert_eq!(Message::ProducerAvailable(ProducerId(5)).data_producer(), None);
    assert_eq!(
        Message::DataProducerAvailable(DataProducerId(5)).data_producer(),
        Some(DataProducerId(5))
    );
    assert_eq!(Message::DataProducerAvailable(DataProducerId(5)).producer(), None);
}

#[test]
fn dropped_sessions_are_handed_out_once() {
    let mut server = staged();
    assert!(server.take_dropped().is_empty());
    server
        .session_from_token_with_ids(SessionToken(0xA), SessionId(1), RoomId(50))
        .unwrap();
    server
        .session_from_token_with_ids(SessionToken(0xB), SessionId(2), RoomId(51))
        .unwrap();
    assert!(server.deliver(SessionId(2), SessionEvent::WebRtcTransportCreated(TransportId(7))));
    assert!(server.take_dropped().is_empty());

    // a session that is replaced
    server
        .session_from_token_with_ids(SessionToken(0xB), SessionId(3), RoomId(52))
        .unwrap();
    let dropped = server.take_dropped();
    assert_eq!(dropped.len(), 1);
    assert_eq!(dropped[0].id(), SessionId(2));
    assert_eq!(dropped[0].get_webrtc_transports(), vec![TransportId(7)]);
    assert!(server.take_dropped().is_empty());

    // a session that is taken is handed to the taker, not kept
    let taken = server.take_session(&fsid("web")).unwrap();
    assert_eq!(taken.id(), SessionId(3));
    assert!(server.take_dropped().is_empty());

    // sessions that go with their room, or with their registration
    server
        .session_from_token_with_ids(SessionToken(0xB), SessionId(4), RoomId(53))
        .unwrap();
    assert_eq!(server.unregister_session(fsid("vulcast")), Ok(()));
    let mut ids: Vec<SessionId> = server.take_dropped().iter().map(|s| s.id()).collect();
    ids.sort_by_key(|id| id.0);
    assert_eq!(ids, vec![SessionId(1), SessionId(4)]);
    assert!(server.take_dropped().is_empty());
    // unregistering what is not live leaves nothing to hand out
    assert_eq!(
        server.register_session_with_token(fsid("idle"), SessionOptions::Vulcast, SessionToken(0xD)),
        Ok(SessionToken(0xD))
    );
    assert_eq!(server.unregister_session(fsid("idle")), Ok(()));
    assert!(server.take_dropped().is_empty());
}

#[test]
fn what_always_holds_on_an_example() {
    let mut server = staged();
    server
        .session_from_token_with_ids(SessionToken(0xA), SessionId(1), RoomId(50))
        .unwrap();
    server
        .session_from_token_with_ids(SessionToken(0xB), SessionId(2), RoomId(51))
        .unwrap();
    // the Vulcast of a room is registered as one
    let vulcast = server.registry().vulcast_of_room(&frid("ayush")).unwrap();
    assert_eq!(
        server.registry().registration(&vulcast),
        Some((SessionToken(0xA), SessionOptions::Vulcast))
    );
    // a token admits one session at a time, under one session id
    for (token, id) in [(0xA, "vulcast"), (0xB, "web")] {
        let (holder, _) = server.registry().resolve_token(SessionToken(token)).unwrap();
        assert_eq!(holder, fsid(id));
        assert!(server.get_session(&holder).is_some());
    }
    // the live room has its sessions, and they name it
    let room = WeakRoom { id: RoomId(50) }.upgrade(&server).unwrap();
    assert!(!room.is_empty());
    for id in [SessionId(1), SessionId(2)] {
        assert!(room.has_session(id));
        assert_eq!(WeakSession { id }.upgrade(&server).unwrap().get_room(), RoomId(50));
    }
    assert_eq!(server.sessions().len(), 2);
}

#[test]
fn closures_are_told_to_the_session() {
    let mut server = staged();
    let subscription = SubscriptionRoot;
    let web = server
        .session_from_token_with_ids(SessionToken(0xB), SessionId(2), RoomId(51))
        .unwrap();
    let ctx = Some(web);
    assert!(server.deliver(SessionId(2), SessionEvent::WebRtcTransportCreated(TransportId(1))));
    assert!(server.deliver(SessionId(2), SessionEvent::PlainTransportCreated(TransportId(2))));
    assert!(server.deliver(SessionId(2), SessionEvent::ProducerCreated(ProducerId(3))));
    assert!(server.deliver(SessionId(2), SessionEvent::ConsumerCreated(ConsumerId(4))));
    assert!(server.deliver(SessionId(2), SessionEvent::DataProducerCreated(DataProducerId(5))));
    assert!(server.deliver(SessionId(2), SessionEvent::DataConsumerCreated(DataConsumerId(6))));

    let mut transports = subscription.transport_closed(&server, ctx).unwrap();
    let mut producers = subscription.producer_closed(&server, ctx).unwrap();
    let mut consumers = subscription.consumer_closed(&server, ctx).unwrap();
    let mut data_producers = subscription.data_producer_closed(&server, ctx).unwrap();
    let mut data_consumers = subscription.data_consumer_closed(&server, ctx).unwrap();

    let closures = [
        (Resource::Producer, 3),
        (Resource::WebrtcTransport, 1),
        (Resource::DataConsumer, 6),
        (Resource::PlainTransport, 2),
        (Resource::Consumer, 4),
        (Resource::DataProducer, 5),
    ];
    for (resource, id) in closures {
        assert!(server.deliver(SessionId(2), SessionEvent::Closed(resource, id)));
    }
    // a closure is told once: closing again, or closing what is not held, tells nothing
    assert!(server.deliver(SessionId(2), SessionEvent::Closed(Resource::Producer, 3)));
    assert!(server.deliver(SessionId(2), SessionEvent::Closed(Resource::Producer, 99)));

    let mut told = Vec::new();
    while let Ok(closed) = transports.try_recv() {
        told.push(closed);
    }
    let expected: Vec<ClosedResource> = closures
        .iter()
        .map(|(resource, id)| ClosedResource { resource: *resource, id: *id })
        .collect();
    assert_eq!(told, expected);

    let mut ids = Vec::new();
    while let Ok(closed) = producers.try_recv() {
        ids.extend(closed.producer());
    }
    assert_eq!(ids, vec![ProducerId(3)]);
    let mut ids = Vec::new();
    while let Ok(closed) = consumers.try_recv() {
        ids.extend(closed.consumer());
    }
    assert_eq!(ids, vec![ConsumerId(4)]);
    let mut ids = Vec::new();
    while let Ok(closed) = data_producers.try_recv() {
        ids.extend(closed.data_producer());
    }
    assert_eq!(ids, vec![DataProducerId(5)]);
    let mut ids = Vec::new();
    while let Ok(closed) = data_consumers.try_recv() {
        ids.extend(closed.data_consumer());
    }
    assert_eq!(ids, vec![DataConsumerId(6)]);
    let ids: Vec<TransportId> = told.iter().filter_map(|closed| closed.transport()).collect();
    assert_eq!(ids, vec![TransportId(1), TransportId(2)]);

    for gone in [None, Some(WeakSession { id: SessionId(77) })] {
        assert_eq!(
            subscription.transport_closed(&server, gone).unwrap_err(),
            SignalError::Unauthorized
        );
        assert_eq!(
            subscription.producer_closed(&server, gone).unwrap_err(),
            SignalError::Unauthorized
        );
        assert_eq!(
            subscription.consumer_closed(&server, gone).unwrap_err(),
            SignalError::Unauthorized
        );
        assert_eq!(
            subscription.data_producer_closed(&server, gone).unwrap_err(),
            SignalError::Unauthorized
        );
        assert_eq!(
            subscription.data_consumer_closed(&server, gone).unwrap_err(),
            SignalError::Unauthorized
        );
    }
}

#[test]
fn a_closed_resource_stays_closed() {
    let mut server = staged();
    let web = server
        .session_from_token_with_ids(SessionToken(0xB), SessionId(2), RoomId(51))
        .unwrap();
    assert!(server.deliver(SessionId(2), SessionEvent::WebRtcTransportCreated(TransportId(1))));
    assert!(server.deliver(
        SessionId(2),
        SessionEvent::Closed(Resource::WebrtcTransport, 1)
    ));
    assert!(server.deliver(SessionId(2), SessionEvent::TransportConnected(TransportId(1))));
    let session = web.upgrade(&server).unwrap();
    assert_eq!(
        session.get_webrtc_transport(TransportId(1)),
        Some(Lifecycle::Closed)
    );
    assert_eq!(session.get_resource_count(&Resource::WebrtcTransport), 0);
}

#[test]
fn a_held_token_is_admitted_while_nothing_is_live() {
    let mut server = staged();
    assert_eq!(server.sessions().len(), 0);
    let vulcast = server.session_from_token(SessionToken(0xA)).unwrap();
    assert_ne!(vulcast.id, SessionId(0));
    assert_ne!(vulcast.upgrade(&server).unwrap().get_room(), RoomId(0));
    assert_eq!(server.take_session(&fsid("vulcast")).unwrap().id(), vulcast.id);

    assert_eq!(server.sessions().len(), 0);
    let (token, web) = connect(&mut server, Some(SessionToken(0xB)), None).unwrap();
    assert_eq!(token, SessionToken(0xB));
    assert_ne!(web.id, SessionId(0));
    assert_eq!(server.get_session(&fsid("web")).unwrap().id(), web.id);
}

//! The signalling operations as a client sees them: each one finds the
//! session attached to the connection, applies the quota that guards it, and
//! only then decides the operation itself.

use crate::holdings::Lifecycle;
use crate::relay_server::{RelayServer, SessionToken};
use crate::room::{Message, RouterId, WeakRoom};
use crate::session::{
    values_of, ClosedResource, ConsumeDataRequest, ConsumeRequest, ConsumerId, DataProducerId,
    MediaKind,
    PlainTransportRequest, ProduceDataRequest, ProduceRequest, ProducerId, Resource,
    RtpCapabilities, Session, SessionError, SessionEvent, SessionState, TransportId,
    WeakSession, WebRtcTransportRequest,
};
use crate::state::ServerState;
use tokio::sync::broadcast::Receiver;
use vstd::prelude::*;

verus! {

/// Why a signalling operation was refused.
#[derive(Debug, Clone, Copy, PartialEq, Eq, Structural)]
pub enum SignalError {
    /// No live session is attached to the connection.
    Unauthorized,
    /// The operation would take the session over its limit for the resource.
    ResourceLimitExceeded(Resource, usize),
    TransportNotFound,
    ConsumerNotFound,
    MissingRtpCapabilities,
    WorkerError,
}

/// The refusal that a client is shown for a refusal by its session.
pub open spec fn refusal_of(error: SessionError) -> SignalError {
    match error {
        SessionError::TransportNotFound => SignalError::TransportNotFound,
        SessionError::ConsumerNotFound => SignalError::ConsumerNotFound,
        SessionError::MissingRtpCapabilities => SignalError::MissingRtpCapabilities,
        SessionError::WorkerError => SignalError::WorkerError,
    }
}

impl SignalError {
    /// The refusal that a client is shown for a refusal by its session.
    pub fn from_session_error(error: SessionError) -> (refusal: SignalError)
        ensures
            refusal == refusal_of(error),
    {
        match error {
            SessionError::TransportNotFound => SignalError::TransportNotFound,
            SessionError::ConsumerNotFound => SignalError::ConsumerNotFound,
            SessionError::MissingRtpCapabilities => SignalError::MissingRtpCapabilities,
            SessionError::WorkerError => SignalError::WorkerError,
        }
    }
}

/// How many resources of a kind a session may hold open, unless told otherwise.
pub open spec fn default_limit(resource: Resource) -> usize {
    match resource {
        Resource::DataConsumer => 128,
        _ => 2,
    }
}

/// The quota on an operation that allocates one resource of kind
/// `resource`, at the default limit of the kind.
pub open spec fn guard_on(resource: Resource) -> ResourceGuard {
    ResourceGuard { resource, expected: 1, limit: default_limit(resource) }
}

/// A quota on one kind of resource.
#[derive(Debug, Clone, Copy, PartialEq, Eq, Structural)]
pub struct ResourceGuard {
    /// The kind of resource that the quota is on.
    pub resource: Resource,
    /// How many resources of the kind the guarded operation allocates.
    pub expected: usize,
    /// How many resources of the kind a session may hold open.
    pub limit: usize,
}

impl ResourceGuard {
    /// The quota on an operation that allocates one resource of kind
    /// `resource`, at the default limit of the kind.
    pub fn new(resource: Resource) -> (guard: ResourceGuard)
        ensures
            guard == guard_on(resource),
    {
        let limit: usize = match resource {
            Resource::DataConsumer => 128,
            _ => 2,
        };
        ResourceGuard { resource, expected: 1, limit }
    }

    /// The session stays within the limit when the operation goes ahead.
    pub open spec fn admits(&self, session: SessionState) -> bool {
        session.resource_count(self.resource) + self.expected <= self.limit
    }

    /// Lets the operation pass when the session stays within the limit.
    pub fn check(&self, session: &Session) -> (result: Result<(), SignalError>)
        requires
            session.wf(),
        ensures
            result == (if self.admits(session@) {
                Ok::<(), SignalError>(())
            } else {
                Err(SignalError::ResourceLimitExceeded(self.resource, self.limit))
            }),
    {
        let count = session.get_resource_count(&self.resource);
        if self.expected <= self.limit && count <= self.limit - self.expected {
            Ok(())
        } else {
            Err(SignalError::ResourceLimitExceeded(self.resource, self.limit))
        }
    }
}

/// The live session that the connection context `ctx` stands for, if any.
pub open spec fn session_in_ctx(server: ServerState, ctx: Option<WeakSession>) -> Option<
    SessionState,
> {
    match ctx {
        Some(weak) => if server.session_id_live(weak.id.0) {
            Some(server.sessions[server.bearer_of(weak.id.0)])
        } else {
            None
        },
        None => None,
    }
}

/// Whether an operation under `guard` may go ahead on the connection `ctx`:
/// the session it runs on, or the refusal.
pub open spec fn admission(
    server: ServerState,
    ctx: Option<WeakSession>,
    guard: Option<ResourceGuard>,
) -> Result<SessionState, SignalError> {
    match session_in_ctx(server, ctx) {
        None => Err(SignalError::Unauthorized),
        Some(session) => match guard {
            Some(guard) => if guard.admits(session) {
                Ok(session)
            } else {
                Err(SignalError::ResourceLimitExceeded(guard.resource, guard.limit))
            },
            None => Ok(session),
        },
    }
}

/// The live session attached to the connection, or `Unauthorized`.
pub fn session_from_ctx<'a>(server: &'a RelayServer, ctx: Option<WeakSession>) -> (result: Result<
    &'a Session,
    SignalError,
>)
    requires
        server.wf(),
    ensures
        match result {
            Ok(session) => session.wf() && session_in_ctx(server@, ctx) == Some(session@),
            Err(error) => error == SignalError::Unauthorized && session_in_ctx(server@, ctx)
                is None,
        },
{
    match ctx {
        Some(weak) => match weak.upgrade(server) {
            Some(session) => Ok(session),
            None => Err(SignalError::Unauthorized),
        },
        None => Err(SignalError::Unauthorized),
    }
}

/// The live session attached to the connection, if it passes `guard`.
pub fn guarded_session<'a>(
    server: &'a RelayServer,
    ctx: Option<WeakSession>,
    guard: Option<ResourceGuard>,
) -> (result: Result<&'a Session, SignalError>)
    requires
        server.wf(),
    ensures
        match result {
            Ok(session) => session.wf() && admission(server@, ctx, guard) == Ok::<
                SessionState,
                SignalError,
            >(session@),
            Err(error) => admission(server@, ctx, guard) == Err::<SessionState, SignalError>(
                error,
            ),
        },
{
    let session = match session_from_ctx(server, ctx) {
        Ok(session) => session,
        Err(error) => {
            return Err(error);
        },
    };
    match guard {
        Some(guard) => match guard.check(session) {
            Ok(_) => Ok(session),
            Err(error) => Err(error),
        },
        None => Ok(session),
    }
}

/// The token that a connection presents: the one among its connection
/// parameters if there is one, else the one in its cookie.
pub open spec fn presented(
    param_token: Option<SessionToken>,
    cookie_token: Option<SessionToken>,
) -> Option<SessionToken> {
    match param_token {
        Some(token) => Some(token),
        None => cookie_token,
    }
}

/// The token that a connection presents: the one among its connection
/// parameters if there is one, else the one in its cookie.
pub fn presented_token(
    param_token: Option<SessionToken>,
    cookie_token: Option<SessionToken>,
) -> (token: Option<SessionToken>)
    ensures
        token == presented(param_token, cookie_token),
{
    match param_token {
        Some(token) => Some(token),
        None => cookie_token,
    }
}

/// The identifier of the session that a connection was admitted as, if it
/// was admitted.
pub open spec fn admitted_id(admitted: Option<(SessionToken, WeakSession)>) -> Option<u128> {
    match admitted {
        Some((_, weak)) => Some(weak.id.0),
        None => None,
    }
}

/// Admits a connection on the token it presents: what
/// `RelayServer::session_from_token` makes of that token, together with the
/// token. A connection that presents no token is not admitted, and nothing
/// changes.
pub fn connect(
    server: &mut RelayServer,
    param_token: Option<SessionToken>,
    cookie_token: Option<SessionToken>,
) -> (admitted: Option<(SessionToken, WeakSession)>)
    requires
        old(server).wf(),
    ensures
        final(server).wf(),
        match presented(param_token, cookie_token) {
            Some(token) => {
                &&& exists|session_id: u128, room_id: u128|
                    session_id != 0 && room_id != 0 && #[trigger] old(server)@.connection(
                        token.0,
                        session_id,
                        room_id,
                    ) == (admitted_id(admitted), final(server)@)
                &&& old(server)@.registry.token_in_use(token.0) && old(server)@.idle()
                    ==> admitted is Some
            },
            None => admitted is None && final(server)@ == old(server)@,
        },
        match admitted {
            Some((token, weak)) => {
                &&& presented(param_token, cookie_token) == Some(token)
                &&& old(server)@.registry.token_in_use(token.0)
                &&& !old(server)@.session_id_live(weak.id.0)
                &&& exists|room_id: u128|
                    !old(server)@.room_id_live(room_id) && final(server)@ == #[trigger] old(
                        server,
                    )@.admitted(token.0, weak.id.0, room_id)
            },
            None => final(server)@ == old(server)@,
        },
{
    match presented_token(param_token, cookie_token) {
        Some(token) => match server.session_from_token(token) {
            Some(weak) => Some((token, weak)),
            None => None,
        },
        None => None,
    }
}

/// The queries of the signalling interface.
#[derive(Debug, Default)]
pub struct QueryRoot;

/// The mutations of the signalling interface.
#[derive(Debug, Default)]
pub struct MutationRoot;

/// The subscriptions of the signalling interface.
#[derive(Debug, Default)]
pub struct SubscriptionRoot;

impl QueryRoot {
    /// The router whose capabilities the client asks for: that of the
    /// session's room, or nothing while the worker has yet to create it.
    pub fn server_rtp_capabilities(&self, server: &RelayServer, ctx: Option<WeakSession>) -> (result:
        Result<Option<RouterId>, SignalError>)
        requires
            server.wf(),
        ensures
            result == (match admission(server@, ctx, None) {
                Err(error) => Err::<Option<RouterId>, SignalError>(error),
                Ok(session) => Ok(
                    match server@.rooms[server@.key_of_room(session.room)].router {
                        Some(router) => Some(RouterId(router)),
                        None => None,
                    },
                ),
            }),
    {
        let session = match guarded_session(server, ctx, None) {
            Ok(session) => session,
            Err(error) => {
                return Err(error);
            },
        };
        proof {
            let weak = ctx.unwrap();
            let fsid = server@.bearer_of(weak.id.0);
            assert(server@.sessions.contains_key(fsid));
            crate::laws::live_session_has_one_room(server@, fsid);
        }
        match (WeakRoom { id: session.get_room() }).upgrade(server) {
            Some(room) => Ok(room.get_router()),
            None => Err(SignalError::Unauthorized),
        }
    }
}

impl MutationRoot {
    /// Records the RTP capabilities that the client declares.
    pub fn rtp_capabilities(
        &self,
        server: &mut RelayServer,
        ctx: Option<WeakSession>,
        rtp_capabilities: RtpCapabilities,
    ) -> (result: Result<bool, SignalError>)
        requires
            old(server).wf(),
        ensures
            final(server).wf(),
            match session_in_ctx(old(server)@, ctx) {
                Some(_) => result == Ok::<bool, SignalError>(true)
                    && final(server)@
                        == old(server)@.recorded(
                            ctx.unwrap().id.0,
                            SessionEvent::RtpCapabilities(rtp_capabilities),
                        ),
                None => result == Err::<bool, SignalError>(SignalError::Unauthorized)
                    && final(server)@ == old(server)@,
            },
    {
        match ctx {
            Some(weak) => {
                if server.deliver(weak.id, SessionEvent::RtpCapabilities(rtp_capabilities)) {
                    Ok(true)
                } else {
                    Err(SignalError::Unauthorized)
                }
            },
            None => Err(SignalError::Unauthorized),
        }
    }

    /// What to ask of the worker for a new WebRTC transport, if the session
    /// may have one more.
    pub fn create_webrtc_transport(&self, server: &RelayServer, ctx: Option<WeakSession>) -> (result:
        Result<WebRtcTransportRequest, SignalError>)
        requires
            server.wf(),
        ensures
            match admission(
                server@,
                ctx,
                Some(guard_on(Resource::WebrtcTransport)),
            ) {
                Err(error) => result matches Err(refused) && refused == error,
                Ok(session) => result matches Ok(request) && request.listen_ip@
                    == session.listen_ip && request.enable_sctp,
            },
    {
        match guarded_session(server, ctx, Some(ResourceGuard::new(Resource::WebrtcTransport))) {
            Ok(session) => Ok(session.create_webrtc_transport()),
            Err(error) => Err(error),
        }
    }

    /// What to ask of the worker for a new plain transport, if the session
    /// may have one more.
    pub fn create_plain_transport(&self, server: &RelayServer, ctx: Option<WeakSession>) -> (result:
        Result<PlainTransportRequest, SignalError>)
        requires
            server.wf(),
        ensures
            match admission(server@, ctx, Some(guard_on(Resource::PlainTransport))) {
                Err(error) => result matches Err(refused) && refused == error,
                Ok(session) => result matches Ok(request) && request.listen_ip@
                    == session.listen_ip && request.comedia,
            },
    {
        match guarded_session(server, ctx, Some(ResourceGuard::new(Resource::PlainTransport))) {
            Ok(session) => Ok(session.create_plain_transport()),
            Err(error) => Err(error),
        }
    }

    /// Whether the WebRTC transport `transport_id` of the session may be
    /// connected now.
    pub fn connect_webrtc_transport(
        &self,
        server: &RelayServer,
        ctx: Option<WeakSession>,
        transport_id: TransportId,
    ) -> (result: Result<TransportId, SignalError>)
        requires
            server.wf(),
        ensures
            result == (match admission(server@, ctx, None) {
                Err(error) => Err::<TransportId, SignalError>(error),
                Ok(session) => match session.webrtc_transports.get(transport_id.0) {
                    None => Err(SignalError::TransportNotFound),
                    Some(Lifecycle::Created) => Ok(transport_id),
                    Some(_) => Err(SignalError::WorkerError),
                },
            }),
    {
        match guarded_session(server, ctx, None) {
            Ok(session) => match session.connect_webrtc_transport(transport_id) {
                Ok(id) => Ok(id),
                Err(error) => Err(SignalError::from_session_error(error)),
            },
            Err(error) => Err(error),
        }
    }

    /// What to ask of the worker to consume `producer_id` on the transport
    /// `transport_id`, if the session may have one more consumer.
    pub fn consume(
        &self,
        server: &RelayServer,
        ctx: Option<WeakSession>,
        transport_id: TransportId,
        producer_id: ProducerId,
    ) -> (result: Result<ConsumeRequest, SignalError>)
        requires
            server.wf(),
        ensures
            match admission(server@, ctx, Some(guard_on(Resource::Consumer))) {
                Err(error) => result matches Err(refused) && refused == error,
                Ok(session) => if !session.webrtc_transports.contains_key(transport_id.0) {
                    result matches Err(refused) && refused == SignalError::TransportNotFound
                } else if session.rtp_capabilities is None {
                    result matches Err(refused) && refused == SignalError::MissingRtpCapabilities
                } else {
                    result matches Ok(request) && request.transport_id == transport_id
                        && request.producer_id == producer_id && session.rtp_capabilities == Some(
                        request.rtp_capabilities@,
                    ) && request.paused
                },
            },
    {
        match guarded_session(server, ctx, Some(ResourceGuard::new(Resource::Consumer))) {
            Ok(session) => match session.consume(transport_id, producer_id) {
                Ok(request) => Ok(request),
                Err(error) => Err(SignalError::from_session_error(error)),
            },
            Err(error) => Err(error),
        }
    }

    /// Whether the consumer `consumer_id` of the session can be resumed.
    pub fn consumer_resume(
        &self,
        server: &RelayServer,
        ctx: Option<WeakSession>,
        consumer_id: ConsumerId,
    ) -> (result: Result<ConsumerId, SignalError>)
        requires
            server.wf(),
        ensures
            result == (match admission(server@, ctx, None) {
                Err(error) => Err::<ConsumerId, SignalError>(error),
                Ok(session) => if session.consumers.contains_key(consumer_id.0) {
                    Ok(consumer_id)
                } else {
                    Err(SignalError::ConsumerNotFound)
                },
            }),
    {
        match guarded_session(server, ctx, None) {
            Ok(session) => match session.consumer_resume(consumer_id) {
                Ok(id) => Ok(id),
                Err(error) => Err(SignalError::from_session_error(error)),
            },
            Err(error) => Err(error),
        }
    }

    /// What to ask of the worker to produce media of `kind` on the WebRTC
    /// transport `transport_id`, if the session may have one more producer.
    pub fn produce(
        &self,
        server: &RelayServer,
        ctx: Option<WeakSession>,
        transport_id: TransportId,
        kind: MediaKind,
    ) -> (result: Result<ProduceRequest, SignalError>)
        requires
            server.wf(),
        ensures
            result == (match admission(
                server@,
                ctx,
                Some(guard_on(Resource::Producer)),
            ) {
                Err(error) => Err::<ProduceRequest, SignalError>(error),
                Ok(session) => if session.webrtc_transports.contains_key(transport_id.0) {
                    Ok(ProduceRequest { transport_id, kind })
                } else {
                    Err(SignalError::TransportNotFound)
                },
            }),
    {
        match guarded_session(server, ctx, Some(ResourceGuard::new(Resource::Producer))) {
            Ok(session) => match session.produce(transport_id, kind) {
                Ok(request) => Ok(request),
                Err(error) => Err(SignalError::from_session_error(error)),
            },
            Err(error) => Err(error),
        }
    }

    /// What to ask of the worker to produce media of `kind` on the plain
    /// transport `transport_id`, if the session may have one more producer.
    pub fn produce_plain(
        &self,
        server: &RelayServer,
        ctx: Option<WeakSession>,
        transport_id: TransportId,
        kind: MediaKind,
    ) -> (result: Result<ProduceRequest, SignalError>)
        requires
            server.wf(),
        ensures
            result == (match admission(
                server@,
                ctx,
                Some(guard_on(Resource::Producer)),
            ) {
                Err(error) => Err::<ProduceRequest, SignalError>(error),
                Ok(session) => if session.plain_transports.contains_key(transport_id.0) {
                    Ok(ProduceRequest { transport_id, kind })
                } else {
                    Err(SignalError::TransportNotFound)
                },
            }),
    {
        match guarded_session(server, ctx, Some(ResourceGuard::new(Resource::Producer))) {
            Ok(session) => match session.produce_plain(transport_id, kind) {
                Ok(request) => Ok(request),
                Err(error) => Err(SignalError::from_session_error(error)),
            },
            Err(error) => Err(error),
        }
    }

    /// What to ask of the worker to consume the data producer
    /// `data_producer_id` on the transport `transport_id`, if the session may
    /// have one more data consumer.
    pub fn consume_data(
        &self,
        server: &RelayServer,
        ctx: Option<WeakSession>,
        transport_id: TransportId,
        data_producer_id: DataProducerId,
    ) -> (result: Result<ConsumeDataRequest, SignalError>)
        requires
            server.wf(),
        ensures
            result == (match admission(
                server@,
                ctx,
                Some(guard_on(Resource::DataConsumer)),
            ) {
                Err(error) => Err::<ConsumeDataRequest, SignalError>(error),
                Ok(session) => if session.webrtc_transports.contains_key(transport_id.0) {
                    Ok(ConsumeDataRequest { transport_id, data_producer_id })
                } else {
                    Err(SignalError::TransportNotFound)
                },
            }),
    {
        match guarded_session(server, ctx, Some(ResourceGuard::new(Resource::DataConsumer))) {
            Ok(session) => match session.consume_data(transport_id, data_producer_id) {
                Ok(request) => Ok(request),
                Err(error) => Err(SignalError::from_session_error(error)),
            },
            Err(error) => Err(error),
        }
    }

    /// What to ask of the worker to produce data on the transport
    /// `transport_id`, if the session may have one more data producer.
    pub fn produce_data(
        &self,
        server: &RelayServer,
        ctx: Option<WeakSession>,
        transport_id: TransportId,
    ) -> (result: Result<ProduceDataRequest, SignalError>)
        requires
            server.wf(),
        ensures
            result == (match admission(
                server@,
                ctx,
                Some(guard_on(Resource::DataProducer)),
            ) {
                Err(error) => Err::<ProduceDataRequest, SignalError>(error),
                Ok(session) => if session.webrtc_transports.contains_key(transport_id.0) {
                    Ok(ProduceDataRequest { transport_id })
                } else {
                    Err(SignalError::TransportNotFound)
                },
            }),
    {
        match guarded_session(server, ctx, Some(ResourceGuard::new(Resource::DataProducer))) {
            Ok(session) => match session.produce_data(transport_id) {
                Ok(request) => Ok(request),
                Err(error) => Err(SignalError::from_session_error(error)),
            },
            Err(error) => Err(error),
        }
    }
}

impl SubscriptionRoot {
    /// A subscription to the closures of the session's resources.
    fn closed(server: &RelayServer, ctx: Option<WeakSession>) -> (result: Result<
        Receiver<ClosedResource>,
        SignalError,
    >)
        requires
            server.wf(),
        ensures
            result is Ok <==> session_in_ctx(server@, ctx) is Some,
            match result {
                Ok(_) => true,
                Err(error) => error == SignalError::Unauthorized,
            },
    {
        match session_from_ctx(server, ctx) {
            Ok(session) => Ok(session.closed_resources()),
            Err(error) => Err(error),
        }
    }

    /// The transports of the session that are closed from now on: a
    /// subscription to the session's closures, of which `ClosedResource::transport`
    /// picks the transports.
    pub fn transport_closed(&self, server: &RelayServer, ctx: Option<WeakSession>) -> (result:
        Result<Receiver<ClosedResource>, SignalError>)
        requires
            server.wf(),
        ensures
            result is Ok <==> session_in_ctx(server@, ctx) is Some,
            match result {
                Ok(_) => true,
                Err(error) => error == SignalError::Unauthorized,
            },
    {
        Self::closed(server, ctx)
    }

    /// The producers of the session that are closed from now on: a
    /// subscription to the session's closures, of which `ClosedResource::producer`
    /// picks the producers.
    pub fn producer_closed(&self, server: &RelayServer, ctx: Option<WeakSession>) -> (result:
        Result<Receiver<ClosedResource>, SignalError>)
        requires
            server.wf(),
        ensures
            result is Ok <==> session_in_ctx(server@, ctx) is Some,
            match result {
                Ok(_) => true,
                Err(error) => error == SignalError::Unauthorized,
            },
    {
        Self::closed(server, ctx)
    }

    /// The consumers of the session that are closed from now on: a
    /// subscription to the session's closures, of which `ClosedResource::consumer`
    /// picks the consumers.
    pub fn consumer_closed(&self, server: &RelayServer, ctx: Option<WeakSession>) -> (result:
        Result<Receiver<ClosedResource>, SignalError>)
        requires
            server.wf(),
        ensures
            result is Ok <==> session_in_ctx(server@, ctx) is Some,
            match result {
                Ok(_) => true,
                Err(error) => error == SignalError::Unauthorized,
            },
    {
        Self::closed(server, ctx)
    }

    /// The data producers of the session that are closed from now on: a
    /// subscription to the session's closures, of which
    /// `ClosedResource::data_producer` picks the data producers.
    pub fn data_producer_closed(&self, server: &RelayServer, ctx: Option<WeakSession>) -> (result:
        Result<Receiver<ClosedResource>, SignalError>)
        requires
            server.wf(),
        ensures
            result is Ok <==> session_in_ctx(server@, ctx) is Some,
            match result {
                Ok(_) => true,
                Err(error) => error == SignalError::Unauthorized,
            },
    {
        Self::closed(server, ctx)
    }

    /// The data consumers of the session that are closed from now on: a
    /// subscription to the session's closures, of which
    /// `ClosedResource::data_consumer` picks the data consumers.
    pub fn data_consumer_closed(&self, server: &RelayServer, ctx: Option<WeakSession>) -> (result:
        Result<Receiver<ClosedResource>, SignalError>)
        requires
            server.wf(),
        ensures
            result is Ok <==> session_in_ctx(server@, ctx) is Some,
            match result {
                Ok(_) => true,
                Err(error) => error == SignalError::Unauthorized,
            },
    {
        Self::closed(server, ctx)
    }

    /// The producers of the session's room: those open right now, and a
    /// subscription to the room's bus for those to come.
    pub fn producer_available(&self, server: &RelayServer, ctx: Option<WeakSession>) -> (result:
        Result<(Vec<ProducerId>, Receiver<Message>), SignalError>)
        requires
            server.wf(),
        ensures
            match admission(server@, ctx, None) {
                Err(error) => result matches Err(refused) && refused == error,
                Ok(session) => result matches Ok(feed) && values_of(feed.0@).to_set()
                    == server@.open_in_room(session.room, Resource::Producer),
            },
    {
        let session = match guarded_session(server, ctx, None) {
            Ok(session) => session,
            Err(error) => {
                return Err(error);
            },
        };
        proof {
            let fsid = server@.bearer_of(ctx.unwrap().id.0);
            assert(server@.sessions.contains_key(fsid));
            crate::laws::live_session_has_one_room(server@, fsid);
        }
        match server.available_producers(session.get_room()) {
            Some(feed) => Ok(feed),
            None => Err(SignalError::Unauthorized),
        }
    }

    /// The data producers of the session's room: those open right now, and
    /// a subscription to the room's bus for those to come.
    pub fn data_producer_available(&self, server: &RelayServer, ctx: Option<WeakSession>) -> (result:
        Result<(Vec<DataProducerId>, Receiver<Message>), SignalError>)
        requires
            server.wf(),
        ensures
            match admission(server@, ctx, None) {
                Err(error) => result matches Err(refused) && refused == error,
                Ok(session) => result matches Ok(feed) && values_of(feed.0@).to_set()
                    == server@.open_in_room(session.room, Resource::DataProducer),
            },
    {
        let session = match guarded_session(server, ctx, None) {
            Ok(session) => session,
            Err(error) => {
                return Err(error);
            },
        };
        proof {
            let fsid = server@.bearer_of(ctx.unwrap().id.0);
            assert(server@.sessions.contains_key(fsid));
            crate::laws::live_session_has_one_room(server@, fsid);
        }
        match server.available_data_producers(session.get_room()) {
            Some(feed) => Ok(feed),
            None => Err(SignalError::Unauthorized),
        }
    }
}

} // verus!

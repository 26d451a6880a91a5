//! A session: what one connected peer holds in the media worker, and the
//! decisions taken on each of its signalling operations.
//!
//! The media worker itself is outside the library. An operation that needs
//! it is taken in two steps: the session first decides whether the operation
//! may go ahead and what is asked of the worker; once the worker has
//! answered, the outcome is recorded in the session.

use crate::bus::{bus_open, bus_send, bus_subscribe};
use crate::holdings::{open_ids, Lifecycle, ResourceTable};
use crate::minting::fresh_uuid;
use crate::relay_server::{Role, SessionOptions};
use crate::room::{Message, RoomId};
use tokio::sync::broadcast::{Receiver, Sender};
use vstd::prelude::*;

verus! {

/// Identifier of a live session, minted by the relay.
#[derive(Debug, Clone, Copy, PartialEq, Eq, Structural, Hash)]
pub struct SessionId(pub u128);

impl SessionId {
    /// Mints a random identifier.
    pub fn new() -> (id: SessionId)
        ensures
            id.0 != 0,
    {
        SessionId(fresh_uuid())
    }
}

impl Default for SessionId {
    fn default() -> (id: SessionId)
        ensures
            id == SessionId(0),
    {
        SessionId(0)
    }
}

/// Identifier that the worker gave a transport.
#[derive(Debug, Clone, Copy, PartialEq, Eq, Structural, Hash)]
pub struct TransportId(pub u128);

/// Identifier that the worker gave a producer.
#[derive(Debug, Clone, Copy, PartialEq, Eq, Structural, Hash)]
pub struct ProducerId(pub u128);

/// Identifier that the worker gave a consumer.
#[derive(Debug, Clone, Copy, PartialEq, Eq, Structural, Hash)]
pub struct ConsumerId(pub u128);

/// Identifier that the worker gave a data producer.
#[derive(Debug, Clone, Copy, PartialEq, Eq, Structural, Hash)]
pub struct DataProducerId(pub u128);

/// Identifier that the worker gave a data consumer.
#[derive(Debug, Clone, Copy, PartialEq, Eq, Structural, Hash)]
pub struct DataConsumerId(pub u128);

/// An identifier that wraps the 128-bit value the worker gave a resource.
pub trait WorkerId: Sized {
    /// The 128-bit value of the identifier.
    spec fn value(&self) -> u128;

    /// The identifier with the given value.
    fn from_value(value: u128) -> (id: Self)
        ensures
            id.value() == value,
    ;
}

impl WorkerId for TransportId {
    open spec fn value(&self) -> u128 {
        self.0
    }

    fn from_value(value: u128) -> (id: Self) {
        TransportId(value)
    }
}

impl WorkerId for ProducerId {
    open spec fn value(&self) -> u128 {
        self.0
    }

    fn from_value(value: u128) -> (id: Self) {
        ProducerId(value)
    }
}

impl WorkerId for ConsumerId {
    open spec fn value(&self) -> u128 {
        self.0
    }

    fn from_value(value: u128) -> (id: Self) {
        ConsumerId(value)
    }
}

impl WorkerId for DataProducerId {
    open spec fn value(&self) -> u128 {
        self.0
    }

    fn from_value(value: u128) -> (id: Self) {
        DataProducerId(value)
    }
}

impl WorkerId for DataConsumerId {
    open spec fn value(&self) -> u128 {
        self.0
    }

    fn from_value(value: u128) -> (id: Self) {
        DataConsumerId(value)
    }
}

/// The values of a sequence of identifiers.
pub open spec fn values_of<I: WorkerId>(ids: Seq<I>) -> Seq<u128> {
    Seq::new(ids.len(), |i: int| ids[i].value())
}

/// Wraps each value in its identifier type, in order.
pub fn typed<I: WorkerId>(values: Vec<u128>) -> (ids: Vec<I>)
    ensures
        values_of(ids@) == values@,
{
    let mut ids: Vec<I> = Vec::new();
    let mut i: usize = 0;
    while i < values.len()
        invariant
            i <= values.len(),
            ids.len() == i,
            forall|j: int| 0 <= j < i ==> (#[trigger] ids[j]).value() == values[j],
        decreases values.len() - i,
    {
        ids.push(I::from_value(values[i]));
        i = i + 1;
    }
    assert(values_of(ids@) =~= values@);
    ids
}

/// Audio or video.
#[derive(Debug, Clone, Copy, PartialEq, Eq, Structural, Hash)]
pub enum MediaKind {
    Audio,
    Video,
}

/// The kinds of media-worker resource a session can hold.
#[derive(Debug, Clone, Copy, PartialEq, Eq, Structural, Hash)]
pub enum Resource {
    Consumer,
    Producer,
    DataConsumer,
    DataProducer,
    WebrtcTransport,
    PlainTransport,
}

impl Resource {
    /// The name of the kind, as it appears in messages.
    pub fn name(&self) -> (name: &'static str)
        ensures
            name@ == self.spec_name(),
    {
        match self {
            Resource::Consumer => "Consumer",
            Resource::Producer => "Producer",
            Resource::DataConsumer => "DataConsumer",
            Resource::DataProducer => "DataProducer",
            Resource::WebrtcTransport => "WebrtcTransport",
            Resource::PlainTransport => "PlainTransport",
        }
    }

    /// The name of the kind, as it appears in messages.
    pub open spec fn spec_name(&self) -> Seq<char> {
        match self {
            Resource::Consumer => "Consumer"@,
            Resource::Producer => "Producer"@,
            Resource::DataConsumer => "DataConsumer"@,
            Resource::DataProducer => "DataProducer"@,
            Resource::WebrtcTransport => "WebrtcTransport"@,
            Resource::PlainTransport => "PlainTransport"@,
        }
    }
}

/// The address on which the worker listens for media, and the address it
/// announces in its place, if any.
#[derive(Debug)]
pub struct TransportListenIp {
    pub ip: String,
    pub announced_ip: Option<String>,
}

/// A listen address as a mathematical value.
pub struct ListenIp {
    pub ip: Seq<char>,
    pub announced_ip: Option<Seq<char>>,
}

impl View for TransportListenIp {
    type V = ListenIp;

    open spec fn view(&self) -> ListenIp {
        ListenIp {
            ip: self.ip@,
            announced_ip: match self.announced_ip {
                Some(ip) => Some(ip@),
                None => None,
            },
        }
    }
}

impl Clone for TransportListenIp {
    fn clone(&self) -> (res: Self)
        ensures
            res@ == self@,
    {
        TransportListenIp {
            ip: self.ip.clone(),
            announced_ip: match &self.announced_ip {
                Some(ip) => Some(ip.clone()),
                None => None,
            },
        }
    }
}

/// The RTP capabilities a client declared, carried as the document it sent.
#[derive(Debug)]
pub struct RtpCapabilities(pub String);

impl View for RtpCapabilities {
    type V = Seq<char>;

    open spec fn view(&self) -> Seq<char> {
        self.0@
    }
}

impl Clone for RtpCapabilities {
    fn clone(&self) -> (res: Self)
        ensures
            res@ == self@,
    {
        RtpCapabilities(self.0.clone())
    }
}

/// Why a signalling operation on a session was refused.
#[derive(Debug, Clone, Copy, PartialEq, Eq, Structural)]
pub enum SessionError {
    /// The session holds no transport of the required kind under the id.
    TransportNotFound,
    /// The session holds no consumer under the id.
    ConsumerNotFound,
    /// The client has not declared its RTP capabilities yet.
    MissingRtpCapabilities,
    /// The worker refuses, or is known to refuse, the operation.
    WorkerError,
}

/// What is asked of the worker to allocate a WebRTC transport.
#[derive(Debug)]
pub struct WebRtcTransportRequest {
    pub listen_ip: TransportListenIp,
    pub enable_sctp: bool,
}

/// What is asked of the worker to allocate a plain transport.
#[derive(Debug)]
pub struct PlainTransportRequest {
    pub listen_ip: TransportListenIp,
    pub comedia: bool,
}

/// What is asked of the worker to create a consumer.
#[derive(Debug)]
pub struct ConsumeRequest {
    pub transport_id: TransportId,
    pub producer_id: ProducerId,
    pub rtp_capabilities: RtpCapabilities,
    pub paused: bool,
}

/// What is asked of the worker to create a producer.
#[derive(Debug, Clone, Copy, PartialEq, Eq, Structural)]
pub struct ProduceRequest {
    pub transport_id: TransportId,
    pub kind: MediaKind,
}

/// What is asked of the worker to create a data consumer.
#[derive(Debug, Clone, Copy, PartialEq, Eq, Structural)]
pub struct ConsumeDataRequest {
    pub transport_id: TransportId,
    pub data_producer_id: DataProducerId,
}

/// What is asked of the worker to create a data producer.
#[derive(Debug, Clone, Copy, PartialEq, Eq, Structural)]
pub struct ProduceDataRequest {
    pub transport_id: TransportId,
}

/// Something the worker did for a session, to be recorded in it.
#[derive(Debug)]
pub enum SessionEvent {
    /// The client declared its RTP capabilities.
    RtpCapabilities(RtpCapabilities),
    WebRtcTransportCreated(TransportId),
    PlainTransportCreated(TransportId),
    /// The worker connected a WebRTC transport to its remote side.
    TransportConnected(TransportId),
    ConsumerCreated(ConsumerId),
    ProducerCreated(ProducerId),
    DataConsumerCreated(DataConsumerId),
    DataProducerCreated(DataProducerId),
    /// The worker closed the resource of the given kind and identifier.
    Closed(Resource, u128),
}

/// The closure of a resource that a session held, as the session tells its
/// subscribers of it.
#[derive(Debug, Clone, Copy, PartialEq, Eq, Structural)]
pub struct ClosedResource {
    pub resource: Resource,
    pub id: u128,
}

impl ClosedResource {
    /// The transport that was closed, if it was a transport of either kind.
    pub fn transport(&self) -> (id: Option<TransportId>)
        ensures
            id == (if self.resource == Resource::WebrtcTransport || self.resource
                == Resource::PlainTransport {
                Some(TransportId(self.id))
            } else {
                None
            }),
    {
        match self.resource {
            Resource::WebrtcTransport => Some(TransportId(self.id)),
            Resource::PlainTransport => Some(TransportId(self.id)),
            _ => None,
        }
    }

    /// The producer that was closed, if it was a producer.
    pub fn producer(&self) -> (id: Option<ProducerId>)
        ensures
            id == (if self.resource == Resource::Producer {
                Some(ProducerId(self.id))
            } else {
                None
            }),
    {
        match self.resource {
            Resource::Producer => Some(ProducerId(self.id)),
            _ => None,
        }
    }

    /// The consumer that was closed, if it was a consumer.
    pub fn consumer(&self) -> (id: Option<ConsumerId>)
        ensures
            id == (if self.resource == Resource::Consumer {
                Some(ConsumerId(self.id))
            } else {
                None
            }),
    {
        match self.resource {
            Resource::Consumer => Some(ConsumerId(self.id)),
            _ => None,
        }
    }

    /// The data producer that was closed, if it was a data producer.
    pub fn data_producer(&self) -> (id: Option<DataProducerId>)
        ensures
            id == (if self.resource == Resource::DataProducer {
                Some(DataProducerId(self.id))
            } else {
                None
            }),
    {
        match self.resource {
            Resource::DataProducer => Some(DataProducerId(self.id)),
            _ => None,
        }
    }

    /// The data consumer that was closed, if it was a data consumer.
    pub fn data_consumer(&self) -> (id: Option<DataConsumerId>)
        ensures
            id == (if self.resource == Resource::DataConsumer {
                Some(DataConsumerId(self.id))
            } else {
                None
            }),
    {
        match self.resource {
            Resource::DataConsumer => Some(DataConsumerId(self.id)),
            _ => None,
        }
    }
}

/// How many closures a session's bus retains for a subscriber that lags.
pub const CLOSED_CAPACITY: usize = 16;

/// A session as a mathematical value.
#[verifier::ext_equal]
pub struct SessionState {
    pub id: u128,
    pub room: u128,
    pub role: Role,
    pub listen_ip: ListenIp,
    pub rtp_capabilities: Option<Seq<char>>,
    pub consumers: Map<u128, Lifecycle>,
    pub producers: Map<u128, Lifecycle>,
    pub data_consumers: Map<u128, Lifecycle>,
    pub data_producers: Map<u128, Lifecycle>,
    pub webrtc_transports: Map<u128, Lifecycle>,
    pub plain_transports: Map<u128, Lifecycle>,
}

impl SessionState {
    /// The resources of kind `resource` that the session holds.
    pub open spec fn holdings(self, resource: Resource) -> Map<u128, Lifecycle> {
        match resource {
            Resource::Consumer => self.consumers,
            Resource::Producer => self.producers,
            Resource::DataConsumer => self.data_consumers,
            Resource::DataProducer => self.data_producers,
            Resource::WebrtcTransport => self.webrtc_transports,
            Resource::PlainTransport => self.plain_transports,
        }
    }

    /// The session with `table` in place of its resources of kind `resource`.
    pub open spec fn with_holdings(self, resource: Resource, table: Map<u128, Lifecycle>) -> Self {
        match resource {
            Resource::Consumer => SessionState { consumers: table, ..self },
            Resource::Producer => SessionState { producers: table, ..self },
            Resource::DataConsumer => SessionState { data_consumers: table, ..self },
            Resource::DataProducer => SessionState { data_producers: table, ..self },
            Resource::WebrtcTransport => SessionState { webrtc_transports: table, ..self },
            Resource::PlainTransport => SessionState { plain_transports: table, ..self },
        }
    }

    /// The session after it has taken hold of the resource `id` of kind
    /// `resource`, freshly created.
    pub open spec fn holding(self, resource: Resource, id: u128) -> Self {
        self.with_holdings(resource, self.holdings(resource).insert(id, Lifecycle::Created))
    }

    /// The session after it has let go of the resource `id` of kind `resource`.
    pub open spec fn releasing(self, resource: Resource, id: u128) -> Self {
        self.with_holdings(resource, self.holdings(resource).remove(id))
    }

    /// The session holds the resource `id` of kind `resource`, and it is
    /// not closed.
    pub open spec fn holds_open(self, resource: Resource, id: u128) -> bool {
        self.holdings(resource).contains_key(id) && self.holdings(resource)[id]
            != Lifecycle::Closed
    }

    /// The session after the resource `id` of kind `resource` has moved to
    /// `state`. Nothing changes when the session does not hold the resource,
    /// or when the resource is closed: closure is final.
    pub open spec fn moved(self, resource: Resource, id: u128, state: Lifecycle) -> Self {
        if self.holds_open(resource, id) {
            self.with_holdings(resource, self.holdings(resource).insert(id, state))
        } else {
            self
        }
    }

    /// How many resources of kind `resource` the session holds that are not closed.
    pub open spec fn resource_count(self, resource: Resource) -> nat {
        open_ids(self.holdings(resource)).len()
    }

    /// The session after `event` has been recorded.
    pub open spec fn after(self, event: SessionEvent) -> Self {
        match event {
            SessionEvent::RtpCapabilities(caps) => SessionState {
                rtp_capabilities: Some(caps@),
                ..self
            },
            SessionEvent::WebRtcTransportCreated(id) => self.holding(
                Resource::WebrtcTransport,
                id.0,
            ),
            SessionEvent::PlainTransportCreated(id) => self.holding(Resource::PlainTransport, id.0),
            SessionEvent::TransportConnected(id) => self.moved(
                Resource::WebrtcTransport,
                id.0,
                Lifecycle::Connected,
            ),
            SessionEvent::ConsumerCreated(id) => self.holding(Resource::Consumer, id.0),
            SessionEvent::ProducerCreated(id) => self.holding(Resource::Producer, id.0),
            SessionEvent::DataConsumerCreated(id) => self.holding(Resource::DataConsumer, id.0),
            SessionEvent::DataProducerCreated(id) => self.holding(Resource::DataProducer, id.0),
            SessionEvent::Closed(resource, id) => self.moved(resource, id, Lifecycle::Closed),
        }
    }
}

/// The announcement that recording `event` owes to the room, if any.
pub open spec fn announcement_of(event: SessionEvent) -> Option<Message> {
    match event {
        SessionEvent::ProducerCreated(id) => Some(Message::ProducerAvailable(id)),
        SessionEvent::DataProducerCreated(id) => Some(Message::DataProducerAvailable(id)),
        _ => None,
    }
}

/// The resources that one connected peer holds in the media worker.
#[derive(Debug)]
pub struct Session {
    id: SessionId,
    room: RoomId,
    session_options: SessionOptions,
    transport_listen_ip: TransportListenIp,
    client_rtp_capabilities: Option<RtpCapabilities>,
    consumers: ResourceTable,
    producers: ResourceTable,
    data_consumers: ResourceTable,
    data_producers: ResourceTable,
    webrtc_transports: ResourceTable,
    plain_transports: ResourceTable,
    /// The bus on which the session tells of the resources it sees closed.
    closed_tx: Sender<ClosedResource>,
}

/// A handle on a session that does not keep it alive: it resolves for as
/// long as the relay server holds the session.
#[derive(Debug, Clone, Copy, PartialEq, Eq, Structural)]
pub struct WeakSession {
    pub id: SessionId,
}

impl View for Session {
    type V = SessionState;

    closed spec fn view(&self) -> SessionState {
        SessionState {
            id: self.id.0,
            room: self.room.0,
            role: self.session_options@,
            listen_ip: self.transport_listen_ip@,
            rtp_capabilities: match self.client_rtp_capabilities {
                Some(caps) => Some(caps@),
                None => None,
            },
            consumers: self.consumers@,
            producers: self.producers@,
            data_consumers: self.data_consumers@,
            data_producers: self.data_producers@,
            webrtc_transports: self.webrtc_transports@,
            plain_transports: self.plain_transports@,
        }
    }
}

impl Session {
    /// The session's invariant: in each of its tables no identifier occurs twice.
    pub closed spec fn wf(&self) -> bool {
        &&& self.consumers.wf()
        &&& self.producers.wf()
        &&& self.data_consumers.wf()
        &&& self.data_producers.wf()
        &&& self.webrtc_transports.wf()
        &&& self.plain_transports.wf()
    }

    /// A session with identifier `id` in the room `room`, holding nothing.
    pub fn new(
        id: SessionId,
        room: RoomId,
        session_options: SessionOptions,
        transport_listen_ip: TransportListenIp,
    ) -> (session: Session)
        ensures
            session.wf(),
            session@ == (SessionState {
                id: id.0,
                room: room.0,
                role: session_options@,
                listen_ip: transport_listen_ip@,
                rtp_capabilities: None,
                consumers: Map::empty(),
                producers: Map::empty(),
                data_consumers: Map::empty(),
                data_producers: Map::empty(),
                webrtc_transports: Map::empty(),
                plain_transports: Map::empty(),
            }),
    {
        Session {
            id,
            room,
            session_options,
            transport_listen_ip,
            client_rtp_capabilities: None,
            consumers: ResourceTable::new(),
            producers: ResourceTable::new(),
            data_consumers: ResourceTable::new(),
            data_producers: ResourceTable::new(),
            webrtc_transports: ResourceTable::new(),
            plain_transports: ResourceTable::new(),
            closed_tx: bus_open(CLOSED_CAPACITY),
        }
    }

    /// A subscription to the session's closures: the subscriber is told of
    /// every resource that the session sees closed from now on.
    pub fn closed_resources(&self) -> (closures: Receiver<ClosedResource>) {
        bus_subscribe(&self.closed_tx)
    }

    /// The identifier of the session.
    pub fn id(&self) -> (id: SessionId)
        ensures
            id.0 == self@.id,
    {
        self.id
    }

    /// The role that the session was registered with.
    pub fn get_session_options(&self) -> (session_options: SessionOptions)
        ensures
            session_options@ == self@.role,
    {
        self.session_options.clone()
    }

    /// The room that the session belongs to, for as long as it lives.
    pub fn get_room(&self) -> (room: RoomId)
        ensures
            room.0 == self@.room,
    {
        self.room
    }

    /// A handle on the session that does not keep it alive.
    pub fn downgrade(&self) -> (weak: WeakSession)
        ensures
            weak.id.0 == self@.id,
    {
        WeakSession { id: self.id }
    }

    fn table(&self, resource: Resource) -> (table: &ResourceTable)
        requires
            self.wf(),
        ensures
            table.wf(),
            table@ == self@.holdings(resource),
    {
        match resource {
            Resource::Consumer => &self.consumers,
            Resource::Producer => &self.producers,
            Resource::DataConsumer => &self.data_consumers,
            Resource::DataProducer => &self.data_producers,
            Resource::WebrtcTransport => &self.webrtc_transports,
            Resource::PlainTransport => &self.plain_transports,
        }
    }

    fn hold(&mut self, resource: Resource, id: u128)
        requires
            old(self).wf(),
        ensures
            final(self).wf(),
            final(self)@ == old(self)@.holding(resource, id),
    {
        match resource {
            Resource::Consumer => self.consumers.put(id, Lifecycle::Created),
            Resource::Producer => self.producers.put(id, Lifecycle::Created),
            Resource::DataConsumer => self.data_consumers.put(id, Lifecycle::Created),
            Resource::DataProducer => self.data_producers.put(id, Lifecycle::Created),
            Resource::WebrtcTransport => self.webrtc_transports.put(id, Lifecycle::Created),
            Resource::PlainTransport => self.plain_transports.put(id, Lifecycle::Created),
        }
    }

    fn release(&mut self, resource: Resource, id: u128) -> (held: bool)
        requires
            old(self).wf(),
        ensures
            final(self).wf(),
            held == old(self)@.holdings(resource).contains_key(id),
            final(self)@ == old(self)@.releasing(resource, id),
    {
        match resource {
            Resource::Consumer => self.consumers.remove(id),
            Resource::Producer => self.producers.remove(id),
            Resource::DataConsumer => self.data_consumers.remove(id),
            Resource::DataProducer => self.data_producers.remove(id),
            Resource::WebrtcTransport => self.webrtc_transports.remove(id),
            Resource::PlainTransport => self.plain_transports.remove(id),
        }
    }

    fn move_to(&mut self, resource: Resource, id: u128, state: Lifecycle) -> (moved: bool)
        requires
            old(self).wf(),
        ensures
            final(self).wf(),
            moved == old(self)@.holds_open(resource, id),
            final(self)@ == old(self)@.moved(resource, id, state),
    {
        let held = match self.table(resource).get(id) {
            Some(Lifecycle::Closed) => false,
            Some(_) => true,
            None => false,
        };
        if held {
            match resource {
                Resource::Consumer => self.consumers.put(id, state),
                Resource::Producer => self.producers.put(id, state),
                Resource::DataConsumer => self.data_consumers.put(id, state),
                Resource::DataProducer => self.data_producers.put(id, state),
                Resource::WebrtcTransport => self.webrtc_transports.put(id, state),
                Resource::PlainTransport => self.plain_transports.put(id, state),
            }
        }
        held
    }

    /// What to ask of the worker for a new WebRTC transport: one that listens
    /// on the session's address, with SCTP enabled for data channels.
    pub fn create_webrtc_transport(&self) -> (request: WebRtcTransportRequest)
        ensures
            request.listen_ip@ == self@.listen_ip,
            request.enable_sctp,
    {
        WebRtcTransportRequest { listen_ip: self.transport_listen_ip.clone(), enable_sctp: true }
    }

    /// What to ask of the worker for a new plain transport: one that listens
    /// on the session's address and learns the remote address from the first
    /// packet it receives.
    pub fn create_plain_transport(&self) -> (request: PlainTransportRequest)
        ensures
            request.listen_ip@ == self@.listen_ip,
            request.comedia,
    {
        PlainTransportRequest { listen_ip: self.transport_listen_ip.clone(), comedia: true }
    }

    /// Records a WebRTC transport that the worker allocated for the session.
    pub fn add_webrtc_transport(&mut self, id: TransportId)
        requires
            old(self).wf(),
        ensures
            final(self).wf(),
            final(self)@ == old(self)@.holding(Resource::WebrtcTransport, id.0),
    {
        self.hold(Resource::WebrtcTransport, id.0)
    }

    /// Records a plain transport that the worker allocated for the session.
    pub fn add_plain_transport(&mut self, id: TransportId)
        requires
            old(self).wf(),
        ensures
            final(self).wf(),
            final(self)@ == old(self)@.holding(Resource::PlainTransport, id.0),
    {
        self.hold(Resource::PlainTransport, id.0)
    }

    /// The state of the WebRTC transport `id`, if the session holds it.
    pub fn get_webrtc_transport(&self, id: TransportId) -> (state: Option<Lifecycle>)
        requires
            self.wf(),
        ensures
            state == self@.webrtc_transports.get(id.0),
    {
        self.webrtc_transports.get(id.0)
    }

    /// The state of the plain transport `id`, if the session holds it.
    pub fn get_plain_transport(&self, id: TransportId) -> (state: Option<Lifecycle>)
        requires
            self.wf(),
        ensures
            state == self@.plain_transports.get(id.0),
    {
        self.plain_transports.get(id.0)
    }

    /// The state of the consumer `id`, if the session holds it.
    pub fn get_consumer(&self, id: ConsumerId) -> (state: Option<Lifecycle>)
        requires
            self.wf(),
        ensures
            state == self@.consumers.get(id.0),
    {
        self.consumers.get(id.0)
    }

    /// Whether the WebRTC transport `id` may be connected now.
    ///
    /// A transport that the session does not hold is `TransportNotFound`. A
    /// transport connects once: one that is connected or closed already is a
    /// `WorkerError`.
    pub fn connect_webrtc_transport(&self, id: TransportId) -> (result: Result<
        TransportId,
        SessionError,
    >)
        requires
            self.wf(),
        ensures
            result == (match self@.webrtc_transports.get(id.0) {
                None => Err::<TransportId, SessionError>(SessionError::TransportNotFound),
                Some(Lifecycle::Created) => Ok(id),
                Some(_) => Err(SessionError::WorkerError),
            }),
    {
        match self.webrtc_transports.get(id.0) {
            None => Err(SessionError::TransportNotFound),
            Some(Lifecycle::Created) => Ok(id),
            Some(_) => Err(SessionError::WorkerError),
        }
    }

    /// What to ask of the worker to consume `producer_id` on the WebRTC
    /// transport `transport_id`. The consumer is created paused.
    ///
    /// Refused with `TransportNotFound` when the session does not hold the
    /// transport, otherwise with `MissingRtpCapabilities` when the client has
    /// declared none.
    pub fn consume(&self, transport_id: TransportId, producer_id: ProducerId) -> (result: Result<
        ConsumeRequest,
        SessionError,
    >)
        requires
            self.wf(),
        ensures
            match result {
                Ok(request) => self@.webrtc_transports.contains_key(transport_id.0)
                    && self@.rtp_capabilities == Some(request.rtp_capabilities@)
                    && request.transport_id == transport_id && request.producer_id == producer_id
                    && request.paused,
                Err(error) => error == (if !self@.webrtc_transports.contains_key(transport_id.0) {
                    SessionError::TransportNotFound
                } else {
                    SessionError::MissingRtpCapabilities
                }) && (self@.webrtc_transports.contains_key(transport_id.0)
                    ==> self@.rtp_capabilities.is_none()),
            },
    {
        if !self.webrtc_transports.contains(transport_id.0) {
            return Err(SessionError::TransportNotFound);
        }
        match &self.client_rtp_capabilities {
            Some(caps) => Ok(
                ConsumeRequest {
                    transport_id,
                    producer_id,
                    rtp_capabilities: caps.clone(),
                    paused: true,
                },
            ),
            None => Err(SessionError::MissingRtpCapabilities),
        }
    }

    /// Whether the consumer `consumer_id` can be resumed: the session has to hold it.
    pub fn consumer_resume(&self, consumer_id: ConsumerId) -> (result: Result<
        ConsumerId,
        SessionError,
    >)
        requires
            self.wf(),
        ensures
            result == (if self@.consumers.contains_key(consumer_id.0) {
                Ok::<ConsumerId, SessionError>(consumer_id)
            } else {
                Err(SessionError::ConsumerNotFound)
            }),
    {
        if self.consumers.contains(consumer_id.0) {
            Ok(consumer_id)
        } else {
            Err(SessionError::ConsumerNotFound)
        }
    }

    /// What to ask of the worker to produce media of `kind` on the WebRTC
    /// transport `transport_id`.
    pub fn produce(&self, transport_id: TransportId, kind: MediaKind) -> (result: Result<
        ProduceRequest,
        SessionError,
    >)
        requires
            self.wf(),
        ensures
            result == (if self@.webrtc_transports.contains_key(transport_id.0) {
                Ok::<ProduceRequest, SessionError>(ProduceRequest { transport_id, kind })
            } else {
                Err(SessionError::TransportNotFound)
            }),
    {
        if self.webrtc_transports.contains(transport_id.0) {
            Ok(ProduceRequest { transport_id, kind })
        } else {
            Err(SessionError::TransportNotFound)
        }
    }

    /// What to ask of the worker to produce media of `kind` on the plain
    /// transport `transport_id`.
    pub fn produce_plain(&self, transport_id: TransportId, kind: MediaKind) -> (result: Result<
        ProduceRequest,
        SessionError,
    >)
        requires
            self.wf(),
        ensures
            result == (if self@.plain_transports.contains_key(transport_id.0) {
                Ok::<ProduceRequest, SessionError>(ProduceRequest { transport_id, kind })
            } else {
                Err(SessionError::TransportNotFound)
            }),
    {
        if self.plain_transports.contains(transport_id.0) {
            Ok(ProduceRequest { transport_id, kind })
        } else {
            Err(SessionError::TransportNotFound)
        }
    }

    /// What to ask of the worker to consume the data producer
    /// `data_producer_id` on the WebRTC transport `transport_id`.
    pub fn consume_data(
        &self,
        transport_id: TransportId,
        data_producer_id: DataProducerId,
    ) -> (result: Result<ConsumeDataRequest, SessionError>)
        requires
            self.wf(),
        ensures
            result == (if self@.webrtc_transports.contains_key(transport_id.0) {
                Ok::<ConsumeDataRequest, SessionError>(
                    ConsumeDataRequest { transport_id, data_producer_id },
                )
            } else {
                Err(SessionError::TransportNotFound)
            }),
    {
        if self.webrtc_transports.contains(transport_id.0) {
            Ok(ConsumeDataRequest { transport_id, data_producer_id })
        } else {
            Err(SessionError::TransportNotFound)
        }
    }

    /// What to ask of the worker to produce data on the WebRTC transport
    /// `transport_id`.
    pub fn produce_data(&self, transport_id: TransportId) -> (result: Result<
        ProduceDataRequest,
        SessionError,
    >)
        requires
            self.wf(),
        ensures
            result == (if self@.webrtc_transports.contains_key(transport_id.0) {
                Ok::<ProduceDataRequest, SessionError>(ProduceDataRequest { transport_id })
            } else {
                Err(SessionError::TransportNotFound)
            }),
    {
        if self.webrtc_transports.contains(transport_id.0) {
            Ok(ProduceDataRequest { transport_id })
        } else {
            Err(SessionError::TransportNotFound)
        }
    }

    /// Records the capabilities that the client declared, in place of any
    /// declared before.
    pub fn set_rtp_capabilities(&mut self, rtp_capabilities: RtpCapabilities)
        requires
            old(self).wf(),
        ensures
            final(self).wf(),
            final(self)@ == (SessionState {
                rtp_capabilities: Some(rtp_capabilities@),
                ..old(self)@
            }),
    {
        self.client_rtp_capabilities = Some(rtp_capabilities);
    }

    /// The capabilities that the client declared last, if it declared any.
    pub fn get_rtp_capabilities(&self) -> (caps: Option<RtpCapabilities>)
        ensures
            match caps {
                Some(caps) => self@.rtp_capabilities == Some(caps@),
                None => self@.rtp_capabilities.is_none(),
            },
    {
        match &self.client_rtp_capabilities {
            Some(caps) => Some(caps.clone()),
            None => None,
        }
    }

    /// Records a consumer that the worker created for the session.
    pub fn add_consumer(&mut self, consumer: ConsumerId)
        requires
            old(self).wf(),
        ensures
            final(self).wf(),
            final(self)@ == old(self)@.holding(Resource::Consumer, consumer.0),
    {
        self.hold(Resource::Consumer, consumer.0)
    }

    /// Records a producer that the worker created for the session, and hands
    /// back the announcement that the room is owed.
    pub fn add_producer(&mut self, producer: ProducerId) -> (announcement: Message)
        requires
            old(self).wf(),
        ensures
            final(self).wf(),
            final(self)@ == old(self)@.holding(Resource::Producer, producer.0),
            announcement == Message::ProducerAvailable(producer),
    {
        self.hold(Resource::Producer, producer.0);
        Message::ProducerAvailable(producer)
    }

    /// Forgets the producer; says whether the session held it.
    pub fn remove_producer(&mut self, producer: ProducerId) -> (held: bool)
        requires
            old(self).wf(),
        ensures
            final(self).wf(),
            held == old(self)@.producers.contains_key(producer.0),
            final(self)@ == old(self)@.releasing(Resource::Producer, producer.0),
    {
        self.release(Resource::Producer, producer.0)
    }

    /// Records a data producer that the worker created for the session, and
    /// hands back the announcement that the room is owed.
    pub fn add_data_producer(&mut self, data_producer: DataProducerId) -> (announcement: Message)
        requires
            old(self).wf(),
        ensures
            final(self).wf(),
            final(self)@ == old(self)@.holding(Resource::DataProducer, data_producer.0),
            announcement == Message::DataProducerAvailable(data_producer),
    {
        self.hold(Resource::DataProducer, data_producer.0);
        Message::DataProducerAvailable(data_producer)
    }

    /// Forgets the data producer; says whether the session held it.
    pub fn remove_data_producer(&mut self, data_producer: DataProducerId) -> (held: bool)
        requires
            old(self).wf(),
        ensures
            final(self).wf(),
            held == old(self)@.data_producers.contains_key(data_producer.0),
            final(self)@ == old(self)@.releasing(Resource::DataProducer, data_producer.0),
    {
        self.release(Resource::DataProducer, data_producer.0)
    }

    /// Records a data consumer that the worker created for the session.
    pub fn add_data_consumer(&mut self, data_consumer: DataConsumerId)
        requires
            old(self).wf(),
        ensures
            final(self).wf(),
            final(self)@ == old(self)@.holding(Resource::DataConsumer, data_consumer.0),
    {
        self.hold(Resource::DataConsumer, data_consumer.0)
    }

    /// Records `event`, and hands back the announcement that the room is
    /// owed for it, if any. A resource that the event closes is told of on
    /// the session's own bus.
    pub fn record(&mut self, event: SessionEvent) -> (announcement: Option<Message>)
        requires
            old(self).wf(),
        ensures
            final(self).wf(),
            final(self)@ == old(self)@.after(event),
            announcement == announcement_of(event),
    {
        match event {
            SessionEvent::RtpCapabilities(caps) => {
                self.set_rtp_capabilities(caps);
                None
            },
            SessionEvent::WebRtcTransportCreated(id) => {
                self.add_webrtc_transport(id);
                None
            },
            SessionEvent::PlainTransportCreated(id) => {
                self.add_plain_transport(id);
                None
            },
            SessionEvent::TransportConnected(id) => {
                self.move_to(Resource::WebrtcTransport, id.0, Lifecycle::Connected);
                None
            },
            SessionEvent::ConsumerCreated(id) => {
                self.add_consumer(id);
                None
            },
            SessionEvent::ProducerCreated(id) => Some(self.add_producer(id)),
            SessionEvent::DataConsumerCreated(id) => {
                self.add_data_consumer(id);
                None
            },
            SessionEvent::DataProducerCreated(id) => Some(self.add_data_producer(id)),
            SessionEvent::Closed(resource, id) => {
                if self.move_to(resource, id, Lifecycle::Closed) {
                    bus_send(&self.closed_tx, ClosedResource { resource, id });
                }
                None
            },
        }
    }

    /// How many resources of kind `resource` the session holds that are not closed.
    pub fn get_resource_count(&self, resource: &Resource) -> (count: usize)
        requires
            self.wf(),
        ensures
            count == self@.resource_count(*resource),
    {
        self.table(*resource).count_open()
    }

    /// The WebRTC transports that the session holds, closed ones included.
    pub fn get_webrtc_transports(&self) -> (ids: Vec<TransportId>)
        requires
            self.wf(),
        ensures
            values_of(ids@).no_duplicates(),
            values_of(ids@).to_set() == self@.webrtc_transports.dom(),
    {
        typed(self.held(Resource::WebrtcTransport))
    }

    /// The plain transports that the session holds, closed ones included.
    pub fn get_plain_transports(&self) -> (ids: Vec<TransportId>)
        requires
            self.wf(),
        ensures
            values_of(ids@).no_duplicates(),
            values_of(ids@).to_set() == self@.plain_transports.dom(),
    {
        typed(self.held(Resource::PlainTransport))
    }

    /// The consumers that the session holds, closed ones included.
    pub fn get_consumers(&self) -> (ids: Vec<ConsumerId>)
        requires
            self.wf(),
        ensures
            values_of(ids@).no_duplicates(),
            values_of(ids@).to_set() == self@.consumers.dom(),
    {
        typed(self.held(Resource::Consumer))
    }

    /// The producers that the session holds, closed ones included.
    pub fn get_producers(&self) -> (ids: Vec<ProducerId>)
        requires
            self.wf(),
        ensures
            values_of(ids@).no_duplicates(),
            values_of(ids@).to_set() == self@.producers.dom(),
    {
        typed(self.held(Resource::Producer))
    }

    /// The data producers that the session holds, closed ones included.
    pub fn get_data_producers(&self) -> (ids: Vec<DataProducerId>)
        requires
            self.wf(),
        ensures
            values_of(ids@).no_duplicates(),
            values_of(ids@).to_set() == self@.data_producers.dom(),
    {
        typed(self.held(Resource::DataProducer))
    }

    /// The data consumers that the session holds, closed ones included.
    pub fn get_data_consumers(&self) -> (ids: Vec<DataConsumerId>)
        requires
            self.wf(),
        ensures
            values_of(ids@).no_duplicates(),
            values_of(ids@).to_set() == self@.data_consumers.dom(),
    {
        typed(self.held(Resource::DataConsumer))
    }

    /// Whom to ask for statistics: every resource that the session holds,
    /// kind by kind, each once.
    pub fn get_stats(&self) -> (queries: Vec<StatsQuery>)
        requires
            self.wf(),
        ensures
            forall|resource: Resource, id: u128|
                queries@.contains(StatsQuery { resource, id }) <==> self@.holdings(
                    resource,
                ).contains_key(id),
            queries@.no_duplicates(),
    {
        let mut queries: Vec<StatsQuery> = Vec::new();
        self.ask_all(&mut queries, Resource::Consumer);
        self.ask_all(&mut queries, Resource::Producer);
        self.ask_all(&mut queries, Resource::DataConsumer);
        self.ask_all(&mut queries, Resource::DataProducer);
        self.ask_all(&mut queries, Resource::WebrtcTransport);
        self.ask_all(&mut queries, Resource::PlainTransport);
        proof {
            assert forall|resource: Resource, id: u128|
                queries@.contains(StatsQuery { resource, id }) <==> self@.holdings(
                    resource,
                ).contains_key(id) by {
                let query = StatsQuery { resource, id };
                assert(query.resource == resource && query.id == id);
                match resource {
                    Resource::Consumer => {},
                    Resource::Producer => {},
                    Resource::DataConsumer => {},
                    Resource::DataProducer => {},
                    Resource::WebrtcTransport => {},
                    Resource::PlainTransport => {},
                }
            }
        }
        queries
    }

    /// Appends to `queries` one query for each resource of kind `resource`
    /// that the session holds.
    fn ask_all(&self, queries: &mut Vec<StatsQuery>, resource: Resource)
        requires
            self.wf(),
            old(queries)@.no_duplicates(),
            forall|query: StatsQuery| old(queries)@.contains(query) ==> query.resource != resource,
        ensures
            final(queries)@.no_duplicates(),
            forall|query: StatsQuery|
                final(queries)@.contains(query) <==> old(queries)@.contains(query) || (
                query.resource == resource && self@.holdings(resource).contains_key(query.id)),
    {
        let ids = self.held(resource);
        let ghost before = queries@;
        let mut i: usize = 0;
        while i < ids.len()
            invariant
                i <= ids.len(),
                ids@.no_duplicates(),
                before.no_duplicates(),
                forall|query: StatsQuery| before.contains(query) ==> query.resource != resource,
                queries@.len() == before.len() + i,
                forall|j: int| 0 <= j < before.len() ==> queries@[j] == before[j],
                forall|j: int|
                    0 <= j < i ==> queries@[before.len() + j] == (StatsQuery {
                        resource,
                        id: #[trigger] ids@[j],
                    }),
            decreases ids.len() - i,
        {
            queries.push(StatsQuery { resource, id: ids[i] });
            i = i + 1;
        }
        proof {
            assert forall|a: int, b: int|
                0 <= a < queries@.len() && 0 <= b < queries@.len() && a != b implies queries@[a]
                != queries@[b] by {
                if a < before.len() && b < before.len() {
                    assert(before[a] != before[b]);
                } else if a < before.len() {
                    assert(before.contains(before[a]));
                    assert(queries@[b] == (StatsQuery { resource, id: ids@[b - before.len()] }));
                } else if b < before.len() {
                    assert(before.contains(before[b]));
                    assert(queries@[a] == (StatsQuery { resource, id: ids@[a - before.len()] }));
                } else {
                    assert(queries@[a] == (StatsQuery { resource, id: ids@[a - before.len()] }));
                    assert(queries@[b] == (StatsQuery { resource, id: ids@[b - before.len()] }));
                    assert(ids@[a - before.len()] != ids@[b - before.len()]);
                }
            }
            assert forall|query: StatsQuery|
                queries@.contains(query) <==> before.contains(query) || (query.resource
                    == resource && self@.holdings(resource).contains_key(query.id)) by {
                if queries@.contains(query) {
                    let j = choose|j: int| 0 <= j < queries@.len() && queries@[j] == query;
                    if j < before.len() {
                        assert(before[j] == query);
                    } else {
                        assert(queries@[j] == (StatsQuery {
                            resource,
                            id: ids@[j - before.len()],
                        }));
                        assert(ids@.to_set().contains(ids@[j - before.len()]));
                    }
                }
                if before.contains(query) {
                    let j = choose|j: int| 0 <= j < before.len() && before[j] == query;
                    assert(queries@[j] == query);
                }
                if query.resource == resource && self@.holdings(resource).contains_key(query.id) {
                    assert(ids@.to_set().contains(query.id));
                    let j = choose|j: int| 0 <= j < ids@.len() && ids@[j] == query.id;
                    assert(queries@[before.len() + j] == query);
                }
            }
        }
    }

    /// The identifiers of the resources of kind `resource` that the session
    /// holds, closed ones included, each once.
    pub fn held(&self, resource: Resource) -> (ids: Vec<u128>)
        requires
            self.wf(),
        ensures
            ids@.no_duplicates(),
            ids@.to_set() == self@.holdings(resource).dom(),
    {
        self.table(resource).ids()
    }

    /// The identifiers of the resources of kind `resource` that the session
    /// holds and that are not closed, each once.
    pub fn held_open(&self, resource: Resource) -> (ids: Vec<u128>)
        requires
            self.wf(),
        ensures
            ids@.no_duplicates(),
            ids@.to_set() == open_ids(self@.holdings(resource)),
    {
        self.table(resource).open()
    }
}

/// A question to the worker about one held resource.
#[derive(Debug, Clone, Copy, PartialEq, Eq, Structural)]
pub struct StatsQuery {
    pub resource: Resource,
    pub id: u128,
}

/// What the worker answered about one held resource: the statistics as the
/// document it sent, or nothing when the question failed.
#[derive(Debug)]
pub struct StatsReply {
    pub resource: Resource,
    pub id: u128,
    pub stats: Option<String>,
}

/// The statistics of one resource.
#[derive(Debug)]
pub struct StatsEntry {
    pub resource: Resource,
    pub id: u128,
    pub stats: String,
}

/// The statistics of a session: one entry for each resource that answered.
#[derive(Debug)]
pub struct Stats {
    pub entries: Vec<StatsEntry>,
}

/// The entries that `replies` come to: the replies that carry statistics,
/// in order. A reply without statistics leaves no entry.
pub open spec fn answered(replies: Seq<StatsReply>) -> Seq<(Resource, u128, Seq<char>)>
    decreases replies.len(),
{
    if replies.len() == 0 {
        Seq::empty()
    } else {
        let rest = answered(replies.drop_last());
        match replies.last().stats {
            Some(stats) => rest.push((replies.last().resource, replies.last().id, stats@)),
            None => rest,
        }
    }
}

impl View for Stats {
    type V = Seq<(Resource, u128, Seq<char>)>;

    open spec fn view(&self) -> Seq<(Resource, u128, Seq<char>)> {
        Seq::new(
            self.entries.len() as nat,
            |i: int| (self.entries[i].resource, self.entries[i].id, self.entries[i].stats@),
        )
    }
}

impl Stats {
    /// Gathers the statistics of a session from what the worker answered.
    /// A resource whose question failed is left out; the rest is kept.
    pub fn collect(replies: Vec<StatsReply>) -> (stats: Stats)
        ensures
            stats@ == answered(replies@),
    {
        let mut stats = Stats { entries: Vec::new() };
        let mut i: usize = 0;
        proof {
            assert(replies@.subrange(0, 0) =~= Seq::<StatsReply>::empty());
            assert(stats@ =~= answered(replies@.subrange(0, 0)));
        }
        while i < replies.len()
            invariant
                i <= replies.len(),
                stats@ == answered(replies@.subrange(0, i as int)),
            decreases replies.len() - i,
        {
            let ghost prior = stats@;
            let ghost upto = replies@.subrange(0, i + 1);
            proof {
                assert(upto.drop_last() =~= replies@.subrange(0, i as int));
                assert(upto.last() == replies@[i as int]);
            }
            let reply = &replies[i];
            match &reply.stats {
                Some(text) => {
                    stats.entries.push(
                        StatsEntry { resource: reply.resource, id: reply.id, stats: text.clone() },
                    );
                    proof {
                        assert(stats@ =~= prior.push((reply.resource, reply.id, text@)));
                    }
                },
                None => {
                    proof {
                        assert(stats@ =~= prior);
                    }
                },
            }
            i = i + 1;
        }
        proof {
            assert(replies@.subrange(0, replies.len() as int) =~= replies@);
        }
        stats
    }
}

} // verus!

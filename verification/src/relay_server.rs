//! Identifiers, roles and registration errors of the relay, and the relay
//! server that composes the identity registry with the live rooms and sessions.

use crate::codecs::RtpCodecCapability;
use crate::holdings::open_ids;
use crate::keyed::KeyedTable;
use crate::registry::{ids_of, room_verdict_of, session_verdict_of, IdentityRegistry};
use crate::room::{open_in, Message, Room, RoomId, RoomState, RouterId, WeakRoom};
use crate::session::{
    values_of, DataProducerId, ProducerId, Resource, Session, SessionEvent, SessionId,
    SessionState, TransportListenIp, WeakSession,
};
use crate::state::ServerState;
use tokio::sync::broadcast::Receiver;
use vstd::prelude::*;
use vstd::std_specs::cmp::PartialEqSpecImpl;
use vstd::string::StringExecFns;

verus! {

/// Operator-assigned identifier of a room.
#[derive(Debug, Hash)]
pub struct ForeignRoomId(pub String);

/// Operator-assigned identifier of a session.
#[derive(Debug, Hash)]
pub struct ForeignSessionId(pub String);

impl View for ForeignRoomId {
    type V = Seq<char>;

    open spec fn view(&self) -> Seq<char> {
        self.0@
    }
}

impl View for ForeignSessionId {
    type V = Seq<char>;

    open spec fn view(&self) -> Seq<char> {
        self.0@
    }
}

impl Clone for ForeignRoomId {
    fn clone(&self) -> (res: Self)
        ensures
            res@ == self@,
    {
        ForeignRoomId(self.0.clone())
    }
}

impl Clone for ForeignSessionId {
    fn clone(&self) -> (res: Self)
        ensures
            res@ == self@,
    {
        ForeignSessionId(self.0.clone())
    }
}

impl PartialEq for ForeignRoomId {
    fn eq(&self, other: &Self) -> (res: bool) {
        self.0 == other.0
    }
}

impl PartialEqSpecImpl for ForeignRoomId {
    open spec fn obeys_eq_spec() -> bool {
        true
    }

    open spec fn eq_spec(&self, other: &Self) -> bool {
        self@ == other@
    }
}

impl Eq for ForeignRoomId {

}

impl PartialEq for ForeignSessionId {
    fn eq(&self, other: &Self) -> (res: bool) {
        self.0 == other.0
    }
}

impl PartialEqSpecImpl for ForeignSessionId {
    open spec fn obeys_eq_spec() -> bool {
        true
    }

    open spec fn eq_spec(&self, other: &Self) -> bool {
        self@ == other@
    }
}

impl Eq for ForeignSessionId {

}

/// The credential minted at registration: an opaque 128-bit value, the only
/// thing a signalling connection presents to be admitted.
#[derive(Debug, Clone, Copy, PartialEq, Eq, Structural, Hash)]
pub struct SessionToken(pub u128);

impl SessionToken {
    /// The token that is never minted and never resolves.
    pub open spec fn spec_nil() -> SessionToken {
        SessionToken(0)
    }

    /// The token that is never minted and never resolves.
    #[verifier::when_used_as_spec(spec_nil)]
    pub fn nil() -> (token: SessionToken)
        ensures
            token == SessionToken::spec_nil(),
    {
        SessionToken(0)
    }

    /// Whether the token is the nil token.
    pub open spec fn spec_is_nil(&self) -> bool {
        self.0 == 0
    }

    /// Whether the token is the nil token.
    #[verifier::when_used_as_spec(spec_is_nil)]
    pub fn is_nil(&self) -> (res: bool)
        ensures
            res == self.spec_is_nil(),
    {
        self.0 == 0
    }
}

impl Default for SessionToken {
    fn default() -> (token: SessionToken)
        ensures
            token == SessionToken::spec_nil(),
    {
        SessionToken(0)
    }
}

/// What a registration entitles its session to be, as a mathematical value.
pub enum Role {
    Vulcast,
    WebClient(Seq<char>),
    Host(Seq<char>),
}

impl Role {
    /// The room that a client role is attached to; a Vulcast names none.
    pub open spec fn room(self) -> Option<Seq<char>> {
        match self {
            Role::Vulcast => None,
            Role::WebClient(frid) => Some(frid),
            Role::Host(frid) => Some(frid),
        }
    }
}

/// The role a session is registered with. A Vulcast is the single producer
/// of a room; web clients and hosts attach to the room they name.
#[derive(Debug, Hash)]
pub enum SessionOptions {
    Vulcast,
    WebClient(ForeignRoomId),
    Host(ForeignRoomId),
}

impl View for SessionOptions {
    type V = Role;

    open spec fn view(&self) -> Role {
        match self {
            SessionOptions::Vulcast => Role::Vulcast,
            SessionOptions::WebClient(frid) => Role::WebClient(frid@),
            SessionOptions::Host(frid) => Role::Host(frid@),
        }
    }
}

impl Clone for SessionOptions {
    fn clone(&self) -> (res: Self)
        ensures
            res@ == self@,
    {
        match self {
            SessionOptions::Vulcast => SessionOptions::Vulcast,
            SessionOptions::WebClient(frid) => SessionOptions::WebClient(frid.clone()),
            SessionOptions::Host(frid) => SessionOptions::Host(frid.clone()),
        }
    }
}

impl PartialEq for SessionOptions {
    fn eq(&self, other: &Self) -> (res: bool) {
        match (self, other) {
            (SessionOptions::Vulcast, SessionOptions::Vulcast) => true,
            (SessionOptions::WebClient(a), SessionOptions::WebClient(b)) => a.0 == b.0,
            (SessionOptions::Host(a), SessionOptions::Host(b)) => a.0 == b.0,
            _ => false,
        }
    }
}

impl PartialEqSpecImpl for SessionOptions {
    open spec fn obeys_eq_spec() -> bool {
        true
    }

    open spec fn eq_spec(&self, other: &Self) -> bool {
        self@ == other@
    }
}

impl Eq for SessionOptions {

}

impl SessionOptions {
    /// The room this role is attached to, if it is a client role.
    pub fn room(&self) -> (res: Option<&ForeignRoomId>)
        ensures
            match res {
                Some(frid) => self@.room() == Some(frid@),
                None => self@.room().is_none(),
            },
    {
        match self {
            SessionOptions::Vulcast => None,
            SessionOptions::WebClient(frid) => Some(frid),
            SessionOptions::Host(frid) => Some(frid),
        }
    }

    /// Whether the role is that of a Vulcast.
    pub fn is_vulcast(&self) -> (res: bool)
        ensures
            res == (self@ == Role::Vulcast),
    {
        match self {
            SessionOptions::Vulcast => true,
            _ => false,
        }
    }
}


/// Why a session could not be registered.
#[derive(Debug)]
pub enum RegisterSessionError {
    /// The role names a room that is not registered.
    UnknownRoom(ForeignRoomId),
    /// The session id is taken, or the token offered could not be bound to it.
    NonUniqueId(ForeignSessionId),
}

/// Why a session could not be unregistered.
#[derive(Debug)]
pub enum UnregisterSessionError {
    /// No session is registered under the id.
    UnknownSession(ForeignSessionId),
}

/// Why a room could not be registered.
#[derive(Debug)]
pub enum RegisterRoomError {
    /// No session with the Vulcast role is registered under the id.
    UnknownSession(ForeignSessionId),
    /// The Vulcast is bound to a room already.
    VulcastInRoom(ForeignSessionId),
    /// The room id is taken.
    NonUniqueId(ForeignRoomId),
}

/// Why a room could not be unregistered.
#[derive(Debug)]
pub enum UnregisterRoomError {
    /// No room is registered under the id.
    UnknownRoom(ForeignRoomId),
}

impl PartialEq for RegisterSessionError {
    fn eq(&self, other: &Self) -> (res: bool) {
        match (self, other) {
            (RegisterSessionError::UnknownRoom(a), RegisterSessionError::UnknownRoom(b)) => a.0
                == b.0,
            (RegisterSessionError::NonUniqueId(a), RegisterSessionError::NonUniqueId(b)) => a.0
                == b.0,
            _ => false,
        }
    }
}

impl PartialEqSpecImpl for RegisterSessionError {
    open spec fn obeys_eq_spec() -> bool {
        true
    }

    open spec fn eq_spec(&self, other: &Self) -> bool {
        match (self, other) {
            (RegisterSessionError::UnknownRoom(a), RegisterSessionError::UnknownRoom(b)) => a@
                == b@,
            (RegisterSessionError::NonUniqueId(a), RegisterSessionError::NonUniqueId(b)) => a@
                == b@,
            _ => false,
        }
    }
}

impl Eq for RegisterSessionError {

}

impl PartialEq for UnregisterSessionError {
    fn eq(&self, other: &Self) -> (res: bool) {
        match (self, other) {
            (
                UnregisterSessionError::UnknownSession(a),
                UnregisterSessionError::UnknownSession(b),
            ) => a.0 == b.0,
        }
    }
}

impl PartialEqSpecImpl for UnregisterSessionError {
    open spec fn obeys_eq_spec() -> bool {
        true
    }

    open spec fn eq_spec(&self, other: &Self) -> bool {
        match (self, other) {
            (
                UnregisterSessionError::UnknownSession(a),
                UnregisterSessionError::UnknownSession(b),
            ) => a@ == b@,
        }
    }
}

impl Eq for UnregisterSessionError {

}

impl PartialEq for RegisterRoomError {
    fn eq(&self, other: &Self) -> (res: bool) {
        match (self, other) {
            (RegisterRoomError::UnknownSession(a), RegisterRoomError::UnknownSession(b)) => a.0
                == b.0,
            (RegisterRoomError::VulcastInRoom(a), RegisterRoomError::VulcastInRoom(b)) => a.0
                == b.0,
            (RegisterRoomError::NonUniqueId(a), RegisterRoomError::NonUniqueId(b)) => a.0 == b.0,
            _ => false,
        }
    }
}

impl PartialEqSpecImpl for RegisterRoomError {
    open spec fn obeys_eq_spec() -> bool {
        true
    }

    open spec fn eq_spec(&self, other: &Self) -> bool {
        match (self, other) {
            (RegisterRoomError::UnknownSession(a), RegisterRoomError::UnknownSession(b)) => a@
                == b@,
            (RegisterRoomError::VulcastInRoom(a), RegisterRoomError::VulcastInRoom(b)) => a@
                == b@,
            (RegisterRoomError::NonUniqueId(a), RegisterRoomError::NonUniqueId(b)) => a@ == b@,
            _ => false,
        }
    }
}

impl Eq for RegisterRoomError {

}

impl PartialEq for UnregisterRoomError {
    fn eq(&self, other: &Self) -> (res: bool) {
        match (self, other) {
            (UnregisterRoomError::UnknownRoom(a), UnregisterRoomError::UnknownRoom(b)) => a.0
                == b.0,
        }
    }
}

impl PartialEqSpecImpl for UnregisterRoomError {
    open spec fn obeys_eq_spec() -> bool {
        true
    }

    open spec fn eq_spec(&self, other: &Self) -> bool {
        match (self, other) {
            (UnregisterRoomError::UnknownRoom(a), UnregisterRoomError::UnknownRoom(b)) => a@
                == b@,
        }
    }
}

impl Eq for UnregisterRoomError {

}

/// A message made of `before`, `id` and `after`, in this order.
fn framed(before: &str, id: &String, after: &str) -> (text: String)
    ensures
        text@ == before@ + id@ + after@,
{
    before.to_owned().concat(id.as_str()).concat(after)
}

impl RegisterSessionError {
    /// What the error says, in words.
    pub fn message(&self) -> (text: String)
        ensures
            text@ == (match self {
                RegisterSessionError::UnknownRoom(frid) => "the room `"@ + frid@
                    + "` is not registered"@,
                RegisterSessionError::NonUniqueId(fsid) => "the session id `"@ + fsid@
                    + "` is already taken"@,
            }),
    {
        match self {
            RegisterSessionError::UnknownRoom(frid) => framed(
                "the room `",
                &frid.0,
                "` is not registered",
            ),
            RegisterSessionError::NonUniqueId(fsid) => framed(
                "the session id `",
                &fsid.0,
                "` is already taken",
            ),
        }
    }
}

impl UnregisterSessionError {
    /// What the error says, in words.
    pub fn message(&self) -> (text: String)
        ensures
            text@ == (match self {
                UnregisterSessionError::UnknownSession(fsid) => "the session `"@ + fsid@
                    + "` is not registered"@,
            }),
    {
        match self {
            UnregisterSessionError::UnknownSession(fsid) => framed(
                "the session `",
                &fsid.0,
                "` is not registered",
            ),
        }
    }
}

impl RegisterRoomError {
    /// What the error says, in words.
    pub fn message(&self) -> (text: String)
        ensures
            text@ == (match self {
                RegisterRoomError::UnknownSession(fsid) => "the session `"@ + fsid@
                    + "` is not registered"@,
                RegisterRoomError::VulcastInRoom(fsid) => "the vulcast `"@ + fsid@
                    + "` is already in a room"@,
                RegisterRoomError::NonUniqueId(frid) => "the room id `"@ + frid@
                    + "` is already taken"@,
            }),
    {
        match self {
            RegisterRoomError::UnknownSession(fsid) => framed(
                "the session `",
                &fsid.0,
                "` is not registered",
            ),
            RegisterRoomError::VulcastInRoom(fsid) => framed(
                "the vulcast `",
                &fsid.0,
                "` is already in a room",
            ),
            RegisterRoomError::NonUniqueId(frid) => framed(
                "the room id `",
                &frid.0,
                "` is already taken",
            ),
        }
    }
}

impl UnregisterRoomError {
    /// What the error says, in words.
    pub fn message(&self) -> (text: String)
        ensures
            text@ == (match self {
                UnregisterRoomError::UnknownRoom(frid) => "the room `"@ + frid@
                    + "` is not registered"@,
            }),
    {
        match self {
            UnregisterRoomError::UnknownRoom(frid) => framed(
                "the room `",
                &frid.0,
                "` is not registered",
            ),
        }
    }
}

/// The identifier of the session that a handle stands for, if there is a handle.
pub open spec fn handle_id(session: Option<WeakSession>) -> Option<u128> {
    match session {
        Some(weak) => Some(weak.id.0),
        None => None,
    }
}

/// The relay server: the identity registry together with the live rooms
/// and the live sessions.
pub struct RelayServer {
    registry: IdentityRegistry,
    /// The live rooms, each under the session id of its Vulcast.
    rooms: KeyedTable<Room>,
    /// The live sessions, each under its session id.
    sessions: KeyedTable<Session>,
    transport_listen_ip: TransportListenIp,
    media_codecs: Vec<RtpCodecCapability>,
    /// The sessions dropped by the server itself and not handed out yet.
    dropped: Vec<Session>,
}

impl View for RelayServer {
    type V = ServerState;

    closed spec fn view(&self) -> ServerState {
        ServerState {
            registry: self.registry@,
            rooms: self.rooms@.map_values(|room: Room| room@),
            sessions: self.sessions@.map_values(|session: Session| session@),
            listen_ip: self.transport_listen_ip@,
            media_codecs: self.media_codecs@,
            released: Set::new(
                |session: SessionState|
                    exists|k: int| 0 <= k < self.dropped.len() && self.dropped[k]@ == session,
            ),
        }
    }
}

impl RelayServer {
    /// The parts of the server are each in order.
    pub closed spec fn sound(&self) -> bool {
        &&& self.registry.wf()
        &&& self.rooms.wf()
        &&& self.sessions.wf()
        &&& forall|key: Seq<char>| #[trigger]
            self.rooms@.contains_key(key) ==> self.rooms@[key].wf()
        &&& forall|key: Seq<char>| #[trigger]
            self.sessions@.contains_key(key) ==> self.sessions@[key].wf()
        &&& forall|k: int| 0 <= k < self.dropped.len() ==> (#[trigger] self.dropped[k]).wf()
    }

    /// The server's invariant.
    pub open spec fn wf(&self) -> bool {
        self.sound() && self@.wf()
    }

    /// A server without registrations, rooms or sessions, whose sessions
    /// will listen on `transport_listen_ip` and whose routers will be asked
    /// to support `media_codecs`.
    pub fn new(transport_listen_ip: TransportListenIp, media_codecs: Vec<RtpCodecCapability>) -> (server:
        RelayServer)
        ensures
            server.wf(),
            server@ == ServerState::empty(transport_listen_ip@, media_codecs@),
    {
        let server = RelayServer {
            registry: IdentityRegistry::new(),
            rooms: KeyedTable::new(),
            sessions: KeyedTable::new(),
            transport_listen_ip,
            media_codecs,
            dropped: Vec::new(),
        };
        proof {
            assert(server@.rooms =~= Map::empty());
            assert(server@.sessions =~= Map::empty());
            assert(server@.released =~= Set::empty());
            assert(server@ =~~= ServerState::empty(transport_listen_ip@, media_codecs@));
        }
        server
    }

    /// The codecs that every router of the relay is asked to support.
    pub fn media_codecs(&self) -> (codecs: &Vec<RtpCodecCapability>)
        ensures
            codecs@ == self@.media_codecs,
    {
        &self.media_codecs
    }

    /// The live sessions, each under its session id.
    pub fn sessions(&self) -> (sessions: &KeyedTable<Session>)
        requires
            self.wf(),
        ensures
            sessions.wf(),
            forall|key: Seq<char>| #[trigger] sessions@.contains_key(key) ==> sessions@[key].wf(),
            sessions@.map_values(|session: Session| session@) == self@.sessions,
    {
        &self.sessions
    }

    /// The identity registry.
    pub fn registry(&self) -> (registry: &IdentityRegistry)
        requires
            self.wf(),
        ensures
            registry.wf(),
            registry@ == self@.registry,
    {
        &self.registry
    }

    fn find_session_by_id(&self, id: SessionId) -> (found: Option<usize>)
        requires
            self.sound(),
        ensures
            match found {
                Some(k) => k < self.sessions.spec_len() && self.sessions.value(k as int)@.id
                    == id.0 && self@.session_id_live(id.0),
                None => !self@.session_id_live(id.0),
            },
    {
        let n = self.sessions.len();
        let mut k: usize = 0;
        while k < n
            invariant
                k <= n,
                n == self.sessions.spec_len(),
                self.sound(),
                forall|j: int| 0 <= j < k ==> (#[trigger] self.sessions.value(j))@.id != id.0,
            decreases n - k,
        {
            if self.sessions.value_at(k).id().0 == id.0 {
                proof {
                    self.sessions.lemma_slots();
                    let key = self.sessions.key(k as int);
                    assert(self.sessions@.contains_key(key));
                    assert(self@.sessions.contains_key(key) && self@.sessions[key].id == id.0);
                }
                return Some(k);
            }
            k = k + 1;
        }
        proof {
            self.sessions.lemma_slots();
            if self@.session_id_live(id.0) {
                let fsid = self@.bearer_of(id.0);
                assert(self@.sessions.contains_key(fsid) && self@.sessions[fsid].id == id.0);
                assert(self.sessions@.contains_key(fsid));
                let j = self.sessions.slot_of(fsid);
                assert(self.sessions.holds_at(fsid, j));
                assert(self.sessions.value(j)@.id == id.0);
            }
        }
        None
    }

    fn find_room_by_id(&self, id: RoomId) -> (found: Option<usize>)
        requires
            self.sound(),
        ensures
            match found {
                Some(k) => k < self.rooms.spec_len() && self.rooms.value(k as int)@.id == id.0
                    && self@.room_id_live(id.0),
                None => !self@.room_id_live(id.0),
            },
    {
        let n = self.rooms.len();
        let mut k: usize = 0;
        while k < n
            invariant
                k <= n,
                n == self.rooms.spec_len(),
                self.sound(),
                forall|j: int| 0 <= j < k ==> (#[trigger] self.rooms.value(j))@.id != id.0,
            decreases n - k,
        {
            if self.rooms.value_at(k).id().0 == id.0 {
                proof {
                    self.rooms.lemma_slots();
                    let key = self.rooms.key(k as int);
                    assert(self.rooms@.contains_key(key));
                    assert(self@.rooms.contains_key(key) && self@.rooms[key].id == id.0);
                }
                return Some(k);
            }
            k = k + 1;
        }
        proof {
            self.rooms.lemma_slots();
            if self@.room_id_live(id.0) {
                let key = self@.key_of_room(id.0);
                assert(self@.rooms.contains_key(key) && self@.rooms[key].id == id.0);
                assert(self.rooms@.contains_key(key));
                let j = self.rooms.slot_of(key);
                assert(self.rooms.holds_at(key, j));
                assert(self.rooms.value(j)@.id == id.0);
            }
        }
        None
    }

    /// Drops the live session under `fsid`, if there is one: it leaves its
    /// room, and the room is reclaimed if it was the last member.
    fn drop_session(&mut self, fsid: &ForeignSessionId) -> (dropped: Option<Session>)
        requires
            old(self).sound(),
            old(self)@.live(),
        ensures
            final(self).sound(),
            final(self)@.live(),
            final(self)@ == old(self)@.dropped(set![fsid@]),
            dropped is Some <==> old(self)@.sessions.contains_key(fsid@),
            match dropped {
                Some(session) => session.wf() && session@ == old(self)@.sessions[fsid@],
                None => final(self)@ == old(self)@,
            },
    {
        let ghost before = self@;
        proof {
            before.lemma_evicted_live(set![fsid@]);
        }
        match self.sessions.find(&fsid.0) {
            None => {
                proof {
                    before.lemma_untouched(set![fsid@]);
                }
                None
            },
            Some(k) => {
                proof {
                    self.sessions.lemma_slots();
                    self.rooms.lemma_slots();
                    assert(before.sessions.contains_key(fsid@));
                    assert(before.housed(fsid@));
                }
                let (_, session) = self.sessions.take_at(k);
                assert(session@ == before.sessions[fsid@]);
                match self.find_room_by_id(session.get_room()) {
                    Some(slot) => {
                        let ghost key = self.rooms.key(slot as int);
                        proof {
                            assert(self.rooms@.contains_key(key));
                            assert(before.rooms.contains_key(key));
                            assert(before.rooms[key].id == before.sessions[fsid@].room);
                            before.lemma_dropped_one(fsid@, key);
                        }
                        let (room_key, mut room) = self.rooms.take_at(slot);
                        room.remove_session(session.id());
                        if !room.is_empty() {
                            self.rooms.insert_new(room_key, room);
                        }
                        proof {
                            assert(self@.sessions =~= before.sessions.remove(fsid@));
                            assert(self@.rooms =~= before.dropped(set![fsid@]).rooms);
                            assert(self@ =~~= before.dropped(set![fsid@]));
                        }
                        Some(session)
                    },
                    None => {
                        proof {
                            let home = choose|home: Seq<char>| #[trigger]
                                before.rooms.contains_key(home) && before.rooms[home].id
                                    == before.sessions[fsid@].room
                                    && before.rooms[home].sessions.contains(
                                    before.sessions[fsid@].id,
                                );
                            assert(self@.rooms.contains_key(home) && self@.rooms[home].id
                                == session@.room);
                            assert(false);
                        }
                        Some(session)
                    },
                }
            },
        }
    }

    /// Keeps a session that the server has dropped, to be handed out later.
    fn keep(&mut self, session: Session)
        requires
            old(self).sound(),
            session.wf(),
        ensures
            final(self).sound(),
            final(self)@ == (ServerState {
                released: old(self)@.released.insert(session@),
                ..old(self)@
            }),
    {
        let ghost before = *self;
        self.dropped.push(session);
        proof {
            let last = self.dropped.len() - 1;
            assert forall|state: SessionState|
                self@.released.contains(state) <==> before@.released.insert(session@).contains(
                    state,
                ) by {
                if self@.released.contains(state) {
                    let k = choose|k: int| 0 <= k < self.dropped.len() && self.dropped[k]@ == state;
                    if k < last {
                        assert(before.dropped[k]@ == state);
                    }
                }
                if before@.released.contains(state) {
                    let k = choose|k: int|
                        0 <= k < before.dropped.len() && before.dropped[k]@ == state;
                    assert(self.dropped[k]@ == state);
                }
                if state == session@ {
                    assert(self.dropped[last]@ == state);
                }
            }
            assert(self@.released =~= before@.released.insert(session@));
            assert(self@.rooms =~= before@.rooms);
            assert(self@.sessions =~= before@.sessions);
        }
    }

    /// Hands out the sessions that the server has dropped of its own accord
    /// since they were last handed out, so that what they held can be closed
    /// in the worker.
    pub fn take_dropped(&mut self) -> (sessions: Vec<Session>)
        requires
            old(self).wf(),
        ensures
            final(self).wf(),
            final(self)@ == old(self)@.drained(),
            forall|k: int| 0 <= k < sessions.len() ==> (#[trigger] sessions[k]).wf()
                && old(self)@.released.contains(sessions[k]@),
            forall|session: SessionState|
                old(self)@.released.contains(session) ==> exists|k: int|
                    0 <= k < sessions.len() && (#[trigger] sessions[k])@ == session,
    {
        let ghost before = *self;
        let mut sessions: Vec<Session> = Vec::new();
        std::mem::swap(&mut sessions, &mut self.dropped);
        proof {
            assert(sessions@ == before.dropped@);
            assert(self@.released =~= Set::<SessionState>::empty());
            assert(self@.rooms =~= before@.rooms);
            assert(self@.sessions =~= before@.sessions);
            assert(self@ =~~= before@.drained());
            assert forall|session: SessionState| before@.released.contains(session) implies exists|
                k: int,
            |
                0 <= k < sessions.len() && (#[trigger] sessions[k])@ == session by {
                let k = choose|k: int|
                    0 <= k < before.dropped.len() && before.dropped[k]@ == session;
                assert(sessions[k]@ == session);
            }
            assert(self@.wf()) by {
                assert forall|fsid: Seq<char>| #[trigger]
                    self@.sessions.contains_key(fsid) implies self@.housed(fsid) by {
                    assert(before@.housed(fsid));
                }
                assert forall|key: Seq<char>, id: u128|
                    self@.rooms.contains_key(key) && #[trigger] self@.rooms[key].sessions.contains(
                        id,
                    ) implies self@.member_lives(key, id) by {
                    assert(before@.member_lives(key, id));
                }
            }
        }
        sessions
    }

    /// Unregisters `fsid` and drops its live session, if it has one.
    fn evict(&mut self, fsid: &ForeignSessionId)
        requires
            old(self).sound(),
            old(self)@.live(),
        ensures
            final(self).sound(),
            final(self)@.live(),
            final(self)@ == old(self)@.evicted(set![fsid@]),
    {
        let ghost before = self@;
        proof {
            before.lemma_evicted_live(set![fsid@]);
        }
        proof {
            before.lemma_released_by_one(fsid@);
        }
        match self.drop_session(fsid) {
            Some(session) => {
                self.keep(session);
            },
            None => {},
        }
        let _ = self.registry.unregister_session(fsid.clone());
        proof {
            assert(before.registry.sessions.remove_keys(set![fsid@])
                =~= before.registry.sessions.remove(fsid@));
            assert(self@.released =~= before.released.union(before.released_by(set![fsid@])));
            assert(self@ =~~= before.evicted(set![fsid@]));
        }
    }

    /// Registers `fsid` with `session_options` under a freshly minted token.
    ///
    /// The outcome is that of `register_session_with_token` on the token that
    /// was minted, whichever that was; the minted token is never nil.
    pub fn register_session(
        &mut self,
        fsid: ForeignSessionId,
        session_options: SessionOptions,
    ) -> (result: Result<SessionToken, RegisterSessionError>)
        requires
            old(self).wf(),
        ensures
            final(self).wf(),
            exists|minted: u128|
                minted != 0
                    && session_verdict_of(result)
                        == #[trigger] old(self)@.registry.session_verdict(
                            fsid@,
                            session_options@,
                            minted,
                        ),
            match result {
                Ok(token) => old(self)@.registry.admits_session(fsid@, session_options@, token.0)
                    && final(self)@ == old(self)@.with_session(fsid@, token.0, session_options@),
                Err(_) => final(self)@ == old(self)@,
            },
    {
        let token = SessionToken::new();
        self.register_session_with_token(fsid, session_options, token)
    }

    /// Registers `fsid` with `session_options` under `token`.
    ///
    /// Fails with `UnknownRoom` when the role names a room that is not
    /// registered; otherwise with `NonUniqueId` when `fsid` is registered
    /// already, or when `token` is nil or held by another registration.
    /// On failure nothing changes.
    pub fn register_session_with_token(
        &mut self,
        fsid: ForeignSessionId,
        session_options: SessionOptions,
        token: SessionToken,
    ) -> (result: Result<SessionToken, RegisterSessionError>)
        requires
            old(self).wf(),
        ensures
            final(self).wf(),
            session_verdict_of(result) == old(self)@.registry.session_verdict(
                fsid@,
                session_options@,
                token.0,
            ),
            match result {
                Ok(minted) => minted == token && final(self)@ == old(self)@.with_session(
                    fsid@,
                    token.0,
                    session_options@,
                ),
                Err(_) => final(self)@ == old(self)@,
            },
    {
        let ghost before = self@;
        let ghost role = session_options@;
        let ghost id = fsid@;
        let result = self.registry.register_session_with_token(fsid, session_options, token);
        proof {
            if result is Ok {
                before.lemma_with_session_wf(id, token.0, role);
                assert(self@ =~~= before.with_session(id, token.0, role));
            } else {
                assert(self@ =~~= before);
            }
        }
        result
    }

    /// Registers the room `frid` and binds it to the Vulcast `vulcast_fsid`.
    ///
    /// Fails with `NonUniqueId` when `frid` is registered already; otherwise
    /// with `UnknownSession` when `vulcast_fsid` is not registered with the
    /// Vulcast role; otherwise with `VulcastInRoom` when that Vulcast is bound
    /// to a room already. On failure nothing changes.
    pub fn register_room(&mut self, frid: ForeignRoomId, vulcast_fsid: ForeignSessionId) -> (result:
        Result<(), RegisterRoomError>)
        requires
            old(self).wf(),
        ensures
            final(self).wf(),
            room_verdict_of(result) == old(self)@.registry.room_verdict(frid@, vulcast_fsid@),
            match result {
                Ok(_) => final(self)@ == old(self)@.with_room(frid@, vulcast_fsid@),
                Err(_) => final(self)@ == old(self)@,
            },
    {
        let ghost before = self@;
        let ghost room = frid@;
        let ghost vulcast = vulcast_fsid@;
        let result = self.registry.register_room(frid, vulcast_fsid);
        proof {
            if result is Ok {
                before.lemma_with_room_wf(room, vulcast);
                assert(self@ =~~= before.with_room(room, vulcast));
            } else {
                assert(self@ =~~= before);
            }
        }
        result
    }

    /// Unregisters the room `frid`, and with it every client of the room:
    /// their registrations go, and so do their live sessions.
    pub fn unregister_room(&mut self, frid: ForeignRoomId) -> (result: Result<
        (),
        UnregisterRoomError,
    >)
        requires
            old(self).wf(),
        ensures
            final(self).wf(),
            result is Ok <==> old(self)@.registry.rooms.contains_key(frid@),
            match result {
                Ok(_) => final(self)@ == old(self)@.without_room(frid@),
                Err(UnregisterRoomError::UnknownRoom(id)) => id@ == frid@
                    && final(self)@ == old(self)@,
            },
    {
        let ghost before = self@;
        let ghost room = frid@;
        let clients = self.registry.list_clients_of_room(&frid);
        let ghost all = ids_of(clients@);
        match self.registry.unregister_room(frid) {
            Err(error) => {
                proof {
                    assert(self@ =~~= before);
                }
                Err(error)
            },
            Ok(_) => {
                let ghost start = ServerState {
                    registry: before.registry.without_room(room),
                    ..before
                };
                proof {
                    assert(self@ =~~= start);
                    before.registry.lemma_without_room_one_to_one(room);
                    assert forall|other: Seq<char>| #[trigger]
                        start.sessions.contains_key(other) implies start.housed(other) by {
                        assert(before.housed(other));
                    }
                    assert forall|key: Seq<char>, id: u128|
                        start.rooms.contains_key(key)
                            && #[trigger] start.rooms[key].sessions.contains(
                            id,
                        ) implies start.member_lives(key, id) by {
                        assert(before.member_lives(key, id));
                    }
                    assert(start.live());
                    start.lemma_evicted_none();
                    assert(all.subrange(0, 0).to_set() =~= Set::<Seq<char>>::empty());
                }
                let mut i: usize = 0;
                while i < clients.len()
                    invariant
                        i <= clients.len(),
                        all == ids_of(clients@),
                        self.sound(),
                        self@.live(),
                        self@ == start.evicted(all.subrange(0, i as int).to_set()),
                    decreases clients.len() - i,
                {
                    let ghost done = all.subrange(0, i as int).to_set();
                    self.evict(&clients[i]);
                    proof {
                        start.lemma_evicted_step(done, clients[i as int]@);
                        assert(all.subrange(0, i + 1) =~= all.subrange(0, i as int).push(
                            all[i as int],
                        ));
                        all.subrange(0, i as int).lemma_push_to_set_commute(all[i as int]);
                        assert(all.subrange(0, i + 1).to_set() =~= done.insert(all[i as int]));
                    }
                    i = i + 1;
                }
                proof {
                    assert(all.subrange(0, clients.len() as int) =~= all);
                    assert(self@ == before.without_room(room));
                    before.lemma_without_room_wf(room);
                }
                Ok(())
            },
        }
    }

    /// Unregisters the session `fsid` and drops its live session, if it has
    /// one. If `fsid` is the Vulcast of a room, the room is unregistered
    /// first, with every client of it.
    pub fn unregister_session(&mut self, fsid: ForeignSessionId) -> (result: Result<
        (),
        UnregisterSessionError,
    >)
        requires
            old(self).wf(),
        ensures
            final(self).wf(),
            result is Ok <==> old(self)@.registry.sessions.contains_key(fsid@),
            match result {
                Ok(_) => final(self)@ == old(self)@.without_session(fsid@),
                Err(UnregisterSessionError::UnknownSession(id)) => id@ == fsid@ && final(self)@
                    == old(self)@,
            },
    {
        let ghost before = self@;
        if self.registry.registration(&fsid).is_none() {
            return Err(UnregisterSessionError::UnknownSession(fsid));
        }
        match self.registry.room_of_vulcast(&fsid) {
            Some(frid) => {
                proof {
                    before.lemma_unique(fsid@, 0, frid@);
                    assert(before.registry.rooms.contains_value(fsid@));
                }
                let _ = self.unregister_room(frid);
            },
            None => {},
        }
        self.evict(&fsid);
        proof {
            before.lemma_without_session_wf(fsid@);
        }
        Ok(())
    }

    /// The live session under `fsid`, if there is one.
    pub fn get_session(&self, fsid: &ForeignSessionId) -> (session: Option<&Session>)
        requires
            self.wf(),
        ensures
            session is Some <==> self@.sessions.contains_key(fsid@),
            match session {
                Some(session) => session.wf() && session@ == self@.sessions[fsid@],
                None => true,
            },
    {
        match self.sessions.find(&fsid.0) {
            Some(k) => Some(self.sessions.value_at(k)),
            None => None,
        }
    }

    /// Takes the live session under `fsid` out of the server, if there is
    /// one: it leaves its room, and the room is reclaimed if it was the last
    /// member. The registration stays.
    pub fn take_session(&mut self, fsid: &ForeignSessionId) -> (taken: Option<Session>)
        requires
            old(self).wf(),
        ensures
            final(self).wf(),
            final(self)@ == old(self)@.dropped(set![fsid@]),
            taken is Some <==> old(self)@.sessions.contains_key(fsid@),
            match taken {
                Some(session) => session.wf() && session@ == old(self)@.sessions[fsid@],
                None => final(self)@ == old(self)@,
            },
    {
        self.drop_session(fsid)
    }

    /// Takes out of the server the live session that was admitted on
    /// `token`, if there is one.
    pub fn take_session_by_token(&mut self, token: &SessionToken) -> (taken: Option<Session>)
        requires
            old(self).wf(),
        ensures
            final(self).wf(),
            taken is Some <==> old(self)@.token_live(token.0),
            match taken {
                Some(session) => {
                    let fsid = old(self)@.registry.holder_of(token.0);
                    &&& session.wf()
                    &&& session@ == old(self)@.sessions[fsid]
                    &&& final(self)@ == old(self)@.dropped(set![fsid])
                },
                None => final(self)@ == old(self)@,
            },
    {
        match self.registry.resolve_token(*token) {
            Some((fsid, _)) => {
                proof {
                    self@.lemma_unique(fsid@, token.0, fsid@);
                }
                self.drop_session(&fsid)
            },
            None => None,
        }
    }

    /// Admits a connection that presents `token`, under identifiers minted
    /// for the occasion: the outcome is that of `session_from_token_with_ids`
    /// on the identifiers that were minted, whichever they were; neither of
    /// them is nil. A token that some registration holds is admitted for
    /// certain while no session and no room is live.
    pub fn session_from_token(&mut self, token: SessionToken) -> (session: Option<WeakSession>)
        requires
            old(self).wf(),
        ensures
            final(self).wf(),
            exists|session_id: u128, room_id: u128|
                session_id != 0 && room_id != 0 && #[trigger] old(self)@.connection(
                    token.0,
                    session_id,
                    room_id,
                ) == (handle_id(session), final(self)@),
            !old(self)@.registry.token_in_use(token.0) ==> session is None,
            old(self)@.registry.token_in_use(token.0) && old(self)@.idle() ==> session is Some,
            match session {
                Some(weak) => {
                    &&& old(self)@.registry.token_in_use(token.0)
                    &&& !old(self)@.session_id_live(weak.id.0)
                    &&& exists|room_id: u128|
                        !old(self)@.room_id_live(room_id) && final(self)@ == #[trigger] old(
                            self,
                        )@.admitted(token.0, weak.id.0, room_id)
                },
                None => final(self)@ == old(self)@,
            },
    {
        let ghost before = self@;
        let session_id = SessionId::new();
        let room_id = RoomId::new();
        let session = self.session_from_token_with_ids(token, session_id, room_id);
        proof {
            assert(before.connection(token.0, session_id.0, room_id.0) == (
                handle_id(session),
                self@,
            ));
            if before.idle() {
                assert(!before.session_id_live(session_id.0));
                assert(!before.room_id_live(room_id.0));
            }
        }
        session
    }

    /// Admits a connection that presents `token`: the session registered
    /// under the token goes live with the identifier `session_id`.
    ///
    /// No session is made for a token that no registration holds, and none
    /// when `session_id` or `room_id` is the identifier of a session or room
    /// that is live already; nothing changes then. Otherwise a session that
    /// was live on the same token is dropped first, and the new session joins
    /// the live room of its Vulcast, or a new room with the identifier
    /// `room_id` where none is live.
    pub fn session_from_token_with_ids(
        &mut self,
        token: SessionToken,
        session_id: SessionId,
        room_id: RoomId,
    ) -> (session: Option<WeakSession>)
        requires
            old(self).wf(),
        ensures
            final(self).wf(),
            session is Some <==> old(self)@.admits(token.0, session_id.0, room_id.0),
            old(self)@.connection(token.0, session_id.0, room_id.0) == (
                handle_id(session),
                final(self)@,
            ),
            match session {
                Some(weak) => weak.id == session_id && final(self)@ == old(self)@.admitted(
                    token.0,
                    session_id.0,
                    room_id.0,
                ),
                None => final(self)@ == old(self)@,
            },
    {
        let ghost before = self@;
        let (fsid, session_options) = match self.registry.resolve_token(token) {
            Some(found) => found,
            None => {
                return None;
            },
        };
        if self.find_session_by_id(session_id).is_some() {
            return None;
        }
        if self.find_room_by_id(room_id).is_some() {
            return None;
        }
        proof {
            before.lemma_unique(fsid@, token.0, fsid@);
            before.lemma_connected_wf(fsid@, session_id.0, room_id.0);
            assert(before.registry.knows_room_of(before.registry.sessions[fsid@].role));
        }
        let key = match session_options.room() {
            Some(frid) => match self.registry.vulcast_of_room(frid) {
                Some(vulcast) => vulcast,
                None => {
                    return None;
                },
            },
            None => fsid.clone(),
        };
        assert(key@ == before.home(fsid@));
        proof {
            before.lemma_released_by_one(fsid@);
        }
        let replaced = self.drop_session(&fsid);
        let ghost cleared = self@;
        match replaced {
            Some(session) => {
                self.keep(session);
            },
            None => {},
        }
        proof {
            assert(cleared == before.dropped(set![fsid@]));
            assert(self@.rooms == cleared.rooms && self@.sessions == cleared.sessions);
            assert(self@.released =~= before.released.union(before.released_by(set![fsid@])));
            assert(!cleared.sessions.contains_key(fsid@));
            assert(!self.sessions@.contains_key(fsid@));
        }
        let mut room = match self.rooms.find(&key.0) {
            Some(slot) => {
                proof {
                    self.rooms.lemma_slots();
                }
                self.rooms.take_at(slot).1
            },
            None => Room::new(room_id),
        };
        let ghost joined = room@;
        proof {
            assert(!self.rooms@.contains_key(key@));
            assert(joined == (if cleared.rooms.contains_key(key@) {
                cleared.rooms[key@]
            } else {
                RoomState { id: room_id.0, router: None, sessions: Set::empty() }
            }));
        }
        room.add_session(session_id);
        let session = Session::new(
            session_id,
            room.id(),
            session_options,
            self.transport_listen_ip.clone(),
        );
        self.rooms.insert_new(key.0, room);
        self.sessions.insert_new(fsid.0, session);
        proof {
            let target = before.connected(fsid@, session_id.0, room_id.0);
            assert(self@.rooms =~= target.rooms);
            assert(self@.sessions =~= target.sessions);
            assert(self@ =~~= target);
        }
        Some(WeakSession { id: session_id })
    }

    /// Records in the live session with identifier `session` what the
    /// worker did for it, and announces in its room what the event calls
    /// for. Says whether such a session is live; nothing changes otherwise.
    pub fn deliver(&mut self, session: SessionId, event: SessionEvent) -> (delivered: bool)
        requires
            old(self).wf(),
        ensures
            final(self).wf(),
            delivered == old(self)@.session_id_live(session.0),
            final(self)@ == old(self)@.recorded(session.0, event),
    {
        let ghost before = self@;
        proof {
            before.lemma_recorded_wf(session.0, event);
        }
        match self.find_session_by_id(session) {
            None => false,
            Some(k) => {
                let ghost at = self.sessions.key(k as int);
                let room_id = self.sessions.value_at(k).get_room();
                let announcement = self.record_at(k, event);
                proof {
                    before.lemma_bearer(at, session.0);
                }
                self.announce_in(room_id, announcement);
                true
            },
        }
    }

    /// Records `event` in the live session in slot `k`.
    fn record_at(&mut self, k: usize, event: SessionEvent) -> (announcement: Option<Message>)
        requires
            old(self).sound(),
            k < old(self).sessions.spec_len(),
        ensures
            final(self).sound(),
            final(self).rooms == old(self).rooms,
            final(self)@ == (ServerState {
                sessions: old(self)@.sessions.insert(
                    old(self).sessions.key(k as int),
                    old(self)@.sessions[old(self).sessions.key(k as int)].after(event),
                ),
                ..old(self)@
            }),
            old(self)@.sessions.contains_key(old(self).sessions.key(k as int)),
            old(self)@.sessions[old(self).sessions.key(k as int)] == old(self).sessions.value(
                k as int,
            )@,
    {
        let ghost before = self@;
        let ghost at = self.sessions.key(k as int);
        proof {
            self.sessions.lemma_slots();
            assert(self.sessions@.contains_key(at));
        }
        let (key, mut target) = self.sessions.take_at(k);
        let ghost prior = target@;
        let announcement = target.record(event);
        let ghost changed = target@;
        self.sessions.insert_new(key, target);
        proof {
            assert(changed == prior.after(event));
            assert(self@.sessions =~= before.sessions.insert(at, changed));
            assert(self@.rooms =~= before.rooms);
        }
        announcement
    }

    /// Announces `announcement`, if there is one, in the live room `room`.
    fn announce_in(&self, room: RoomId, announcement: Option<Message>)
        requires
            self.sound(),
    {
        match announcement {
            Some(message) => match self.find_room_by_id(room) {
                Some(slot) => {
                    self.rooms.value_at(slot).announce(message);
                },
                None => {},
            },
            None => {},
        }
    }

    /// Where the invariant holds, what is open among the members of a live
    /// room is what is open in the live sessions that name the room.
    proof fn lemma_open_in_room(&self, slot: int, resource: Resource)
        requires
            self.wf(),
            0 <= slot < self.rooms.spec_len(),
        ensures
            open_in(self.rooms.value(slot)@.sessions, self.sessions@, resource)
                == self@.open_in_room(self.rooms.value(slot)@.id, resource),
    {
        self.rooms.lemma_slots();
        let key = self.rooms.key(slot);
        let room = self.rooms.value(slot)@;
        assert(self.rooms@.contains_key(key));
        assert(self@.rooms.contains_key(key) && self@.rooms[key] == room);
        let members = open_in(room.sessions, self.sessions@, resource);
        let named = self@.open_in_room(room.id, resource);
        assert forall|id: u128| members.contains(id) <==> named.contains(id) by {
            if members.contains(id) {
                let fsid = choose|fsid: Seq<char>|
                    #![trigger self.sessions@[fsid]]
                    self.sessions@.contains_key(fsid) && room.sessions.contains(
                        self.sessions@[fsid]@.id,
                    ) && open_ids(self.sessions@[fsid]@.holdings(resource)).contains(id);
                assert(self@.sessions.contains_key(fsid));
                assert(self@.sessions[fsid] == self.sessions@[fsid]@);
                self@.lemma_members(key, fsid);
            }
            if named.contains(id) {
                let fsid = choose|fsid: Seq<char>|
                    #![trigger self@.sessions[fsid]]
                    self@.sessions.contains_key(fsid) && self@.sessions[fsid].room == room.id
                        && open_ids(self@.sessions[fsid].holdings(resource)).contains(id);
                assert(self.sessions@.contains_key(fsid));
                assert(self@.sessions[fsid] == self.sessions@[fsid]@);
                self@.lemma_members(key, fsid);
            }
        }
        assert(members =~= named);
    }

    /// What a new subscriber to the producers of the live room `room` is
    /// shown first, and where the rest will come from: the producers that are
    /// open right now in the live sessions of the room, and a subscription to
    /// the room's bus taken at the same moment. Nothing when no such room is live.
    pub fn available_producers(&self, room: RoomId) -> (feed: Option<
        (Vec<ProducerId>, Receiver<Message>),
    >)
        requires
            self.wf(),
        ensures
            feed is Some <==> self@.room_id_live(room.0),
            match feed {
                Some(feed) => values_of(feed.0@).to_set() == self@.open_in_room(
                    room.0,
                    Resource::Producer,
                ),
                None => true,
            },
    {
        match self.find_room_by_id(room) {
            Some(slot) => {
                proof {
                    self.lemma_open_in_room(slot as int, Resource::Producer);
                }
                Some(self.rooms.value_at(slot).available_producers(&self.sessions))
            },
            None => None,
        }
    }

    /// What a new subscriber to the data producers of the live room `room`
    /// is shown first, and where the rest will come from. Nothing when no
    /// such room is live.
    pub fn available_data_producers(&self, room: RoomId) -> (feed: Option<
        (Vec<DataProducerId>, Receiver<Message>),
    >)
        requires
            self.wf(),
        ensures
            feed is Some <==> self@.room_id_live(room.0),
            match feed {
                Some(feed) => values_of(feed.0@).to_set() == self@.open_in_room(
                    room.0,
                    Resource::DataProducer,
                ),
                None => true,
            },
    {
        match self.find_room_by_id(room) {
            Some(slot) => {
                proof {
                    self.lemma_open_in_room(slot as int, Resource::DataProducer);
                }
                Some(self.rooms.value_at(slot).available_data_producers(&self.sessions))
            },
            None => None,
        }
    }

    /// Offers `router` to the live room with identifier `room` as its
    /// router. The room keeps the first router it was offered; the answer is
    /// the router that the room has from now on, or nothing when no such
    /// room is live.
    pub fn offer_router(&mut self, room: RoomId, router: RouterId) -> (kept: Option<RouterId>)
        requires
            old(self).wf(),
        ensures
            final(self).wf(),
            kept is Some <==> old(self)@.room_id_live(room.0),
            final(self)@ == old(self)@.with_router(room.0, router.0),
            match kept {
                Some(kept) => final(self)@.rooms[old(self)@.key_of_room(room.0)].router == Some(
                    kept.0,
                ),
                None => true,
            },
    {
        let ghost before = self@;
        proof {
            before.lemma_with_router_wf(room.0, router.0);
        }
        match self.find_room_by_id(room) {
            None => None,
            Some(slot) => {
                proof {
                    self.rooms.lemma_slots();
                    let at = self.rooms.key(slot as int);
                    assert(before.rooms.contains_key(at) && before.rooms[at].id == room.0);
                    let key = before.key_of_room(room.0);
                    assert(before.rooms.contains_key(key) && before.rooms[key].id == room.0);
                    assert(before.rooms[key].id == before.rooms[at].id);
                    assert(key == at);
                }
                let (key, mut target) = self.rooms.take_at(slot);
                let kept = target.set_router(router);
                self.rooms.insert_new(key, target);
                proof {
                    assert(self@.rooms =~= before.with_router(room.0, router.0).rooms);
                    assert(self@ =~~= before.with_router(room.0, router.0));
                }
                Some(kept)
            },
        }
    }
}

impl WeakSession {
    /// The session behind the handle, for as long as the server holds it.
    pub fn upgrade<'a>(&self, server: &'a RelayServer) -> (session: Option<&'a Session>)
        requires
            server.wf(),
        ensures
            session is Some <==> server@.session_id_live(self.id.0),
            match session {
                Some(session) => session.wf() && session@ == server@.sessions[server@.bearer_of(
                    self.id.0,
                )],
                None => true,
            },
    {
        match server.find_session_by_id(self.id) {
            Some(k) => {
                proof {
                    server.sessions.lemma_slots();
                    let at = server.sessions.key(k as int);
                    let bearer = server@.bearer_of(self.id.0);
                    assert(server@.sessions.contains_key(at) && server@.sessions[at].id
                        == self.id.0);
                    assert(server@.sessions.contains_key(bearer) && server@.sessions[bearer].id
                        == self.id.0);
                    assert(server@.sessions[bearer].id == server@.sessions[at].id);
                    assert(bearer == at);
                }
                Some(server.sessions.value_at(k))
            },
            None => None,
        }
    }
}

impl WeakRoom {
    /// The room behind the handle, for as long as a session belongs to it.
    pub fn upgrade<'a>(&self, server: &'a RelayServer) -> (room: Option<&'a Room>)
        requires
            server.wf(),
        ensures
            room is Some <==> server@.room_id_live(self.id.0),
            match room {
                Some(room) => room.wf() && room@ == server@.rooms[server@.key_of_room(self.id.0)],
                None => true,
            },
    {
        match server.find_room_by_id(self.id) {
            Some(k) => {
                proof {
                    server.rooms.lemma_slots();
                    let at = server.rooms.key(k as int);
                    let key = server@.key_of_room(self.id.0);
                    assert(server@.rooms.contains_key(at) && server@.rooms[at].id == self.id.0);
                    assert(server@.rooms.contains_key(key) && server@.rooms[key].id == self.id.0);
                    assert(server@.rooms[key].id == server@.rooms[at].id);
                    assert(key == at);
                }
                Some(server.rooms.value_at(k))
            },
            None => None,
        }
    }
}

} // verus!

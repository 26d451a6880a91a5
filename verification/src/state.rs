//! The relay server as a mathematical value: the registry, the live rooms
//! and the live sessions, what holds of them at all times, and what each
//! operation of the server makes of them.

use crate::codecs::RtpCodecCapability;
use crate::holdings::open_ids;
use crate::registry::RegistryState;
use crate::relay_server::Role;
use crate::room::RoomState;
use crate::session::{ListenIp, Resource, SessionEvent, SessionState};
use vstd::prelude::*;

verus! {

/// The relay server as a mathematical value.
#[verifier::ext_equal]
pub struct ServerState {
    pub registry: RegistryState,
    /// The live rooms, each under the session id of its Vulcast.
    pub rooms: Map<Seq<char>, RoomState>,
    /// The live sessions, each under its session id.
    pub sessions: Map<Seq<char>, SessionState>,
    /// The address that every new session is told to listen on.
    pub listen_ip: ListenIp,
    /// The codecs that every router is asked to support.
    pub media_codecs: Seq<RtpCodecCapability>,
    /// The sessions that the server has dropped of its own accord and has
    /// yet to hand out, so that what they held can be closed in the worker.
    pub released: Set<SessionState>,
}

/// A session that has just been created and holds nothing.
pub open spec fn fresh_session(
    id: u128,
    room: u128,
    role: Role,
    listen_ip: ListenIp,
) -> SessionState {
    SessionState {
        id,
        room,
        role,
        listen_ip,
        rtp_capabilities: None,
        consumers: Map::empty(),
        producers: Map::empty(),
        data_consumers: Map::empty(),
        data_producers: Map::empty(),
        webrtc_transports: Map::empty(),
        plain_transports: Map::empty(),
    }
}

impl ServerState {
    /// A server without registrations, rooms or sessions.
    pub open spec fn empty(
        listen_ip: ListenIp,
        media_codecs: Seq<RtpCodecCapability>,
    ) -> ServerState {
        ServerState {
            registry: RegistryState::empty(),
            rooms: Map::empty(),
            sessions: Map::empty(),
            listen_ip,
            media_codecs,
            released: Set::empty(),
        }
    }

    /// Some live session has the identifier `id`.
    pub open spec fn session_id_live(self, id: u128) -> bool {
        exists|fsid: Seq<char>| #[trigger]
            self.sessions.contains_key(fsid) && self.sessions[fsid].id == id
    }

    /// Some live room has the identifier `id`.
    pub open spec fn room_id_live(self, id: u128) -> bool {
        exists|key: Seq<char>| #[trigger] self.rooms.contains_key(key) && self.rooms[key].id == id
    }

    /// The live session `fsid` is a member of the live room it names.
    pub open spec fn housed(self, fsid: Seq<char>) -> bool {
        exists|key: Seq<char>| #[trigger]
            self.rooms.contains_key(key) && self.rooms[key].id == self.sessions[fsid].room
                && self.rooms[key].sessions.contains(self.sessions[fsid].id)
    }

    /// The member `id` of the live room `key` is a live session of that room.
    pub open spec fn member_lives(self, key: Seq<char>, id: u128) -> bool {
        exists|fsid: Seq<char>| #[trigger]
            self.sessions.contains_key(fsid) && self.sessions[fsid].id == id
                && self.sessions[fsid].room == self.rooms[key].id
    }

    /// The registry refers to nothing that is not registered: the Vulcast of
    /// every room is registered with the Vulcast role, and the room of every
    /// client is registered.
    pub open spec fn linked(self) -> bool {
        &&& forall|frid: Seq<char>| #[trigger]
            self.registry.rooms.contains_key(frid) ==> self.registry.is_vulcast(
                self.registry.rooms[frid],
            )
        &&& forall|fsid: Seq<char>| #[trigger]
            self.registry.sessions.contains_key(fsid) ==> self.registry.knows_room_of(
                self.registry.sessions[fsid].role,
            )
    }

    /// What holds of the live rooms and sessions: every live session is
    /// registered; no two live sessions and no two live rooms share an
    /// identifier; every live session is a member of a live room; every live
    /// room has a member, and its members are live sessions of that room.
    pub open spec fn live(self) -> bool {
        &&& self.registry.one_to_one()
        &&& forall|fsid: Seq<char>| #[trigger]
            self.sessions.contains_key(fsid) ==> self.registry.sessions.contains_key(fsid)
        &&& forall|a: Seq<char>, b: Seq<char>|
            #![trigger self.sessions[a], self.sessions[b]]
            self.sessions.contains_key(a) && self.sessions.contains_key(b) && self.sessions[a].id
                == self.sessions[b].id ==> a == b
        &&& forall|a: Seq<char>, b: Seq<char>|
            #![trigger self.rooms[a], self.rooms[b]]
            self.rooms.contains_key(a) && self.rooms.contains_key(b) && self.rooms[a].id
                == self.rooms[b].id ==> a == b
        &&& forall|fsid: Seq<char>| #[trigger] self.sessions.contains_key(fsid) ==> self.housed(
            fsid,
        )
        &&& forall|key: Seq<char>| #[trigger]
            self.rooms.contains_key(key) ==> exists|id: u128| self.rooms[key].sessions.contains(id)
        &&& forall|key: Seq<char>, id: u128|
            self.rooms.contains_key(key) && #[trigger] self.rooms[key].sessions.contains(id)
                ==> self.member_lives(key, id)
    }

    /// The server's invariant.
    pub open spec fn wf(self) -> bool {
        self.linked() && self.live()
    }

    /// The key of the room that the registered session `fsid` belongs in:
    /// its own id for a Vulcast, the id of the room's Vulcast for a client.
    pub open spec fn home(self, fsid: Seq<char>) -> Seq<char> {
        match self.registry.sessions[fsid].role.room() {
            Some(frid) => self.registry.rooms[frid],
            None => fsid,
        }
    }

    /// The room that is bound to the Vulcast `fsid`, where one is.
    pub open spec fn room_of(self, fsid: Seq<char>) -> Seq<char> {
        choose|frid: Seq<char>| #[trigger]
            self.registry.rooms.contains_key(frid) && self.registry.rooms[frid] == fsid
    }

    /// The live session with identifier `id` is one of the sessions `gone`.
    pub open spec fn is_gone(self, gone: Set<Seq<char>>, id: u128) -> bool {
        exists|fsid: Seq<char>|
            gone.contains(fsid) && #[trigger] self.sessions.contains_key(fsid)
                && self.sessions[fsid].id == id
    }

    /// The room `key` keeps a member when the sessions `gone` leave.
    pub open spec fn outlasts(self, gone: Set<Seq<char>>, key: Seq<char>) -> bool {
        exists|id: u128| #[trigger]
            self.rooms[key].sessions.contains(id) && !self.is_gone(gone, id)
    }

    /// The server after the live sessions among `gone` have been dropped:
    /// each leaves its room, and a room that is left without a member is
    /// reclaimed. The registry does not change.
    pub open spec fn dropped(self, gone: Set<Seq<char>>) -> ServerState {
        ServerState {
            sessions: self.sessions.remove_keys(gone),
            rooms: Map::new(
                |key: Seq<char>| self.rooms.contains_key(key) && self.outlasts(gone, key),
                |key: Seq<char>|
                    RoomState {
                        sessions: Set::new(
                            |id: u128|
                                self.rooms[key].sessions.contains(id) && !self.is_gone(gone, id),
                        ),
                        ..self.rooms[key]
                    },
            ),
            ..self
        }
    }

    /// The live sessions among `gone`, as they are.
    pub open spec fn released_by(self, gone: Set<Seq<char>>) -> Set<SessionState> {
        Set::new(
            |session: SessionState|
                exists|fsid: Seq<char>|
                    gone.contains(fsid) && #[trigger] self.sessions.contains_key(fsid)
                        && self.sessions[fsid] == session,
        )
    }

    /// The server after the sessions `gone` have been unregistered and, where
    /// they were live, dropped. The sessions dropped are kept to be handed out.
    pub open spec fn evicted(self, gone: Set<Seq<char>>) -> ServerState {
        ServerState {
            registry: RegistryState {
                sessions: self.registry.sessions.remove_keys(gone),
                rooms: self.registry.rooms,
            },
            released: self.released.union(self.released_by(gone)),
            ..self.dropped(gone)
        }
    }

    /// The server after the sessions it had dropped have been handed out.
    pub open spec fn drained(self) -> ServerState {
        ServerState { released: Set::empty(), ..self }
    }

    /// The server after `fsid` has been registered with `role` under `token`.
    pub open spec fn with_session(self, fsid: Seq<char>, token: u128, role: Role) -> ServerState {
        ServerState { registry: self.registry.with_session(fsid, token, role), ..self }
    }

    /// The server after the room `frid` has been bound to the Vulcast `vulcast`.
    pub open spec fn with_room(self, frid: Seq<char>, vulcast: Seq<char>) -> ServerState {
        ServerState { registry: self.registry.with_room(frid, vulcast), ..self }
    }

    /// The server after the room `frid` has been unregistered: its binding
    /// is gone, and so is every client of the room, registration and live
    /// session alike.
    pub open spec fn without_room(self, frid: Seq<char>) -> ServerState {
        ServerState { registry: self.registry.without_room(frid), ..self }.evicted(
            self.registry.clients_of(frid),
        )
    }

    /// The server after the session `fsid` has been unregistered: its
    /// registration and its live session are gone, and if it was the Vulcast
    /// of a room, so is that room with all its clients.
    pub open spec fn without_session(self, fsid: Seq<char>) -> ServerState {
        if self.registry.vulcast_bound(fsid) {
            self.without_room(self.room_of(fsid)).evicted(set![fsid])
        } else {
            self.evicted(set![fsid])
        }
    }

    /// The server after the registered session `fsid` has connected and been
    /// given the session identifier `session_id`. A session that was live
    /// under `fsid` is dropped first, and kept to be handed out. The new
    /// session joins the live room that it belongs in, or a new room with
    /// identifier `room_id` where none is live.
    pub open spec fn connected(
        self,
        fsid: Seq<char>,
        session_id: u128,
        room_id: u128,
    ) -> ServerState {
        let cleared = self.dropped(set![fsid]);
        let key = self.home(fsid);
        let room = if cleared.rooms.contains_key(key) {
            cleared.rooms[key]
        } else {
            RoomState { id: room_id, router: None, sessions: Set::empty() }
        };
        ServerState {
            rooms: cleared.rooms.insert(
                key,
                RoomState { sessions: room.sessions.insert(session_id), ..room },
            ),
            sessions: cleared.sessions.insert(
                fsid,
                fresh_session(
                    session_id,
                    room.id,
                    self.registry.sessions[fsid].role,
                    self.listen_ip,
                ),
            ),
            released: self.released.union(self.released_by(set![fsid])),
            ..cleared
        }
    }

    /// The server after the connection that presents `token` has been
    /// admitted under the identifiers `session_id` and `room_id`.
    pub open spec fn admitted(self, token: u128, session_id: u128, room_id: u128) -> ServerState {
        self.connected(self.registry.holder_of(token), session_id, room_id)
    }

    /// A connection that presents `token` is admitted under the identifiers
    /// `session_id` and `room_id`: some registration holds the token, and
    /// neither identifier is that of a session or room that is live.
    pub open spec fn admits(self, token: u128, session_id: u128, room_id: u128) -> bool {
        &&& self.registry.token_in_use(token)
        &&& !self.session_id_live(session_id)
        &&& !self.room_id_live(room_id)
    }

    /// What becomes of a connection that presents `token` and is offered
    /// the identifiers `session_id` and `room_id`: the identifier of the
    /// session that goes live together with the server as it is then, or no
    /// session and the server as it was.
    pub open spec fn connection(self, token: u128, session_id: u128, room_id: u128) -> (
        Option<u128>,
        ServerState,
    ) {
        if self.admits(token, session_id, room_id) {
            (Some(session_id), self.admitted(token, session_id, room_id))
        } else {
            (None, self)
        }
    }

    /// No session and no room is live.
    pub open spec fn idle(self) -> bool {
        self.sessions.dom() =~= Set::empty() && self.rooms.dom() =~= Set::empty()
    }

    /// A session is live that was admitted on `token`.
    pub open spec fn token_live(self, token: u128) -> bool {
        self.registry.token_in_use(token) && self.sessions.contains_key(
            self.registry.holder_of(token),
        )
    }

    /// The session id under which the session with identifier `id` lives,
    /// where one does.
    pub open spec fn bearer_of(self, id: u128) -> Seq<char> {
        choose|fsid: Seq<char>| #[trigger]
            self.sessions.contains_key(fsid) && self.sessions[fsid].id == id
    }

    /// The key under which the room with identifier `id` lives, where one does.
    pub open spec fn key_of_room(self, id: u128) -> Seq<char> {
        choose|key: Seq<char>| #[trigger] self.rooms.contains_key(key) && self.rooms[key].id == id
    }

    /// The server after `event` has been recorded in the live session with
    /// identifier `id`; nothing changes when no such session is live.
    pub open spec fn recorded(self, id: u128, event: SessionEvent) -> ServerState {
        if self.session_id_live(id) {
            let fsid = self.bearer_of(id);
            ServerState {
                sessions: self.sessions.insert(fsid, self.sessions[fsid].after(event)),
                ..self
            }
        } else {
            self
        }
    }

    /// The server after `router` has been offered to the live room with
    /// identifier `id`: the room keeps the first router it was offered.
    pub open spec fn with_router(self, id: u128, router: u128) -> ServerState {
        if self.room_id_live(id) {
            let key = self.key_of_room(id);
            let kept = match self.rooms[key].router {
                Some(first) => first,
                None => router,
            };
            ServerState {
                rooms: self.rooms.insert(key, RoomState { router: Some(kept), ..self.rooms[key] }),
                ..self
            }
        } else {
            self
        }
    }

    /// The resources of kind `resource` that are open in the live sessions
    /// of the room with identifier `room`.
    pub open spec fn open_in_room(self, room: u128, resource: Resource) -> Set<u128> {
        Set::new(
            |id: u128|
                exists|fsid: Seq<char>|
                    #![trigger self.sessions[fsid]]
                    self.sessions.contains_key(fsid) && self.sessions[fsid].room == room
                        && open_ids(self.sessions[fsid].holdings(resource)).contains(id),
        )
    }

    /// Where the invariant holds, the members of a live room are the live
    /// sessions that name it.
    pub proof fn lemma_members(self, key: Seq<char>, fsid: Seq<char>)
        requires
            self.live(),
            self.rooms.contains_key(key),
            self.sessions.contains_key(fsid),
        ensures
            self.rooms[key].sessions.contains(self.sessions[fsid].id) <==> self.sessions[fsid].room
                == self.rooms[key].id,
    {
        if self.rooms[key].sessions.contains(self.sessions[fsid].id) {
            assert(self.member_lives(key, self.sessions[fsid].id));
            let other = choose|other: Seq<char>| #[trigger]
                self.sessions.contains_key(other) && self.sessions[other].id
                    == self.sessions[fsid].id && self.sessions[other].room == self.rooms[key].id;
            assert(self.sessions[other].id == self.sessions[fsid].id);
            assert(other == fsid);
        }
        if self.sessions[fsid].room == self.rooms[key].id {
            assert(self.housed(fsid));
            let home = choose|home: Seq<char>| #[trigger]
                self.rooms.contains_key(home) && self.rooms[home].id == self.sessions[fsid].room
                    && self.rooms[home].sessions.contains(self.sessions[fsid].id);
            assert(self.rooms[home].id == self.rooms[key].id);
            assert(home == key);
        }
    }

    /// Dropping and unregistering sessions keeps what holds of the live
    /// rooms and sessions.
    pub proof fn lemma_evicted_live(self, gone: Set<Seq<char>>)
        requires
            self.live(),
        ensures
            self.evicted(gone).live(),
            self.dropped(gone).live(),
    {
        let next = self.evicted(gone);
        let kept = self.dropped(gone);
        assert forall|a: Seq<char>, b: Seq<char>|
            #![trigger next.registry.sessions[a], next.registry.sessions[b]]
            next.registry.sessions.contains_key(a) && next.registry.sessions.contains_key(b)
                && next.registry.sessions[a].token
                == next.registry.sessions[b].token implies a == b by {
            assert(self.registry.sessions.contains_key(a) && self.registry.sessions.contains_key(b));
            assert(self.registry.sessions[a].token == self.registry.sessions[b].token);
        }
        assert forall|a: Seq<char>| #[trigger]
            next.registry.sessions.contains_key(a) implies next.registry.sessions[a].token != 0 by {
            assert(self.registry.sessions.contains_key(a));
        }
        assert(next.registry.one_to_one());
        assert forall|fsid: Seq<char>| #[trigger]
            next.sessions.contains_key(fsid) implies next.registry.sessions.contains_key(fsid)
            && next.housed(fsid) by {
            assert(self.sessions.contains_key(fsid));
            assert(self.housed(fsid));
            let key = choose|key: Seq<char>| #[trigger]
                self.rooms.contains_key(key) && self.rooms[key].id == self.sessions[fsid].room
                    && self.rooms[key].sessions.contains(self.sessions[fsid].id);
            let id = self.sessions[fsid].id;
            if self.is_gone(gone, id) {
                let other = choose|other: Seq<char>|
                    gone.contains(other) && #[trigger] self.sessions.contains_key(other)
                        && self.sessions[other].id == id;
                assert(self.sessions[other].id == self.sessions[fsid].id);
                assert(other == fsid);
            }
            assert(self.rooms[key].sessions.contains(id) && !self.is_gone(gone, id));
            assert(self.outlasts(gone, key));
            assert(next.rooms.contains_key(key));
            assert(next.rooms[key].sessions.contains(id));
        }
        assert forall|a: Seq<char>, b: Seq<char>|
            #![trigger next.sessions[a], next.sessions[b]]
            next.sessions.contains_key(a) && next.sessions.contains_key(b) && next.sessions[a].id
                == next.sessions[b].id implies a == b by {
            assert(self.sessions.contains_key(a) && self.sessions.contains_key(b));
            assert(self.sessions[a].id == self.sessions[b].id);
        }
        assert forall|a: Seq<char>, b: Seq<char>|
            #![trigger next.rooms[a], next.rooms[b]]
            next.rooms.contains_key(a) && next.rooms.contains_key(b) && next.rooms[a].id
                == next.rooms[b].id implies a == b by {
            assert(self.rooms.contains_key(a) && self.rooms.contains_key(b));
            assert(self.rooms[a].id == self.rooms[b].id);
        }
        assert forall|key: Seq<char>| #[trigger] next.rooms.contains_key(key) implies exists|
            id: u128,
        |
            next.rooms[key].sessions.contains(id) by {
            assert(self.outlasts(gone, key));
            let id = choose|id: u128| #[trigger]
                self.rooms[key].sessions.contains(id) && !self.is_gone(gone, id);
            assert(next.rooms[key].sessions.contains(id));
        }
        assert forall|key: Seq<char>, id: u128|
            next.rooms.contains_key(key) && #[trigger] next.rooms[key].sessions.contains(
                id,
            ) implies next.member_lives(key, id) by {
            assert(self.rooms[key].sessions.contains(id));
            assert(self.member_lives(key, id));
            let fsid = choose|fsid: Seq<char>| #[trigger]
                self.sessions.contains_key(fsid) && self.sessions[fsid].id == id
                    && self.sessions[fsid].room == self.rooms[key].id;
            if gone.contains(fsid) {
                assert(self.is_gone(gone, id));
            }
            assert(next.sessions.contains_key(fsid));
        }
        assert(next.live());
        assert(kept.rooms == next.rooms && kept.sessions == next.sessions);
        assert forall|fsid: Seq<char>| #[trigger]
            kept.sessions.contains_key(fsid) implies kept.registry.sessions.contains_key(fsid)
            && kept.housed(fsid) by {
            assert(next.sessions.contains_key(fsid));
            assert(next.housed(fsid));
            assert(self.sessions.contains_key(fsid));
        }
        assert forall|key: Seq<char>, id: u128|
            kept.rooms.contains_key(key) && #[trigger] kept.rooms[key].sessions.contains(
                id,
            ) implies kept.member_lives(key, id) by {
            assert(next.member_lives(key, id));
        }
        assert(kept.live());
    }

    /// Dropping or unregistering no session changes nothing.
    pub proof fn lemma_evicted_none(self)
        requires
            self.live(),
        ensures
            self.evicted(Set::empty()) == self,
            self.dropped(Set::empty()) == self,
    {
        let gone = Set::<Seq<char>>::empty();
        self.lemma_untouched(gone);
        assert(self.registry.sessions.remove_keys(gone) =~= self.registry.sessions);
        assert(self.released.union(self.released_by(gone)) =~= self.released);
        assert(self.evicted(gone) =~~= self);
    }

    /// Where none of the sessions `gone` is live, dropping them changes
    /// neither the live rooms nor the live sessions.
    pub proof fn lemma_untouched(self, gone: Set<Seq<char>>)
        requires
            self.live(),
            forall|fsid: Seq<char>| gone.contains(fsid) ==> !self.sessions.contains_key(fsid),
        ensures
            self.dropped(gone) == self,
    {
        let kept = self.dropped(gone);
        assert forall|id: u128| !self.is_gone(gone, id) by {
            if self.is_gone(gone, id) {
                let fsid = choose|fsid: Seq<char>|
                    gone.contains(fsid) && #[trigger] self.sessions.contains_key(fsid)
                        && self.sessions[fsid].id == id;
                assert(false);
            }
        }
        assert(kept.sessions =~= self.sessions);
        assert forall|key: Seq<char>| self.rooms.contains_key(key) implies kept.rooms.contains_key(
            key,
        ) && kept.rooms[key] == self.rooms[key] by {
            let id = choose|id: u128| self.rooms[key].sessions.contains(id);
            assert(self.rooms[key].sessions.contains(id) && !self.is_gone(gone, id));
            assert(self.outlasts(gone, key));
            assert(kept.rooms[key].sessions =~= self.rooms[key].sessions);
        }
        assert(kept.rooms =~= self.rooms);
        assert(kept =~~= self);
    }

    /// Sessions may leave one after another or all at once.
    pub proof fn lemma_evicted_step(self, gone: Set<Seq<char>>, fsid: Seq<char>)
        ensures
            self.evicted(gone).evicted(set![fsid]) == self.evicted(gone.insert(fsid)),
            self.dropped(gone).dropped(set![fsid]) == self.dropped(gone.insert(fsid)),
    {
        let first = self.dropped(gone);
        let both = self.dropped(gone.insert(fsid));
        let stepwise = first.dropped(set![fsid]);
        assert forall|id: u128|
            self.is_gone(gone.insert(fsid), id) <==> (self.is_gone(gone, id) || first.is_gone(
                set![fsid],
                id,
            )) by {
            if self.is_gone(gone.insert(fsid), id) {
                let f = choose|f: Seq<char>|
                    gone.insert(fsid).contains(f) && #[trigger] self.sessions.contains_key(f)
                        && self.sessions[f].id == id;
                if gone.contains(f) {
                    assert(self.is_gone(gone, id));
                } else {
                    assert(f == fsid);
                    assert(set![fsid].contains(f) && first.sessions.contains_key(f)
                        && first.sessions[f].id == id);
                }
            }
            if self.is_gone(gone, id) {
                let f = choose|f: Seq<char>|
                    gone.contains(f) && #[trigger] self.sessions.contains_key(f)
                        && self.sessions[f].id == id;
                assert(gone.insert(fsid).contains(f));
            }
            if first.is_gone(set![fsid], id) {
                let f = choose|f: Seq<char>|
                    set![fsid].contains(f) && #[trigger] first.sessions.contains_key(f)
                        && first.sessions[f].id == id;
                assert(gone.insert(fsid).contains(f) && self.sessions.contains_key(f)
                    && self.sessions[f].id == id);
            }
        }
        assert(stepwise.sessions =~= both.sessions);
        assert forall|key: Seq<char>|
            stepwise.rooms.contains_key(key) <==> both.rooms.contains_key(key) by {
            if stepwise.rooms.contains_key(key) {
                assert(first.outlasts(set![fsid], key));
                let id = choose|id: u128| #[trigger]
                    first.rooms[key].sessions.contains(id) && !first.is_gone(set![fsid], id);
                assert(self.rooms[key].sessions.contains(id) && !self.is_gone(
                    gone.insert(fsid),
                    id,
                ));
                assert(self.outlasts(gone.insert(fsid), key));
            }
            if both.rooms.contains_key(key) {
                assert(self.outlasts(gone.insert(fsid), key));
                let id = choose|id: u128| #[trigger]
                    self.rooms[key].sessions.contains(id) && !self.is_gone(gone.insert(fsid), id);
                assert(self.rooms[key].sessions.contains(id) && !self.is_gone(gone, id));
                assert(self.outlasts(gone, key));
                assert(first.rooms.contains_key(key));
                assert(first.rooms[key].sessions.contains(id) && !first.is_gone(set![fsid], id));
                assert(first.outlasts(set![fsid], key));
            }
        }
        assert forall|key: Seq<char>| both.rooms.contains_key(key) implies stepwise.rooms[key]
            == both.rooms[key] by {
            assert(stepwise.rooms[key].sessions =~= both.rooms[key].sessions);
        }
        assert(stepwise.rooms =~= both.rooms);
        assert(stepwise =~~= both);
        assert(self.registry.sessions.remove_keys(gone).remove_keys(set![fsid])
            =~= self.registry.sessions.remove_keys(gone.insert(fsid)));
        let once = self.evicted(gone);
        assert(once.sessions == first.sessions);
        assert forall|session: SessionState|
            self.released_by(gone.insert(fsid)).contains(session) <==> (self.released_by(
                gone,
            ).contains(session) || once.released_by(set![fsid]).contains(session)) by {
            if self.released_by(gone.insert(fsid)).contains(session) {
                let f = choose|f: Seq<char>|
                    gone.insert(fsid).contains(f) && #[trigger] self.sessions.contains_key(f)
                        && self.sessions[f] == session;
                if gone.contains(f) {
                    assert(self.released_by(gone).contains(session));
                } else {
                    assert(f == fsid);
                    assert(set![fsid].contains(f) && once.sessions.contains_key(f)
                        && once.sessions[f] == session);
                }
            }
            if self.released_by(gone).contains(session) {
                let f = choose|f: Seq<char>|
                    gone.contains(f) && #[trigger] self.sessions.contains_key(f)
                        && self.sessions[f] == session;
                assert(gone.insert(fsid).contains(f));
            }
            if once.released_by(set![fsid]).contains(session) {
                let f = choose|f: Seq<char>|
                    set![fsid].contains(f) && #[trigger] once.sessions.contains_key(f)
                        && once.sessions[f] == session;
                assert(gone.insert(fsid).contains(f) && self.sessions.contains_key(f)
                    && self.sessions[f] == session);
            }
        }
        assert(once.released.union(once.released_by(set![fsid])) =~= self.released.union(
            self.released_by(gone.insert(fsid)),
        ));
        assert(self.evicted(gone).evicted(set![fsid]) =~~= self.evicted(gone.insert(fsid)));
    }

    /// Registering a session keeps the invariant.
    pub proof fn lemma_with_session_wf(self, fsid: Seq<char>, token: u128, role: Role)
        requires
            self.wf(),
            self.registry.admits_session(fsid, role, token),
        ensures
            self.with_session(fsid, token, role).wf(),
    {
        let next = self.with_session(fsid, token, role);
        self.registry.lemma_with_session_one_to_one(fsid, token, role);
        assert forall|frid: Seq<char>| #[trigger]
            next.registry.rooms.contains_key(frid) implies next.registry.is_vulcast(
            next.registry.rooms[frid],
        ) by {
            assert(self.registry.rooms.contains_key(frid));
            assert(self.registry.is_vulcast(self.registry.rooms[frid]));
        }
        assert forall|other: Seq<char>| #[trigger]
            next.registry.sessions.contains_key(other) implies next.registry.knows_room_of(
            next.registry.sessions[other].role,
        ) by {
            if other != fsid {
                assert(self.registry.sessions.contains_key(other));
            }
        }
        assert forall|other: Seq<char>| #[trigger]
            next.sessions.contains_key(other) implies next.registry.sessions.contains_key(other)
            && next.housed(other) by {
            assert(self.sessions.contains_key(other));
            assert(self.housed(other));
        }
        assert forall|key: Seq<char>, id: u128|
            next.rooms.contains_key(key) && #[trigger] next.rooms[key].sessions.contains(
                id,
            ) implies next.member_lives(key, id) by {
            assert(self.member_lives(key, id));
        }
    }

    /// Registering a room keeps the invariant.
    pub proof fn lemma_with_room_wf(self, frid: Seq<char>, vulcast: Seq<char>)
        requires
            self.wf(),
            self.registry.admits_room(frid, vulcast),
        ensures
            self.with_room(frid, vulcast).wf(),
    {
        let next = self.with_room(frid, vulcast);
        self.registry.lemma_with_room_one_to_one(frid, vulcast);
        assert forall|other: Seq<char>| #[trigger]
            next.registry.rooms.contains_key(other) implies next.registry.is_vulcast(
            next.registry.rooms[other],
        ) by {
            if other != frid {
                assert(self.registry.rooms.contains_key(other));
            }
        }
        assert forall|other: Seq<char>| #[trigger]
            next.registry.sessions.contains_key(other) implies next.registry.knows_room_of(
            next.registry.sessions[other].role,
        ) by {
            assert(self.registry.sessions.contains_key(other));
            assert(self.registry.knows_room_of(self.registry.sessions[other].role));
        }
        assert forall|other: Seq<char>| #[trigger]
            next.sessions.contains_key(other) implies next.registry.sessions.contains_key(other)
            && next.housed(other) by {
            assert(self.sessions.contains_key(other));
            assert(self.housed(other));
        }
        assert forall|key: Seq<char>, id: u128|
            next.rooms.contains_key(key) && #[trigger] next.rooms[key].sessions.contains(
                id,
            ) implies next.member_lives(key, id) by {
            assert(self.member_lives(key, id));
        }
    }

    /// Unregistering a room, with its clients, keeps the invariant.
    pub proof fn lemma_without_room_wf(self, frid: Seq<char>)
        requires
            self.wf(),
        ensures
            self.without_room(frid).wf(),
    {
        let unbound = ServerState { registry: self.registry.without_room(frid), ..self };
        let clients = self.registry.clients_of(frid);
        let next = self.without_room(frid);
        self.registry.lemma_without_room_one_to_one(frid);
        assert forall|other: Seq<char>| #[trigger]
            unbound.sessions.contains_key(other) implies unbound.registry.sessions.contains_key(
            other,
        ) && unbound.housed(other) by {
            assert(self.sessions.contains_key(other));
            assert(self.housed(other));
        }
        assert forall|key: Seq<char>, id: u128|
            unbound.rooms.contains_key(key) && #[trigger] unbound.rooms[key].sessions.contains(
                id,
            ) implies unbound.member_lives(key, id) by {
            assert(self.member_lives(key, id));
        }
        assert(unbound.live());
        unbound.lemma_evicted_live(clients);
        assert forall|other: Seq<char>| #[trigger]
            next.registry.rooms.contains_key(other) implies next.registry.is_vulcast(
            next.registry.rooms[other],
        ) by {
            assert(self.registry.rooms.contains_key(other));
            assert(self.registry.is_vulcast(self.registry.rooms[other]));
        }
        assert forall|other: Seq<char>| #[trigger]
            next.registry.sessions.contains_key(other) implies next.registry.knows_room_of(
            next.registry.sessions[other].role,
        ) by {
            assert(self.registry.sessions.contains_key(other));
            assert(self.registry.knows_room_of(self.registry.sessions[other].role));
            assert(!clients.contains(other));
        }
    }

    /// Unregistering a session, with what hangs on it, keeps the invariant.
    pub proof fn lemma_without_session_wf(self, fsid: Seq<char>)
        requires
            self.wf(),
        ensures
            self.without_session(fsid).wf(),
    {
        let next = self.without_session(fsid);
        if self.registry.vulcast_bound(fsid) {
            let frid = self.room_of(fsid);
            assert(self.registry.rooms.contains_key(frid) && self.registry.rooms[frid] == fsid);
            let mid = self.without_room(frid);
            self.lemma_without_room_wf(frid);
            mid.lemma_evicted_live(set![fsid]);
            assert forall|other: Seq<char>| #[trigger]
                next.registry.rooms.contains_key(other) implies next.registry.is_vulcast(
                next.registry.rooms[other],
            ) by {
                assert(mid.registry.rooms.contains_key(other));
                assert(mid.registry.is_vulcast(mid.registry.rooms[other]));
                assert(self.registry.rooms.contains_key(other));
                if self.registry.rooms[other] == fsid {
                    assert(self.registry.rooms[other] == self.registry.rooms[frid]);
                    assert(other == frid);
                }
            }
            assert forall|other: Seq<char>| #[trigger]
                next.registry.sessions.contains_key(other) implies next.registry.knows_room_of(
                next.registry.sessions[other].role,
            ) by {
                assert(mid.registry.sessions.contains_key(other));
                assert(mid.registry.knows_room_of(mid.registry.sessions[other].role));
            }
        } else {
            self.lemma_evicted_live(set![fsid]);
            assert forall|other: Seq<char>| #[trigger]
                next.registry.rooms.contains_key(other) implies next.registry.is_vulcast(
                next.registry.rooms[other],
            ) by {
                assert(self.registry.rooms.contains_key(other));
                assert(self.registry.is_vulcast(self.registry.rooms[other]));
                assert(self.registry.rooms.contains_value(self.registry.rooms[other]));
            }
            assert forall|other: Seq<char>| #[trigger]
                next.registry.sessions.contains_key(other) implies next.registry.knows_room_of(
                next.registry.sessions[other].role,
            ) by {
                assert(self.registry.sessions.contains_key(other));
                assert(self.registry.knows_room_of(self.registry.sessions[other].role));
            }
        }
    }

    /// Connecting a registered session under fresh identifiers keeps the invariant.
    pub proof fn lemma_connected_wf(self, fsid: Seq<char>, session_id: u128, room_id: u128)
        requires
            self.wf(),
            self.registry.sessions.contains_key(fsid),
            !self.session_id_live(session_id),
            !self.room_id_live(room_id),
        ensures
            self.connected(fsid, session_id, room_id).wf(),
    {
        let cleared = self.dropped(set![fsid]);
        let key = self.home(fsid);
        let next = self.connected(fsid, session_id, room_id);
        self.lemma_evicted_live(set![fsid]);
        assert(!cleared.sessions.contains_key(fsid));
        assert forall|other: Seq<char>| #[trigger]
            cleared.sessions.contains_key(other) implies cleared.sessions[other].id
            != session_id by {
            assert(self.sessions.contains_key(other));
        }
        assert forall|other: Seq<char>| #[trigger]
            cleared.rooms.contains_key(other) implies cleared.rooms[other].id != room_id by {
            assert(self.rooms.contains_key(other));
        }
        assert forall|other: Seq<char>| #[trigger]
            next.sessions.contains_key(other) implies next.registry.sessions.contains_key(other)
            && next.housed(other) by {
            if other == fsid {
                assert(next.rooms.contains_key(key));
                assert(next.rooms[key].sessions.contains(session_id));
            } else {
                assert(cleared.sessions.contains_key(other));
                assert(cleared.housed(other));
                let k = choose|k: Seq<char>| #[trigger]
                    cleared.rooms.contains_key(k) && cleared.rooms[k].id
                        == cleared.sessions[other].room && cleared.rooms[k].sessions.contains(
                        cleared.sessions[other].id,
                    );
                assert(next.rooms.contains_key(k));
                assert(next.rooms[k].id == next.sessions[other].room);
                assert(next.rooms[k].sessions.contains(next.sessions[other].id));
            }
        }
        assert forall|a: Seq<char>, b: Seq<char>|
            #![trigger next.sessions[a], next.sessions[b]]
            next.sessions.contains_key(a) && next.sessions.contains_key(b) && next.sessions[a].id
                == next.sessions[b].id implies a == b by {
            if a != fsid && b != fsid {
                assert(cleared.sessions.contains_key(a) && cleared.sessions.contains_key(b));
                assert(cleared.sessions[a].id == cleared.sessions[b].id);
            } else if a != fsid {
                assert(cleared.sessions.contains_key(a));
            } else if b != fsid {
                assert(cleared.sessions.contains_key(b));
            }
        }
        assert forall|a: Seq<char>, b: Seq<char>|
            #![trigger next.rooms[a], next.rooms[b]]
            next.rooms.contains_key(a) && next.rooms.contains_key(b) && next.rooms[a].id
                == next.rooms[b].id implies a == b by {
            if a != key && b != key {
                assert(cleared.rooms.contains_key(a) && cleared.rooms.contains_key(b));
                assert(cleared.rooms[a].id == cleared.rooms[b].id);
            } else if a != key {
                assert(cleared.rooms.contains_key(a));
                if cleared.rooms.contains_key(key) {
                    assert(cleared.rooms[a].id == cleared.rooms[key].id);
                }
            } else if b != key {
                assert(cleared.rooms.contains_key(b));
                if cleared.rooms.contains_key(key) {
                    assert(cleared.rooms[b].id == cleared.rooms[key].id);
                }
            }
        }
        assert forall|k: Seq<char>| #[trigger] next.rooms.contains_key(k) implies exists|id: u128|
            next.rooms[k].sessions.contains(id) by {
            if k == key {
                assert(next.rooms[k].sessions.contains(session_id));
            } else {
                assert(cleared.rooms.contains_key(k));
                let id = choose|id: u128| cleared.rooms[k].sessions.contains(id);
                assert(next.rooms[k].sessions.contains(id));
            }
        }
        assert forall|k: Seq<char>, id: u128|
            next.rooms.contains_key(k) && #[trigger] next.rooms[k].sessions.contains(
                id,
            ) implies next.member_lives(k, id) by {
            if k == key && id == session_id {
                assert(next.sessions.contains_key(fsid));
            } else {
                assert(cleared.rooms.contains_key(k));
                assert(cleared.rooms[k].sessions.contains(id));
                assert(cleared.member_lives(k, id));
                let f = choose|f: Seq<char>| #[trigger]
                    cleared.sessions.contains_key(f) && cleared.sessions[f].id == id
                        && cleared.sessions[f].room == cleared.rooms[k].id;
                assert(next.sessions.contains_key(f));
                assert(next.sessions[f] == cleared.sessions[f]);
            }
        }
        assert forall|frid: Seq<char>| #[trigger]
            next.registry.rooms.contains_key(frid) implies next.registry.is_vulcast(
            next.registry.rooms[frid],
        ) by {
            assert(self.registry.rooms.contains_key(frid));
        }
        assert forall|other: Seq<char>| #[trigger]
            next.registry.sessions.contains_key(other) implies next.registry.knows_room_of(
            next.registry.sessions[other].role,
        ) by {
            assert(self.registry.sessions.contains_key(other));
        }
    }

    /// Recording an event in a live session keeps the invariant.
    pub proof fn lemma_recorded_wf(self, id: u128, event: SessionEvent)
        requires
            self.wf(),
        ensures
            self.recorded(id, event).wf(),
    {
        let next = self.recorded(id, event);
        if self.session_id_live(id) {
            let fsid = self.bearer_of(id);
            assert(self.sessions.contains_key(fsid) && self.sessions[fsid].id == id);
            let changed = self.sessions[fsid].after(event);
            assert(changed.id == self.sessions[fsid].id && changed.room
                == self.sessions[fsid].room);
            assert forall|other: Seq<char>| #[trigger]
                next.sessions.contains_key(other) implies next.registry.sessions.contains_key(
                other,
            ) && next.housed(other) by {
                assert(self.sessions.contains_key(other));
                assert(self.housed(other));
            }
            assert forall|a: Seq<char>, b: Seq<char>|
                #![trigger next.sessions[a], next.sessions[b]]
                next.sessions.contains_key(a) && next.sessions.contains_key(b)
                    && next.sessions[a].id == next.sessions[b].id implies a == b by {
                assert(self.sessions.contains_key(a) && self.sessions.contains_key(b));
                assert(self.sessions[a].id == self.sessions[b].id);
            }
            assert forall|key: Seq<char>, member: u128|
                next.rooms.contains_key(key) && #[trigger] next.rooms[key].sessions.contains(
                    member,
                ) implies next.member_lives(key, member) by {
                assert(self.member_lives(key, member));
                let f = choose|f: Seq<char>| #[trigger]
                    self.sessions.contains_key(f) && self.sessions[f].id == member
                        && self.sessions[f].room == self.rooms[key].id;
                assert(next.sessions.contains_key(f));
            }
        }
    }

    /// Offering a router to a live room keeps the invariant.
    pub proof fn lemma_with_router_wf(self, id: u128, router: u128)
        requires
            self.wf(),
        ensures
            self.with_router(id, router).wf(),
    {
        let next = self.with_router(id, router);
        if self.room_id_live(id) {
            let key = self.key_of_room(id);
            assert(self.rooms.contains_key(key) && self.rooms[key].id == id);
            assert forall|other: Seq<char>| #[trigger]
                next.sessions.contains_key(other) implies next.registry.sessions.contains_key(
                other,
            ) && next.housed(other) by {
                assert(self.sessions.contains_key(other));
                assert(self.housed(other));
                let k = choose|k: Seq<char>| #[trigger]
                    self.rooms.contains_key(k) && self.rooms[k].id == self.sessions[other].room
                        && self.rooms[k].sessions.contains(self.sessions[other].id);
                assert(next.rooms.contains_key(k));
                assert(next.rooms[k].id == self.rooms[k].id);
                assert(next.rooms[k].sessions == self.rooms[k].sessions);
            }
            assert forall|a: Seq<char>, b: Seq<char>|
                #![trigger next.rooms[a], next.rooms[b]]
                next.rooms.contains_key(a) && next.rooms.contains_key(b) && next.rooms[a].id
                    == next.rooms[b].id implies a == b by {
                assert(self.rooms.contains_key(a) && self.rooms.contains_key(b));
                assert(self.rooms[a].id == self.rooms[b].id);
            }
            assert forall|k: Seq<char>| #[trigger] next.rooms.contains_key(k) implies exists|
                member: u128,
            |
                next.rooms[k].sessions.contains(member) by {
                assert(self.rooms.contains_key(k));
                let member = choose|member: u128| self.rooms[k].sessions.contains(member);
                assert(next.rooms[k].sessions.contains(member));
            }
            assert forall|k: Seq<char>, member: u128|
                next.rooms.contains_key(k) && #[trigger] next.rooms[k].sessions.contains(
                    member,
                ) implies next.member_lives(k, member) by {
                assert(self.rooms.contains_key(k));
                assert(self.rooms[k].sessions.contains(member));
                assert(self.member_lives(k, member));
            }
        }
    }

    /// What dropping one live session comes to: the session leaves the table
    /// and its room, and the room goes with it if it was the last member.
    pub proof fn lemma_dropped_one(self, fsid: Seq<char>, key: Seq<char>)
        requires
            self.live(),
            self.sessions.contains_key(fsid),
            self.rooms.contains_key(key),
            self.rooms[key].id == self.sessions[fsid].room,
        ensures
            self.rooms[key].sessions.contains(self.sessions[fsid].id),
            self.dropped(set![fsid]) == (ServerState {
                sessions: self.sessions.remove(fsid),
                rooms: if self.rooms[key].sessions.remove(self.sessions[fsid].id)
                    =~= Set::<u128>::empty() {
                    self.rooms.remove(key)
                } else {
                    self.rooms.insert(
                        key,
                        RoomState {
                            sessions: self.rooms[key].sessions.remove(self.sessions[fsid].id),
                            ..self.rooms[key]
                        },
                    )
                },
                ..self
            }),
    {
        let gone = set![fsid];
        let sid = self.sessions[fsid].id;
        let left = self.rooms[key].sessions.remove(sid);
        let kept = self.dropped(gone);
        let target = ServerState {
            sessions: self.sessions.remove(fsid),
            rooms: if left =~= Set::<u128>::empty() {
                self.rooms.remove(key)
            } else {
                self.rooms.insert(key, RoomState { sessions: left, ..self.rooms[key] })
            },
            ..self
        };
        assert(self.housed(fsid));
        let home = choose|home: Seq<char>| #[trigger]
            self.rooms.contains_key(home) && self.rooms[home].id == self.sessions[fsid].room
                && self.rooms[home].sessions.contains(self.sessions[fsid].id);
        assert(self.rooms[home].id == self.rooms[key].id);
        assert(home == key);
        assert forall|id: u128| self.is_gone(gone, id) <==> id == sid by {
            if self.is_gone(gone, id) {
                let f = choose|f: Seq<char>|
                    gone.contains(f) && #[trigger] self.sessions.contains_key(f)
                        && self.sessions[f].id == id;
                assert(f == fsid);
            }
            if id == sid {
                assert(gone.contains(fsid) && self.sessions.contains_key(fsid)
                    && self.sessions[fsid].id == id);
            }
        }
        assert forall|other: Seq<char>| self.rooms.contains_key(other) && other != key implies
            !self.rooms[other].sessions.contains(sid) by {
            if self.rooms[other].sessions.contains(sid) {
                assert(self.member_lives(other, sid));
                let f = choose|f: Seq<char>| #[trigger]
                    self.sessions.contains_key(f) && self.sessions[f].id == sid
                        && self.sessions[f].room == self.rooms[other].id;
                assert(self.sessions[f].id == self.sessions[fsid].id);
                assert(f == fsid);
                assert(self.rooms[other].id == self.rooms[key].id);
            }
        }
        assert(kept.sessions =~= target.sessions);
        assert forall|other: Seq<char>|
            kept.rooms.contains_key(other) <==> target.rooms.contains_key(other) by {
            if other == key {
                if kept.rooms.contains_key(other) {
                    assert(self.outlasts(gone, key));
                    let id = choose|id: u128| #[trigger]
                        self.rooms[key].sessions.contains(id) && !self.is_gone(gone, id);
                    assert(left.contains(id));
                }
                if target.rooms.contains_key(other) {
                    assert(!(left =~= Set::<u128>::empty()));
                    let id = choose|id: u128| left.contains(id);
                    assert(self.rooms[key].sessions.contains(id) && !self.is_gone(gone, id));
                    assert(self.outlasts(gone, key));
                }
            } else if self.rooms.contains_key(other) {
                let id = choose|id: u128| self.rooms[other].sessions.contains(id);
                assert(self.rooms[other].sessions.contains(id) && !self.is_gone(gone, id));
                assert(self.outlasts(gone, other));
            }
        }
        assert forall|other: Seq<char>| target.rooms.contains_key(other) implies kept.rooms[other]
            == target.rooms[other] by {
            assert(kept.rooms[other].sessions =~= target.rooms[other].sessions);
        }
        assert(kept.rooms =~= target.rooms);
        assert(kept =~~= target);
    }

    /// Where the invariant holds, a token has one holder and a Vulcast one room.
    pub proof fn lemma_unique(self, fsid: Seq<char>, token: u128, frid: Seq<char>)
        requires
            self.registry.one_to_one(),
        ensures
            self.registry.sessions.contains_key(fsid) && self.registry.sessions[fsid].token
                == token ==> self.registry.holder_of(token) == fsid,
            self.registry.rooms.contains_key(frid) && self.registry.rooms[frid] == fsid
                ==> self.room_of(fsid) == frid,
    {
        if self.registry.sessions.contains_key(fsid) && self.registry.sessions[fsid].token
            == token {
            let holder = self.registry.holder_of(token);
            assert(self.registry.sessions.contains_key(holder)
                && self.registry.sessions[holder].token == token);
            assert(self.registry.sessions[holder].token == self.registry.sessions[fsid].token);
        }
        if self.registry.rooms.contains_key(frid) && self.registry.rooms[frid] == fsid {
            let room = self.room_of(fsid);
            assert(self.registry.rooms.contains_key(room) && self.registry.rooms[room] == fsid);
            assert(self.registry.rooms[room] == self.registry.rooms[frid]);
        }
    }

    /// Where no two live sessions share an identifier, the session that
    /// lives under `fsid` is the bearer of its identifier.
    pub proof fn lemma_bearer(self, fsid: Seq<char>, id: u128)
        requires
            self.live(),
            self.sessions.contains_key(fsid),
            self.sessions[fsid].id == id,
        ensures
            self.session_id_live(id),
            self.bearer_of(id) == fsid,
    {
        let bearer = self.bearer_of(id);
        assert(self.sessions.contains_key(bearer) && self.sessions[bearer].id == id);
        assert(self.sessions[bearer].id == self.sessions[fsid].id);
    }

    /// Where no two live rooms share an identifier, the room that lives
    /// under `key` is the one found by its identifier.
    pub proof fn lemma_key_of_room(self, key: Seq<char>, id: u128)
        requires
            self.live(),
            self.rooms.contains_key(key),
            self.rooms[key].id == id,
        ensures
            self.room_id_live(id),
            self.key_of_room(id) == key,
    {
        let found = self.key_of_room(id);
        assert(self.rooms.contains_key(found) && self.rooms[found].id == id);
        assert(self.rooms[found].id == self.rooms[key].id);
    }

    /// Sessions that are not live leave nothing to hand out, and a live one
    /// leaves itself.
    pub proof fn lemma_released_by_one(self, fsid: Seq<char>)
        ensures
            self.released_by(set![fsid]) == (if self.sessions.contains_key(fsid) {
                set![self.sessions[fsid]]
            } else {
                Set::<SessionState>::empty()
            }),
    {
        let one = self.released_by(set![fsid]);
        assert forall|session: SessionState| one.contains(session) <==> (
        self.sessions.contains_key(fsid) && session == self.sessions[fsid]) by {
            if one.contains(session) {
                let f = choose|f: Seq<char>|
                    set![fsid].contains(f) && #[trigger] self.sessions.contains_key(f)
                        && self.sessions[f] == session;
                assert(f == fsid);
            }
            if self.sessions.contains_key(fsid) && session == self.sessions[fsid] {
                assert(set![fsid].contains(fsid));
            }
        }
        if self.sessions.contains_key(fsid) {
            assert(one =~= set![self.sessions[fsid]]);
        } else {
            assert(one =~= Set::<SessionState>::empty());
        }
    }
}

} // verus!

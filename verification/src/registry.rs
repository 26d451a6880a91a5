//! The identity registry: which session ids are registered, with which token
//! and role, and which room id is bound to which Vulcast.
//!
//! The registry only translates and enforces uniqueness. What follows from a
//! removal (the clients of a room that goes, the room of a Vulcast that goes)
//! is the relay server's business.

use crate::bijection::{
    binding_pairs, bindings_get_by_left, bindings_get_by_right, bindings_insert_no_overwrite,
    bindings_new, bindings_remove_by_left, token_pairs, tokens_get_by_left, tokens_get_by_right,
    tokens_insert_no_overwrite, tokens_left_values, tokens_new, tokens_remove_by_left, views_of,
};
use crate::minting::{fresh_uuid, read_uuid, uuid_parsed, uuid_text, write_uuid};
use crate::relay_server::{
    ForeignRoomId, ForeignSessionId, RegisterRoomError, RegisterSessionError, Role,
    SessionOptions, SessionToken, UnregisterRoomError, UnregisterSessionError,
};
use bimap::BiHashMap;
use vstd::hash_map::StringHashMap;
use vstd::prelude::*;

verus! {

/// One registration: the token minted for a session id and the role it has.
pub struct Registration {
    pub token: u128,
    pub role: Role,
}

/// The registry as a mathematical value.
#[verifier::ext_equal]
pub struct RegistryState {
    /// Session id to registration.
    pub sessions: Map<Seq<char>, Registration>,
    /// Room id to the session id of the Vulcast it is bound to.
    pub rooms: Map<Seq<char>, Seq<char>>,
}

impl RegistryState {
    /// The registry without registrations and bindings.
    pub open spec fn empty() -> RegistryState {
        RegistryState { sessions: Map::empty(), rooms: Map::empty() }
    }

    /// Some registration holds `token`.
    pub open spec fn token_in_use(self, token: u128) -> bool {
        exists|fsid: Seq<char>| #[trigger]
            self.sessions.contains_key(fsid) && self.sessions[fsid].token == token
    }

    /// Some room is bound to the Vulcast `fsid`.
    pub open spec fn vulcast_bound(self, fsid: Seq<char>) -> bool {
        self.rooms.contains_value(fsid)
    }

    /// `fsid` is registered with the Vulcast role.
    pub open spec fn is_vulcast(self, fsid: Seq<char>) -> bool {
        self.sessions.contains_key(fsid) && self.sessions[fsid].role == Role::Vulcast
    }

    /// The room that `role` names, if it names one, is registered.
    pub open spec fn knows_room_of(self, role: Role) -> bool {
        match role.room() {
            Some(frid) => self.rooms.contains_key(frid),
            None => true,
        }
    }

    /// No two registrations share a token, no registration holds the nil
    /// token, and no two rooms share a Vulcast.
    pub open spec fn one_to_one(self) -> bool {
        &&& forall|a: Seq<char>, b: Seq<char>|
            #![trigger self.sessions[a], self.sessions[b]]
            self.sessions.contains_key(a) && self.sessions.contains_key(b) && self.sessions[a].token
                == self.sessions[b].token ==> a == b
        &&& forall|a: Seq<char>| #[trigger]
            self.sessions.contains_key(a) ==> self.sessions[a].token != 0
        &&& forall|a: Seq<char>, b: Seq<char>|
            #![trigger self.rooms[a], self.rooms[b]]
            self.rooms.contains_key(a) && self.rooms.contains_key(b) && self.rooms[a]
                == self.rooms[b] ==> a == b
    }

    /// A registration of `fsid` with `role` under `token` is accepted.
    pub open spec fn admits_session(self, fsid: Seq<char>, role: Role, token: u128) -> bool {
        &&& self.knows_room_of(role)
        &&& !self.sessions.contains_key(fsid)
        &&& token != 0
        &&& !self.token_in_use(token)
    }

    /// A binding of room `frid` to the Vulcast `vulcast` is accepted.
    pub open spec fn admits_room(self, frid: Seq<char>, vulcast: Seq<char>) -> bool {
        &&& !self.rooms.contains_key(frid)
        &&& self.is_vulcast(vulcast)
        &&& !self.vulcast_bound(vulcast)
    }

    /// The verdict on a request to register `fsid` with `role` under `token`:
    /// a role that names an unregistered room is refused for that; otherwise
    /// a session id that is taken, or a token that is nil or held already,
    /// is refused as not unique.
    pub open spec fn session_verdict(
        self,
        fsid: Seq<char>,
        role: Role,
        token: u128,
    ) -> SessionVerdict {
        if !self.knows_room_of(role) {
            SessionVerdict::UnknownRoom(role.room().unwrap())
        } else if self.sessions.contains_key(fsid) || token == 0 || self.token_in_use(token) {
            SessionVerdict::NonUniqueId(fsid)
        } else {
            SessionVerdict::Accepted
        }
    }

    /// The verdict on a request to bind the room `frid` to `vulcast`: a room
    /// id that is taken is refused before anything else; then a session that
    /// is not a registered Vulcast; then a Vulcast that has a room already.
    pub open spec fn room_verdict(self, frid: Seq<char>, vulcast: Seq<char>) -> RoomVerdict {
        if self.rooms.contains_key(frid) {
            RoomVerdict::NonUniqueId(frid)
        } else if !self.is_vulcast(vulcast) {
            RoomVerdict::UnknownSession(vulcast)
        } else if self.vulcast_bound(vulcast) {
            RoomVerdict::VulcastInRoom(vulcast)
        } else {
            RoomVerdict::Accepted
        }
    }

    /// The registry after `fsid` has been registered with `role` under `token`.
    pub open spec fn with_session(self, fsid: Seq<char>, token: u128, role: Role) -> RegistryState {
        RegistryState {
            sessions: self.sessions.insert(fsid, Registration { token, role }),
            rooms: self.rooms,
        }
    }

    /// The registry after the registration of `fsid` has been removed.
    pub open spec fn without_session(self, fsid: Seq<char>) -> RegistryState {
        RegistryState { sessions: self.sessions.remove(fsid), rooms: self.rooms }
    }

    /// The registry after the room `frid` has been bound to `vulcast`.
    pub open spec fn with_room(self, frid: Seq<char>, vulcast: Seq<char>) -> RegistryState {
        RegistryState { sessions: self.sessions, rooms: self.rooms.insert(frid, vulcast) }
    }

    /// The registry after the binding of the room `frid` has been removed.
    pub open spec fn without_room(self, frid: Seq<char>) -> RegistryState {
        RegistryState { sessions: self.sessions, rooms: self.rooms.remove(frid) }
    }

    /// The session ids registered as a client (web client or host) of `frid`.
    pub open spec fn clients_of(self, frid: Seq<char>) -> Set<Seq<char>> {
        Set::new(
            |fsid: Seq<char>|
                self.sessions.contains_key(fsid) && self.sessions[fsid].role.room() == Some(frid),
        )
    }

    /// Adding a registration under an unused, non-nil token keeps the
    /// registry one-to-one.
    pub proof fn lemma_with_session_one_to_one(self, fsid: Seq<char>, token: u128, role: Role)
        requires
            self.one_to_one(),
            token != 0,
            !self.token_in_use(token),
        ensures
            self.with_session(fsid, token, role).one_to_one(),
    {
        let next = self.with_session(fsid, token, role);
        assert forall|a: Seq<char>, b: Seq<char>|
            #![trigger next.sessions[a], next.sessions[b]]
            next.sessions.contains_key(a) && next.sessions.contains_key(b)
                && next.sessions[a].token == next.sessions[b].token implies a == b by {
            if a != fsid && b != fsid {
                assert(self.sessions.contains_key(a) && self.sessions.contains_key(b));
                assert(self.sessions[a].token == self.sessions[b].token);
            } else if a != fsid {
                assert(self.sessions.contains_key(a) && self.sessions[a].token == token);
            } else if b != fsid {
                assert(self.sessions.contains_key(b) && self.sessions[b].token == token);
            }
        }
        assert forall|a: Seq<char>| #[trigger]
            next.sessions.contains_key(a) implies next.sessions[a].token != 0 by {
            if a != fsid {
                assert(self.sessions.contains_key(a));
            }
        }
    }

    /// Removing a registration keeps the registry one-to-one.
    pub proof fn lemma_without_session_one_to_one(self, fsid: Seq<char>)
        requires
            self.one_to_one(),
        ensures
            self.without_session(fsid).one_to_one(),
    {
        let next = self.without_session(fsid);
        assert forall|a: Seq<char>, b: Seq<char>|
            #![trigger next.sessions[a], next.sessions[b]]
            next.sessions.contains_key(a) && next.sessions.contains_key(b)
                && next.sessions[a].token == next.sessions[b].token implies a == b by {
            assert(self.sessions.contains_key(a) && self.sessions.contains_key(b));
            assert(self.sessions[a].token == self.sessions[b].token);
        }
        assert forall|a: Seq<char>| #[trigger]
            next.sessions.contains_key(a) implies next.sessions[a].token != 0 by {
            assert(self.sessions.contains_key(a));
        }
    }

    /// Binding a room to a Vulcast that has none keeps the registry one-to-one.
    pub proof fn lemma_with_room_one_to_one(self, frid: Seq<char>, vulcast: Seq<char>)
        requires
            self.one_to_one(),
            !self.vulcast_bound(vulcast),
        ensures
            self.with_room(frid, vulcast).one_to_one(),
    {
        let next = self.with_room(frid, vulcast);
        assert forall|a: Seq<char>, b: Seq<char>|
            #![trigger next.rooms[a], next.rooms[b]]
            next.rooms.contains_key(a) && next.rooms.contains_key(b) && next.rooms[a]
                == next.rooms[b] implies a == b by {
            if a != frid && b != frid {
                assert(self.rooms.contains_key(a) && self.rooms.contains_key(b));
                assert(self.rooms[a] == self.rooms[b]);
            } else if a != frid {
                assert(self.rooms.contains_key(a) && self.rooms[a] == vulcast);
                assert(self.rooms.contains_value(vulcast));
            } else if b != frid {
                assert(self.rooms.contains_key(b) && self.rooms[b] == vulcast);
                assert(self.rooms.contains_value(vulcast));
            }
        }
    }

    /// Removing a binding keeps the registry one-to-one.
    pub proof fn lemma_without_room_one_to_one(self, frid: Seq<char>)
        requires
            self.one_to_one(),
        ensures
            self.without_room(frid).one_to_one(),
    {
        let next = self.without_room(frid);
        assert forall|a: Seq<char>, b: Seq<char>|
            #![trigger next.rooms[a], next.rooms[b]]
            next.rooms.contains_key(a) && next.rooms.contains_key(b) && next.rooms[a]
                == next.rooms[b] implies a == b by {
            assert(self.rooms.contains_key(a) && self.rooms.contains_key(b));
            assert(self.rooms[a] == self.rooms[b]);
        }
    }

    /// The session id that holds `token`, where one does.
    pub open spec fn holder_of(self, token: u128) -> Seq<char> {
        choose|fsid: Seq<char>| #[trigger]
            self.sessions.contains_key(fsid) && self.sessions[fsid].token == token
    }
}

/// What becomes of a request to register a session.
pub enum SessionVerdict {
    Accepted,
    /// The role names this room, which is not registered.
    UnknownRoom(Seq<char>),
    /// The session id is taken, or the token cannot be bound to it.
    NonUniqueId(Seq<char>),
}

/// What becomes of a request to register a room.
pub enum RoomVerdict {
    Accepted,
    /// The room id is taken.
    NonUniqueId(Seq<char>),
    /// No session with the Vulcast role is registered under the id.
    UnknownSession(Seq<char>),
    /// The Vulcast is bound to a room already.
    VulcastInRoom(Seq<char>),
}

/// The verdict that a result of registering a session tells of.
pub open spec fn session_verdict_of(
    result: Result<SessionToken, RegisterSessionError>,
) -> SessionVerdict {
    match result {
        Ok(_) => SessionVerdict::Accepted,
        Err(RegisterSessionError::UnknownRoom(frid)) => SessionVerdict::UnknownRoom(frid@),
        Err(RegisterSessionError::NonUniqueId(fsid)) => SessionVerdict::NonUniqueId(fsid@),
    }
}

/// The verdict that a result of registering a room tells of.
pub open spec fn room_verdict_of(result: Result<(), RegisterRoomError>) -> RoomVerdict {
    match result {
        Ok(_) => RoomVerdict::Accepted,
        Err(RegisterRoomError::NonUniqueId(frid)) => RoomVerdict::NonUniqueId(frid@),
        Err(RegisterRoomError::UnknownSession(fsid)) => RoomVerdict::UnknownSession(fsid@),
        Err(RegisterRoomError::VulcastInRoom(fsid)) => RoomVerdict::VulcastInRoom(fsid@),
    }
}

/// The session ids of a sequence, each taken by its view.
pub open spec fn ids_of(ids: Seq<ForeignSessionId>) -> Seq<Seq<char>> {
    Seq::new(ids.len(), |i: int| ids[i]@)
}

impl SessionToken {
    /// Mints a random token. It is never the nil token.
    pub fn new() -> (token: SessionToken)
        ensures
            !token.is_nil(),
    {
        SessionToken(fresh_uuid())
    }

    /// The token as the text that is handed to a client.
    pub fn to_text(&self) -> (text: String)
        ensures
            text@ == uuid_text(self.0),
    {
        write_uuid(self.0)
    }

    /// The token that a client presents as `text`, if the text is a token.
    pub fn parse(text: &str) -> (token: Option<SessionToken>)
        ensures
            token == (match uuid_parsed(text@) {
                Some(value) => Some(SessionToken(value)),
                None => None,
            }),
    {
        match read_uuid(text) {
            Some(value) => Some(SessionToken(value)),
            None => None,
        }
    }
}

/// The registry of session ids, tokens, roles and room bindings.
pub struct IdentityRegistry {
    tokens: BiHashMap<String, u128>,
    bindings: BiHashMap<String, String>,
    options: StringHashMap<SessionOptions>,
}

impl View for IdentityRegistry {
    type V = RegistryState;

    closed spec fn view(&self) -> RegistryState {
        RegistryState {
            sessions: Map::new(
                |fsid: Seq<char>| token_pairs(self.tokens).contains_key(fsid),
                |fsid: Seq<char>|
                    Registration {
                        token: token_pairs(self.tokens)[fsid],
                        role: self.options@[fsid]@,
                    },
            ),
            rooms: binding_pairs(self.bindings),
        }
    }
}

impl IdentityRegistry {
    /// Every token has a role beside it, and nothing else has a role.
    pub closed spec fn consistent(&self) -> bool {
        token_pairs(self.tokens).dom() == self.options@.dom()
    }

    /// The registry's invariant.
    pub open spec fn wf(&self) -> bool {
        self.consistent() && self@.one_to_one()
    }

    /// An empty registry.
    pub fn new() -> (registry: IdentityRegistry)
        ensures
            registry.wf(),
            registry@ == RegistryState::empty(),
    {
        let registry = IdentityRegistry {
            tokens: tokens_new(),
            bindings: bindings_new(),
            options: StringHashMap::new(),
        };
        assert(registry@.sessions =~= Map::empty());
        assert(registry@.rooms =~= Map::empty());
        assert(token_pairs(registry.tokens).dom() =~= registry.options@.dom());
        registry
    }

    /// Registers `fsid` with `session_options` under a freshly minted token.
    ///
    /// The outcome is that of `register_session_with_token` on the token that
    /// was minted, whichever that was; the minted token is never nil.
    pub fn register_session(
        &mut self,
        fsid: ForeignSessionId,
        session_options: SessionOptions,
    ) -> (result: Result<SessionToken, RegisterSessionError>)
        requires
            old(self).wf(),
        ensures
            final(self).wf(),
            exists|minted: u128|
                minted != 0 && session_verdict_of(result) == #[trigger] old(self)@.session_verdict(
                    fsid@,
                    session_options@,
                    minted,
                ),
            match result {
                Ok(token) => old(self)@.admits_session(fsid@, session_options@, token.0)
                    && final(self)@ == old(self)@.with_session(fsid@, token.0, session_options@),
                Err(_) => final(self)@ == old(self)@,
            },
    {
        let token = SessionToken::new();
        self.register_session_with_token(fsid, session_options, token)
    }

    /// Registers `fsid` with `session_options` under `token`.
    ///
    /// Fails with `UnknownRoom` when the role names a room that is not
    /// registered; otherwise with `NonUniqueId` when `fsid` is registered
    /// already, or when `token` is nil or held by another registration.
    /// On failure nothing changes.
    pub fn register_session_with_token(
        &mut self,
        fsid: ForeignSessionId,
        session_options: SessionOptions,
        token: SessionToken,
    ) -> (result: Result<SessionToken, RegisterSessionError>)
        requires
            old(self).wf(),
        ensures
            final(self).wf(),
            session_verdict_of(result) == old(self)@.session_verdict(
                fsid@,
                session_options@,
                token.0,
            ),
            match result {
                Ok(minted) => minted == token && final(self)@ == old(self)@.with_session(
                    fsid@,
                    token.0,
                    session_options@,
                ),
                Err(_) => final(self)@ == old(self)@,
            },
    {
        match session_options.room() {
            Some(frid) => {
                if bindings_get_by_left(&self.bindings, &frid.0).is_none() {
                    return Err(RegisterSessionError::UnknownRoom(frid.clone()));
                }
            },
            None => {},
        }
        if token.is_nil() {
            return Err(RegisterSessionError::NonUniqueId(fsid));
        }
        let ghost before = self@;
        let ghost pairs = token_pairs(self.tokens);
        proof {
            if before.token_in_use(token.0) {
                let holder = before.holder_of(token.0);
                assert(pairs.contains_key(holder) && pairs[holder] == token.0);
                assert(pairs.contains_value(token.0));
            }
            if pairs.contains_value(token.0) {
                let holder = choose|k: Seq<char>| #[trigger]
                    pairs.contains_key(k) && pairs[k] == token.0;
                assert(before.sessions.contains_key(holder));
                assert(before.sessions[holder].token == token.0);
            }
        }
        let key = fsid.0.clone();
        if tokens_insert_no_overwrite(&mut self.tokens, key, token.0) {
            let ghost role = session_options@;
            self.options.insert(fsid.0, session_options);
            proof {
                assert(self@.sessions =~= before.sessions.insert(
                    fsid@,
                    Registration { token: token.0, role },
                ));
                assert(token_pairs(self.tokens).dom() =~= self.options@.dom());
                before.lemma_with_session_one_to_one(fsid@, token.0, role);
                assert(self@ =~= before.with_session(fsid@, token.0, role));
            }
            Ok(token)
        } else {
            proof {
                assert(self@.sessions =~= before.sessions);
            }
            Err(RegisterSessionError::NonUniqueId(fsid))
        }
    }

    /// Binds the room `frid` to the Vulcast `vulcast_fsid`.
    ///
    /// Fails with `NonUniqueId` when `frid` is registered already; otherwise
    /// with `UnknownSession` when `vulcast_fsid` is not registered with the
    /// Vulcast role; otherwise with `VulcastInRoom` when that Vulcast is bound
    /// to a room already. On failure nothing changes.
    pub fn register_room(&mut self, frid: ForeignRoomId, vulcast_fsid: ForeignSessionId) -> (result:
        Result<(), RegisterRoomError>)
        requires
            old(self).wf(),
        ensures
            final(self).wf(),
            room_verdict_of(result) == old(self)@.room_verdict(frid@, vulcast_fsid@),
            match result {
                Ok(_) => final(self)@ == old(self)@.with_room(frid@, vulcast_fsid@),
                Err(_) => final(self)@ == old(self)@,
            },
    {
        if bindings_get_by_left(&self.bindings, &frid.0).is_some() {
            return Err(RegisterRoomError::NonUniqueId(frid));
        }
        let is_vulcast = match self.options.get(vulcast_fsid.0.as_str()) {
            Some(options) => options.is_vulcast(),
            None => false,
        };
        if !is_vulcast {
            return Err(RegisterRoomError::UnknownSession(vulcast_fsid));
        }
        if bindings_get_by_right(&self.bindings, &vulcast_fsid.0).is_some() {
            return Err(RegisterRoomError::VulcastInRoom(vulcast_fsid));
        }
        let ghost before = self@;
        let inserted = bindings_insert_no_overwrite(&mut self.bindings, frid.0, vulcast_fsid.0);
        proof {
            assert(inserted);
            assert(self@.sessions =~= before.sessions);
            before.lemma_with_room_one_to_one(frid@, vulcast_fsid@);
            assert(self@ =~= before.with_room(frid@, vulcast_fsid@));
        }
        Ok(())
    }

    /// Removes the binding of the room `frid`, and nothing else.
    pub fn unregister_room(&mut self, frid: ForeignRoomId) -> (result: Result<
        (),
        UnregisterRoomError,
    >)
        requires
            old(self).wf(),
        ensures
            final(self).wf(),
            result is Ok <==> old(self)@.rooms.contains_key(frid@),
            final(self)@ == old(self)@.without_room(frid@),
            match result {
                Ok(_) => true,
                Err(UnregisterRoomError::UnknownRoom(id)) => id@ == frid@
                    && final(self)@ == old(self)@,
            },
    {
        let ghost before = self@;
        let removed = bindings_remove_by_left(&mut self.bindings, &frid.0);
        proof {
            assert(self@.sessions =~= before.sessions);
            before.lemma_without_room_one_to_one(frid@);
            assert(self@ =~= before.without_room(frid@));
            if removed.is_none() {
                assert(self@.rooms =~= before.rooms);
            }
        }
        match removed {
            Some(_) => Ok(()),
            None => Err(UnregisterRoomError::UnknownRoom(frid)),
        }
    }

    /// Removes the registration of `fsid`, and nothing else.
    pub fn unregister_session(&mut self, fsid: ForeignSessionId) -> (result: Result<
        (),
        UnregisterSessionError,
    >)
        requires
            old(self).wf(),
        ensures
            final(self).wf(),
            result is Ok <==> old(self)@.sessions.contains_key(fsid@),
            final(self)@ == old(self)@.without_session(fsid@),
            match result {
                Ok(_) => true,
                Err(UnregisterSessionError::UnknownSession(id)) => id@ == fsid@ && final(self)@
                    == old(self)@,
            },
    {
        let ghost before = self@;
        let removed = tokens_remove_by_left(&mut self.tokens, &fsid.0);
        match removed {
            Some(_) => {
                self.options.remove(fsid.0.as_str());
                proof {
                    assert(self@.sessions =~= before.sessions.remove(fsid@));
                    assert(token_pairs(self.tokens).dom() =~= self.options@.dom());
                    before.lemma_without_session_one_to_one(fsid@);
                    assert(self@ =~= before.without_session(fsid@));
                }
                Ok(())
            },
            None => {
                proof {
                    assert(token_pairs(self.tokens) =~= token_pairs(old(self).tokens));
                    assert(self@.sessions =~= before.sessions);
                    assert(self@.sessions =~= before.sessions.remove(fsid@));
                }
                Err(UnregisterSessionError::UnknownSession(fsid))
            },
        }
    }

    /// The session id and role that `token` was minted for, if any.
    pub fn resolve_token(&self, token: SessionToken) -> (found: Option<
        (ForeignSessionId, SessionOptions),
    >)
        requires
            self.wf(),
        ensures
            found is Some <==> self@.token_in_use(token.0),
            match found {
                Some((fsid, session_options)) => self@.sessions.contains_key(fsid@)
                    && self@.sessions[fsid@].token == token.0 && self@.sessions[fsid@].role
                    == session_options@,
                None => true,
            },
    {
        let ghost pairs = token_pairs(self.tokens);
        proof {
            if self@.token_in_use(token.0) {
                let holder = self@.holder_of(token.0);
                assert(pairs.contains_key(holder) && pairs[holder] == token.0);
                assert(pairs.contains_value(token.0));
            }
        }
        match tokens_get_by_right(&self.tokens, token.0) {
            Some(key) => {
                proof {
                    assert(self@.sessions.contains_key(key@));
                    assert(self.options@.dom().contains(key@));
                }
                match self.options.get(key.as_str()) {
                    Some(session_options) => Some(
                        (ForeignSessionId(key.clone()), session_options.clone()),
                    ),
                    None => None,
                }
            },
            None => None,
        }
    }

    /// The token and role that `fsid` is registered with, if it is registered.
    pub fn registration(&self, fsid: &ForeignSessionId) -> (found: Option<
        (SessionToken, SessionOptions),
    >)
        requires
            self.wf(),
        ensures
            found is Some <==> self@.sessions.contains_key(fsid@),
            match found {
                Some((token, session_options)) => self@.sessions[fsid@].token == token.0
                    && self@.sessions[fsid@].role == session_options@,
                None => true,
            },
    {
        match tokens_get_by_left(&self.tokens, &fsid.0) {
            Some(token) => {
                proof {
                    assert(self.options@.dom().contains(fsid@));
                }
                match self.options.get(fsid.0.as_str()) {
                    Some(session_options) => Some((SessionToken(token), session_options.clone())),
                    None => None,
                }
            },
            None => None,
        }
    }

    /// The Vulcast that the room `frid` is bound to, if the room is registered.
    pub fn vulcast_of_room(&self, frid: &ForeignRoomId) -> (found: Option<ForeignSessionId>)
        ensures
            match found {
                Some(fsid) => self@.rooms.contains_key(frid@) && self@.rooms[frid@] == fsid@,
                None => !self@.rooms.contains_key(frid@),
            },
    {
        match bindings_get_by_left(&self.bindings, &frid.0) {
            Some(fsid) => Some(ForeignSessionId(fsid.clone())),
            None => None,
        }
    }

    /// The room bound to the Vulcast `fsid`, if one is.
    pub fn room_of_vulcast(&self, fsid: &ForeignSessionId) -> (found: Option<ForeignRoomId>)
        ensures
            match found {
                Some(frid) => self@.rooms.contains_key(frid@) && self@.rooms[frid@] == fsid@,
                None => !self@.vulcast_bound(fsid@),
            },
    {
        match bindings_get_by_right(&self.bindings, &fsid.0) {
            Some(frid) => Some(ForeignRoomId(frid.clone())),
            None => None,
        }
    }

    /// The sessions registered as clients (web clients and hosts) of the room
    /// `frid`, each once, in no particular order.
    pub fn list_clients_of_room(&self, frid: &ForeignRoomId) -> (clients: Vec<ForeignSessionId>)
        requires
            self.wf(),
        ensures
            ids_of(clients@).no_duplicates(),
            ids_of(clients@).to_set() == self@.clients_of(frid@),
    {
        let keys = tokens_left_values(&self.tokens);
        let ghost all = views_of(keys@);
        let ghost wanted = self@.clients_of(frid@);
        let mut clients: Vec<ForeignSessionId> = Vec::new();
        let mut i: usize = 0;
        while i < keys.len()
            invariant
                i <= keys.len(),
                self.wf(),
                all == views_of(keys@),
                wanted == self@.clients_of(frid@),
                all.no_duplicates(),
                all.to_set() == token_pairs(self.tokens).dom(),
                forall|j: int|
                    0 <= j < clients.len() ==> occurs_before(all, i as int, #[trigger] clients[j]@)
                        && wanted.contains(clients[j]@),
                forall|k: int|
                    0 <= k < i && wanted.contains(#[trigger] all[k]) ==> ids_of(clients@).contains(
                        all[k],
                    ),
                ids_of(clients@).no_duplicates(),
            decreases keys.len() - i,
        {
            let key = &keys[i];
            proof {
                assert(all[i as int] == key@);
                assert(all.to_set().contains(all[i as int]));
                assert(token_pairs(self.tokens).contains_key(key@));
                assert(self.options@.dom().contains(key@));
                assert(self@.sessions.contains_key(key@));
            }
            let attached = match self.options.get(key.as_str()) {
                Some(session_options) => match session_options.room() {
                    Some(room) => room.0 == frid.0,
                    None => false,
                },
                None => false,
            };
            assert(attached == wanted.contains(all[i as int]));
            let ghost prior = clients@;
            if attached {
                clients.push(ForeignSessionId(key.clone()));
                proof {
                    let last = clients.len() - 1;
                    assert(clients[last]@ == all[i as int]);
                    assert forall|a: int, b: int|
                        0 <= a < clients.len() && 0 <= b < clients.len() && a != b implies ids_of(
                        clients@,
                    )[a] != ids_of(clients@)[b] by {
                        if a < last && b < last {
                            assert(ids_of(prior)[a] != ids_of(prior)[b]);
                        } else if a < last {
                            assert(occurs_before(all, i as int, prior[a]@));
                        } else {
                            assert(occurs_before(all, i as int, prior[b]@));
                        }
                    }
                    assert forall|k: int|
                        0 <= k < i + 1 && wanted.contains(#[trigger] all[k]) implies ids_of(
                        clients@,
                    ).contains(all[k]) by {
                        if k < i {
                            let j = choose|j: int|
                                0 <= j < prior.len() && ids_of(prior)[j] == all[k];
                            assert(ids_of(clients@)[j] == all[k]);
                        } else {
                            assert(ids_of(clients@)[last] == all[k]);
                        }
                    }
                    assert forall|j: int| 0 <= j < clients.len() implies occurs_before(
                        all,
                        i + 1,
                        #[trigger] clients[j]@,
                    ) && wanted.contains(clients[j]@) by {
                        if j < last {
                            assert(occurs_before(all, i as int, prior[j]@));
                            let k = choose|k: int| 0 <= k < i && all[k] == prior[j]@;
                            assert(all[k] == clients[j]@);
                        } else {
                            assert(all[i as int] == clients[j]@);
                        }
                    }
                }
            } else {
                proof {
                    assert forall|j: int| 0 <= j < clients.len() implies occurs_before(
                        all,
                        i + 1,
                        #[trigger] clients[j]@,
                    ) by {
                        assert(occurs_before(all, i as int, clients[j]@));
                        let k = choose|k: int| 0 <= k < i && all[k] == clients[j]@;
                        assert(all[k] == clients[j]@);
                    }
                }
            }
            i = i + 1;
        }
        proof {
            assert(ids_of(clients@).to_set() =~= wanted) by {
                assert forall|f: Seq<char>| wanted.contains(f) implies ids_of(
                    clients@,
                ).to_set().contains(f) by {
                    assert(self@.sessions.contains_key(f));
                    assert(all.to_set().contains(f));
                    let k = choose|k: int| 0 <= k < all.len() && all[k] == f;
                    assert(ids_of(clients@).contains(all[k]));
                }
                assert forall|f: Seq<char>|
                    ids_of(clients@).to_set().contains(f) implies wanted.contains(f) by {
                    let j = choose|j: int| 0 <= j < clients.len() && ids_of(clients@)[j] == f;
                    assert(wanted.contains(clients[j]@));
                }
            }
        }
        clients
    }
}

/// `x` is among the first `upto` items of `all`.
pub open spec fn occurs_before(all: Seq<Seq<char>>, upto: int, x: Seq<char>) -> bool {
    exists|k: int| 0 <= k < upto && all[k] == x
}

} // verus!

//! The control operations as the operator sees them: each one is handed to
//! the relay server, and what the server says is put in the shape of a
//! response.

use crate::minting::uuid_text;
use crate::registry::{room_verdict_of, session_verdict_of, RoomVerdict, SessionVerdict};
use crate::relay_server::{
    ForeignRoomId, ForeignSessionId, RegisterRoomError, RegisterSessionError, RelayServer, Role,
    SessionOptions, UnregisterRoomError, UnregisterSessionError,
};
use crate::session::StatsQuery;
use crate::state::ServerState;
use vstd::prelude::*;
use vstd::string::StringExecFns;

verus! {

/// A room, as a response names it.
#[derive(Debug)]
pub struct Room {
    pub id: String,
}

/// A session, as a response names it.
#[derive(Debug)]
pub struct Session {
    pub id: String,
}

/// A session together with the token that admits it.
#[derive(Debug)]
pub struct SessionWithToken {
    pub id: String,
    pub access_token: String,
}

/// The Vulcast is already in another room.
#[derive(Debug)]
pub struct VulcastInRoomError {
    pub vulcast: Session,
}

/// The specified room does not exist.
#[derive(Debug)]
pub struct UnknownRoomError {
    pub room: Room,
}

/// The specified session does not exist.
#[derive(Debug)]
pub struct UnknownSessionError {
    pub session: Session,
}

/// The specified ID is not unique.
#[derive(Debug)]
pub struct NonUniqueIdError {
    pub id: String,
}

/// The response to a request to register a room.
#[derive(Debug)]
pub enum RegisterRoomResult {
    Success(Room),
    VulcastInRoom(VulcastInRoomError),
    UnknownSession(UnknownSessionError),
    NonUniqueId(NonUniqueIdError),
}

/// The response to a request to unregister a room.
#[derive(Debug)]
pub enum UnregisterRoomResult {
    Success(Room),
    UnknownRoom(UnknownRoomError),
}

/// The response to a request to register a session.
#[derive(Debug)]
pub enum RegisterSessionResult {
    Success(SessionWithToken),
    UnknownRoom(UnknownRoomError),
    NonUniqueId(NonUniqueIdError),
}

/// The response to a request to unregister a session.
#[derive(Debug)]
pub enum UnregisterSessionResult {
    Success(Session),
    UnknownSession(UnknownSessionError),
}

impl RegisterRoomResult {
    /// The response that tells of `error`.
    pub fn from_error(error: RegisterRoomError) -> (response: RegisterRoomResult)
        ensures
            response.verdict() == room_verdict_of(Err(error)),
    {
        match error {
            RegisterRoomError::NonUniqueId(frid) => RegisterRoomResult::NonUniqueId(
                NonUniqueIdError { id: frid.0 },
            ),
            RegisterRoomError::UnknownSession(fsid) => RegisterRoomResult::UnknownSession(
                UnknownSessionError { session: Session { id: fsid.0 } },
            ),
            RegisterRoomError::VulcastInRoom(fsid) => RegisterRoomResult::VulcastInRoom(
                VulcastInRoomError { vulcast: Session { id: fsid.0 } },
            ),
        }
    }

    /// The verdict that the response tells of.
    pub open spec fn verdict(&self) -> RoomVerdict {
        match self {
            RegisterRoomResult::Success(_) => RoomVerdict::Accepted,
            RegisterRoomResult::NonUniqueId(told) => RoomVerdict::NonUniqueId(told.id@),
            RegisterRoomResult::UnknownSession(told) => RoomVerdict::UnknownSession(
                told.session.id@,
            ),
            RegisterRoomResult::VulcastInRoom(told) => RoomVerdict::VulcastInRoom(
                told.vulcast.id@,
            ),
        }
    }
}

impl UnregisterRoomResult {
    /// The response that tells of `error`.
    pub fn from_error(error: UnregisterRoomError) -> (response: UnregisterRoomResult)
        ensures
            match response {
                UnregisterRoomResult::UnknownRoom(told) => {
                    &&& error matches UnregisterRoomError::UnknownRoom(frid)
                    &&& told.room.id@ == frid@
                },
                _ => false,
            },
    {
        match error {
            UnregisterRoomError::UnknownRoom(frid) => UnregisterRoomResult::UnknownRoom(
                UnknownRoomError { room: Room { id: frid.0 } },
            ),
        }
    }
}

impl RegisterSessionResult {
    /// The response that tells of `error`.
    pub fn from_error(error: RegisterSessionError) -> (response: RegisterSessionResult)
        ensures
            response.verdict() == session_verdict_of(Err(error)),
    {
        match error {
            RegisterSessionError::NonUniqueId(fsid) => RegisterSessionResult::NonUniqueId(
                NonUniqueIdError { id: fsid.0 },
            ),
            RegisterSessionError::UnknownRoom(frid) => RegisterSessionResult::UnknownRoom(
                UnknownRoomError { room: Room { id: frid.0 } },
            ),
        }
    }

    /// The verdict that the response tells of.
    pub open spec fn verdict(&self) -> SessionVerdict {
        match self {
            RegisterSessionResult::Success(_) => SessionVerdict::Accepted,
            RegisterSessionResult::NonUniqueId(told) => SessionVerdict::NonUniqueId(told.id@),
            RegisterSessionResult::UnknownRoom(told) => SessionVerdict::UnknownRoom(
                told.room.id@,
            ),
        }
    }
}

impl UnregisterSessionResult {
    /// The response that tells of `error`.
    pub fn from_error(error: UnregisterSessionError) -> (response: UnregisterSessionResult)
        ensures
            match response {
                UnregisterSessionResult::UnknownSession(told) => {
                    &&& error matches UnregisterSessionError::UnknownSession(fsid)
                    &&& told.session.id@ == fsid@
                },
                _ => false,
            },
    {
        match error {
            UnregisterSessionError::UnknownSession(fsid) => {
                UnregisterSessionResult::UnknownSession(
                    UnknownSessionError { session: Session { id: fsid.0 } },
                )
            },
        }
    }
}

/// `response` answers a request to register `session_id` with `role` that
/// found the server as `before` and left it as `after`: it tells the verdict
/// on the request under the token that was minted, which is never nil; where
/// the session was accepted it carries that token as text, and the server
/// holds the registration; otherwise the server is as it was.
pub open spec fn answers_registration(
    before: ServerState,
    after: ServerState,
    session_id: Seq<char>,
    role: Role,
    response: RegisterSessionResult,
) -> bool {
    &&& exists|minted: u128|
        minted != 0 && response.verdict() == #[trigger] before.registry.session_verdict(
            session_id,
            role,
            minted,
        )
    &&& match response {
        RegisterSessionResult::Success(session) => {
            &&& session.id@ == session_id
            &&& exists|token: u128|
                {
                    &&& session.access_token@ == #[trigger] uuid_text(token)
                    &&& before.registry.admits_session(session_id, role, token)
                    &&& after == before.with_session(session_id, token, role)
                }
        },
        _ => after == before,
    }
}

/// The queries of the control interface.
#[derive(Debug, Default)]
pub struct QueryRoot;

/// The mutations of the control interface.
#[derive(Debug, Default)]
pub struct MutationRoot;

impl QueryRoot {
    /// The version of the relay: the name and version of the package, and
    /// the target and profile it was built for, joined by underscores.
    pub fn version(&self, name: &str, version: &str, target: &str, profile: &str) -> (text: String)
        ensures
            text@ == name@ + "_"@ + version@ + "_"@ + target@ + "_"@ + profile@,
    {
        String::from_str(name).concat("_").concat(version).concat("_").concat(target).concat(
            "_",
        ).concat(profile)
    }

    /// Whom to ask for the statistics of the live session under
    /// `session_id`: every resource that it holds. Nothing when no session
    /// is live under the id.
    pub fn stats(&self, server: &RelayServer, session_id: String) -> (queries: Option<
        Vec<StatsQuery>,
    >)
        requires
            server.wf(),
        ensures
            queries is Some <==> server@.sessions.contains_key(session_id@),
            match queries {
                Some(queries) => queries@.no_duplicates() && forall|query: StatsQuery|
                    queries@.contains(query) <==> server@.sessions[session_id@].holdings(
                        query.resource,
                    ).contains_key(query.id),
                None => true,
            },
    {
        match server.get_session(&ForeignSessionId(session_id)) {
            Some(session) => {
                let queries = session.get_stats();
                proof {
                    assert forall|query: StatsQuery|
                        queries@.contains(query) <==> server@.sessions[session_id@].holdings(
                            query.resource,
                        ).contains_key(query.id) by {
                        assert(query == StatsQuery { resource: query.resource, id: query.id });
                    }
                }
                Some(queries)
            },
            None => None,
        }
    }
}

impl MutationRoot {
    /// Registers a room tied to the Vulcast with the given session id.
    pub fn register_room(
        &self,
        server: &mut RelayServer,
        room_id: String,
        vulcast_session_id: String,
    ) -> (response: RegisterRoomResult)
        requires
            old(server).wf(),
        ensures
            final(server).wf(),
            response.verdict() == old(server)@.registry.room_verdict(
                room_id@,
                vulcast_session_id@,
            ),
            match response {
                RegisterRoomResult::Success(room) => room.id@ == room_id@
                    && final(server)@ == old(server)@.with_room(room_id@, vulcast_session_id@),
                _ => final(server)@ == old(server)@,
            },
    {
        let id = room_id.clone();
        match server.register_room(ForeignRoomId(room_id), ForeignSessionId(vulcast_session_id)) {
            Ok(_) => RegisterRoomResult::Success(Room { id }),
            Err(error) => RegisterRoomResult::from_error(error),
        }
    }

    /// Unregisters the room with the given id, and with it every session
    /// that is a client of the room.
    pub fn unregister_room(&self, server: &mut RelayServer, room_id: String) -> (response:
        UnregisterRoomResult)
        requires
            old(server).wf(),
        ensures
            final(server).wf(),
            match response {
                UnregisterRoomResult::Success(room) => room.id@ == room_id@
                    && old(server)@.registry.rooms.contains_key(room_id@)
                    && final(server)@ == old(server)@.without_room(room_id@),
                UnregisterRoomResult::UnknownRoom(told) => told.room.id@ == room_id@
                    && !old(server)@.registry.rooms.contains_key(room_id@)
                    && final(server)@ == old(server)@,
            },
    {
        let id = room_id.clone();
        match server.unregister_room(ForeignRoomId(room_id)) {
            Ok(_) => UnregisterRoomResult::Success(Room { id }),
            Err(error) => UnregisterRoomResult::from_error(error),
        }
    }

    /// Registers a session, and answers with the token that admits it.
    fn register(
        server: &mut RelayServer,
        session_id: String,
        session_options: SessionOptions,
    ) -> (response: RegisterSessionResult)
        requires
            old(server).wf(),
        ensures
            final(server).wf(),
            answers_registration(
                old(server)@,
                final(server)@,
                session_id@,
                session_options@,
                response,
            ),
    {
        let id = session_id.clone();
        match server.register_session(ForeignSessionId(session_id), session_options) {
            Ok(token) => RegisterSessionResult::Success(
                SessionWithToken { id, access_token: token.to_text() },
            ),
            Err(error) => RegisterSessionResult::from_error(error),
        }
    }

    /// Registers a Vulcast under the given session id.
    pub fn register_vulcast_session(&self, server: &mut RelayServer, session_id: String) -> (response:
        RegisterSessionResult)
        requires
            old(server).wf(),
        ensures
            final(server).wf(),
            answers_registration(
                old(server)@,
                final(server)@,
                session_id@,
                Role::Vulcast,
                response,
            ),
    {
        Self::register(server, session_id, SessionOptions::Vulcast)
    }

    /// Registers a web client of the room `room_id` under the given session id.
    pub fn register_client_session(
        &self,
        server: &mut RelayServer,
        room_id: String,
        session_id: String,
    ) -> (response: RegisterSessionResult)
        requires
            old(server).wf(),
        ensures
            final(server).wf(),
            answers_registration(
                old(server)@,
                final(server)@,
                session_id@,
                Role::WebClient(room_id@),
                response,
            ),
    {
        Self::register(server, session_id, SessionOptions::WebClient(ForeignRoomId(room_id)))
    }

    /// Registers a host of the room `room_id` under the given session id.
    pub fn register_host_session(
        &self,
        server: &mut RelayServer,
        room_id: String,
        session_id: String,
    ) -> (response: RegisterSessionResult)
        requires
            old(server).wf(),
        ensures
            final(server).wf(),
            answers_registration(
                old(server)@,
                final(server)@,
                session_id@,
                Role::Host(room_id@),
                response,
            ),
    {
        Self::register(server, session_id, SessionOptions::Host(ForeignRoomId(room_id)))
    }

    /// Unregisters the session with the given id, and ends its connection.
    pub fn unregister_session(&self, server: &mut RelayServer, session_id: String) -> (response:
        UnregisterSessionResult)
        requires
            old(server).wf(),
        ensures
            final(server).wf(),
            match response {
                UnregisterSessionResult::Success(session) => session.id@ == session_id@
                    && old(server)@.registry.sessions.contains_key(session_id@)
                    && final(server)@ == old(server)@.without_session(session_id@),
                UnregisterSessionResult::UnknownSession(told) => told.session.id@ == session_id@
                    && !old(server)@.registry.sessions.contains_key(session_id@)
                        && final(server)@ == old(server)@,
            },
    {
        let id = session_id.clone();
        match server.unregister_session(ForeignSessionId(session_id)) {
            Ok(_) => UnregisterSessionResult::Success(Session { id }),
            Err(error) => UnregisterSessionResult::from_error(error),
        }
    }
}

} // verus!

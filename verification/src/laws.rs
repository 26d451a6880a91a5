//! What holds of the relay server whatever is asked of it, stated over the
//! server as a mathematical value and proved from its invariant.

use crate::holdings::{open_ids, Lifecycle};
use crate::registry::{RoomVerdict, SessionVerdict};
use crate::relay_server::Role;
use crate::session::{SessionEvent, SessionState};
use crate::signal_schema::ResourceGuard;
use crate::state::ServerState;
use vstd::prelude::*;

verus! {

/// A token admits at most one live session: two live sessions whose
/// registrations hold the same token are the same session.
pub proof fn one_session_per_token(server: ServerState, a: Seq<char>, b: Seq<char>)
    requires
        server.wf(),
        server.sessions.contains_key(a),
        server.sessions.contains_key(b),
        server.registry.sessions[a].token == server.registry.sessions[b].token,
    ensures
        a == b,
        server.registry.sessions.contains_key(a),
{
    assert(server.registry.sessions.contains_key(a));
    assert(server.registry.sessions.contains_key(b));
}

/// The nil token is held by no registration.
pub proof fn nil_token_is_unknown(server: ServerState)
    requires
        server.wf(),
    ensures
        !server.registry.token_in_use(0),
{
    if server.registry.token_in_use(0) {
        let holder = server.registry.holder_of(0);
        assert(server.registry.sessions.contains_key(holder));
    }
}

/// The session that a room is bound to is registered, with the Vulcast role.
pub proof fn bound_vulcast_has_vulcast_role(server: ServerState, frid: Seq<char>)
    requires
        server.wf(),
        server.registry.rooms.contains_key(frid),
    ensures
        server.registry.sessions.contains_key(server.registry.rooms[frid]),
        server.registry.sessions[server.registry.rooms[frid]].role == Role::Vulcast,
{
}

/// The room of every registered client is registered.
pub proof fn client_room_is_registered(server: ServerState, fsid: Seq<char>, frid: Seq<char>)
    requires
        server.wf(),
        server.registry.sessions.contains_key(fsid),
        server.registry.sessions[fsid].role.room() == Some(frid),
    ensures
        server.registry.rooms.contains_key(frid),
{
    assert(server.registry.knows_room_of(server.registry.sessions[fsid].role));
}

/// A live room is referenced by a live session.
pub proof fn live_room_has_a_session(server: ServerState, key: Seq<char>)
    requires
        server.wf(),
        server.rooms.contains_key(key),
    ensures
        exists|fsid: Seq<char>| #[trigger]
            server.sessions.contains_key(fsid) && server.sessions[fsid].room
                == server.rooms[key].id,
{
    let id = choose|id: u128| server.rooms[key].sessions.contains(id);
    assert(server.rooms[key].sessions.contains(id));
    assert(server.member_lives(key, id));
    let fsid = choose|fsid: Seq<char>| #[trigger]
        server.sessions.contains_key(fsid) && server.sessions[fsid].id == id
            && server.sessions[fsid].room == server.rooms[key].id;
    assert(server.sessions.contains_key(fsid));
}

/// A live session belongs to exactly one live room: the one it names.
pub proof fn live_session_has_one_room(server: ServerState, fsid: Seq<char>)
    requires
        server.wf(),
        server.sessions.contains_key(fsid),
    ensures
        server.room_id_live(server.sessions[fsid].room),
        forall|key: Seq<char>|
            server.rooms.contains_key(key) && #[trigger] server.rooms[key].sessions.contains(
                server.sessions[fsid].id,
            ) ==> key == server.key_of_room(server.sessions[fsid].room),
{
    assert(server.housed(fsid));
    let home = choose|home: Seq<char>| #[trigger]
        server.rooms.contains_key(home) && server.rooms[home].id == server.sessions[fsid].room
            && server.rooms[home].sessions.contains(server.sessions[fsid].id);
    server.lemma_key_of_room(home, server.sessions[fsid].room);
    assert forall|key: Seq<char>|
        server.rooms.contains_key(key) && #[trigger] server.rooms[key].sessions.contains(
            server.sessions[fsid].id,
        ) implies key == server.key_of_room(server.sessions[fsid].room) by {
        assert(server.member_lives(key, server.sessions[fsid].id));
        let other = choose|other: Seq<char>| #[trigger]
            server.sessions.contains_key(other) && server.sessions[other].id
                == server.sessions[fsid].id && server.sessions[other].room
                == server.rooms[key].id;
        assert(server.sessions[other].id == server.sessions[fsid].id);
        assert(other == fsid);
        assert(server.rooms[key].id == server.rooms[home].id);
    }
}

/// When the sessions that leave include every session of a room, the room
/// is reclaimed; a room that keeps a session stays.
pub proof fn room_is_reclaimed_with_its_last_session(
    server: ServerState,
    gone: Set<Seq<char>>,
    key: Seq<char>,
)
    requires
        server.wf(),
        server.rooms.contains_key(key),
    ensures
        server.dropped(gone).rooms.contains_key(key) <==> exists|fsid: Seq<char>|
            #![trigger server.sessions[fsid]]
            server.sessions.contains_key(fsid) && server.sessions[fsid].room
                == server.rooms[key].id && !gone.contains(fsid),
{
    if server.dropped(gone).rooms.contains_key(key) {
        assert(server.outlasts(gone, key));
        let id = choose|id: u128| #[trigger]
            server.rooms[key].sessions.contains(id) && !server.is_gone(gone, id);
        assert(server.member_lives(key, id));
        let fsid = choose|fsid: Seq<char>| #[trigger]
            server.sessions.contains_key(fsid) && server.sessions[fsid].id == id
                && server.sessions[fsid].room == server.rooms[key].id;
        if gone.contains(fsid) {
            assert(server.is_gone(gone, id));
        }
        assert(server.sessions.contains_key(fsid) && server.sessions[fsid].room
            == server.rooms[key].id && !gone.contains(fsid));
    }
    if exists|fsid: Seq<char>|
        #![trigger server.sessions[fsid]]
        server.sessions.contains_key(fsid) && server.sessions[fsid].room == server.rooms[key].id
            && !gone.contains(fsid) {
        let fsid = choose|fsid: Seq<char>|
            #![trigger server.sessions[fsid]]
            server.sessions.contains_key(fsid) && server.sessions[fsid].room
                == server.rooms[key].id && !gone.contains(fsid);
        let id = server.sessions[fsid].id;
        assert(server.housed(fsid));
        let home = choose|home: Seq<char>| #[trigger]
            server.rooms.contains_key(home) && server.rooms[home].id == server.sessions[fsid].room
                && server.rooms[home].sessions.contains(server.sessions[fsid].id);
        assert(server.rooms[home].id == server.rooms[key].id);
        assert(home == key);
        if server.is_gone(gone, id) {
            let other = choose|other: Seq<char>|
                gone.contains(other) && #[trigger] server.sessions.contains_key(other)
                    && server.sessions[other].id == id;
            assert(server.sessions[other].id == server.sessions[fsid].id);
            assert(other == fsid);
        }
        assert(server.rooms[key].sessions.contains(id) && !server.is_gone(gone, id));
        assert(server.outlasts(gone, key));
    }
}

/// Registering a session and unregistering it again leaves the server as
/// it was.
pub proof fn register_then_unregister_session(
    server: ServerState,
    fsid: Seq<char>,
    role: Role,
    token: u128,
)
    requires
        server.wf(),
        server.registry.admits_session(fsid, role, token),
    ensures
        server.with_session(fsid, token, role).without_session(fsid) == server,
{
    let registered = server.with_session(fsid, token, role);
    server.lemma_with_session_wf(fsid, token, role);
    if registered.registry.vulcast_bound(fsid) {
        let frid = choose|frid: Seq<char>| #[trigger]
            registered.registry.rooms.contains_key(frid) && registered.registry.rooms[frid]
                == fsid;
        assert(server.registry.rooms.contains_key(frid));
        assert(server.registry.is_vulcast(server.registry.rooms[frid]));
        assert(false);
    }
    assert(!server.sessions.contains_key(fsid)) by {
        if server.sessions.contains_key(fsid) {
            assert(server.registry.sessions.contains_key(fsid));
        }
    }
    registered.lemma_untouched(set![fsid]);
    registered.lemma_released_by_one(fsid);
    assert(registered.released.union(registered.released_by(set![fsid])) =~= server.released);
    assert(registered.registry.sessions.remove_keys(set![fsid]) =~= server.registry.sessions);
    assert(registered.without_session(fsid) =~~= server);
}

/// Registering a room and unregistering it again leaves the server as it was.
pub proof fn register_then_unregister_room(
    server: ServerState,
    frid: Seq<char>,
    vulcast: Seq<char>,
)
    requires
        server.wf(),
        server.registry.admits_room(frid, vulcast),
    ensures
        server.with_room(frid, vulcast).without_room(frid) == server,
{
    let bound = server.with_room(frid, vulcast);
    let clients = bound.registry.clients_of(frid);
    assert forall|fsid: Seq<char>| !clients.contains(fsid) by {
        if clients.contains(fsid) {
            assert(server.registry.sessions.contains_key(fsid));
            assert(server.registry.knows_room_of(server.registry.sessions[fsid].role));
        }
    }
    assert(clients =~= Set::<Seq<char>>::empty());
    let unbound = ServerState { registry: bound.registry.without_room(frid), ..bound };
    assert(unbound.registry.rooms =~= server.registry.rooms);
    assert(unbound =~~= server);
    server.lemma_evicted_none();
}

/// Unregistering a room drops the sessions of its clients and no other
/// session: every other live session stays as it is.
pub proof fn unregister_room_drops_only_its_clients(
    server: ServerState,
    frid: Seq<char>,
    fsid: Seq<char>,
)
    requires
        server.wf(),
    ensures
        server.without_room(frid).sessions.contains_key(fsid) <==> server.sessions.contains_key(
            fsid,
        ) && server.registry.sessions[fsid].role.room() != Some(frid),
        server.without_room(frid).sessions.contains_key(fsid) ==> server.without_room(
            frid,
        ).sessions[fsid] == server.sessions[fsid],
        server.without_room(frid).registry.sessions.contains_key(fsid)
            <==> server.registry.sessions.contains_key(fsid)
            && server.registry.sessions[fsid].role.room() != Some(frid),
{
    if server.sessions.contains_key(fsid) {
        assert(server.registry.sessions.contains_key(fsid));
    }
}

/// A session id that has been unregistered can be registered again, with the
/// role it had, under any token that is neither nil nor held.
pub proof fn register_after_unregister(server: ServerState, fsid: Seq<char>, token: u128)
    requires
        server.wf(),
        server.registry.sessions.contains_key(fsid),
        token != 0,
        !server.without_session(fsid).registry.token_in_use(token),
    ensures
        server.without_session(fsid).registry.session_verdict(
            fsid,
            server.registry.sessions[fsid].role,
            token,
        ) == SessionVerdict::Accepted,
{
    let role = server.registry.sessions[fsid].role;
    let after = server.without_session(fsid);
    assert(server.registry.knows_room_of(role));
    match role.room() {
        Some(frid) => {
            assert(server.registry.rooms.contains_key(frid));
            if server.registry.vulcast_bound(fsid) {
                let bound = choose|bound: Seq<char>| #[trigger]
                    server.registry.rooms.contains_key(bound) && server.registry.rooms[bound]
                        == fsid;
                assert(server.registry.is_vulcast(server.registry.rooms[bound]));
                assert(false);
            }
            assert(after.registry.rooms.contains_key(frid));
        },
        None => {},
    }
}

/// Registering a session id that is registered already is refused as not
/// unique, provided the role offered names no unregistered room.
pub proof fn second_registration_is_refused(
    server: ServerState,
    fsid: Seq<char>,
    role: Role,
    token: u128,
)
    requires
        server.registry.sessions.contains_key(fsid),
        server.registry.knows_room_of(role),
    ensures
        server.registry.session_verdict(fsid, role, token) == SessionVerdict::NonUniqueId(fsid),
{
}

/// A role that names an unregistered room is refused for that, whatever
/// else is the matter.
pub proof fn unknown_room_is_refused(
    server: ServerState,
    fsid: Seq<char>,
    role: Role,
    token: u128,
    frid: Seq<char>,
)
    requires
        role.room() == Some(frid),
        !server.registry.rooms.contains_key(frid),
    ensures
        server.registry.session_verdict(fsid, role, token) == SessionVerdict::UnknownRoom(frid),
{
}

/// A room whose id is free cannot be bound to a session that is not
/// registered: the request is refused for the unknown session.
pub proof fn unknown_vulcast_is_refused(server: ServerState, frid: Seq<char>, vulcast: Seq<char>)
    requires
        !server.registry.rooms.contains_key(frid),
        !server.registry.sessions.contains_key(vulcast),
    ensures
        server.registry.room_verdict(frid, vulcast) == RoomVerdict::UnknownSession(vulcast),
{
}

/// A room whose id is free cannot be bound to a Vulcast that has a room
/// already: the request is refused for that.
pub proof fn bound_vulcast_is_refused(server: ServerState, frid: Seq<char>, vulcast: Seq<char>)
    requires
        server.wf(),
        !server.registry.rooms.contains_key(frid),
        server.registry.vulcast_bound(vulcast),
    ensures
        server.registry.room_verdict(frid, vulcast) == RoomVerdict::VulcastInRoom(vulcast),
{
    let bound = choose|bound: Seq<char>| #[trigger]
        server.registry.rooms.contains_key(bound) && server.registry.rooms[bound] == vulcast;
    assert(server.registry.is_vulcast(server.registry.rooms[bound]));
}

/// A room id that is taken is refused as not unique, whatever else is the
/// matter.
pub proof fn taken_room_is_refused(server: ServerState, frid: Seq<char>, vulcast: Seq<char>)
    requires
        server.registry.rooms.contains_key(frid),
    ensures
        server.registry.room_verdict(frid, vulcast) == RoomVerdict::NonUniqueId(frid),
{
}

/// Connecting again on a token whose session is still live drops that
/// session: its identifier is live no longer, and the session that lives
/// under the session id is the new one.
pub proof fn reconnecting_replaces_the_session(
    server: ServerState,
    fsid: Seq<char>,
    session_id: u128,
    room_id: u128,
)
    requires
        server.wf(),
        server.registry.sessions.contains_key(fsid),
        server.sessions.contains_key(fsid),
        !server.session_id_live(session_id),
        !server.room_id_live(room_id),
    ensures
        !server.connected(fsid, session_id, room_id).session_id_live(server.sessions[fsid].id),
        server.connected(fsid, session_id, room_id).sessions[fsid].id == session_id,
        server.sessions[fsid].id != session_id,
{
    let after = server.connected(fsid, session_id, room_id);
    let prior = server.sessions[fsid].id;
    assert(prior != session_id);
    if after.session_id_live(prior) {
        let other = choose|other: Seq<char>| #[trigger]
            after.sessions.contains_key(other) && after.sessions[other].id == prior;
        assert(other != fsid);
        assert(server.sessions.contains_key(other));
        assert(server.sessions[other].id == server.sessions[fsid].id);
    }
}

/// Unregistering a room leaves none of its clients registered, so that a
/// token of theirs admits no session afterwards.
pub proof fn unregistered_room_has_no_clients(
    server: ServerState,
    frid: Seq<char>,
    fsid: Seq<char>,
)
    requires
        server.wf(),
        server.registry.sessions.contains_key(fsid),
        server.registry.sessions[fsid].role.room() == Some(frid),
    ensures
        !server.without_room(frid).registry.sessions.contains_key(fsid),
        !server.without_room(frid).sessions.contains_key(fsid),
        !server.without_room(frid).registry.token_in_use(server.registry.sessions[fsid].token),
{
    let after = server.without_room(frid);
    let token = server.registry.sessions[fsid].token;
    if after.registry.token_in_use(token) {
        let holder = after.registry.holder_of(token);
        assert(after.registry.sessions.contains_key(holder)
            && after.registry.sessions[holder].token == token);
        assert(server.registry.sessions.contains_key(holder));
        assert(server.registry.sessions[holder].token == server.registry.sessions[fsid].token);
        assert(holder == fsid);
    }
}

/// A session keeps its identifier and its room whatever it records.
pub proof fn recording_keeps_the_room(
    server: ServerState,
    id: u128,
    event: SessionEvent,
    fsid: Seq<char>,
)
    requires
        server.wf(),
        server.sessions.contains_key(fsid),
    ensures
        server.recorded(id, event).sessions.contains_key(fsid),
        server.recorded(id, event).sessions[fsid].id == server.sessions[fsid].id,
        server.recorded(id, event).sessions[fsid].room == server.sessions[fsid].room,
        server.recorded(id, event).rooms == server.rooms,
        server.recorded(id, event).registry == server.registry,
{
}

/// A session that passes the guard of an operation stays within the limit
/// when the operation has given it one more resource of the guarded kind.
pub proof fn quota_is_kept(session: SessionState, guard: ResourceGuard, id: u128)
    requires
        guard.admits(session),
        guard.expected >= 1,
        session.holdings(guard.resource).dom().finite(),
    ensures
        session.holding(guard.resource, id).resource_count(guard.resource) <= guard.limit,
{
    let before = session.holdings(guard.resource);
    let after = session.holding(guard.resource, id).holdings(guard.resource);
    assert(after == before.insert(id, Lifecycle::Created));
    let open_before = open_ids(before);
    let open_after = open_ids(after);
    assert(open_before.subset_of(before.dom()));
    vstd::set_lib::lemma_len_subset(open_before, before.dom());
    assert(open_after.subset_of(open_before.insert(id)));
    vstd::set_lib::lemma_len_subset(open_after, open_before.insert(id));
}

} // verus!

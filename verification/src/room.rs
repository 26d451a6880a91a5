//! A room: the sessions gathered around one Vulcast, the router they share
//! in the media worker, and the bus on which new producers are announced.

use crate::bus::{bus_open, bus_send, bus_subscribe};
use crate::holdings::open_ids;
use crate::keyed::KeyedTable;
use crate::minting::fresh_uuid;
use crate::session::{values_of, DataProducerId, ProducerId, Resource, Session, SessionId};
use tokio::sync::broadcast::{Receiver, Sender};
use vstd::prelude::*;

verus! {

/// Identifier of a live room, minted by the relay.
#[derive(Debug, Clone, Copy, PartialEq, Eq, Structural, Hash)]
pub struct RoomId(pub u128);

impl RoomId {
    /// Mints a random identifier.
    pub fn new() -> (id: RoomId)
        ensures
            id.0 != 0,
    {
        RoomId(fresh_uuid())
    }
}

impl Default for RoomId {
    fn default() -> (id: RoomId)
        ensures
            id == RoomId(0),
    {
        RoomId(0)
    }
}

/// Identifier that the worker gave a router.
#[derive(Debug, Clone, Copy, PartialEq, Eq, Structural, Hash)]
pub struct RouterId(pub u128);

/// What a room announces on its bus.
#[derive(Debug, Clone, Copy, PartialEq, Eq, Structural)]
pub enum Message {
    ProducerAvailable(ProducerId),
    DataProducerAvailable(DataProducerId),
}

impl Message {
    /// The producer that the message announces, if it announces one.
    pub fn producer(&self) -> (id: Option<ProducerId>)
        ensures
            id == (match *self {
                Message::ProducerAvailable(id) => Some(id),
                Message::DataProducerAvailable(_) => None,
            }),
    {
        match self {
            Message::ProducerAvailable(id) => Some(*id),
            Message::DataProducerAvailable(_) => None,
        }
    }

    /// The data producer that the message announces, if it announces one.
    pub fn data_producer(&self) -> (id: Option<DataProducerId>)
        ensures
            id == (match *self {
                Message::ProducerAvailable(_) => None,
                Message::DataProducerAvailable(id) => Some(id),
            }),
    {
        match self {
            Message::ProducerAvailable(_) => None,
            Message::DataProducerAvailable(id) => Some(*id),
        }
    }
}

/// What a subscription hands over when it is asked for the next value.
#[derive(Debug, Clone, Copy, PartialEq, Eq, Structural)]
pub enum Reception<T> {
    /// The next value on the bus.
    Value(T),
    /// The subscriber fell behind, and this many values are lost to it.
    Lagged(u64),
    /// The bus is gone: nothing will be sent on it any more.
    Closed,
}

/// What a stream does with what its subscription hands over.
#[derive(Debug, Clone, Copy, PartialEq, Eq, Structural)]
pub enum Step<T> {
    /// Yield the value and go on.
    Yield(T),
    /// Go on without yielding anything.
    Skip,
    /// End the stream.
    End,
}

impl<T> Reception<T> {
    /// What a stream does next: a subscriber that has lost values goes on
    /// with the values that are left, and the stream ends with its bus.
    pub fn step(self) -> (step: Step<T>)
        ensures
            step == (match self {
                Reception::Value(value) => Step::Yield(value),
                Reception::Lagged(_) => Step::Skip,
                Reception::Closed => Step::End,
            }),
    {
        match self {
            Reception::Value(value) => Step::Yield(value),
            Reception::Lagged(_) => Step::Skip,
            Reception::Closed => Step::End,
        }
    }
}

/// How many announcements the bus retains for a subscriber that lags.
pub const CHANNEL_CAPACITY: usize = 16;

/// A room as a mathematical value.
#[verifier::ext_equal]
pub struct RoomState {
    pub id: u128,
    /// The router of the room, once the worker has created it.
    pub router: Option<u128>,
    /// The sessions that belong to the room.
    pub sessions: Set<u128>,
}

/// A room: its sessions, its router and its bus.
pub struct Room {
    id: RoomId,
    router: Option<RouterId>,
    sessions: Vec<SessionId>,
    channel_tx: Sender<Message>,
}

/// A handle on a room that does not keep it alive: it resolves for as long
/// as some session belongs to the room.
#[derive(Debug, Clone, Copy, PartialEq, Eq, Structural)]
pub struct WeakRoom {
    pub id: RoomId,
}

impl View for Room {
    type V = RoomState;

    closed spec fn view(&self) -> RoomState {
        RoomState {
            id: self.id.0,
            router: match self.router {
                Some(router) => Some(router.0),
                None => None,
            },
            sessions: Set::new(
                |id: u128| exists|k: int| 0 <= k < self.sessions.len() && self.sessions[k].0 == id,
            ),
        }
    }
}

/// The resources of kind `resource` that are not closed, over the sessions
/// of `sessions` that belong to `members`.
pub open spec fn open_in(
    members: Set<u128>,
    sessions: Map<Seq<char>, Session>,
    resource: Resource,
) -> Set<u128> {
    Set::new(
        |id: u128|
            exists|key: Seq<char>|
                #![trigger sessions[key]]
                sessions.contains_key(key) && members.contains(sessions[key]@.id) && open_ids(
                    sessions[key]@.holdings(resource),
                ).contains(id),
    )
}

impl Room {
    /// No session occurs twice in the room's index.
    pub closed spec fn wf(&self) -> bool {
        forall|a: int, b: int|
            0 <= a < self.sessions.len() && 0 <= b < self.sessions.len() && a != b
                ==> #[trigger] self.sessions[a] != #[trigger] self.sessions[b]
    }

    /// A room with identifier `id`, without sessions and without a router.
    pub fn new(id: RoomId) -> (room: Room)
        ensures
            room.wf(),
            room@ == (RoomState { id: id.0, router: None, sessions: Set::empty() }),
    {
        let room = Room {
            id,
            router: None,
            sessions: Vec::new(),
            channel_tx: bus_open(CHANNEL_CAPACITY),
        };
        assert(room@.sessions =~= Set::empty());
        room
    }

    /// The identifier of the room.
    pub fn id(&self) -> (id: RoomId)
        ensures
            id.0 == self@.id,
    {
        self.id
    }

    /// A handle on the room that does not keep it alive.
    pub fn downgrade(&self) -> (weak: WeakRoom)
        ensures
            weak.id.0 == self@.id,
    {
        WeakRoom { id: self.id }
    }

    /// The router of the room, or nothing while the worker has yet to create it.
    pub fn get_router(&self) -> (router: Option<RouterId>)
        ensures
            match router {
                Some(router) => self@.router == Some(router.0),
                None => self@.router.is_none(),
            },
    {
        self.router
    }

    /// Offers `router` as the room's router. The first router offered stays:
    /// the answer is the router that the room has from now on.
    pub fn set_router(&mut self, router: RouterId) -> (kept: RouterId)
        requires
            old(self).wf(),
        ensures
            final(self).wf(),
            kept.0 == (match old(self)@.router {
                Some(first) => first,
                None => router.0,
            }),
            final(self)@ == (RoomState { router: Some(kept.0), ..old(self)@ }),
    {
        match self.router {
            Some(first) => {
                assert(self@ =~= (RoomState { router: Some(first.0), ..old(self)@ }));
                first
            },
            None => {
                self.router = Some(router);
                assert(self@.sessions =~= old(self)@.sessions);
                router
            },
        }
    }

    fn find(&self, session_id: SessionId) -> (found: Option<usize>)
        ensures
            match found {
                Some(k) => k < self.sessions.len() && self.sessions[k as int] == session_id
                    && self@.sessions.contains(session_id.0),
                None => !self@.sessions.contains(session_id.0),
            },
    {
        let mut i: usize = 0;
        while i < self.sessions.len()
            invariant
                i <= self.sessions.len(),
                forall|k: int| 0 <= k < i ==> #[trigger] self.sessions[k] != session_id,
            decreases self.sessions.len() - i,
        {
            if self.sessions[i].0 == session_id.0 {
                return Some(i);
            }
            i = i + 1;
        }
        None
    }

    /// Whether the session belongs to the room.
    pub fn has_session(&self, session_id: SessionId) -> (member: bool)
        ensures
            member == self@.sessions.contains(session_id.0),
    {
        self.find(session_id).is_some()
    }

    /// Whether no session belongs to the room.
    pub fn is_empty(&self) -> (empty: bool)
        ensures
            empty == (self@.sessions =~= Set::empty()),
    {
        let empty = self.sessions.len() == 0;
        proof {
            if !empty {
                assert(self@.sessions.contains(self.sessions[0].0));
            }
        }
        empty
    }

    /// Adds a session to the room.
    pub fn add_session(&mut self, session_id: SessionId)
        requires
            old(self).wf(),
        ensures
            final(self).wf(),
            final(self)@ == (RoomState {
                sessions: old(self)@.sessions.insert(session_id.0),
                ..old(self)@
            }),
    {
        let ghost before = *self;
        match self.find(session_id) {
            Some(_) => {
                assert(self@.sessions =~= before@.sessions.insert(session_id.0));
            },
            None => {
                self.sessions.push(session_id);
                proof {
                    let last = self.sessions.len() - 1;
                    assert forall|a: int, b: int|
                        0 <= a < self.sessions.len() && 0 <= b < self.sessions.len() && a
                            != b implies #[trigger] self.sessions[a]
                        != #[trigger] self.sessions[b] by {
                        if a < last && b < last {
                            assert(before.sessions[a] != before.sessions[b]);
                        } else if a < last {
                            assert(before@.sessions.contains(before.sessions[a].0));
                        } else {
                            assert(before@.sessions.contains(before.sessions[b].0));
                        }
                    }
                    assert forall|id: u128|
                        before@.sessions.insert(session_id.0).contains(
                            id,
                        ) implies self@.sessions.contains(id) by {
                        if id == session_id.0 {
                            assert(self.sessions[last].0 == id);
                        } else {
                            let k = choose|k: int|
                                0 <= k < before.sessions.len() && before.sessions[k].0 == id;
                            assert(self.sessions[k].0 == id);
                        }
                    }
                    assert forall|id: u128| self@.sessions.contains(id) implies before@.sessions.insert(
                        session_id.0,
                    ).contains(id) by {
                        let k = choose|k: int|
                            0 <= k < self.sessions.len() && self.sessions[k].0 == id;
                        if k < last {
                            assert(before.sessions[k].0 == id);
                        }
                    }
                    assert(self@.sessions =~= before@.sessions.insert(session_id.0));
                }
            },
        }
    }

    /// Removes a session from the room. The session has to belong to it.
    pub fn remove_session(&mut self, session_id: SessionId)
        requires
            old(self).wf(),
            old(self)@.sessions.contains(session_id.0),
        ensures
            final(self).wf(),
            final(self)@ == (RoomState {
                sessions: old(self)@.sessions.remove(session_id.0),
                ..old(self)@
            }),
    {
        let ghost before = *self;
        match self.find(session_id) {
            Some(k) => {
                self.sessions.remove(k);
                proof {
                    assert forall|a: int, b: int|
                        0 <= a < self.sessions.len() && 0 <= b < self.sessions.len() && a
                            != b implies #[trigger] self.sessions[a]
                        != #[trigger] self.sessions[b] by {
                        let a0 = if a < k { a } else { a + 1 };
                        let b0 = if b < k { b } else { b + 1 };
                        assert(before.sessions[a0] != before.sessions[b0]);
                    }
                    assert forall|id: u128|
                        before@.sessions.remove(session_id.0).contains(
                            id,
                        ) implies self@.sessions.contains(id) by {
                        let j0 = choose|j: int|
                            0 <= j < before.sessions.len() && before.sessions[j].0 == id;
                        let j = if j0 < k { j0 } else { j0 - 1 };
                        assert(self.sessions[j].0 == id);
                    }
                    assert forall|id: u128| self@.sessions.contains(id) implies before@.sessions.remove(
                        session_id.0,
                    ).contains(id) by {
                        let j = choose|j: int|
                            0 <= j < self.sessions.len() && self.sessions[j].0 == id;
                        let j0 = if j < k { j } else { j + 1 };
                        assert(before.sessions[j0].0 == id);
                        assert(before.sessions[j0] != before.sessions[k as int]);
                    }
                    assert(self@.sessions =~= before@.sessions.remove(session_id.0));
                }
            },
            None => {},
        }
    }

    /// Announces on the bus whatever `message` says. With no subscriber the
    /// announcement is dropped.
    pub fn announce(&self, message: Message) {
        bus_send(&self.channel_tx, message)
    }

    /// Announces a new producer to the sessions of the room.
    pub fn announce_producer(&self, producer_id: ProducerId) {
        self.announce(Message::ProducerAvailable(producer_id))
    }

    /// Announces a new data producer to the sessions of the room.
    pub fn announce_data_producer(&self, data_producer_id: DataProducerId) {
        self.announce(Message::DataProducerAvailable(data_producer_id))
    }

    /// The resources of kind `resource` that are not closed, over the
    /// sessions of `sessions` that belong to the room.
    fn snapshot(&self, sessions: &KeyedTable<Session>, resource: Resource) -> (ids: Vec<u128>)
        requires
            sessions.wf(),
            forall|key: Seq<char>| #[trigger]
                sessions@.contains_key(key) ==> sessions@[key].wf(),
        ensures
            ids@.to_set() == open_in(self@.sessions, sessions@, resource),
    {
        let mut ids: Vec<u128> = Vec::new();
        let ghost members = self@.sessions;
        let n = sessions.len();
        let mut k: usize = 0;
        proof {
            sessions.lemma_slots();
        }
        while k < n
            invariant
                k <= n,
                n == sessions.spec_len(),
                sessions.wf(),
                members == self@.sessions,
                forall|key: Seq<char>| #[trigger]
                    sessions@.contains_key(key) ==> sessions@[key].wf(),
                forall|id: u128|
                    ids@.contains(id) <==> exists|j: int|
                        0 <= j < k && members.contains((#[trigger] sessions.value(j))@.id)
                            && open_ids(sessions.value(j)@.holdings(resource)).contains(id),
            decreases n - k,
        {
            proof {
                sessions.lemma_slots();
                assert(sessions@.contains_key(sessions.key(k as int)));
            }
            let session = sessions.value_at(k);
            let ghost prior = ids@;
            if self.has_session(session.id()) {
                let open = session.held_open(resource);
                let mut i: usize = 0;
                while i < open.len()
                    invariant
                        i <= open.len(),
                        ids@ == prior + open@.subrange(0, i as int),
                    decreases open.len() - i,
                {
                    ids.push(open[i]);
                    proof {
                        assert(open@.subrange(0, i + 1) =~= open@.subrange(0, i as int).push(
                            open@[i as int],
                        ));
                        assert(ids@ =~= prior + open@.subrange(0, i + 1));
                    }
                    i = i + 1;
                }
                proof {
                    assert(open@.subrange(0, open.len() as int) =~= open@);
                    assert forall|id: u128| ids@.contains(id) <==> exists|j: int|
                        0 <= j < k + 1 && members.contains((#[trigger] sessions.value(j))@.id)
                            && open_ids(sessions.value(j)@.holdings(resource)).contains(id) by {
                        if ids@.contains(id) {
                            let p = choose|p: int| 0 <= p < ids@.len() && ids@[p] == id;
                            if p < prior.len() {
                                assert(prior[p] == id);
                                assert(prior.contains(id));
                            } else {
                                assert(open@[p - prior.len()] == id);
                                assert(open@.to_set().contains(id));
                                assert(members.contains(sessions.value(k as int)@.id));
                            }
                        }
                        if exists|j: int|
                            0 <= j < k + 1 && members.contains((#[trigger] sessions.value(j))@.id)
                                && open_ids(sessions.value(j)@.holdings(resource)).contains(id) {
                            let j = choose|j: int|
                                0 <= j < k + 1 && members.contains(
                                    (#[trigger] sessions.value(j))@.id,
                                ) && open_ids(sessions.value(j)@.holdings(resource)).contains(id);
                            if j < k {
                                assert(prior.contains(id));
                                let p = choose|p: int| 0 <= p < prior.len() && prior[p] == id;
                                assert(ids@[p] == id);
                            } else {
                                assert(open@.to_set().contains(id));
                                let p = choose|p: int| 0 <= p < open@.len() && open@[p] == id;
                                assert(ids@[prior.len() + p] == id);
                            }
                        }
                    }
                }
            } else {
                proof {
                    assert forall|id: u128| ids@.contains(id) <==> exists|j: int|
                        0 <= j < k + 1 && members.contains((#[trigger] sessions.value(j))@.id)
                            && open_ids(sessions.value(j)@.holdings(resource)).contains(id) by {
                        if ids@.contains(id) {
                            let j = choose|j: int|
                                0 <= j < k && members.contains((#[trigger] sessions.value(j))@.id)
                                    && open_ids(sessions.value(j)@.holdings(resource)).contains(
                                    id,
                                );
                            assert(members.contains(sessions.value(j)@.id));
                        }
                    }
                }
            }
            k = k + 1;
        }
        proof {
            sessions.lemma_slots();
            let wanted = open_in(members, sessions@, resource);
            assert forall|id: u128| ids@.to_set().contains(id) implies wanted.contains(id) by {
                assert(ids@.contains(id));
                let j = choose|j: int|
                    0 <= j < n && members.contains((#[trigger] sessions.value(j))@.id) && open_ids(
                        sessions.value(j)@.holdings(resource),
                    ).contains(id);
                let key = sessions.key(j);
                assert(sessions@.contains_key(key) && sessions@[key] == sessions.value(j));
            }
            assert forall|id: u128| wanted.contains(id) implies ids@.to_set().contains(id) by {
                let key = choose|key: Seq<char>|
                    #![trigger sessions@[key]]
                    sessions@.contains_key(key) && members.contains(sessions@[key]@.id)
                        && open_ids(sessions@[key]@.holdings(resource)).contains(id);
                let j = sessions.slot_of(key);
                assert(sessions.holds_at(key, j));
                assert(sessions.value(j) == sessions@[key]);
                assert(members.contains(sessions.value(j)@.id));
                assert(ids@.contains(id));
            }
            assert(ids@.to_set() =~= wanted);
        }
        ids
    }

    /// The producers that are open right now in the sessions of the room,
    /// together with a subscription to the bus taken at the same moment: what
    /// a new subscriber is shown first, and where the rest will come from.
    pub fn available_producers(&self, sessions: &KeyedTable<Session>) -> (feed: (
        Vec<ProducerId>,
        Receiver<Message>,
    ))
        requires
            sessions.wf(),
            forall|key: Seq<char>| #[trigger]
                sessions@.contains_key(key) ==> sessions@[key].wf(),
        ensures
            values_of(feed.0@).to_set() == open_in(
                self@.sessions,
                sessions@,
                Resource::Producer,
            ),
    {
        let ids = self.snapshot(sessions, Resource::Producer);
        let mut producers: Vec<ProducerId> = Vec::new();
        let mut i: usize = 0;
        while i < ids.len()
            invariant
                i <= ids.len(),
                producers.len() == i,
                forall|j: int| 0 <= j < i ==> (#[trigger] producers[j]).0 == ids[j],
            decreases ids.len() - i,
        {
            producers.push(ProducerId(ids[i]));
            i = i + 1;
        }
        assert(values_of(producers@) =~= ids@);
        (producers, bus_subscribe(&self.channel_tx))
    }

    /// The data producers that are open right now in the sessions of the
    /// room, together with a subscription to the bus taken at the same moment.
    pub fn available_data_producers(&self, sessions: &KeyedTable<Session>) -> (feed: (
        Vec<DataProducerId>,
        Receiver<Message>,
    ))
        requires
            sessions.wf(),
            forall|key: Seq<char>| #[trigger]
                sessions@.contains_key(key) ==> sessions@[key].wf(),
        ensures
            values_of(feed.0@).to_set() == open_in(
                self@.sessions,
                sessions@,
                Resource::DataProducer,
            ),
    {
        let ids = self.snapshot(sessions, Resource::DataProducer);
        let mut producers: Vec<DataProducerId> = Vec::new();
        let mut i: usize = 0;
        while i < ids.len()
            invariant
                i <= ids.len(),
                producers.len() == i,
                forall|j: int| 0 <= j < i ==> (#[trigger] producers[j]).0 == ids[j],
            decreases ids.len() - i,
        {
            producers.push(DataProducerId(ids[i]));
            i = i + 1;
        }
        assert(values_of(producers@) =~= ids@);
        (producers, bus_subscribe(&self.channel_tx))
    }
}

} // verus!

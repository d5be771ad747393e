//! Bookkeeping of live connections: which ECS entity stands for which network connection.
//!
//! Entities are identified by their 64-bit bit pattern.
use vstd::prelude::*;
use std::collections::HashMap;
use crate::payload::NetworkEvent;

verus! {

/// What an incoming network event asks of the ECS layer.
#[derive(Debug, PartialEq, Eq, Clone, Copy)]
pub enum Route {
    /// A new connection: spawn a client entity for it and register it.
    Spawn { client_id: u64 },
    /// A connection id that is already live connected again: the event is
    /// dropped and draining stops for this frame.
    Collision { client_id: u64 },
    /// A message from a live connection, for this entity.
    Deliver { entity: u64, client_id: u64 },
    /// The connection closed: this entity is no longer connected.
    Disconnect { entity: u64, client_id: u64 },
    /// The event concerns no live connection and is dropped.
    Ignore { client_id: u64 },
}

/// The connection id and kind of an event, as the routing sees it.
pub enum EventKind {
    Connected(u64),
    Message(u64),
    Disconnected(u64),
}

pub open spec fn event_kind(e: NetworkEvent) -> EventKind {
    match e {
        NetworkEvent::Connected { id, .. } => EventKind::Connected(id),
        NetworkEvent::Message { id, .. } => EventKind::Message(id),
        NetworkEvent::Disconnected { id } => EventKind::Disconnected(id),
    }
}

/// The routing decision and the table afterwards, for table `m` and event `e`.
pub open spec fn route_event(m: Map<u64, u64>, e: EventKind) -> (Map<u64, u64>, Route) {
    match e {
        EventKind::Connected(id) => if m.contains_key(id) {
            (m, Route::Collision { client_id: id })
        } else {
            (m, Route::Spawn { client_id: id })
        },
        EventKind::Message(id) => if m.contains_key(id) {
            (m, Route::Deliver { entity: m[id], client_id: id })
        } else {
            (m, Route::Ignore { client_id: id })
        },
        EventKind::Disconnected(id) => if m.contains_key(id) {
            (m.remove(id), Route::Disconnect { entity: m[id], client_id: id })
        } else {
            (m, Route::Ignore { client_id: id })
        },
    }
}

/// Lookup of the entity that stands for a network connection id.
pub struct ConnectionMap {
    entities: HashMap<u64, u64>,
}

impl View for ConnectionMap {
    type V = Map<u64, u64>;

    closed spec fn view(&self) -> Map<u64, u64> {
        self.entities@
    }
}

impl ConnectionMap {
    /// An empty table.
    pub fn new() -> (m: Self)
        ensures
            m@ == Map::<u64, u64>::empty(),
    {
        ConnectionMap { entities: HashMap::new() }
    }

    /// Whether the connection id is live.
    pub fn contains(&self, client_id: u64) -> (b: bool)
        ensures
            b == self@.contains_key(client_id),
    {
        self.entities.contains_key(&client_id)
    }

    /// The entity of a live connection.
    pub fn entity_of(&self, client_id: u64) -> (e: Option<u64>)
        ensures
            e == (if self@.contains_key(client_id) { Some(self@[client_id]) } else { None::<u64> }),
    {
        match self.entities.get(&client_id) {
            Some(e) => Some(*e),
            None => None,
        }
    }

    /// Records the entity spawned for a new connection.
    pub fn register(&mut self, client_id: u64, entity: u64)
        requires
            !old(self)@.contains_key(client_id),
        ensures
            final(self)@ == old(self)@.insert(client_id, entity),
    {
        self.entities.insert(client_id, entity);
    }

    /// Routes one event from the network layer; a disconnect removes the connection.
    pub fn route(&mut self, event: &NetworkEvent) -> (r: Route)
        ensures
            (final(self)@, r) == route_event(old(self)@, event_kind(*event)),
    {
        match event {
            NetworkEvent::Connected { id, .. } => {
                if self.entities.contains_key(id) {
                    Route::Collision { client_id: *id }
                } else {
                    Route::Spawn { client_id: *id }
                }
            },
            NetworkEvent::Message { id, .. } => match self.entities.get(id) {
                Some(e) => Route::Deliver { entity: *e, client_id: *id },
                None => Route::Ignore { client_id: *id },
            },
            NetworkEvent::Disconnected { id } => match self.entities.remove(id) {
                Some(e) => Route::Disconnect { entity: e, client_id: *id },
                None => Route::Ignore { client_id: *id },
            },
        }
    }
}

/// Once a connection has been accepted and its entity registered, its
/// messages reach that entity; after its disconnect the entity is reported once
/// and the table is as before the connection, so later messages are dropped.
pub proof fn law_connection_lifecycle(m: Map<u64, u64>, id: u64, entity: u64)
    requires
        !m.contains_key(id),
    ensures
        route_event(m, EventKind::Connected(id)) == (m, Route::Spawn { client_id: id }),
        ({
            let live = m.insert(id, entity);
            &&& route_event(live, EventKind::Message(id)) == (live, Route::Deliver { entity, client_id: id })
            &&& route_event(live, EventKind::Connected(id)) == (live, Route::Collision { client_id: id })
            &&& route_event(live, EventKind::Disconnected(id)) == (m, Route::Disconnect { entity, client_id: id })
            &&& route_event(m, EventKind::Message(id)) == (m, Route::Ignore { client_id: id })
            &&& route_event(m, EventKind::Disconnected(id)) == (m, Route::Ignore { client_id: id })
        }),
{
    let live = m.insert(id, entity);
    assert(live.remove(id) =~= m);
}

/// Routing never touches other connections: only a disconnect changes the
/// table, and only by removing its own id.
pub proof fn law_route_frame(m: Map<u64, u64>, e: EventKind, other: u64)
    ensures
        ({
            let id = match e {
                EventKind::Connected(i) => i,
                EventKind::Message(i) => i,
                EventKind::Disconnected(i) => i,
            };
            other != id ==> (route_event(m, e).0.contains_key(other) == m.contains_key(other)
                && (m.contains_key(other) ==> route_event(m, e).0[other] == m[other]))
        }),
{
}

} // verus!

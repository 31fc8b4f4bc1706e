//! A room and the clients connected to it.

use vstd::prelude::*;
use crate::util::time::get_current_time_in_seconds;

verus! {

/// A client connected to a room: its identifier and the handle through which the server
/// reaches it (a WebSocket session in the server; anything in tests).
#[derive(Debug)]
pub struct Client<S> {
    pub id: u128,
    pub session: S,
}

impl<S> Client<S> {
    pub fn new(id: u128, session: S) -> (r: Self)
        ensures
            r.id == id,
            r.session == session,
    {
        Client { id, session }
    }
}

impl<S: Clone> Clone for Client<S> {
    fn clone(&self) -> (r: Self)
        ensures
            r.id == self.id,
            cloned(self.session, r.session),
    {
        Client { id: self.id, session: self.session.clone() }
    }
}

/// A room: its identifier, its clients in the order they joined, and since when it has
/// been without clients (in seconds since the Unix epoch; 0 while it is in use).
#[derive(Debug)]
pub struct Channel<S> {
    pub id: u128,
    pub clients: Vec<Client<S>>,
    pub time_without_clients: u64,
}

/// The abstract content of a room.
pub struct RoomView<S> {
    pub id: u128,
    pub clients: Seq<Client<S>>,
    pub time_without_clients: u64,
}

impl<S> View for Channel<S> {
    type V = RoomView<S>;

    open spec fn view(&self) -> RoomView<S> {
        RoomView { id: self.id, clients: self.clients@, time_without_clients: self.time_without_clients }
    }
}

/// The identifiers of a list of clients, in order.
pub open spec fn client_ids<S>(clients: Seq<Client<S>>) -> Seq<u128> {
    clients.map_values(|c: Client<S>| c.id)
}

impl<S> Channel<S> {
    /// A new room without clients, empty since the current time.
    pub fn new(uuid: u128) -> (r: Self)
        ensures
            r.id == uuid,
            r.clients@.len() == 0,
    {
        let now = get_current_time_in_seconds();
        Self::new_at(uuid, now)
    }

    /// A new room without clients, empty since `now`.
    pub fn new_at(uuid: u128, now: u64) -> (r: Self)
        ensures
            r@ == (RoomView::<S> { id: uuid, clients: Seq::empty(), time_without_clients: now }),
    {
        let r = Channel { id: uuid, clients: Vec::new(), time_without_clients: now };
        assert(r@.clients =~= Seq::<Client<S>>::empty());
        r
    }
}

} // verus!

//! The registry of rooms and the rules for joining and leaving them.

use vstd::prelude::*;
use std::collections::HashMap;
use vstd::std_specs::iter::IteratorSpec;
use crate::channel::room::Channel;
use crate::channel::room::Client;
use crate::channel::room::RoomView;
use crate::util::error::DaianaError;
use crate::util::parse::parse_u16;
use crate::util::parse::decimal_value;
use crate::util::parse::is_decimal_digits;
use crate::util::parse::parse_unsigned;
use crate::util::time::get_current_time_in_seconds;

verus! {

broadcast use vstd::std_specs::hash::group_hash_axioms;

/// The room limit used when none is configured.
pub const DEFAULT_MAX_CLIENTS_ON_ROOM: u16 = 5;

/// The limit on clients per room that a configuration value sets: the value read as a
/// 16-bit number, or the default when it is absent or not such a number.
pub open spec fn max_clients_setting(setting: Option<Seq<char>>) -> u16 {
    match setting {
        Some(s) => match parse_unsigned(s, u16::MAX as nat) {
            Some(v) => v as u16,
            None => DEFAULT_MAX_CLIENTS_ON_ROOM,
        },
        None => DEFAULT_MAX_CLIENTS_ON_ROOM,
    }
}

/// The clients of a room that remain once `client_id` has left it (every client with
/// that identifier goes).
pub open spec fn without_client<S>(clients: Seq<Client<S>>, client_id: u128) -> Seq<Client<S>> {
    clients.filter(|c: Client<S>| c.id != client_id)
}

/// `b` is a copy of the clients `a`: same length, same identifiers in the same order, and
/// each session a clone of the corresponding one.
pub open spec fn clients_cloned<S: Clone>(a: Seq<Client<S>>, b: Seq<Client<S>>) -> bool {
    &&& a.len() == b.len()
    &&& forall|i: int|
        0 <= i < a.len() ==> (#[trigger] b[i]).id == a[i].id && cloned(a[i].session, b[i].session)
}

/// The client with identifier `id` comes first among `clients` at position `i`.
pub open spec fn is_first_with_id<S>(clients: Seq<Client<S>>, id: u128, i: int) -> bool {
    &&& 0 <= i < clients.len()
    &&& clients[i].id == id
    &&& forall|j: int| 0 <= j < i ==> (#[trigger] clients[j]).id != id
}

/// Some client among `clients` has identifier `id`.
pub open spec fn has_client<S>(clients: Seq<Client<S>>, id: u128) -> bool {
    exists|i: int| 0 <= i < clients.len() && (#[trigger] clients[i]).id == id
}

/// Whether an empty room is removed when the registry is cleaned at time `now` with the
/// given inactivity timeout: it has no clients and has been empty for longer than the timeout.
pub open spec fn is_expired<S>(room: RoomView<S>, timeout_seconds: u64, now: u64) -> bool {
    &&& room.clients.len() == 0
    &&& (if now >= room.time_without_clients {
        now - room.time_without_clients
    } else {
        0
    }) > timeout_seconds
}

/// The rooms that remain when the registry is cleaned at time `now`: every expired room goes.
pub open spec fn after_cleanup<S>(rooms: Map<u128, RoomView<S>>, timeout_seconds: u64, now: u64) -> Map<
    u128,
    RoomView<S>,
> {
    rooms.filter_keys(|k: u128| !is_expired(rooms[k], timeout_seconds, now))
}

/// A version-4 (random) UUID, as a 128-bit value: its version field (bits 76 to 79) reads 4
/// and its variant field (bits 62 and 63) reads `0b10`.
pub open spec fn is_random_room_id(id: u128) -> bool {
    id & 0xf000_c000_0000_0000_0000u128 == 0x4000_8000_0000_0000_0000u128
}

/// The number of rooms that have at least one client.
pub open spec fn active_room_count<S>(rooms: Map<u128, RoomView<S>>) -> nat {
    rooms.dom().fold(0nat, |acc: nat, k: u128| acc + if rooms[k].clients.len() > 0 { 1nat } else { 0nat })
}

/// The number of clients over all rooms.
pub open spec fn total_client_count<S>(rooms: Map<u128, RoomView<S>>) -> nat {
    rooms.dom().fold(0nat, |acc: nat, k: u128| acc + rooms[k].clients.len())
}

/// `n`, or the largest `u32` when `n` is larger.
pub open spec fn cap_u32(n: nat) -> u32 {
    if n > u32::MAX {
        u32::MAX
    } else {
        n as u32
    }
}

/// Copies the clients of a room.
fn clone_clients<S: Clone>(v: &Vec<Client<S>>) -> (r: Vec<Client<S>>)
    ensures
        clients_cloned(v@, r@),
{
    let mut r: Vec<Client<S>> = Vec::new();
    let mut i: usize = 0;
    while i < v.len()
        invariant
            0 <= i <= v@.len(),
            r@.len() == i,
            forall|j: int|
                0 <= j < i ==> (#[trigger] r@[j]).id == v@[j].id && cloned(v@[j].session, r@[j].session),
        decreases v@.len() - i,
    {
        let c = v[i].clone();
        r.push(c);
        i = i + 1;
    }
    r
}

/// All rooms held in memory, keyed by room identifier.
#[derive(Debug)]
pub struct ChannelManager<S> {
    channels: HashMap<u128, Channel<S>>,
    max_clients_on_room: u16,
}

impl<S> ChannelManager<S> {
    /// The rooms, by identifier.
    pub closed spec fn rooms(&self) -> Map<u128, RoomView<S>> {
        self.channels@.map_values(|c: Channel<S>| c@)
    }

    /// The most clients a room may hold.
    pub closed spec fn max_clients(&self) -> u16 {
        self.max_clients_on_room
    }

    /// Every room is stored under its own identifier and holds at most the limit of clients.
    pub open spec fn wf(&self) -> bool {
        forall|k: u128|
            #[trigger] self.rooms().contains_key(k) ==> self.rooms()[k].id == k
                && self.rooms()[k].clients.len() <= self.max_clients()
    }

    proof fn lemma_rooms_insert(&self, old_channels: Map<u128, Channel<S>>, k: u128, c: Channel<S>)
        requires
            self.channels@ == old_channels.insert(k, c),
        ensures
            self.rooms() == old_channels.map_values(|c: Channel<S>| c@).insert(k, c@),
    {
        assert(self.rooms() =~= old_channels.map_values(|c: Channel<S>| c@).insert(k, c@));
    }

    proof fn lemma_rooms_remove(&self, old_channels: Map<u128, Channel<S>>, k: u128)
        requires
            self.channels@ == old_channels.remove(k),
        ensures
            self.rooms() == old_channels.map_values(|c: Channel<S>| c@).remove(k),
    {
        assert(self.rooms() =~= old_channels.map_values(|c: Channel<S>| c@).remove(k));
    }

    proof fn lemma_room(&self, k: u128)
        ensures
            self.rooms().contains_key(k) == self.channels@.contains_key(k),
            self.channels@.contains_key(k) ==> self.rooms()[k] == self.channels@[k]@,
    {
    }

    proof fn lemma_wf_insert(&self, before: Self, k: u128, v: RoomView<S>)
        requires
            before.wf(),
            self.rooms() == before.rooms().insert(k, v),
            self.max_clients() == before.max_clients(),
            v.id == k,
            v.clients.len() <= self.max_clients(),
        ensures
            self.wf(),
    {
        assert forall|j: u128| #[trigger] self.rooms().contains_key(j) implies self.rooms()[j].id
            == j && self.rooms()[j].clients.len() <= self.max_clients() by {
            if j != k {
                assert(before.rooms().contains_key(j));
            }
        }
    }

    /// A registry without rooms, whose room limit is read from `max_clients_setting` (the
    /// configured text, if any).
    pub fn new(max_clients_setting_text: Option<&str>) -> (r: Self)
        ensures
            r.wf(),
            r.rooms() == Map::<u128, RoomView<S>>::empty(),
            r.max_clients() == max_clients_setting(
                match max_clients_setting_text {
                    Some(s) => Some(s@),
                    None => None,
                },
            ),
    {
        let max = match max_clients_setting_text {
            Some(s) => match parse_u16(s) {
                Some(v) => v,
                None => DEFAULT_MAX_CLIENTS_ON_ROOM,
            },
            None => DEFAULT_MAX_CLIENTS_ON_ROOM,
        };
        let r = ChannelManager { channels: HashMap::new(), max_clients_on_room: max };
        assert(r.rooms() =~= Map::<u128, RoomView<S>>::empty());
        r
    }

    /// The most clients a room may hold.
    pub fn max_clients_on_room(&self) -> (r: u16)
        ensures
            r == self.max_clients(),
    {
        self.max_clients_on_room
    }

    /// Whether a room with this identifier exists.
    pub fn channel_exists(&self, id: u128) -> (r: bool)
        ensures
            r == self.rooms().contains_key(id),
    {
        self.channels.contains_key(&id)
    }

    /// Registers a new room without clients under `id`, empty since `now`; a room that had
    /// this identifier is replaced.
    pub fn create_channel_at(&mut self, id: u128, now: u64)
        requires
            old(self).wf(),
        ensures
            final(self).wf(),
            final(self).max_clients() == old(self).max_clients(),
            final(self).rooms() == old(self).rooms().insert(
                id,
                RoomView { id, clients: Seq::empty(), time_without_clients: now },
            ),
    {
        let ghost before = *self;
        let channel = Channel::new_at(id, now);
        self.channels.insert(id, channel);
        proof {
            self.lemma_rooms_insert(before.channels@, id, channel);
            self.lemma_wf_insert(before, id, channel@);
        }
    }

    /// Sets the time since which the room has been without clients; `Err(InvalidRoomId)`
    /// when there is no such room.
    fn set_time_without_clients(&mut self, id: u128, time: u64) -> (r: Result<(), DaianaError>)
        requires
            old(self).wf(),
        ensures
            final(self).wf(),
            final(self).max_clients() == old(self).max_clients(),
            old(self).rooms().contains_key(id) ==> r == Ok::<(), DaianaError>(())
                && final(self).rooms() == old(self).rooms().insert(
                id,
                RoomView { time_without_clients: time, ..old(self).rooms()[id] },
            ),
            !old(self).rooms().contains_key(id) ==> r == Err::<(), DaianaError>(
                DaianaError::InvalidRoomId,
            ) && final(self).rooms() == old(self).rooms(),
    {
        let ghost before = *self;
        match self.channels.remove(&id) {
            Some(mut channel) => {
                proof {
                    self.lemma_rooms_remove(before.channels@, id);
                }
                let ghost removed = self.channels@;
                channel.time_without_clients = time;
                self.channels.insert(id, channel);
                proof {
                    self.lemma_rooms_insert(removed, id, channel);
                    assert(self.rooms() =~= before.rooms().insert(
                        id,
                        RoomView { time_without_clients: time, ..before.rooms()[id] },
                    ));
                    self.lemma_wf_insert(before, id, channel@);
                }
                Ok(())
            },
            None => {
                proof {
                    self.lemma_rooms_remove(before.channels@, id);
                    assert(self.rooms() =~= before.rooms());
                }
                Err(DaianaError::InvalidRoomId)
            },
        }
    }

    /// Marks a room as in use: its inactivity time is reset to 0.
    pub fn mark_channel_as_active(&mut self, id: u128) -> (r: Result<(), DaianaError>)
        requires
            old(self).wf(),
        ensures
            final(self).wf(),
            final(self).max_clients() == old(self).max_clients(),
            old(self).rooms().contains_key(id) ==> r == Ok::<(), DaianaError>(())
                && final(self).rooms() == old(self).rooms().insert(
                id,
                RoomView { time_without_clients: 0, ..old(self).rooms()[id] },
            ),
            !old(self).rooms().contains_key(id) ==> r == Err::<(), DaianaError>(
                DaianaError::InvalidRoomId,
            ) && final(self).rooms() == old(self).rooms(),
    {
        self.set_time_without_clients(id, 0)
    }

    /// Marks a room as not in use since the current time.
    pub fn mark_channel_as_not_active(&mut self, id: u128) -> (r: Result<(), DaianaError>)
        requires
            old(self).wf(),
        ensures
            final(self).wf(),
            final(self).max_clients() == old(self).max_clients(),
            old(self).rooms().contains_key(id) ==> r == Ok::<(), DaianaError>(())
                && final(self).rooms() == old(self).rooms().insert(
                id,
                RoomView {
                    time_without_clients: final(self).rooms()[id].time_without_clients,
                    ..old(self).rooms()[id]
                },
            ),
            !old(self).rooms().contains_key(id) ==> r == Err::<(), DaianaError>(
                DaianaError::InvalidRoomId,
            ) && final(self).rooms() == old(self).rooms(),
    {
        let now = get_current_time_in_seconds();
        self.mark_channel_as_not_active_at(id, now)
    }

    /// Marks a room as not in use since `now`.
    pub fn mark_channel_as_not_active_at(&mut self, id: u128, now: u64) -> (r: Result<
        (),
        DaianaError,
    >)
        requires
            old(self).wf(),
        ensures
            final(self).wf(),
            final(self).max_clients() == old(self).max_clients(),
            old(self).rooms().contains_key(id) ==> r == Ok::<(), DaianaError>(())
                && final(self).rooms() == old(self).rooms().insert(
                id,
                RoomView { time_without_clients: now, ..old(self).rooms()[id] },
            ),
            !old(self).rooms().contains_key(id) ==> r == Err::<(), DaianaError>(
                DaianaError::InvalidRoomId,
            ) && final(self).rooms() == old(self).rooms(),
    {
        self.set_time_without_clients(id, now)
    }

    /// Creates a room without clients under a fresh random (version-4) identifier, empty
    /// since the current time, and returns the identifier.
    pub fn create_channel(&mut self) -> (r: u128)
        requires
            old(self).wf(),
        ensures
            is_random_room_id(r),
            final(self).wf(),
            final(self).max_clients() == old(self).max_clients(),
            final(self).rooms() == old(self).rooms().insert(
                r,
                RoomView {
                    id: r,
                    clients: Seq::empty(),
                    time_without_clients: final(self).rooms()[r].time_without_clients,
                },
            ),
    {
        let id = new_room_id();
        let now = get_current_time_in_seconds();
        self.create_channel_at(id, now);
        id
    }

    /// Adds a client to a room and marks the room as in use. `Err(InvalidRoomId)` when
    /// there is no such room, `Err(MaximumClientsReached)` when it is full; then nothing
    /// changes.
    pub fn insert_client(&mut self, id: u128, client: Client<S>) -> (r: Result<(), DaianaError>)
        requires
            old(self).wf(),
        ensures
            final(self).wf(),
            final(self).max_clients() == old(self).max_clients(),
            !old(self).rooms().contains_key(id) ==> r == Err::<(), DaianaError>(
                DaianaError::InvalidRoomId,
            ) && final(self).rooms() == old(self).rooms(),
            old(self).rooms().contains_key(id) && old(self).rooms()[id].clients.len()
                >= old(self).max_clients() ==> r == Err::<(), DaianaError>(
                DaianaError::MaximumClientsReached,
            ) && final(self).rooms() == old(self).rooms(),
            old(self).rooms().contains_key(id) && old(self).rooms()[id].clients.len()
                < old(self).max_clients() ==> r == Ok::<(), DaianaError>(())
                && final(self).rooms() == old(self).rooms().insert(
                id,
                RoomView {
                    id,
                    clients: old(self).rooms()[id].clients.push(client),
                    time_without_clients: 0,
                },
            ),
    {
        let ghost before = *self;
        match self.channels.remove(&id) {
            Some(mut channel) => {
                proof {
                    self.lemma_rooms_remove(before.channels@, id);
                }
                let ghost removed = self.channels@;
                proof {
                    before.lemma_room(id);
                    assert(before.rooms().contains_key(id));
                }
                if channel.clients.len() >= self.max_clients_on_room as usize {
                    self.channels.insert(id, channel);
                    proof {
                        self.lemma_rooms_insert(removed, id, channel);
                        assert(self.rooms() =~= before.rooms());
                    }
                    return Err(DaianaError::MaximumClientsReached);
                }
                channel.time_without_clients = 0;
                channel.clients.push(client);
                self.channels.insert(id, channel);
                proof {
                    self.lemma_rooms_insert(removed, id, channel);
                    assert(self.rooms() =~= before.rooms().insert(id, channel@));
                    self.lemma_wf_insert(before, id, channel@);
                }
                Ok(())
            },
            None => {
                proof {
                    self.lemma_rooms_remove(before.channels@, id);
                    assert(self.rooms() =~= before.rooms());
                }
                Err(DaianaError::InvalidRoomId)
            },
        }
    }

    /// Removes every client with identifier `client_id` from a room; a room that this leaves
    /// without clients is marked as empty since the current time (a room that was already
    /// empty keeps its time).
    pub fn remove_client(&mut self, channel_id: u128, client_id: u128) -> (r: Result<
        (),
        DaianaError,
    >)
        requires
            old(self).wf(),
        ensures
            final(self).wf(),
            final(self).max_clients() == old(self).max_clients(),
            !old(self).rooms().contains_key(channel_id) ==> r == Err::<(), DaianaError>(
                DaianaError::InvalidRoomId,
            ) && final(self).rooms() == old(self).rooms(),
            old(self).rooms().contains_key(channel_id) ==> r == Ok::<(), DaianaError>(()) && {
                let kept = without_client(old(self).rooms()[channel_id].clients, client_id);
                final(self).rooms() == old(self).rooms().insert(
                    channel_id,
                    RoomView {
                        id: channel_id,
                        clients: kept,
                        time_without_clients: if old(self).rooms()[channel_id].clients.len() > 0
                            && kept.len() == 0 {
                            final(self).rooms()[channel_id].time_without_clients
                        } else {
                            old(self).rooms()[channel_id].time_without_clients
                        },
                    },
                )
            },
    {
        let now = get_current_time_in_seconds();
        self.remove_client_at(channel_id, client_id, now)
    }

    /// Removes every client with identifier `client_id` from a room; a room that this leaves
    /// without clients is marked as empty since `now` (a room that was already empty keeps
    /// its time).
    #[verifier::loop_isolation(false)]
    pub fn remove_client_at(&mut self, channel_id: u128, client_id: u128, now: u64) -> (r: Result<
        (),
        DaianaError,
    >)
        requires
            old(self).wf(),
        ensures
            final(self).wf(),
            final(self).max_clients() == old(self).max_clients(),
            !old(self).rooms().contains_key(channel_id) ==> r == Err::<(), DaianaError>(
                DaianaError::InvalidRoomId,
            ) && final(self).rooms() == old(self).rooms(),
            old(self).rooms().contains_key(channel_id) ==> r == Ok::<(), DaianaError>(()) && {
                let kept = without_client(old(self).rooms()[channel_id].clients, client_id);
                final(self).rooms() == old(self).rooms().insert(
                    channel_id,
                    RoomView {
                        id: channel_id,
                        clients: kept,
                        time_without_clients: if old(self).rooms()[channel_id].clients.len() > 0
                            && kept.len() == 0 {
                            now
                        } else {
                            old(self).rooms()[channel_id].time_without_clients
                        },
                    },
                )
            },
    {
        let ghost before = *self;
        match self.channels.remove(&channel_id) {
            Some(mut channel) => {
                proof {
                    self.lemma_rooms_remove(before.channels@, channel_id);
                }
                let ghost removed = self.channels@;
                proof {
                    before.lemma_room(channel_id);
                    assert(before.rooms().contains_key(channel_id));
                }
                let ghost orig = channel.clients@;
                let ghost pred = |c: Client<S>| c.id != client_id;
                let had_clients = channel.clients.len() > 0;
                let mut rest: Vec<Client<S>> = Vec::new();
                std::mem::swap(&mut rest, &mut channel.clients);
                let mut kept: Vec<Client<S>> = Vec::new();
                let mut done: usize = 0;
                while rest.len() > 0
                    invariant
                        done + rest@.len() == orig.len(),
                        orig.len() <= usize::MAX,
                        rest@ == orig.subrange(done as int, orig.len() as int),
                        kept@ == orig.take(done as int).filter(pred),
                    decreases rest@.len(),
                {
                    let c = rest.remove(0);
                    proof {
                        reveal(Seq::filter);
                        assert(orig.take(done + 1).drop_last() =~= orig.take(done as int));
                        assert(orig.take(done + 1).last() == c);
                        assert(orig.take(done + 1).filter(pred) == if pred(c) {
                            orig.take(done as int).filter(pred).push(c)
                        } else {
                            orig.take(done as int).filter(pred)
                        });
                    }
                    if c.id != client_id {
                        kept.push(c);
                    }
                    done = done + 1;
                    assert(rest@ =~= orig.subrange(done as int, orig.len() as int));
                }
                assert(orig.take(orig.len() as int) =~= orig);
                proof {
                    orig.lemma_filter_len(pred);
                }
                if had_clients && kept.len() == 0 {
                    channel.time_without_clients = now;
                }
                channel.clients = kept;
                self.channels.insert(channel_id, channel);
                proof {
                    self.lemma_rooms_insert(removed, channel_id, channel);
                    assert(self.rooms() =~= before.rooms().insert(channel_id, channel@));
                    self.lemma_wf_insert(before, channel_id, channel@);
                }
                Ok(())
            },
            None => {
                proof {
                    self.lemma_rooms_remove(before.channels@, channel_id);
                    assert(self.rooms() =~= before.rooms());
                }
                Err(DaianaError::InvalidRoomId)
            },
        }
    }

    /// Removes every client from a room and marks it as empty since the current time.
    pub fn clear_clients(&mut self, channel_id: u128) -> (r: Result<(), DaianaError>)
        requires
            old(self).wf(),
        ensures
            final(self).wf(),
            final(self).max_clients() == old(self).max_clients(),
            !old(self).rooms().contains_key(channel_id) ==> r == Err::<(), DaianaError>(
                DaianaError::InvalidRoomId,
            ) && final(self).rooms() == old(self).rooms(),
            old(self).rooms().contains_key(channel_id) ==> r == Ok::<(), DaianaError>(())
                && final(self).rooms() == old(self).rooms().insert(
                channel_id,
                RoomView {
                    id: channel_id,
                    clients: Seq::empty(),
                    time_without_clients: final(self).rooms()[channel_id].time_without_clients,
                },
            ),
    {
        let now = get_current_time_in_seconds();
        self.clear_clients_at(channel_id, now)
    }

    /// Removes every client from a room and marks it as empty since `now`.
    pub fn clear_clients_at(&mut self, channel_id: u128, now: u64) -> (r: Result<(), DaianaError>)
        requires
            old(self).wf(),
        ensures
            final(self).wf(),
            final(self).max_clients() == old(self).max_clients(),
            !old(self).rooms().contains_key(channel_id) ==> r == Err::<(), DaianaError>(
                DaianaError::InvalidRoomId,
            ) && final(self).rooms() == old(self).rooms(),
            old(self).rooms().contains_key(channel_id) ==> r == Ok::<(), DaianaError>(())
                && final(self).rooms() == old(self).rooms().insert(
                channel_id,
                RoomView { id: channel_id, clients: Seq::empty(), time_without_clients: now },
            ),
    {
        let ghost before = *self;
        match self.channels.remove(&channel_id) {
            Some(mut channel) => {
                proof {
                    self.lemma_rooms_remove(before.channels@, channel_id);
                }
                let ghost removed = self.channels@;
                proof {
                    before.lemma_room(channel_id);
                    assert(before.rooms().contains_key(channel_id));
                }
                channel.clients.clear();
                channel.time_without_clients = now;
                self.channels.insert(channel_id, channel);
                proof {
                    self.lemma_rooms_insert(removed, channel_id, channel);
                    assert(channel@.clients =~= Seq::<Client<S>>::empty());
                    assert(self.rooms() =~= before.rooms().insert(channel_id, channel@));
                    self.lemma_wf_insert(before, channel_id, channel@);
                }
                Ok(())
            },
            None => {
                proof {
                    self.lemma_rooms_remove(before.channels@, channel_id);
                    assert(self.rooms() =~= before.rooms());
                }
                Err(DaianaError::InvalidRoomId)
            },
        }
    }

    /// The identifiers of all rooms, each once.
    fn room_ids(&self) -> (r: Vec<u128>)
        ensures
            r@.to_set() == self.rooms().dom(),
            r@.no_duplicates(),
    {
        let ghost ks = vstd::std_specs::hash::spec_keys_iter(&self.channels).remaining();
        let mut ids: Vec<u128> = Vec::new();
        for k in it: self.channels.keys()
            invariant
                it.seq() == ks,
                ids@.len() == it.index(),
                forall|j: int| 0 <= j < it.index() ==> ids@[j] == *ks[j],
        {
            ids.push(*k);
        }
        assert(ids@ =~= ks.unref());
        assert(self.rooms().dom() =~= self.channels@.dom());
        ids
    }

    /// Removes every room whose time without clients exceeds `timeout_seconds`, judged at
    /// the current time.
    pub fn clean_empty_channels(&mut self, timeout_seconds: u64)
        requires
            old(self).wf(),
        ensures
            final(self).wf(),
            final(self).max_clients() == old(self).max_clients(),
            exists|now: u64|
                final(self).rooms() == #[trigger] after_cleanup(old(self).rooms(), timeout_seconds, now),
    {
        let now = get_current_time_in_seconds();
        self.clean_empty_channels_at(timeout_seconds, now);
    }

    /// Removes every room whose time without clients at time `now` exceeds `timeout_seconds`.
    pub fn clean_empty_channels_at(&mut self, timeout_seconds: u64, now: u64)
        requires
            old(self).wf(),
        ensures
            final(self).wf(),
            final(self).max_clients() == old(self).max_clients(),
            final(self).rooms() == after_cleanup(old(self).rooms(), timeout_seconds, now),
    {
        let ghost before = *self;
        let ids = self.room_ids();
        let mut i: usize = 0;
        while i < ids.len()
            invariant
                0 <= i <= ids@.len(),
                ids@.to_set() == before.rooms().dom(),
                ids@.no_duplicates(),
                self.max_clients() == before.max_clients(),
                before.wf(),
                self.rooms() == before.rooms().filter_keys(
                    |k: u128|
                        !(ids@.take(i as int).contains(k) && is_expired(
                            before.rooms()[k],
                            timeout_seconds,
                            now,
                        )),
                ),
            decreases ids@.len() - i,
        {
            let k = ids[i];
            let ghost cur = *self;
            proof {
                assert(ids@.to_set().contains(k));
                assert(!ids@.take(i as int).contains(k)) by {
                    if ids@.take(i as int).contains(k) {
                        let j = choose|j: int| 0 <= j < i && ids@.take(i as int)[j] == k;
                        assert(ids@[j] == ids@[i as int]);
                    }
                }
                self.lemma_room(k);
                assert(self.rooms().contains_key(k));
                assert(self.rooms()[k] == before.rooms()[k]);
            }
            let expired = match self.channels.get(&k) {
                Some(c) => {
                    let idle: u64 = if now >= c.time_without_clients {
                        now - c.time_without_clients
                    } else {
                        0
                    };
                    c.clients.len() == 0 && idle > timeout_seconds
                },
                None => false,
            };
            if expired {
                self.channels.remove(&k);
                proof {
                    self.lemma_rooms_remove(cur.channels@, k);
                }
            }
            assert(expired == is_expired(before.rooms()[k], timeout_seconds, now));
            i = i + 1;
            proof {
                let prev = ids@.take(i - 1);
                assert(ids@.take(i as int) =~= prev.push(k));
                assert forall|j: u128| #[trigger] ids@.take(i as int).contains(j) <==> (prev.contains(j)
                    || j == k) by {
                    if prev.contains(j) {
                        let m = choose|m: int| 0 <= m < prev.len() && prev[m] == j;
                        assert(ids@.take(i as int)[m] == j);
                    }
                    if ids@.take(i as int).contains(j) && j != k {
                        let m = choose|m: int| 0 <= m < i && ids@.take(i as int)[m] == j;
                        assert(prev[m] == j);
                    }
                    if j == k {
                        assert(ids@.take(i as int)[i - 1] == k);
                    }
                }
                assert(self.rooms() =~= before.rooms().filter_keys(
                    |k: u128|
                        !(ids@.take(i as int).contains(k) && is_expired(
                            before.rooms()[k],
                            timeout_seconds,
                            now,
                        )),
                ));
            }
        }
        proof {
            assert(ids@.take(ids@.len() as int) =~= ids@);
            assert(self.rooms() =~= before.rooms().filter_keys(
                |k: u128| !is_expired(before.rooms()[k], timeout_seconds, now),
            ));
            assert forall|k: u128| #[trigger] self.rooms().contains_key(k) implies self.rooms()[k].id
                == k && self.rooms()[k].clients.len() <= self.max_clients() by {
                assert(before.rooms().contains_key(k));
            }
        }
    }

    /// How many rooms are in use and how many clients they hold in all, each capped at the
    /// largest `u32`.
    pub fn stats(&self) -> (r: (u32, u32))
        ensures
            r.0 == cap_u32(active_room_count(self.rooms())),
            r.1 == cap_u32(total_client_count(self.rooms())),
    {
        let ghost rooms = self.rooms();
        let ghost fr = |acc: nat, k: u128| acc + if rooms[k].clients.len() > 0 { 1nat } else { 0nat };
        let ghost fc = |acc: nat, k: u128| acc + rooms[k].clients.len();
        let ids = self.room_ids();
        let mut active_rooms: u32 = 0;
        let mut active_clients: u32 = 0;
        let mut i: usize = 0;
        assert(ids@.take(0).to_set() =~= Set::<u128>::empty());
        proof {
            vstd::set::fold::lemma_fold_empty::<u128, nat>(0nat, fr);
            vstd::set::fold::lemma_fold_empty::<u128, nat>(0nat, fc);
        }
        while i < ids.len()
            invariant
                0 <= i <= ids@.len(),
                ids@.to_set() == rooms.dom(),
                ids@.no_duplicates(),
                rooms == self.rooms(),
                active_rooms == cap_u32(ids@.take(i as int).to_set().fold(0nat, fr)),
                active_clients == cap_u32(ids@.take(i as int).to_set().fold(0nat, fc)),
                fr == (|acc: nat, k: u128| acc + if rooms[k].clients.len() > 0 { 1nat } else { 0nat }),
                fc == (|acc: nat, k: u128| acc + rooms[k].clients.len()),
            decreases ids@.len() - i,
        {
            let k = ids[i];
            proof {
                self.lemma_room(k);
                assert(ids@.to_set().contains(k));
            }
            let n: usize = match self.channels.get(&k) {
                Some(c) => c.clients.len(),
                None => 0,
            };
            assert(n == rooms[k].clients.len());
            if n > 0 && active_rooms < u32::MAX {
                active_rooms = active_rooms + 1;
            }
            if n as u64 > u32::MAX as u64 - active_clients as u64 {
                active_clients = u32::MAX;
            } else {
                active_clients = active_clients + n as u32;
            }
            proof {
                let prev = ids@.take(i as int);
                let set_prev = prev.to_set();
                assert(!set_prev.contains(k)) by {
                    if set_prev.contains(k) {
                        let j = choose|j: int| 0 <= j < i && prev[j] == k;
                        assert(ids@[j] == ids@[i as int]);
                    }
                }
                assert(ids@.take(i + 1) =~= prev.push(k));
                prev.lemma_push_to_set_commute(k);
                vstd::seq_lib::seq_to_set_is_finite(prev);
                vstd::set::fold::lemma_fold_insert(set_prev, 0nat, fr, k);
                vstd::set::fold::lemma_fold_insert(set_prev, 0nat, fc, k);
            }
            i = i + 1;
        }
        assert(ids@.take(ids@.len() as int) =~= ids@);
        (active_rooms, active_clients)
    }

    /// Whether a client with identifier `client_id` is in the room; `Err(InvalidRoomId)`
    /// when there is no such room.
    #[verifier::loop_isolation(false)]
    pub fn client_exists(&self, channel_id: u128, client_id: u128) -> (r: Result<bool, DaianaError>)
        ensures
            !self.rooms().contains_key(channel_id) ==> r == Err::<bool, DaianaError>(
                DaianaError::InvalidRoomId,
            ),
            self.rooms().contains_key(channel_id) ==> r == Ok::<bool, DaianaError>(
                has_client(self.rooms()[channel_id].clients, client_id),
            ),
    {
        proof {
            self.lemma_room(channel_id);
        }
        match self.channels.get(&channel_id) {
            Some(channel) => {
                let mut i: usize = 0;
                while i < channel.clients.len()
                    invariant
                        0 <= i <= channel.clients@.len(),
                        forall|j: int| 0 <= j < i ==> (#[trigger] channel.clients@[j]).id != client_id,
                    decreases channel.clients@.len() - i,
                {
                    if channel.clients[i].id == client_id {
                        assert(channel.clients@[i as int].id == client_id);
                        return Ok(true);
                    }
                    i = i + 1;
                }
                Ok(false)
            },
            None => Err(DaianaError::InvalidRoomId),
        }
    }
}

impl<S: Clone> ChannelManager<S> {
    /// Copies of the clients of a room, in order; `Err(InvalidRoomId)` when there is no such room.
    pub fn get_clients(&self, id: u128) -> (r: Result<Vec<Client<S>>, DaianaError>)
        ensures
            !self.rooms().contains_key(id) ==> r == Err::<Vec<Client<S>>, DaianaError>(
                DaianaError::InvalidRoomId,
            ),
            self.rooms().contains_key(id) ==> (r matches Ok(v) && clients_cloned(
                self.rooms()[id].clients,
                v@,
            )),
    {
        proof {
            self.lemma_room(id);
        }
        match self.channels.get(&id) {
            Some(channel) => Ok(clone_clients(&channel.clients)),
            None => Err(DaianaError::InvalidRoomId),
        }
    }

    /// A copy of the first client of the room with identifier `client_id`, if any;
    /// `Err(InvalidRoomId)` when there is no such room.
    #[verifier::loop_isolation(false)]
    pub fn get_client(&self, channel_id: u128, client_id: u128) -> (r: Result<
        Option<Client<S>>,
        DaianaError,
    >)
        ensures
            !self.rooms().contains_key(channel_id) ==> r == Err::<Option<Client<S>>, DaianaError>(
                DaianaError::InvalidRoomId,
            ),
            self.rooms().contains_key(channel_id) ==> (r matches Ok(found) && {
                let clients = self.rooms()[channel_id].clients;
                match found {
                    Some(c) => exists|i: int|
                        is_first_with_id(clients, client_id, i) && c.id == client_id && cloned(
                            #[trigger] clients[i].session,
                            c.session,
                        ),
                    None => !has_client(clients, client_id),
                }
            }),
    {
        proof {
            self.lemma_room(channel_id);
        }
        match self.channels.get(&channel_id) {
            Some(channel) => {
                let mut i: usize = 0;
                while i < channel.clients.len()
                    invariant
                        0 <= i <= channel.clients@.len(),
                        forall|j: int| 0 <= j < i ==> (#[trigger] channel.clients@[j]).id != client_id,
                    decreases channel.clients@.len() - i,
                {
                    if channel.clients[i].id == client_id {
                        let c = channel.clients[i].clone();
                        assert(is_first_with_id(channel.clients@, client_id, i as int));
                        assert(c.id == client_id);
                        assert(cloned(channel.clients@[i as int].session, c.session));
                        assert(self.rooms()[channel_id].clients == channel.clients@);
                        return Ok(Some(c));
                    }
                    i = i + 1;
                }
                Ok(None)
            },
            None => Err(DaianaError::InvalidRoomId),
        }
    }
}

/// `uuid::Uuid::new_v4`, read as its 128-bit value (`as_u128`): a random version-4
/// identifier. `new_v4` masks the random bits so that the version field reads 4 and the
/// variant field reads RFC 4122; nothing more is claimed of the value, which comes from a
/// random source.
#[verifier::external_body]
fn new_room_id() -> (r: u128)
    ensures
        is_random_room_id(r),
{
    uuid::Uuid::new_v4().as_u128()
}

/// Every room limit that a `u16` can hold is taken as written: decimal digits, with or
/// without a leading `+`, set the limit to their value when it is at most 65535; anything
/// else leaves the default of five.
pub proof fn lemma_room_limit_reads_every_u16(s: Seq<char>, d: Seq<char>)
    requires
        is_decimal_digits(d),
        s == d || s == seq!['+'] + d,
    ensures
        decimal_value(d) <= u16::MAX ==> max_clients_setting(Some(s)) == decimal_value(d),
        decimal_value(d) > u16::MAX ==> max_clients_setting(Some(s)) == 5,
{
    if s == seq!['+'] + d {
        assert(s.drop_first() =~= d);
    } else {
        assert('0' <= d[0] <= '9');
    }
}

/// A client that joins a room is then in it (as `client_exists` reports after a successful
/// `insert_client`), and every client that was in the room still is.
pub proof fn lemma_joined_client_is_in_room<S>(clients: Seq<Client<S>>, client: Client<S>)
    ensures
        has_client(clients.push(client), client.id),
        forall|id: u128| has_client(clients, id) ==> has_client(clients.push(client), id),
{
    assert(clients.push(client)[clients.len() as int].id == client.id);
    assert forall|id: u128| has_client(clients, id) implies has_client(clients.push(client), id) by {
        let i = choose|i: int| 0 <= i < clients.len() && (#[trigger] clients[i]).id == id;
        assert(clients.push(client)[i] == clients[i]);
    }
}

/// A client that leaves a room (as `remove_client` makes it) is no longer in it, and every
/// other client stays, in the same order.
pub proof fn lemma_left_client_is_gone<S>(clients: Seq<Client<S>>, client_id: u128)
    ensures
        !has_client(without_client(clients, client_id), client_id),
        forall|c: Client<S>|
            clients.contains(c) && c.id != client_id ==> #[trigger] without_client(
                clients,
                client_id,
            ).contains(c),
        forall|c: Client<S>| #[trigger]
            without_client(clients, client_id).contains(c) ==> clients.contains(c),
{
    let pred = |c: Client<S>| c.id != client_id;
    let kept = without_client(clients, client_id);
    assert forall|i: int| 0 <= i < kept.len() implies (#[trigger] kept[i]).id != client_id by {
        clients.lemma_filter_pred(pred, i);
    }
    assert forall|c: Client<S>| clients.contains(c) && c.id != client_id implies #[trigger] kept.contains(c) by {
        let i = choose|i: int| 0 <= i < clients.len() && clients[i] == c;
        clients.lemma_filter_contains(pred, i);
    }
    assert forall|c: Client<S>| #[trigger] kept.contains(c) implies clients.contains(c) by {
        clients.lemma_filter_contains_rev(pred, c);
    }
}

/// Cleaning never removes a room that has clients, keeps every room whose time without
/// clients does not exceed the timeout, removes every room whose time does, and changes no
/// room it keeps.
pub proof fn lemma_cleanup_removes_exactly_expired_rooms<S>(
    rooms: Map<u128, RoomView<S>>,
    timeout_seconds: u64,
    now: u64,
)
    ensures
        forall|k: u128|
            #[trigger] after_cleanup(rooms, timeout_seconds, now).contains_key(k) <==> (
            rooms.contains_key(k) && !is_expired(rooms[k], timeout_seconds, now)),
        forall|k: u128|
            rooms.contains_key(k) && rooms[k].clients.len() > 0 ==> #[trigger] after_cleanup(
                rooms,
                timeout_seconds,
                now,
            ).contains_key(k),
        forall|k: u128|
            #[trigger] after_cleanup(rooms, timeout_seconds, now).contains_key(k) ==> after_cleanup(
                rooms,
                timeout_seconds,
                now,
            )[k] == rooms[k],
{
}

/// A room created at time `now` survives a cleaning at that same time under any timeout.
pub proof fn lemma_new_room_survives_cleanup<S>(
    rooms: Map<u128, RoomView<S>>,
    id: u128,
    timeout_seconds: u64,
    now: u64,
)
    ensures
        after_cleanup(
            rooms.insert(id, RoomView { id, clients: Seq::empty(), time_without_clients: now }),
            timeout_seconds,
            now,
        ).contains_key(id),
{
}

} // verus!

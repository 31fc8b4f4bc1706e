//! Who receives what: the delivery decisions behind broadcasting, unicasting, multicasting,
//! peer synchronisation and disconnection. The server performs the sends.

use vstd::prelude::*;
use vstd::string::StringExecFns;
use crate::channel::channel_manager::clients_cloned;
use crate::channel::channel_manager::has_client;
use crate::channel::channel_manager::without_client;
use crate::channel::ChannelManager;
use crate::channel::Client;
use crate::channel::RoomView;
use crate::packet::out::WsPacket;
use crate::packet::out::WsPacketView;

verus! {

/// The clients that a broadcast reaches: all of them but the excluded one.
pub open spec fn broadcast_targets<S>(clients: Seq<Client<S>>, exclude: Option<u128>) -> Seq<
    Client<S>,
> {
    clients.filter(|c: Client<S>| exclude != Some(c.id))
}

/// The clients that a multicast reaches: those whose identifier is listed; none when the
/// list is empty.
pub open spec fn multicast_targets<S>(clients: Seq<Client<S>>, target_ids: Seq<u128>) -> Seq<
    Client<S>,
> {
    clients.filter(|c: Client<S>| target_ids.contains(c.id))
}

/// Copies of the clients that a broadcast from the room reaches, in room order.
pub fn broadcast_recipients<S: Clone>(clients: &Vec<Client<S>>, exclude: Option<u128>) -> (r: Vec<
    Client<S>,
>)
    ensures
        clients_cloned(broadcast_targets(clients@, exclude), r@),
{
    let ghost pred = |c: Client<S>| exclude != Some(c.id);
    let mut r: Vec<Client<S>> = Vec::new();
    let mut i: usize = 0;
    while i < clients.len()
        invariant
            0 <= i <= clients@.len(),
            pred == (|c: Client<S>| exclude != Some(c.id)),
            clients_cloned(clients@.take(i as int).filter(pred), r@),
        decreases clients@.len() - i,
    {
        proof {
            reveal(Seq::filter);
            assert(clients@.take(i + 1).drop_last() =~= clients@.take(i as int));
        }
        let keep = match exclude {
            Some(x) => clients[i].id != x,
            None => true,
        };
        if keep {
            let c = clients[i].clone();
            r.push(c);
        }
        i = i + 1;
    }
    assert(clients@.take(clients@.len() as int) =~= clients@);
    r
}

/// Whether `id` is listed in `ids`.
fn contains_id(ids: &[u128], id: u128) -> (r: bool)
    ensures
        r == ids@.contains(id),
{
    let mut i: usize = 0;
    while i < ids.len()
        invariant
            0 <= i <= ids@.len(),
            forall|j: int| 0 <= j < i ==> ids@[j] != id,
        decreases ids@.len() - i,
    {
        if ids[i] == id {
            assert(ids@[i as int] == id);
            return true;
        }
        i = i + 1;
    }
    false
}

/// Copies of the clients that a multicast to `target_ids` reaches, in room order.
pub fn multicast_recipients<S: Clone>(clients: &Vec<Client<S>>, target_ids: &[u128]) -> (r: Vec<
    Client<S>,
>)
    ensures
        clients_cloned(multicast_targets(clients@, target_ids@), r@),
{
    let ghost pred = |c: Client<S>| target_ids@.contains(c.id);
    let mut r: Vec<Client<S>> = Vec::new();
    let mut i: usize = 0;
    while i < clients.len()
        invariant
            0 <= i <= clients@.len(),
            pred == (|c: Client<S>| target_ids@.contains(c.id)),
            clients_cloned(clients@.take(i as int).filter(pred), r@),
        decreases clients@.len() - i,
    {
        proof {
            reveal(Seq::filter);
            assert(clients@.take(i + 1).drop_last() =~= clients@.take(i as int));
        }
        if contains_id(target_ids, clients[i].id) {
            let c = clients[i].clone();
            r.push(c);
        }
        i = i + 1;
    }
    assert(clients@.take(clients@.len() as int) =~= clients@);
    r
}

/// The notices that bring a newly joined client up to date: one `ClientConnected` for each
/// other client of the room, in room order.
pub fn sync_packets<S>(clients: &Vec<Client<S>>, new_client_id: u128) -> (r: Vec<WsPacket>)
    ensures
        r@.len() == broadcast_targets(clients@, Some(new_client_id)).len(),
        forall|i: int|
            0 <= i < r@.len() ==> (#[trigger] r@[i])@ == (WsPacketView::ClientConnected {
                client_id: broadcast_targets(clients@, Some(new_client_id))[i].id,
            }),
{
    let ghost pred = |c: Client<S>| Some(new_client_id) != Some(c.id);
    let mut r: Vec<WsPacket> = Vec::new();
    let mut i: usize = 0;
    while i < clients.len()
        invariant
            0 <= i <= clients@.len(),
            pred == (|c: Client<S>| Some(new_client_id) != Some(c.id)),
            r@.len() == clients@.take(i as int).filter(pred).len(),
            forall|j: int|
                0 <= j < r@.len() ==> (#[trigger] r@[j])@ == (WsPacketView::ClientConnected {
                    client_id: clients@.take(i as int).filter(pred)[j].id,
                }),
        decreases clients@.len() - i,
    {
        proof {
            reveal(Seq::filter);
            assert(clients@.take(i + 1).drop_last() =~= clients@.take(i as int));
        }
        if clients[i].id != new_client_id {
            r.push(WsPacket::ClientConnected { client_id: clients[i].id });
        }
        i = i + 1;
    }
    assert(clients@.take(clients@.len() as int) =~= clients@);
    r
}

/// A notice from the server carrying `message`.
pub fn server_info_packet(message: &str) -> (r: WsPacket)
    ensures
        r@ == (WsPacketView::ServerInfo { message: message@ }),
{
    WsPacket::ServerInfo { message: message.to_owned() }
}

/// The notice sent to a client that is kicked out: "Kicked: " followed by the reason.
pub fn kick_packet(reason: &str) -> (r: WsPacket)
    ensures
        r@ == (WsPacketView::ServerInfo { message: "Kicked: "@ + reason@ }),
{
    let mut message = String::from_str("Kicked: ");
    message.append(reason);
    WsPacket::ServerInfo { message }
}

/// The state change behind a disconnection: a client that is in the room leaves it
/// (a room left empty is marked empty since the current time), and the notice to tell the
/// rest of the room is returned. Otherwise nothing changes and there is nothing to tell.
pub fn disconnect_client<S>(channel_manager: &mut ChannelManager<S>, room_id: u128, client_id: u128) -> (r: Option<WsPacket>)
    requires
        old(channel_manager).wf(),
    ensures
        final(channel_manager).wf(),
        final(channel_manager).max_clients() == old(channel_manager).max_clients(),
        ({
            let before = old(channel_manager).rooms();
            if before.contains_key(room_id) && has_client(before[room_id].clients, client_id) {
                let kept = without_client(before[room_id].clients, client_id);
                &&& r matches Some(p) && p@ == (WsPacketView::ClientDisconnected { client_id })
                &&& final(channel_manager).rooms() == before.insert(
                    room_id,
                    RoomView {
                        id: room_id,
                        clients: kept,
                        time_without_clients: if before[room_id].clients.len() > 0 && kept.len() == 0 {
                            final(channel_manager).rooms()[room_id].time_without_clients
                        } else {
                            before[room_id].time_without_clients
                        },
                    },
                )
            } else {
                r is None && final(channel_manager).rooms() == before
            }
        }),
{
    match channel_manager.client_exists(room_id, client_id) {
        Ok(true) => {
            let _ = channel_manager.remove_client(room_id, client_id);
            Some(WsPacket::ClientDisconnected { client_id })
        },
        _ => None,
    }
}

/// A broadcast reaches exactly the room's clients other than the excluded one: each
/// recipient is a client of the room and is not excluded, and each such client is reached.
pub proof fn lemma_broadcast_reaches_all_but_excluded<S>(clients: Seq<Client<S>>, exclude: Option<u128>)
    ensures
        forall|c: Client<S>| #[trigger]
            broadcast_targets(clients, exclude).contains(c) <==> (clients.contains(c) && exclude
                != Some(c.id)),
{
    let pred = |c: Client<S>| exclude != Some(c.id);
    let t = broadcast_targets(clients, exclude);
    assert forall|c: Client<S>| #[trigger] t.contains(c) <==> (clients.contains(c) && exclude != Some(c.id)) by {
        if t.contains(c) {
            clients.lemma_filter_contains_rev(pred, c);
            let j = choose|j: int| 0 <= j < t.len() && t[j] == c;
            clients.lemma_filter_pred(pred, j);
        }
        if clients.contains(c) && exclude != Some(c.id) {
            let i = choose|i: int| 0 <= i < clients.len() && clients[i] == c;
            clients.lemma_filter_contains(pred, i);
        }
    }
}

/// A multicast reaches exactly the room's clients whose identifier is listed; an empty list
/// reaches nobody.
pub proof fn lemma_multicast_reaches_listed<S>(clients: Seq<Client<S>>, target_ids: Seq<u128>)
    ensures
        forall|c: Client<S>| #[trigger]
            multicast_targets(clients, target_ids).contains(c) <==> (clients.contains(c)
                && target_ids.contains(c.id)),
        target_ids.len() == 0 ==> multicast_targets(clients, target_ids).len() == 0,
{
    let pred = |c: Client<S>| target_ids.contains(c.id);
    let t = multicast_targets(clients, target_ids);
    assert forall|c: Client<S>| #[trigger] t.contains(c) <==> (clients.contains(c) && target_ids.contains(c.id)) by {
        if t.contains(c) {
            clients.lemma_filter_contains_rev(pred, c);
            let j = choose|j: int| 0 <= j < t.len() && t[j] == c;
            clients.lemma_filter_pred(pred, j);
        }
        if clients.contains(c) && target_ids.contains(c.id) {
            let i = choose|i: int| 0 <= i < clients.len() && clients[i] == c;
            clients.lemma_filter_contains(pred, i);
        }
    }
    if target_ids.len() == 0 && t.len() > 0 {
        clients.lemma_filter_pred(pred, 0);
    }
}

} // verus!

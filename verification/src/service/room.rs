//! What the room endpoint decides: which room a path names, and what becomes of each
//! packet a connected client sends.

use vstd::prelude::*;
use crate::packet::input::decode_in_packet;
use crate::packet::input::WsInPacket;
use crate::packet::input::WsInPacketView;
use crate::packet::out::ParseError;
use crate::packet::out::WsPacket;
use crate::packet::out::WsPacketView;
use crate::util::error::DaianaError;

verus! {

/// The server-wide limits on what a client may send.
pub struct PacketLimits {
    /// Most packets a connection may send per second; 0 for no limit.
    pub max_packets_per_sec: u32,
    /// Largest binary packet accepted, in bytes; 0 for no limit.
    pub max_packet_size_bytes: usize,
}

impl Default for PacketLimits {
    fn default() -> (r: Self)
        ensures
            r.max_packets_per_sec == 100,
            r.max_packet_size_bytes == 65536,
    {
        PacketLimits { max_packets_per_sec: 100, max_packet_size_bytes: 65536 }
    }
}

/// The identifier that `uuid::Uuid::parse_str` reads from a text (as its 128-bit value),
/// or `None` when the text is no UUID.
pub uninterp spec fn uuid_text_value(s: Seq<char>) -> Option<u128>;

/// `uuid::Uuid::parse_str`, read as its 128-bit value (`as_u128`).
#[verifier::external_body]
fn uuid_parse_str(s: &str) -> (r: Option<u128>)
    ensures
        r == uuid_text_value(s@),
{
    match uuid::Uuid::parse_str(s) {
        Ok(u) => Some(u.as_u128()),
        Err(_) => None,
    }
}

/// The room named by a parsed path segment: `InvalidRoomId` when it was no UUID.
pub fn room_id_from_parsed(parsed: Option<u128>) -> (r: Result<u128, DaianaError>)
    ensures
        match parsed {
            Some(id) => r == Ok::<u128, DaianaError>(id),
            None => r == Err::<u128, DaianaError>(DaianaError::InvalidRoomId),
        },
{
    match parsed {
        Some(id) => Ok(id),
        None => Err(DaianaError::InvalidRoomId),
    }
}

/// The room named by the path segment `text`: `InvalidRoomId` when it is no UUID.
pub fn parse_room_id(text: &str) -> (r: Result<u128, DaianaError>)
    ensures
        match uuid_text_value(text@) {
            Some(id) => r == Ok::<u128, DaianaError>(id),
            None => r == Err::<u128, DaianaError>(DaianaError::InvalidRoomId),
        },
{
    room_id_from_parsed(uuid_parse_str(text))
}

/// How a connection's packet counter moves when a packet arrives: the one-second window
/// restarts when a second or more has passed since it began.
pub struct RateStep {
    /// The window restarts now.
    pub restart_window: bool,
    /// The count of packets in the window, this one included (it stops at the largest `u32`).
    pub packet_count: u32,
    /// The packet is within the limit and is handled; otherwise it is dropped.
    pub admitted: bool,
}

/// The counter after one more packet, capped at the largest `u32`.
pub open spec fn next_count(count: u32, elapsed_secs: u64) -> u32 {
    let base = if elapsed_secs >= 1 {
        0
    } else {
        count
    };
    if base == u32::MAX {
        u32::MAX
    } else {
        (base + 1) as u32
    }
}

/// Counts a packet that arrives `elapsed_secs` whole seconds after the current window
/// began, with `packet_count` packets counted in the window so far.
pub fn count_packet(packet_count: u32, elapsed_secs: u64, max_packets_per_sec: u32) -> (r: RateStep)
    ensures
        r.restart_window == (elapsed_secs >= 1),
        r.packet_count == next_count(packet_count, elapsed_secs),
        r.admitted == !(max_packets_per_sec > 0 && r.packet_count > max_packets_per_sec),
        elapsed_secs >= 1 ==> r.packet_count == 1 && r.admitted,
        elapsed_secs == 0 ==> r.packet_count as int == if packet_count < u32::MAX {
            packet_count + 1
        } else {
            packet_count as int
        },
{
    let restart_window = elapsed_secs >= 1;
    let base: u32 = if restart_window {
        0
    } else {
        packet_count
    };
    let count: u32 = if base == u32::MAX {
        u32::MAX
    } else {
        base + 1
    };
    RateStep {
        restart_window,
        packet_count: count,
        admitted: !(max_packets_per_sec > 0 && count > max_packets_per_sec),
    }
}

/// What becomes of a binary packet from a client.
pub enum Delivery {
    /// Larger than the size limit: dropped unread.
    Oversized,
    /// Not a client packet: dropped, with the reason.
    Invalid(ParseError),
    /// Relayed to one client of the room.
    ToClient { target_id: u128, packet: WsPacket },
    /// Relayed to the listed clients of the room.
    ToClients { target_ids: Vec<u128>, packet: WsPacket },
    /// Relayed to every client of the room but the sender.
    ToRoom { exclude: u128, packet: WsPacket },
}

/// The relayed message that carries `payload` from `sender_id`.
pub open spec fn relayed(sender_id: u128, payload: Seq<u8>) -> WsPacketView {
    WsPacketView::Message { sender_id, payload }
}

/// Decides what becomes of the binary packet `data` sent by `sender_id`: oversized packets
/// are dropped, unreadable ones are reported, and each packet kind is relayed as a message
/// from the sender: a unicast to its target, a multicast to its targets, a broadcast to
/// the rest of the room.
pub fn route_binary(sender_id: u128, data: &[u8], max_packet_size_bytes: usize) -> (r: Delivery)
    ensures
        max_packet_size_bytes > 0 && data@.len() > max_packet_size_bytes ==> r is Oversized,
        !(max_packet_size_bytes > 0 && data@.len() > max_packet_size_bytes) ==> match decode_in_packet(
            data@,
        ) {
            Err(e) => r == Delivery::Invalid(e),
            Ok(WsInPacketView::Unicast { target_id, payload }) => (r matches Delivery::ToClient {
                target_id: t,
                packet,
            } && t == target_id && packet@ == relayed(sender_id, payload)),
            Ok(WsInPacketView::Multicast { target_ids, payload }) => (r matches Delivery::ToClients {
                target_ids: ts,
                packet,
            } && ts@ == target_ids && packet@ == relayed(sender_id, payload)),
            Ok(WsInPacketView::Broadcast { payload }) => (r matches Delivery::ToRoom {
                exclude,
                packet,
            } && exclude == sender_id && packet@ == relayed(sender_id, payload)),
        },
{
    if max_packet_size_bytes > 0 && data.len() > max_packet_size_bytes {
        return Delivery::Oversized;
    }
    match WsInPacket::from_bytes(data) {
        Err(e) => Delivery::Invalid(e),
        Ok(WsInPacket::Unicast { target_id, payload }) => Delivery::ToClient {
            target_id,
            packet: WsPacket::Message { sender_id, payload },
        },
        Ok(WsInPacket::Multicast { target_ids, payload }) => Delivery::ToClients {
            target_ids,
            packet: WsPacket::Message { sender_id, payload },
        },
        Ok(WsInPacket::Broadcast { payload }) => Delivery::ToRoom {
            exclude: sender_id,
            packet: WsPacket::Message { sender_id, payload },
        },
    }
}

/// The counter after `n` packets of one window, starting from an empty window.
pub open spec fn count_after(n: nat) -> u32
    decreases n,
{
    if n == 0 {
        0
    } else {
        next_count(count_after((n - 1) as nat), 0)
    }
}

/// Within one window the `n`-th packet is handled exactly when `n` is at most the limit
/// (or there is no limit): a connection gets at most `max_packets_per_sec` packets handled
/// per window.
pub proof fn lemma_window_admits_at_most_limit(n: nat, max_packets_per_sec: u32)
    requires
        1 <= n <= u32::MAX,
    ensures
        count_after(n) == n,
        !(max_packets_per_sec > 0 && count_after(n) > max_packets_per_sec) <==> (
        max_packets_per_sec == 0 || n <= max_packets_per_sec),
    decreases n,
{
    assert(count_after(0) == 0);
    if n > 1 {
        lemma_window_admits_at_most_limit((n - 1) as nat, max_packets_per_sec);
    }
    assert(count_after(n) == next_count(count_after((n - 1) as nat), 0));
}

/// A packet that arrives a second or more after its window began, however long the pause
/// and however many packets the old window held, opens a new window in which it is the
/// only packet counted, and it is handled under every limit.
pub proof fn lemma_new_window_counts_only_this_packet(
    count: u32,
    elapsed_secs: u64,
    max_packets_per_sec: u32,
)
    requires
        elapsed_secs >= 1,
    ensures
        next_count(count, elapsed_secs) == 1,
        !(max_packets_per_sec > 0 && next_count(count, elapsed_secs) > max_packets_per_sec),
{
}

/// Within a window (no whole second elapsed) each packet adds one to the count, which
/// stops at the largest `u32`.
pub proof fn lemma_same_window_counts_one_more(count: u32)
    ensures
        next_count(count, 0) as int == if count < u32::MAX {
            count + 1
        } else {
            count as int
        },
{
}

} // verus!

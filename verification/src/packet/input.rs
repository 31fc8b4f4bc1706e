//! Packets sent by a client to the server.

use vstd::prelude::*;
use crate::packet::out::ParseError;
use crate::packet::wire::copy_from;
use crate::packet::wire::id_bytes;
use crate::packet::wire::id_from_bytes;
use crate::packet::wire::lemma_id_bytes_roundtrip;
use crate::packet::wire::lemma_id_from_bytes_roundtrip;
use crate::packet::wire::push_all;
use crate::packet::wire::push_id;
use crate::packet::wire::read_id;

verus! {

/// Opcode of [`WsInPacket::Unicast`].
pub const IN_OP_UNICAST: u8 = 0x0;

/// Opcode of [`WsInPacket::Multicast`].
pub const IN_OP_MULTICAST: u8 = 0x1;

/// Opcode of [`WsInPacket::Broadcast`].
pub const IN_OP_BROADCAST: u8 = 0x2;

/// A packet that a client sends to the server. The sender is never part of it: the server
/// knows who sent it.
#[derive(Debug, PartialEq, Eq, Clone)]
pub enum WsInPacket {
    /// A payload for one client of the room.
    Unicast { target_id: u128, payload: Vec<u8> },
    /// A payload for the listed clients of the room.
    Multicast { target_ids: Vec<u128>, payload: Vec<u8> },
    /// A payload for every other client of the room.
    Broadcast { payload: Vec<u8> },
}

/// The abstract content of a [`WsInPacket`].
pub enum WsInPacketView {
    Unicast { target_id: u128, payload: Seq<u8> },
    Multicast { target_ids: Seq<u128>, payload: Seq<u8> },
    Broadcast { payload: Seq<u8> },
}

impl View for WsInPacket {
    type V = WsInPacketView;

    open spec fn view(&self) -> WsInPacketView {
        match self {
            WsInPacket::Unicast { target_id, payload } => WsInPacketView::Unicast {
                target_id: *target_id,
                payload: payload@,
            },
            WsInPacket::Multicast { target_ids, payload } => WsInPacketView::Multicast {
                target_ids: target_ids@,
                payload: payload@,
            },
            WsInPacket::Broadcast { payload } => WsInPacketView::Broadcast { payload: payload@ },
        }
    }
}

/// The wire form of a list of identifiers: each identifier's 16 bytes, in order.
pub open spec fn ids_bytes(ids: Seq<u128>) -> Seq<u8>
    decreases ids.len(),
{
    if ids.len() == 0 {
        Seq::empty()
    } else {
        ids_bytes(ids.drop_last()) + id_bytes(ids.last())
    }
}

/// The two big-endian bytes of the target count of a multicast packet. The count is
/// the number of targets cut to 16 bits.
pub open spec fn count_bytes(n: nat) -> Seq<u8> {
    let c = n % 0x10000;
    seq![(c / 0x100) as u8, (c % 0x100) as u8]
}

/// The wire form of a client packet: its opcode, then its fields in order.
pub open spec fn encode_in_packet(p: WsInPacketView) -> Seq<u8> {
    match p {
        WsInPacketView::Unicast { target_id, payload } => seq![IN_OP_UNICAST] + id_bytes(
            target_id,
        ) + payload,
        WsInPacketView::Multicast { target_ids, payload } => seq![IN_OP_MULTICAST] + count_bytes(
            target_ids.len(),
        ) + ids_bytes(target_ids) + payload,
        WsInPacketView::Broadcast { payload } => seq![IN_OP_BROADCAST] + payload,
    }
}

/// The identifiers stored back to back in `body`, `count` of them.
pub open spec fn ids_from_bytes(body: Seq<u8>, count: nat) -> Seq<u128> {
    Seq::new(count, |i: int| id_from_bytes(body.subrange(16 * i, 16 * i + 16)))
}

/// What a byte sequence decodes to as a client packet. Every payload runs to the end of the data.
pub open spec fn decode_in_packet(data: Seq<u8>) -> Result<WsInPacketView, ParseError> {
    if data.len() == 0 {
        Err(ParseError::IncompleteData)
    } else {
        let op = data[0];
        let rest = data.subrange(1, data.len() as int);
        if op == IN_OP_UNICAST {
            if rest.len() < 16 {
                Err(ParseError::IncompleteData)
            } else {
                Ok(
                    WsInPacketView::Unicast {
                        target_id: id_from_bytes(rest.subrange(0, 16)),
                        payload: rest.subrange(16, rest.len() as int),
                    },
                )
            }
        } else if op == IN_OP_MULTICAST {
            if rest.len() < 2 {
                Err(ParseError::IncompleteData)
            } else {
                let count = rest[0] as nat * 0x100 + rest[1] as nat;
                let body = rest.subrange(2, rest.len() as int);
                if body.len() < count * 16 {
                    Err(ParseError::IncompleteData)
                } else {
                    Ok(
                        WsInPacketView::Multicast {
                            target_ids: ids_from_bytes(body, count),
                            payload: body.subrange((count * 16) as int, body.len() as int),
                        },
                    )
                }
            }
        } else if op == IN_OP_BROADCAST {
            Ok(WsInPacketView::Broadcast { payload: rest })
        } else {
            Err(ParseError::InvalidOpCode(op))
        }
    }
}

/// The wire form of a list of identifiers has 16 bytes per identifier, and the `i`-th
/// 16 of them are the wire form of the `i`-th identifier.
pub proof fn lemma_ids_bytes(ids: Seq<u128>)
    ensures
        ids_bytes(ids).len() == 16 * ids.len(),
        forall|i: int|
            0 <= i < ids.len() ==> #[trigger] ids_bytes(ids).subrange(16 * i, 16 * i + 16)
                == id_bytes(ids[i]),
    decreases ids.len(),
{
    if ids.len() > 0 {
        let init = ids.drop_last();
        lemma_ids_bytes(init);
        lemma_id_bytes_roundtrip(ids.last());
        assert forall|i: int| 0 <= i < ids.len() implies #[trigger] ids_bytes(ids).subrange(
            16 * i,
            16 * i + 16,
        ) == id_bytes(ids[i]) by {
            if i < init.len() {
                assert(ids_bytes(ids).subrange(16 * i, 16 * i + 16) =~= ids_bytes(init).subrange(
                    16 * i,
                    16 * i + 16,
                ));
            } else {
                assert(ids_bytes(ids).subrange(16 * i, 16 * i + 16) =~= id_bytes(ids.last()));
            }
        }
    }
}

/// Reading back the wire form of a list of identifiers gives the list.
pub proof fn lemma_ids_from_ids_bytes(ids: Seq<u128>, rest: Seq<u8>)
    ensures
        ids_from_bytes(ids_bytes(ids) + rest, ids.len()) == ids,
{
    lemma_ids_bytes(ids);
    let b = ids_bytes(ids) + rest;
    assert forall|i: int| 0 <= i < ids.len() implies #[trigger] ids_from_bytes(b, ids.len())[i]
        == ids[i] by {
        assert(b.subrange(16 * i, 16 * i + 16) =~= ids_bytes(ids).subrange(16 * i, 16 * i + 16));
        lemma_id_bytes_roundtrip(ids[i]);
    }
    assert(ids_from_bytes(b, ids.len()) =~= ids);
}

/// Writing the identifiers read from the first `16 * count` bytes of `body` gives those bytes.
pub proof fn lemma_ids_bytes_of_ids_from(body: Seq<u8>, count: nat)
    requires
        16 * count <= body.len(),
    ensures
        ids_bytes(ids_from_bytes(body, count)) == body.subrange(0, (16 * count) as int),
    decreases count,
{
    if count > 0 {
        let c1 = (count - 1) as nat;
        lemma_ids_bytes_of_ids_from(body, c1);
        assert(ids_from_bytes(body, count).drop_last() =~= ids_from_bytes(body, c1));
        let last = body.subrange((16 * c1) as int, (16 * c1) as int + 16);
        lemma_id_from_bytes_roundtrip(last);
        assert(body.subrange(0, (16 * count) as int) =~= body.subrange(0, (16 * c1) as int) + last);
    }
}

impl WsInPacket {
    /// The wire form of the packet. The target count of a multicast packet is written as
    /// 16 bits, so it is cut when there are more than 65535 targets.
    pub fn to_bytes(&self) -> (r: Vec<u8>)
        ensures
            r@ == encode_in_packet(self@),
    {
        let mut buf: Vec<u8> = Vec::new();
        match self {
            WsInPacket::Unicast { target_id, payload } => {
                buf.push(IN_OP_UNICAST);
                push_id(&mut buf, *target_id);
                push_all(&mut buf, payload.as_slice());
            },
            WsInPacket::Multicast { target_ids, payload } => {
                buf.push(IN_OP_MULTICAST);
                let count: usize = target_ids.len() % 0x10000;
                buf.push((count / 0x100) as u8);
                buf.push((count % 0x100) as u8);
                let ghost head = buf@;
                assert(head =~= seq![IN_OP_MULTICAST] + count_bytes(target_ids@.len()));
                let mut i: usize = 0;
                while i < target_ids.len()
                    invariant
                        0 <= i <= target_ids@.len(),
                        buf@ == head + ids_bytes(target_ids@.take(i as int)),
                    decreases target_ids@.len() - i,
                {
                    push_id(&mut buf, target_ids[i]);
                    i = i + 1;
                    assert(target_ids@.take(i as int).drop_last() =~= target_ids@.take(i - 1));
                    assert(buf@ =~= head + ids_bytes(target_ids@.take(i as int)));
                }
                assert(target_ids@.take(target_ids@.len() as int) =~= target_ids@);
                push_all(&mut buf, payload.as_slice());
            },
            WsInPacket::Broadcast { payload } => {
                buf.push(IN_OP_BROADCAST);
                push_all(&mut buf, payload.as_slice());
            },
        }
        assert(buf@ =~= encode_in_packet(self@));
        buf
    }

    /// Decodes a client packet; the error names the first thing that is wrong.
    pub fn from_bytes(data: &[u8]) -> (r: Result<WsInPacket, ParseError>)
        ensures
            match r {
                Ok(p) => decode_in_packet(data@) == Ok::<WsInPacketView, ParseError>(p@),
                Err(e) => decode_in_packet(data@) == Err::<WsInPacketView, ParseError>(e),
            },
    {
        if data.len() == 0 {
            return Err(ParseError::IncompleteData);
        }
        let op = data[0];
        let ghost rest = data@.subrange(1, data@.len() as int);
        if op == IN_OP_UNICAST {
            if data.len() - 1 < 16 {
                return Err(ParseError::IncompleteData);
            }
            let target_id = read_id(data, 1);
            assert(data@.subrange(1, 17) =~= rest.subrange(0, 16));
            let payload = copy_from(data, 17);
            assert(payload@ =~= rest.subrange(16, rest.len() as int));
            Ok(WsInPacket::Unicast { target_id, payload })
        } else if op == IN_OP_MULTICAST {
            if data.len() - 1 < 2 {
                return Err(ParseError::IncompleteData);
            }
            let count: usize = (data[1] as usize) * 0x100 + (data[2] as usize);
            let ghost body = rest.subrange(2, rest.len() as int);
            if data.len() - 3 < count * 16 {
                return Err(ParseError::IncompleteData);
            }
            let mut target_ids: Vec<u128> = Vec::new();
            let mut i: usize = 0;
            while i < count
                invariant
                    0 <= i <= count,
                    count <= 0xffff,
                    3 + count * 16 <= data@.len(),
                    body == data@.subrange(3, data@.len() as int),
                    target_ids@ == ids_from_bytes(body, i as nat),
                decreases count - i,
            {
                let id = read_id(data, 3 + i * 16);
                assert(data@.subrange(3 + i * 16, 3 + i * 16 + 16) =~= body.subrange(
                    16 * i,
                    16 * i + 16,
                ));
                target_ids.push(id);
                i = i + 1;
                assert(target_ids@ =~= ids_from_bytes(body, i as nat));
            }
            let payload = copy_from(data, 3 + count * 16);
            assert(payload@ =~= body.subrange(count * 16, body.len() as int));
            Ok(WsInPacket::Multicast { target_ids, payload })
        } else if op == IN_OP_BROADCAST {
            let payload = copy_from(data, 1);
            Ok(WsInPacket::Broadcast { payload })
        } else {
            Err(ParseError::InvalidOpCode(op))
        }
    }
}

/// Decoding the wire form of a client packet gives the packet back, unless it is a
/// multicast packet with more targets than a 16-bit count can hold.
pub proof fn lemma_decode_encode_in_packet(p: WsInPacketView)
    requires
        p matches WsInPacketView::Multicast { target_ids, .. } ==> target_ids.len() <= 0xffff,
    ensures
        decode_in_packet(encode_in_packet(p)) == Ok::<WsInPacketView, ParseError>(p),
{
    let data = encode_in_packet(p);
    let rest = data.subrange(1, data.len() as int);
    match p {
        WsInPacketView::Unicast { target_id, payload } => {
            lemma_id_bytes_roundtrip(target_id);
            assert(rest.subrange(0, 16) =~= id_bytes(target_id));
            assert(rest.subrange(16, rest.len() as int) =~= payload);
        },
        WsInPacketView::Multicast { target_ids, payload } => {
            lemma_ids_bytes(target_ids);
            let n = target_ids.len();
            assert(rest[0] as nat * 0x100 + rest[1] as nat == n);
            let body = rest.subrange(2, rest.len() as int);
            assert(body =~= ids_bytes(target_ids) + payload);
            lemma_ids_from_ids_bytes(target_ids, payload);
            assert(body.subrange((n * 16) as int, body.len() as int) =~= payload);
        },
        WsInPacketView::Broadcast { payload } => {
            assert(rest =~= payload);
        },
    }
}

/// A client packet is exactly the wire form of what it decodes to: decoding loses nothing.
pub proof fn lemma_encode_decode_in_packet(data: Seq<u8>, p: WsInPacketView)
    requires
        decode_in_packet(data) == Ok::<WsInPacketView, ParseError>(p),
    ensures
        encode_in_packet(p) == data,
{
    let rest = data.subrange(1, data.len() as int);
    match p {
        WsInPacketView::Unicast { target_id, payload } => {
            lemma_id_from_bytes_roundtrip(rest.subrange(0, 16));
            assert(data =~= seq![data[0]] + rest.subrange(0, 16) + rest.subrange(
                16,
                rest.len() as int,
            ));
        },
        WsInPacketView::Multicast { target_ids, payload } => {
            let count = rest[0] as nat * 0x100 + rest[1] as nat;
            let body = rest.subrange(2, rest.len() as int);
            lemma_ids_bytes_of_ids_from(body, count);
            assert(count_bytes(count) =~= rest.subrange(0, 2));
            assert(data =~= seq![data[0]] + rest.subrange(0, 2) + body.subrange(0, (16 * count) as int)
                + body.subrange((16 * count) as int, body.len() as int));
        },
        WsInPacketView::Broadcast { payload } => {
            assert(data =~= seq![data[0]] + rest);
        },
    }
}

/// The wire layout of a unicast packet: byte 0 is its opcode, the next 16 bytes are the
/// target's identifier, and the payload starts at byte 17 and runs to the end.
pub proof fn lemma_unicast_wire_layout(target_id: u128, payload: Seq<u8>)
    ensures
        ({
            let w = encode_in_packet(WsInPacketView::Unicast { target_id, payload });
            &&& w.len() == 17 + payload.len()
            &&& w[0] == IN_OP_UNICAST
            &&& w.subrange(1, 17) == id_bytes(target_id)
            &&& w.subrange(17, w.len() as int) == payload
        }),
{
    let w = encode_in_packet(WsInPacketView::Unicast { target_id, payload });
    lemma_id_bytes_roundtrip(target_id);
    assert(w.subrange(1, 17) =~= id_bytes(target_id));
    assert(w.subrange(17, w.len() as int) =~= payload);
}

/// The wire layout of a multicast packet with at most 65535 targets: byte 0 is its
/// opcode, bytes 1 and 2 hold the number of targets (big-endian), then come the targets'
/// identifiers, 16 bytes each and in order, and the payload follows them to the end.
pub proof fn lemma_multicast_wire_layout(target_ids: Seq<u128>, payload: Seq<u8>)
    requires
        target_ids.len() <= 0xffff,
    ensures
        ({
            let w = encode_in_packet(WsInPacketView::Multicast { target_ids, payload });
            let n = target_ids.len();
            &&& w.len() == 3 + 16 * n + payload.len()
            &&& w[0] == IN_OP_MULTICAST
            &&& w[1] as nat * 0x100 + w[2] as nat == n
            &&& forall|i: int|
                0 <= i < n ==> #[trigger] w.subrange(3 + 16 * i, 3 + 16 * i + 16) == id_bytes(
                    target_ids[i],
                )
            &&& w.subrange((3 + 16 * n) as int, w.len() as int) == payload
        }),
{
    let w = encode_in_packet(WsInPacketView::Multicast { target_ids, payload });
    let n = target_ids.len();
    lemma_ids_bytes(target_ids);
    let ib = ids_bytes(target_ids);
    assert(w =~= seq![IN_OP_MULTICAST] + count_bytes(n) + ib + payload);
    assert(w[1] as nat * 0x100 + w[2] as nat == n) by (nonlinear_arith)
        requires
            w[1] == ((n % 0x10000) / 0x100) as u8,
            w[2] == ((n % 0x10000) % 0x100) as u8,
            n <= 0xffff,
    ;
    assert forall|i: int| 0 <= i < n implies #[trigger] w.subrange(3 + 16 * i, 3 + 16 * i + 16)
        == id_bytes(target_ids[i]) by {
        assert(w.subrange(3 + 16 * i, 3 + 16 * i + 16) =~= ib.subrange(16 * i, 16 * i + 16));
    }
    assert(w.subrange((3 + 16 * n) as int, w.len() as int) =~= payload);
}

/// The wire layout of a broadcast packet: its opcode, then the payload to the end.
pub proof fn lemma_broadcast_wire_layout(payload: Seq<u8>)
    ensures
        ({
            let w = encode_in_packet(WsInPacketView::Broadcast { payload });
            &&& w.len() == 1 + payload.len()
            &&& w[0] == IN_OP_BROADCAST
            &&& w.subrange(1, w.len() as int) == payload
        }),
{
    let w = encode_in_packet(WsInPacketView::Broadcast { payload });
    assert(w.subrange(1, w.len() as int) =~= payload);
}

} // verus!

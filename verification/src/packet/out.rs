//! Packets sent by the server to the clients of a room.

use vstd::prelude::*;
use vstd::slice::slice_subrange;
use vstd::string::StringSliceAdditionalSpecFns;
use vstd::utf8::decode_utf8;
use vstd::utf8::encode_utf8;
use vstd::utf8::valid_utf8;
use crate::packet::wire::copy_from;
use crate::packet::wire::id_bytes;
use crate::packet::wire::id_from_bytes;
use crate::packet::wire::lemma_id_bytes_roundtrip;
use crate::packet::wire::push_all;
use crate::packet::wire::push_id;
use crate::packet::wire::read_id;

verus! {

/// Opcode of [`WsPacket::ClientConnected`].
pub const OP_CONNECTED: u8 = 0x0;

/// Opcode of [`WsPacket::ClientDisconnected`].
pub const OP_DISCONNECTED: u8 = 0x1;

/// Opcode of [`WsPacket::Message`].
pub const OP_MESSAGE: u8 = 0x2;

/// Opcode of [`WsPacket::ServerInfo`].
pub const OP_SERVER_INFO: u8 = 0x3;

/// Why a byte sequence is not a packet.
#[derive(Debug, PartialEq, Eq, Structural, Clone, Copy)]
pub enum ParseError {
    /// The first byte names no packet kind.
    InvalidOpCode(u8),
    /// The bytes end before the packet does.
    IncompleteData,
    /// A server notice whose text is not UTF-8.
    InvalidUtf8,
}

/// A packet that the server sends to a client.
#[derive(Debug, Clone, PartialEq, Eq)]
pub enum WsPacket {
    /// A client joined the room.
    ClientConnected { client_id: u128 },
    /// A client left the room.
    ClientDisconnected { client_id: u128 },
    /// A payload relayed from the client `sender_id`.
    Message { sender_id: u128, payload: Vec<u8> },
    /// A notice from the server.
    ServerInfo { message: String },
}

/// The abstract content of a [`WsPacket`].
pub enum WsPacketView {
    ClientConnected { client_id: u128 },
    ClientDisconnected { client_id: u128 },
    Message { sender_id: u128, payload: Seq<u8> },
    ServerInfo { message: Seq<char> },
}

impl View for WsPacket {
    type V = WsPacketView;

    open spec fn view(&self) -> WsPacketView {
        match self {
            WsPacket::ClientConnected { client_id } => WsPacketView::ClientConnected {
                client_id: *client_id,
            },
            WsPacket::ClientDisconnected { client_id } => WsPacketView::ClientDisconnected {
                client_id: *client_id,
            },
            WsPacket::Message { sender_id, payload } => WsPacketView::Message {
                sender_id: *sender_id,
                payload: payload@,
            },
            WsPacket::ServerInfo { message } => WsPacketView::ServerInfo { message: message@ },
        }
    }
}

/// The wire form of a server packet: its opcode, then its fields in order
/// (identifiers as 16 big-endian bytes, payloads verbatim, text as UTF-8).
pub open spec fn encode_packet(p: WsPacketView) -> Seq<u8> {
    match p {
        WsPacketView::ClientConnected { client_id } => seq![OP_CONNECTED] + id_bytes(client_id),
        WsPacketView::ClientDisconnected { client_id } => seq![OP_DISCONNECTED] + id_bytes(
            client_id,
        ),
        WsPacketView::Message { sender_id, payload } => seq![OP_MESSAGE] + id_bytes(sender_id)
            + payload,
        WsPacketView::ServerInfo { message } => seq![OP_SERVER_INFO] + encode_utf8(message),
    }
}

/// What a byte sequence decodes to as a server packet. Bytes after the identifier of a
/// connect or disconnect notice are ignored; a message payload and a notice text run to
/// the end of the data.
pub open spec fn decode_packet(data: Seq<u8>) -> Result<WsPacketView, ParseError> {
    if data.len() == 0 {
        Err(ParseError::IncompleteData)
    } else {
        let op = data[0];
        let rest = data.subrange(1, data.len() as int);
        if op == OP_CONNECTED || op == OP_DISCONNECTED || op == OP_MESSAGE {
            if rest.len() < 16 {
                Err(ParseError::IncompleteData)
            } else {
                let id = id_from_bytes(rest.subrange(0, 16));
                if op == OP_CONNECTED {
                    Ok(WsPacketView::ClientConnected { client_id: id })
                } else if op == OP_DISCONNECTED {
                    Ok(WsPacketView::ClientDisconnected { client_id: id })
                } else {
                    Ok(
                        WsPacketView::Message {
                            sender_id: id,
                            payload: rest.subrange(16, rest.len() as int),
                        },
                    )
                }
            }
        } else if op == OP_SERVER_INFO {
            if valid_utf8(rest) {
                Ok(WsPacketView::ServerInfo { message: decode_utf8(rest) })
            } else {
                Err(ParseError::InvalidUtf8)
            }
        } else {
            Err(ParseError::InvalidOpCode(op))
        }
    }
}

/// `std::str::from_utf8`: the text whose UTF-8 encoding is `v`, or `None` when `v` is not UTF-8.
#[verifier::external_body]
fn str_from_utf8(v: &[u8]) -> (r: Option<&str>)
    ensures
        r is Some <==> valid_utf8(v@),
        r matches Some(s) ==> s.spec_bytes() == v@,
{
    match std::str::from_utf8(v) {
        Ok(s) => Some(s),
        Err(_) => None,
    }
}

impl WsPacket {
    /// The wire form of the packet.
    pub fn to_bytes(&self) -> (r: Vec<u8>)
        ensures
            r@ == encode_packet(self@),
            self@ matches WsPacketView::Message { sender_id, payload } ==> {
                &&& r@.len() == 17 + payload.len()
                &&& r@[0] == OP_MESSAGE
                &&& r@.subrange(1, 17) == id_bytes(sender_id)
                &&& r@.subrange(17, r@.len() as int) == payload
            },
    {
        let mut buf: Vec<u8> = Vec::new();
        match self {
            WsPacket::ClientConnected { client_id } => {
                buf.push(OP_CONNECTED);
                push_id(&mut buf, *client_id);
            },
            WsPacket::ClientDisconnected { client_id } => {
                buf.push(OP_DISCONNECTED);
                push_id(&mut buf, *client_id);
            },
            WsPacket::Message { sender_id, payload } => {
                buf.push(OP_MESSAGE);
                push_id(&mut buf, *sender_id);
                push_all(&mut buf, payload.as_slice());
            },
            WsPacket::ServerInfo { message } => {
                buf.push(OP_SERVER_INFO);
                push_all(&mut buf, message.as_str().as_bytes());
            },
        }
        assert(buf@ =~= encode_packet(self@));
        proof {
            if let WsPacketView::Message { sender_id, payload } = self@ {
                lemma_message_wire_layout(sender_id, payload);
            }
        }
        buf
    }

    /// Decodes a server packet; the error names the first thing that is wrong.
    pub fn from_bytes(data: &[u8]) -> (r: Result<WsPacket, ParseError>)
        ensures
            match r {
                Ok(p) => decode_packet(data@) == Ok::<WsPacketView, ParseError>(p@),
                Err(e) => decode_packet(data@) == Err::<WsPacketView, ParseError>(e),
            },
            data@.len() >= 17 && data@[0] == OP_MESSAGE ==> (r matches Ok(
                WsPacket::Message { sender_id, payload },
            ) && sender_id == id_from_bytes(data@.subrange(1, 17)) && payload@ == data@.subrange(
                17,
                data@.len() as int,
            )),
    {
        if data.len() == 0 {
            return Err(ParseError::IncompleteData);
        }
        let op = data[0];
        let ghost rest = data@.subrange(1, data@.len() as int);
        if op == OP_CONNECTED || op == OP_DISCONNECTED || op == OP_MESSAGE {
            if data.len() - 1 < 16 {
                return Err(ParseError::IncompleteData);
            }
            let id = read_id(data, 1);
            assert(data@.subrange(1, 17) =~= rest.subrange(0, 16));
            if op == OP_CONNECTED {
                Ok(WsPacket::ClientConnected { client_id: id })
            } else if op == OP_DISCONNECTED {
                Ok(WsPacket::ClientDisconnected { client_id: id })
            } else {
                let payload = copy_from(data, 17);
                assert(payload@ =~= rest.subrange(16, rest.len() as int));
                assert(payload@ =~= data@.subrange(17, data@.len() as int));
                Ok(WsPacket::Message { sender_id: id, payload })
            }
        } else if op == OP_SERVER_INFO {
            let tail = slice_subrange(data, 1, data.len());
            match str_from_utf8(tail) {
                Some(text) => {
                    let message = text.to_owned();
                    proof {
                        vstd::utf8::encode_utf8_decode_utf8(text@);
                    }
                    Ok(WsPacket::ServerInfo { message })
                },
                None => Err(ParseError::InvalidUtf8),
            }
        } else {
            Err(ParseError::InvalidOpCode(op))
        }
    }
}

/// Decoding the wire form of any server packet gives the packet back.
pub proof fn lemma_decode_encode_packet(p: WsPacketView)
    ensures
        decode_packet(encode_packet(p)) == Ok::<WsPacketView, ParseError>(p),
{
    let data = encode_packet(p);
    let rest = data.subrange(1, data.len() as int);
    match p {
        WsPacketView::ClientConnected { client_id } => {
            lemma_id_bytes_roundtrip(client_id);
            assert(rest.subrange(0, 16) =~= id_bytes(client_id));
        },
        WsPacketView::ClientDisconnected { client_id } => {
            lemma_id_bytes_roundtrip(client_id);
            assert(rest.subrange(0, 16) =~= id_bytes(client_id));
        },
        WsPacketView::Message { sender_id, payload } => {
            lemma_id_bytes_roundtrip(sender_id);
            assert(rest.subrange(0, 16) =~= id_bytes(sender_id));
            assert(rest.subrange(16, rest.len() as int) =~= payload);
        },
        WsPacketView::ServerInfo { message } => {
            assert(rest =~= encode_utf8(message));
            vstd::utf8::encode_utf8_valid_utf8(message);
            vstd::utf8::encode_utf8_decode_utf8(message);
        },
    }
}

/// A server packet's wire form is what it was decoded from, up to the bytes that decoding
/// ignores: all of them for a message or a notice, the first 17 for a connect or
/// disconnect notice.
pub proof fn lemma_encode_decode_packet(data: Seq<u8>, p: WsPacketView)
    requires
        decode_packet(data) == Ok::<WsPacketView, ParseError>(p),
    ensures
        encode_packet(p) == data.subrange(0, encode_packet(p).len() as int),
        (p is Message || p is ServerInfo) ==> encode_packet(p) == data,
{
    let rest = data.subrange(1, data.len() as int);
    match p {
        WsPacketView::ServerInfo { message } => {
            vstd::utf8::decode_utf8_encode_utf8(rest);
            assert(data =~= seq![data[0]] + rest);
        },
        WsPacketView::Message { sender_id, payload } => {
            crate::packet::wire::lemma_id_from_bytes_roundtrip(rest.subrange(0, 16));
            assert(data =~= seq![data[0]] + rest.subrange(0, 16) + rest.subrange(
                16,
                rest.len() as int,
            ));
        },
        _ => {
            crate::packet::wire::lemma_id_from_bytes_roundtrip(rest.subrange(0, 16));
            assert(data.subrange(0, 17) =~= seq![data[0]] + rest.subrange(0, 16));
        },
    }
}

/// The wire layout of a relayed message: byte 0 is the message opcode, the next 16 bytes
/// are the sender's identifier (its big-endian UUID bytes), and the payload starts at
/// byte 17 and runs to the end.
pub proof fn lemma_message_wire_layout(sender_id: u128, payload: Seq<u8>)
    ensures
        ({
            let w = encode_packet(WsPacketView::Message { sender_id, payload });
            &&& w.len() == 17 + payload.len()
            &&& w[0] == OP_MESSAGE
            &&& w.subrange(1, 17) == id_bytes(sender_id)
            &&& w.subrange(17, w.len() as int) == payload
        }),
{
    let w = encode_packet(WsPacketView::Message { sender_id, payload });
    lemma_id_bytes_roundtrip(sender_id);
    assert(w.subrange(1, 17) =~= id_bytes(sender_id));
    assert(w.subrange(17, w.len() as int) =~= payload);
}

/// Reading a message follows the same layout: data that starts with the message opcode and
/// holds at least the 16 identifier bytes is the message from the identifier in bytes 1 to
/// 16, carrying every byte from byte 17 on as its payload.
pub proof fn lemma_message_read_layout(data: Seq<u8>)
    requires
        data.len() >= 17,
        data[0] == OP_MESSAGE,
    ensures
        decode_packet(data) == Ok::<WsPacketView, ParseError>(
            WsPacketView::Message {
                sender_id: id_from_bytes(data.subrange(1, 17)),
                payload: data.subrange(17, data.len() as int),
            },
        ),
{
    let rest = data.subrange(1, data.len() as int);
    assert(rest.subrange(0, 16) =~= data.subrange(1, 17));
    assert(rest.subrange(16, rest.len() as int) =~= data.subrange(17, data.len() as int));
}

} // verus!

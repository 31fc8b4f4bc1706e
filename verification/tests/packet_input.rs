use daiana::packet::input::WsInPacket;
use daiana::packet::input::IN_OP_BROADCAST;
use daiana::packet::input::IN_OP_MULTICAST;
use daiana::packet::input::IN_OP_UNICAST;
use daiana::packet::out::ParseError;
use uuid::Uuid;

fn id() -> u128 {
    Uuid::new_v4().as_u128()
}

fn id_bytes(id: u128) -> [u8; 16] {
    *Uuid::from_u128(id).as_bytes()
}

#[test]
fn test_unicast_parsing() {
    let target_id = id();
    let mut buf: Vec<u8> = Vec::new();
    buf.push(IN_OP_UNICAST);
    buf.extend_from_slice(&id_bytes(target_id));
    buf.extend_from_slice(b"secret message");

    let packet = WsInPacket::from_bytes(&buf).expect("Failed to parse unicast");
    assert_eq!(
        packet,
        WsInPacket::Unicast { target_id, payload: b"secret message".to_vec() }
    );
}

#[test]
fn test_multicast_parsing() {
    let id1 = id();
    let id2 = id();
    let mut buf: Vec<u8> = Vec::new();
    buf.push(IN_OP_MULTICAST);
    buf.extend_from_slice(&2u16.to_be_bytes());
    buf.extend_from_slice(&id_bytes(id1));
    buf.extend_from_slice(&id_bytes(id2));
    buf.extend_from_slice(b"group message");

    let packet = WsInPacket::from_bytes(&buf).expect("Failed to parse multicast");
    assert_eq!(
        packet,
        WsInPacket::Multicast { target_ids: vec![id1, id2], payload: b"group message".to_vec() }
    );
}

#[test]
fn test_broadcast_parsing() {
    let mut buf: Vec<u8> = Vec::new();
    buf.push(IN_OP_BROADCAST);
    buf.extend_from_slice(b"broadcast message to everyone");

    let packet = WsInPacket::from_bytes(&buf).expect("Failed to parse broadcast");
    assert_eq!(
        packet,
        WsInPacket::Broadcast { payload: b"broadcast message to everyone".to_vec() }
    );
}

#[test]
fn input_test_invalid_opcode() {
    let buf: &[u8] = &[0x99, 1, 2, 3];
    let err = WsInPacket::from_bytes(buf).unwrap_err();
    assert_eq!(err, ParseError::InvalidOpCode(0x99));
}

#[test]
fn test_empty_payload() {
    let err = WsInPacket::from_bytes(&[]).unwrap_err();
    assert_eq!(err, ParseError::IncompleteData);
}

#[test]
fn test_unicast_truncated_uuid() {
    let buf: &[u8] = &[IN_OP_UNICAST, 1, 2, 3, 4];
    let err = WsInPacket::from_bytes(buf).unwrap_err();
    assert_eq!(err, ParseError::IncompleteData);
}

#[test]
fn test_multicast_truncated_count() {
    let buf: &[u8] = &[IN_OP_MULTICAST, 1];
    let err = WsInPacket::from_bytes(buf).unwrap_err();
    assert_eq!(err, ParseError::IncompleteData);
}

#[test]
fn test_multicast_truncated_targets() {
    let mut buf: Vec<u8> = Vec::new();
    buf.push(IN_OP_MULTICAST);
    buf.extend_from_slice(&2u16.to_be_bytes());
    buf.extend_from_slice(&id_bytes(id()));

    let err = WsInPacket::from_bytes(&buf).unwrap_err();
    assert_eq!(err, ParseError::IncompleteData);
}

#[test]
fn test_to_bytes_roundtrip() {
    let unicast = WsInPacket::Unicast { target_id: id(), payload: b"unicast payload".to_vec() };
    assert_eq!(WsInPacket::from_bytes(&unicast.to_bytes()).unwrap(), unicast);

    let multicast = WsInPacket::Multicast {
        target_ids: vec![id(), id()],
        payload: b"multicast payload".to_vec(),
    };
    assert_eq!(WsInPacket::from_bytes(&multicast.to_bytes()).unwrap(), multicast);

    let broadcast = WsInPacket::Broadcast { payload: b"broadcast payload".to_vec() };
    assert_eq!(WsInPacket::from_bytes(&broadcast.to_bytes()).unwrap(), broadcast);
}

#[test]
fn unicast_wire_layout_is_opcode_then_big_endian_id_then_payload() {
    let target_id = 0x0102030405060708090a0b0c0d0e0f10u128;
    let packet = WsInPacket::Unicast { target_id, payload: vec![0xaa, 0xbb] };
    assert_eq!(
        packet.to_bytes(),
        vec![0, 1, 2, 3, 4, 5, 6, 7, 8, 9, 10, 11, 12, 13, 14, 15, 16, 0xaa, 0xbb]
    );
}

#[test]
fn multicast_count_is_two_big_endian_bytes() {
    let packet = WsInPacket::Multicast { target_ids: vec![7u128], payload: vec![] };
    let bytes = packet.to_bytes();
    assert_eq!(bytes.len(), 3 + 16);
    assert_eq!(&bytes[..3], &[IN_OP_MULTICAST, 0, 1]);
    assert_eq!(bytes[18], 7);
}

#[test]
fn multicast_with_zero_targets_has_whole_rest_as_payload() {
    let buf: &[u8] = &[IN_OP_MULTICAST, 0, 0, 9, 8];
    assert_eq!(
        WsInPacket::from_bytes(buf).unwrap(),
        WsInPacket::Multicast { target_ids: vec![], payload: vec![9, 8] }
    );
}

#[test]
fn empty_broadcast_roundtrips() {
    let packet = WsInPacket::Broadcast { payload: vec![] };
    assert_eq!(packet.to_bytes(), vec![IN_OP_BROADCAST]);
    assert_eq!(WsInPacket::from_bytes(&packet.to_bytes()).unwrap(), packet);
}

#[test]
fn decoded_client_packet_reencodes_to_the_same_bytes() {
    let buf: Vec<u8> = vec![IN_OP_MULTICAST, 0, 1, 1, 2, 3, 4, 5, 6, 7, 8, 9, 10, 11, 12, 13, 14, 15, 16, 42];
    let packet = WsInPacket::from_bytes(&buf).unwrap();
    assert_eq!(packet.to_bytes(), buf);
}

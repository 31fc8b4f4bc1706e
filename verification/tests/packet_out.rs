use daiana::packet::out::ParseError;
use daiana::packet::out::WsPacket;
use daiana::packet::out::OP_CONNECTED;
use daiana::packet::out::OP_DISCONNECTED;
use daiana::packet::out::OP_MESSAGE;
use daiana::packet::out::OP_SERVER_INFO;
use uuid::Uuid;

fn id() -> u128 {
    Uuid::new_v4().as_u128()
}

#[test]
fn test_client_connected_roundtrip() {
    let client_id = id();
    let packet = WsPacket::ClientConnected { client_id };
    let bytes = packet.to_bytes();
    assert_eq!(bytes.len(), 17);
    assert_eq!(bytes[0], OP_CONNECTED);

    let parsed = WsPacket::from_bytes(&bytes).expect("Failed to parse packet");
    assert_eq!(parsed, packet);
}

#[test]
fn test_client_disconnected_roundtrip() {
    let client_id = id();
    let packet = WsPacket::ClientDisconnected { client_id };
    let bytes = packet.to_bytes();
    assert_eq!(bytes.len(), 17);
    assert_eq!(bytes[0], OP_DISCONNECTED);

    let parsed = WsPacket::from_bytes(&bytes).expect("Failed to parse packet");
    assert_eq!(parsed, packet);
}

#[test]
fn test_message_roundtrip() {
    let sender_id = id();
    let payload = b"hello world payload".to_vec();
    let packet = WsPacket::Message { sender_id, payload: payload.clone() };
    let bytes = packet.to_bytes();
    assert_eq!(bytes[0], OP_MESSAGE);

    let parsed = WsPacket::from_bytes(&bytes).expect("Failed to parse message packet");
    assert_eq!(parsed, packet);
}

#[test]
fn test_server_info_roundtrip() {
    let message = "Welcome to the room!".to_string();
    let packet = WsPacket::ServerInfo { message: message.clone() };
    let bytes = packet.to_bytes();
    assert_eq!(bytes[0], OP_SERVER_INFO);

    let parsed = WsPacket::from_bytes(&bytes).expect("Failed to parse server info");
    assert_eq!(parsed, packet);
}

#[test]
fn out_test_invalid_opcode() {
    let data: &[u8] = &[0xFF, 0x01, 0x02];
    let err = WsPacket::from_bytes(data).unwrap_err();
    assert_eq!(err, ParseError::InvalidOpCode(0xFF));
}

#[test]
fn test_empty_data() {
    let err = WsPacket::from_bytes(&[]).unwrap_err();
    assert_eq!(err, ParseError::IncompleteData);
}

#[test]
fn test_truncated_uuid() {
    let data: &[u8] = &[OP_CONNECTED, 1, 2, 3];
    let err = WsPacket::from_bytes(data).unwrap_err();
    assert_eq!(err, ParseError::IncompleteData);
}

#[test]
fn test_invalid_utf8_server_info() {
    let data: &[u8] = &[OP_SERVER_INFO, 0xFF, 0xFE];
    let err = WsPacket::from_bytes(data).unwrap_err();
    assert_eq!(err, ParseError::InvalidUtf8);
}

#[test]
fn identifier_bytes_are_the_uuid_bytes() {
    let uuid = Uuid::new_v4();
    let bytes = WsPacket::ClientConnected { client_id: uuid.as_u128() }.to_bytes();
    assert_eq!(&bytes[1..], uuid.as_bytes());
}

#[test]
fn connected_notice_ignores_trailing_bytes() {
    let mut data: Vec<u8> = vec![OP_DISCONNECTED];
    data.extend_from_slice(&[0u8; 15]);
    data.push(5);
    data.extend_from_slice(b"extra");
    assert_eq!(
        WsPacket::from_bytes(&data).unwrap(),
        WsPacket::ClientDisconnected { client_id: 5 }
    );
}

#[test]
fn server_info_with_non_ascii_text_roundtrips() {
    let packet = WsPacket::ServerInfo { message: "salut \u{1f338} \u{e9}t\u{e9}".to_string() };
    let bytes = packet.to_bytes();
    assert_eq!(&bytes[1..], "salut \u{1f338} \u{e9}t\u{e9}".as_bytes());
    assert_eq!(WsPacket::from_bytes(&bytes).unwrap(), packet);
}

#[test]
fn empty_server_info_is_valid() {
    assert_eq!(
        WsPacket::from_bytes(&[OP_SERVER_INFO]).unwrap(),
        WsPacket::ServerInfo { message: String::new() }
    );
}

#[test]
fn message_without_payload_roundtrips() {
    let packet = WsPacket::Message { sender_id: 1, payload: vec![] };
    assert_eq!(packet.to_bytes().len(), 17);
    assert_eq!(WsPacket::from_bytes(&packet.to_bytes()).unwrap(), packet);
}

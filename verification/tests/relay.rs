use daiana::channel::ChannelManager;
use daiana::channel::Client;
use daiana::packet::helper::broadcast_recipients;
use daiana::packet::helper::disconnect_client;
use daiana::packet::helper::kick_packet;
use daiana::packet::helper::multicast_recipients;
use daiana::packet::helper::server_info_packet;
use daiana::packet::helper::sync_packets;
use daiana::packet::input::WsInPacket;
use daiana::packet::out::ParseError;
use daiana::packet::out::WsPacket;
use daiana::service::room::count_packet;
use daiana::service::room::parse_room_id;
use daiana::service::room::route_binary;
use daiana::service::room::Delivery;
use daiana::service::room::PacketLimits;
use daiana::util::error::DaianaError;

fn clients(ids: &[u128]) -> Vec<Client<u8>> {
    ids.iter().enumerate().map(|(i, id)| Client::new(*id, i as u8)).collect()
}

fn ids_of(v: &[Client<u8>]) -> Vec<u128> {
    v.iter().map(|c| c.id).collect()
}

#[test]
fn broadcast_skips_only_the_excluded_client() {
    let room = clients(&[1, 2, 3]);
    assert_eq!(ids_of(&broadcast_recipients(&room, Some(2))), vec![1, 3]);
    assert_eq!(ids_of(&broadcast_recipients(&room, None)), vec![1, 2, 3]);
    assert_eq!(ids_of(&broadcast_recipients(&room, Some(9))), vec![1, 2, 3]);
}

#[test]
fn multicast_reaches_listed_clients_in_room_order() {
    let room = clients(&[1, 2, 3, 4]);
    assert_eq!(ids_of(&multicast_recipients(&room, &[4, 2, 7])), vec![2, 4]);
    assert!(multicast_recipients(&room, &[]).is_empty());
}

#[test]
fn recipients_keep_their_sessions() {
    let room = clients(&[1, 2, 3]);
    let sessions: Vec<u8> = broadcast_recipients(&room, Some(1)).iter().map(|c| c.session).collect();
    assert_eq!(sessions, vec![1, 2]);
}

#[test]
fn new_client_learns_of_every_other_client() {
    let room = clients(&[1, 2, 3]);
    assert_eq!(
        sync_packets(&room, 2),
        vec![
            WsPacket::ClientConnected { client_id: 1 },
            WsPacket::ClientConnected { client_id: 3 },
        ]
    );
}

#[test]
fn kick_notice_names_the_reason() {
    assert_eq!(
        kick_packet("spam"),
        WsPacket::ServerInfo { message: "Kicked: spam".to_string() }
    );
    assert_eq!(
        server_info_packet("hello"),
        WsPacket::ServerInfo { message: "hello".to_string() }
    );
}

#[test]
fn disconnect_removes_client_and_announces_it() {
    let mut manager: ChannelManager<u8> = ChannelManager::new(None);
    manager.create_channel_at(1, 0);
    manager.insert_client(1, Client::new(5, 0)).unwrap();
    manager.insert_client(1, Client::new(6, 0)).unwrap();
    assert_eq!(
        disconnect_client(&mut manager, 1, 5),
        Some(WsPacket::ClientDisconnected { client_id: 5 })
    );
    assert_eq!(manager.client_exists(1, 5), Ok(false));
    assert_eq!(disconnect_client(&mut manager, 1, 5), None);
    assert_eq!(disconnect_client(&mut manager, 2, 6), None);
    assert_eq!(manager.client_exists(1, 6), Ok(true));
}

#[test]
fn unicast_is_relayed_as_message_from_sender() {
    let packet = WsInPacket::Unicast { target_id: 9, payload: b"hi".to_vec() };
    match route_binary(3, &packet.to_bytes(), 0) {
        Delivery::ToClient { target_id, packet } => {
            assert_eq!(target_id, 9);
            assert_eq!(packet, WsPacket::Message { sender_id: 3, payload: b"hi".to_vec() });
        }
        _ => panic!("unicast not routed to its target"),
    }
}

#[test]
fn multicast_and_broadcast_are_routed() {
    let packet = WsInPacket::Multicast { target_ids: vec![4, 5], payload: vec![1] };
    match route_binary(3, &packet.to_bytes(), 100) {
        Delivery::ToClients { target_ids, packet } => {
            assert_eq!(target_ids, vec![4, 5]);
            assert_eq!(packet, WsPacket::Message { sender_id: 3, payload: vec![1] });
        }
        _ => panic!("multicast not routed"),
    }
    let packet = WsInPacket::Broadcast { payload: vec![2] };
    match route_binary(3, &packet.to_bytes(), 100) {
        Delivery::ToRoom { exclude, packet } => {
            assert_eq!(exclude, 3);
            assert_eq!(packet, WsPacket::Message { sender_id: 3, payload: vec![2] });
        }
        _ => panic!("broadcast not routed"),
    }
}

#[test]
fn oversized_and_invalid_packets_are_dropped() {
    assert!(matches!(route_binary(1, &[2, 1, 2, 3], 3), Delivery::Oversized));
    assert!(matches!(route_binary(1, &[2, 1, 2], 3), Delivery::ToRoom { .. }));
    assert!(matches!(route_binary(1, &[7], 0), Delivery::Invalid(ParseError::InvalidOpCode(7))));
    assert!(matches!(route_binary(1, &[], 0), Delivery::Invalid(ParseError::IncompleteData)));
}

#[test]
fn packet_rate_is_limited_per_second() {
    let mut count = 0u32;
    for _ in 0..3 {
        let step = count_packet(count, 0, 3);
        assert!(step.admitted);
        count = step.packet_count;
    }
    let step = count_packet(count, 0, 3);
    assert!(!step.admitted);
    assert_eq!(step.packet_count, 4);
    let step = count_packet(step.packet_count, 1, 3);
    assert!(step.restart_window);
    assert!(step.admitted);
    assert_eq!(step.packet_count, 1);
}

#[test]
fn zero_rate_limit_admits_everything() {
    let step = count_packet(u32::MAX, 0, 0);
    assert!(step.admitted);
    assert_eq!(step.packet_count, u32::MAX);
}

#[test]
fn default_limits() {
    let limits = PacketLimits::default();
    assert_eq!(limits.max_packets_per_sec, 100);
    assert_eq!(limits.max_packet_size_bytes, 65536);
}

#[test]
fn room_ids_are_parsed_from_uuid_text() {
    assert_eq!(
        parse_room_id("a1a2a3a4-b1b2-c1c2-d1d2-d3d4d5d6d7d8"),
        Ok(0xa1a2a3a4b1b2c1c2d1d2d3d4d5d6d7d8)
    );
    assert_eq!(parse_room_id("invalid-uuid"), Err(DaianaError::InvalidRoomId));
}

#[test]
fn error_status_codes_and_messages() {
    assert_eq!(DaianaError::InvalidRoomId.status_code(), 404);
    assert_eq!(DaianaError::MaximumClientsReached.status_code(), 409);
    assert_eq!(DaianaError::Timeout.status_code(), 504);
    assert_eq!(DaianaError::InternalError.status_code(), 500);
    assert_eq!(DaianaError::Websocket.status_code(), 400);
    assert_eq!(DaianaError::InvalidArgument.status_code(), 400);
    assert_eq!(DaianaError::InvalidRoomId.message(), "room not found or invalid");
    assert_eq!(DaianaError::MaximumClientsReached.message(), "maximum clients on a room reached");
}

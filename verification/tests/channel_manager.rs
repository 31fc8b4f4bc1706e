use daiana::channel::ChannelManager;
use daiana::channel::Client;
use daiana::util::error::DaianaError;
use uuid::Uuid;

fn new_manager() -> ChannelManager<()> {
    ChannelManager::new(None)
}

#[test]
fn test_create_and_check_channel() {
    let mut manager = new_manager();
    let room_id = manager.create_channel();

    assert!(manager.channel_exists(room_id));
    assert!(!manager.channel_exists(Uuid::new_v4().as_u128()));
}

#[test]
fn test_channel_active_status() {
    let mut manager = new_manager();
    let room_id = manager.create_channel();

    assert!(manager.mark_channel_as_active(room_id).is_ok());
    assert!(manager.mark_channel_as_not_active(room_id).is_ok());

    let fake_id = Uuid::new_v4().as_u128();
    assert!(manager.mark_channel_as_active(fake_id).is_err());
    assert!(manager.mark_channel_as_not_active(fake_id).is_err());
}

#[test]
fn test_operations_on_nonexistent_room() {
    let mut manager = new_manager();
    let fake_id = Uuid::new_v4().as_u128();
    let client_id = Uuid::new_v4().as_u128();

    assert!(matches!(manager.get_clients(fake_id), Err(DaianaError::InvalidRoomId)));
    assert!(matches!(manager.get_client(fake_id, client_id), Err(DaianaError::InvalidRoomId)));
    assert!(matches!(manager.client_exists(fake_id, client_id), Err(DaianaError::InvalidRoomId)));
    assert!(matches!(manager.remove_client(fake_id, client_id), Err(DaianaError::InvalidRoomId)));
    assert!(matches!(manager.clear_clients(fake_id), Err(DaianaError::InvalidRoomId)));
}

#[test]
fn default_room_limit_is_five() {
    let manager = new_manager();
    assert_eq!(manager.max_clients_on_room(), 5);
}

#[test]
fn room_limit_is_read_from_setting() {
    let manager: ChannelManager<()> = ChannelManager::new(Some("12"));
    assert_eq!(manager.max_clients_on_room(), 12);
    let manager: ChannelManager<()> = ChannelManager::new(Some("+7"));
    assert_eq!(manager.max_clients_on_room(), 7);
    let manager: ChannelManager<()> = ChannelManager::new(Some("seven"));
    assert_eq!(manager.max_clients_on_room(), 5);
    let manager: ChannelManager<()> = ChannelManager::new(Some("70000"));
    assert_eq!(manager.max_clients_on_room(), 5);
}

#[test]
fn full_room_refuses_clients() {
    let mut manager: ChannelManager<()> = ChannelManager::new(Some("2"));
    let room = manager.create_channel();
    assert!(manager.insert_client(room, Client::new(1, ())).is_ok());
    assert!(manager.insert_client(room, Client::new(2, ())).is_ok());
    assert_eq!(
        manager.insert_client(room, Client::new(3, ())),
        Err(DaianaError::MaximumClientsReached)
    );
    assert_eq!(manager.client_exists(room, 3), Ok(false));
    assert_eq!(manager.get_clients(room).unwrap().len(), 2);
}

#[test]
fn insert_into_missing_room_fails() {
    let mut manager = new_manager();
    assert_eq!(manager.insert_client(9, Client::new(1, ())), Err(DaianaError::InvalidRoomId));
}

#[test]
fn joined_client_is_found_and_leaves() {
    let mut manager = new_manager();
    let room = manager.create_channel();
    manager.insert_client(room, Client::new(10, ())).unwrap();
    manager.insert_client(room, Client::new(11, ())).unwrap();
    assert_eq!(manager.client_exists(room, 10), Ok(true));
    assert_eq!(manager.get_client(room, 11).unwrap().map(|c| c.id), Some(11));
    manager.remove_client(room, 10).unwrap();
    assert_eq!(manager.client_exists(room, 10), Ok(false));
    let ids: Vec<u128> = manager.get_clients(room).unwrap().iter().map(|c| c.id).collect();
    assert_eq!(ids, vec![11]);
}

#[test]
fn clients_are_listed_in_joining_order() {
    let mut manager = new_manager();
    let room = manager.create_channel();
    for id in [5u128, 3, 8] {
        manager.insert_client(room, Client::new(id, ())).unwrap();
    }
    let ids: Vec<u128> = manager.get_clients(room).unwrap().iter().map(|c| c.id).collect();
    assert_eq!(ids, vec![5, 3, 8]);
}

#[test]
fn cleanup_removes_only_rooms_empty_for_long_enough() {
    let mut manager = new_manager();
    manager.create_channel_at(1, 100);
    manager.create_channel_at(2, 195);
    manager.create_channel_at(3, 100);
    manager.insert_client(3, Client::new(7, ())).unwrap();
    manager.clean_empty_channels_at(30, 200);
    assert!(!manager.channel_exists(1));
    assert!(manager.channel_exists(2));
    assert!(manager.channel_exists(3));
}

#[test]
fn cleanup_keeps_room_empty_for_exactly_the_timeout() {
    let mut manager = new_manager();
    manager.create_channel_at(1, 100);
    manager.clean_empty_channels_at(30, 130);
    assert!(manager.channel_exists(1));
    manager.clean_empty_channels_at(30, 131);
    assert!(!manager.channel_exists(1));
}

#[test]
fn leaving_an_already_empty_room_keeps_its_timer() {
    let mut manager = new_manager();
    manager.create_channel_at(1, 100);
    manager.remove_client_at(1, 4, 190).unwrap();
    manager.clean_empty_channels_at(30, 131);
    assert!(!manager.channel_exists(1));
}

#[test]
fn room_emptied_at_a_later_time_is_kept() {
    let mut manager = new_manager();
    manager.create_channel_at(1, 100);
    manager.insert_client(1, Client::new(4, ())).unwrap();
    manager.remove_client_at(1, 4, 190).unwrap();
    manager.clean_empty_channels_at(30, 200);
    assert!(manager.channel_exists(1));
    manager.clean_empty_channels_at(30, 220);
    assert!(manager.channel_exists(1));
    manager.clean_empty_channels_at(30, 221);
    assert!(!manager.channel_exists(1));
}

#[test]
fn clock_behind_room_time_counts_as_no_idle_time() {
    let mut manager = new_manager();
    manager.create_channel_at(1, 500);
    manager.clean_empty_channels_at(1, 100);
    assert!(manager.channel_exists(1));
    manager.clean_empty_channels_at(0, 500);
    assert!(manager.channel_exists(1));
    manager.clean_empty_channels_at(0, 501);
    assert!(!manager.channel_exists(1));
}

#[test]
fn clear_clients_empties_room() {
    let mut manager = new_manager();
    manager.create_channel_at(1, 0);
    manager.insert_client(1, Client::new(4, ())).unwrap();
    manager.clear_clients_at(1, 50).unwrap();
    assert!(manager.get_clients(1).unwrap().is_empty());
    manager.clean_empty_channels_at(10, 55);
    assert!(manager.channel_exists(1));
    manager.clean_empty_channels_at(10, 60);
    assert!(manager.channel_exists(1));
    manager.clean_empty_channels_at(10, 61);
    assert!(!manager.channel_exists(1));
}

#[test]
fn stats_count_rooms_in_use_and_their_clients() {
    let mut manager = new_manager();
    manager.create_channel_at(1, 0);
    manager.create_channel_at(2, 0);
    manager.create_channel_at(3, 0);
    manager.insert_client(1, Client::new(10, ())).unwrap();
    manager.insert_client(1, Client::new(11, ())).unwrap();
    manager.insert_client(3, Client::new(12, ())).unwrap();
    assert_eq!(manager.stats(), (2, 3));
}

#[test]
fn get_client_returns_first_match() {
    let mut manager: ChannelManager<u8> = ChannelManager::new(None);
    manager.create_channel_at(1, 0);
    manager.insert_client(1, Client::new(4, 1)).unwrap();
    manager.insert_client(1, Client::new(4, 2)).unwrap();
    assert_eq!(manager.get_client(1, 4).unwrap().map(|c| c.session), Some(1));
    assert!(manager.get_client(1, 5).unwrap().is_none());
}

#[test]
fn remove_client_takes_every_client_with_that_id() {
    let mut manager: ChannelManager<u8> = ChannelManager::new(None);
    manager.create_channel_at(1, 0);
    manager.insert_client(1, Client::new(4, 1)).unwrap();
    manager.insert_client(1, Client::new(5, 2)).unwrap();
    manager.insert_client(1, Client::new(4, 3)).unwrap();
    manager.remove_client_at(1, 4, 9).unwrap();
    let sessions: Vec<u8> = manager.get_clients(1).unwrap().iter().map(|c| c.session).collect();
    assert_eq!(sessions, vec![2]);
}

#[test]
fn created_room_id_is_version_4() {
    let mut manager = new_manager();
    let room_id = manager.create_channel();
    assert_eq!(room_id & 0xf000_c000_0000_0000_0000, 0x4000_8000_0000_0000_0000);
    assert!(!manager.channel_exists(7));
}

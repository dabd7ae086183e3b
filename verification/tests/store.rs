use flowerchat::database::{
    Database, PublicRoomInfo, PublicRoomMessageInfo, SpaceInfo, StoreError, UserInfo,
};
use flowerchat::ledger::PublicKey;

fn hash(byte: u8) -> flowerchat::ledger::Hash {
    flowerchat::ledger::Hash([byte; 32])
}

fn space(title: &str, root: u8) -> SpaceInfo {
    SpaceInfo { title: String::from(title), root_block: hash(root), author: PublicKey([root; 33]) }
}

fn room(space_id: i64, name: &str) -> PublicRoomInfo {
    PublicRoomInfo {
        space_id,
        name: String::from(name),
        author_id: 1,
        block_hash: hash(1),
        transaction_hash: hash(2),
    }
}

#[test]
fn spaces_are_unique_by_root_block() {
    let mut database = Database::new();
    assert_eq!(database.space_count(), 0);
    assert_eq!(database.find_space(&hash(1)), None);
    assert_eq!(database.create_space(space("one", 1)), Ok(1));
    assert_eq!(database.create_space(space("two", 2)), Ok(2));
    assert_eq!(database.create_space(space("again", 1)), Err(StoreError::Constraint));
    assert_eq!(database.space_count(), 2);
    assert_eq!(database.find_space(&hash(2)), Some(2));
    assert_eq!(database.find_space(&hash(3)), None);
    assert_eq!(database.space(2), Some(&space("two", 2)));
    assert_eq!(database.space(3), None);
    assert_eq!(database.space(0), None);
    assert_eq!(database.space(-1), None);
}

#[test]
fn space_title_is_updated() {
    let mut database = Database::new();
    database.create_space(space("one", 1)).unwrap();
    database.create_space(space("two", 2)).unwrap();
    database.update_title(2, "renamed");
    database.update_title(5, "nobody");
    assert_eq!(database.space(1), Some(&space("one", 1)));
    assert_eq!(database.space(2), Some(&space("renamed", 2)));
    assert_eq!(database.find_space(&hash(2)), Some(2));
    assert_eq!(database.space_count(), 2);
}

#[test]
fn spaces_cursor_is_forward_only() {
    let mut database = Database::new();
    let mut cursor = database.spaces();
    assert_eq!(cursor.next(&database), None);
    database.create_space(space("one", 1)).unwrap();
    database.create_space(space("two", 2)).unwrap();
    assert_eq!(cursor.next(&database), Some(1));
    assert_eq!(cursor.next(&database), Some(2));
    assert_eq!(cursor.next(&database), None);
    assert_eq!(cursor.current, 2);
    database.create_space(space("three", 3)).unwrap();
    assert_eq!(cursor.next(&database), Some(3));
    assert_eq!(database.next_space(-5), Some(1));
    assert_eq!(database.next_space(i64::MAX), None);
}

#[test]
fn rooms_cursor_stays_in_its_space() {
    let mut database = Database::new();
    database.create_public_room(room(1, "a")).unwrap();
    database.create_public_room(room(2, "a")).unwrap();
    database.create_public_room(room(1, "b")).unwrap();
    database.create_public_room(room(2, "b")).unwrap();
    let mut cursor = database.public_rooms(1);
    assert_eq!(cursor.next(&database), Some(1));
    assert_eq!(cursor.next(&database), Some(3));
    assert_eq!(cursor.next(&database), None);
    let mut cursor = database.public_rooms(2);
    assert_eq!(cursor.next(&database), Some(2));
    assert_eq!(cursor.next(&database), Some(4));
    assert_eq!(cursor.next(&database), None);
    assert_eq!(database.public_rooms(3).next(&database), None);
    assert_eq!(database.next_public_room(2, 2), Some(4));
    assert_eq!(database.next_public_room(2, -1), Some(2));
    assert_eq!(database.next_public_room(2, i64::MAX), None);
}

#[test]
fn shards_are_kept_once_per_space() {
    let mut database = Database::new();
    database.add_shard(1, "a:1");
    database.add_shard(2, "b:1");
    database.add_shard(1, "c:1");
    database.add_shard(1, "a:1");
    assert_eq!(database.shards(1), vec![String::from("a:1"), String::from("c:1")]);
    assert_eq!(database.shards(2), vec![String::from("b:1")]);
    assert!(database.shards(3).is_empty());
    assert!(database.has_shard(2, "b:1"));
    assert!(!database.has_shard(2, "a:1"));
}

#[test]
fn nicknames_are_unique() {
    let mut database = Database::new();
    let user = |key: u8| UserInfo { space_id: 1, public_key: PublicKey([key; 33]), nickname: None };
    database.create_user(user(1)).unwrap();
    database.create_user(user(2)).unwrap();
    assert_eq!(database.update_nickname(1, "alice"), Ok(()));
    assert_eq!(database.update_nickname(1, "alice"), Ok(()));
    assert_eq!(database.update_nickname(2, "alice"), Err(StoreError::Constraint));
    assert_eq!(database.update_nickname(2, "bob"), Ok(()));
    assert_eq!(database.update_nickname(3, "alice"), Ok(()));
    assert_eq!(database.user(1).unwrap().nickname, Some(String::from("alice")));
    assert_eq!(database.user(2).unwrap().nickname, Some(String::from("bob")));
    assert_eq!(database.user(2).unwrap().public_key, PublicKey([2; 33]));
    assert!(database.nickname_taken_by_other(1, "bob"));
    assert!(!database.nickname_taken_by_other(2, "bob"));
    assert_eq!(database.user_count(), 2);
}

#[test]
fn room_names_are_unique_within_a_space() {
    let mut database = Database::new();
    database.create_public_room(room(1, "a")).unwrap();
    database.create_public_room(room(1, "b")).unwrap();
    database.create_public_room(room(2, "c")).unwrap();
    assert_eq!(database.update_name(2, "a"), Err(StoreError::Constraint));
    assert_eq!(database.update_name(2, "b"), Ok(()));
    assert_eq!(database.update_name(2, "c"), Ok(()));
    assert_eq!(database.update_name(9, "a"), Ok(()));
    assert_eq!(database.public_room(2), Some(&room(1, "c")));
    assert_eq!(database.find_public_room(1, "c"), Some(2));
    assert_eq!(database.find_public_room(1, "b"), None);
    assert_eq!(database.find_public_room(2, "c"), Some(3));
    assert!(database.room_name_taken_by_other(2, 1, "a"));
    assert!(!database.room_name_taken_by_other(1, 1, "a"));
}

#[test]
fn messages_get_ascending_ids() {
    let mut database = Database::new();
    let message = |content: &str| PublicRoomMessageInfo {
        room_id: 1,
        user_id: 1,
        block_hash: hash(1),
        transaction_hash: hash(2),
        timestamp: 5,
        content: String::from(content),
    };
    assert_eq!(database.create_public_message(message("a")), Ok(1));
    assert_eq!(database.create_public_message(message("a")), Ok(2));
    assert_eq!(database.public_message(2), Some(&message("a")));
    assert_eq!(database.public_message_count(), 2);
}

#[test]
fn space_has_an_emoji_and_a_short_name() {
    let info = space("one", 1);
    let mut bytes = vec![1u8; 32];
    bytes.extend_from_slice(&[1u8; 33]);
    assert_eq!(info.slice(), bytes);
    assert_eq!(info.emoji(), flowerchat::utils::bytes_to_emoji(&bytes));
    assert_eq!(info.shortname(), flowerchat::utils::bytes_to_shortname(&bytes));
    assert_eq!(info.shortname().len(), 4);
}

use flowerchat::client::{
    apply_event, find_or_create_user, handle_block, handle_transaction, project_event,
    read_events, start,
    Block, HandlerEvent, RunError, Transaction, Update,
};
use flowerchat::database::{
    Database, PublicRoomInfo, PublicRoomMessageInfo, StoreError, UserInfo,
};
use flowerchat::events::rooms::create_public::CreatePublicRoomEvent;
use flowerchat::events::rooms::public_message::PublicRoomMessageEvent;
use flowerchat::events::{Events, EventsError};
use flowerchat::ledger::PublicKey;

fn hash(byte: u8) -> flowerchat::ledger::Hash {
    flowerchat::ledger::Hash([byte; 32])
}

const SPACE: i64 = 1;

fn author() -> PublicKey {
    PublicKey([3; 33])
}

fn event(transaction: u8, event: Events) -> HandlerEvent {
    HandlerEvent {
        block_hash: hash(1),
        block_public_key: PublicKey([2; 33]),
        block_timestamp: 1_700_000_000,
        transaction_hash: hash(transaction),
        transaction_public_key: author(),
        event,
    }
}

fn create(name: &str) -> Events {
    Events::CreatePublicRoom(CreatePublicRoomEvent::new(name).unwrap())
}

fn message(room: &str, content: &str) -> Events {
    Events::PublicRoomMessage(PublicRoomMessageEvent::new(room, content).unwrap())
}

fn payload(event: &Events) -> Vec<u8> {
    let mut buf = Vec::new();
    event.serialize(&mut buf).unwrap();
    buf
}

fn transaction(id: u8, is_valid: bool, data: Vec<u8>) -> Transaction {
    Transaction { is_valid, hash: hash(id), public_key: author(), data }
}

fn block(transactions: Vec<Transaction>) -> Block {
    Block {
        hash: hash(1),
        public_key: PublicKey([2; 33]),
        timestamp: 1_700_000_000,
        transactions,
    }
}

fn counts(database: &Database) -> (usize, usize, usize, usize) {
    (
        database.user_count(),
        database.public_room_count(),
        database.public_message_count(),
        database.handled_count(),
    )
}

#[test]
fn end_to_end_room_and_message() {
    let created = create("lounge");
    let bytes = payload(&created);
    assert_eq!(Events::deserialize(&bytes), Ok(created.clone()));

    let mut database = Database::new();
    let mut done = false;
    let mut updates = Vec::new();
    project_event(&mut database, SPACE, &mut done, &event(10, created), &mut updates).unwrap();

    let room_id = database.find_public_room(SPACE, "lounge").unwrap();
    let room = database.public_room(room_id).unwrap().clone();
    assert_eq!(room.name, "lounge");
    assert_eq!(room.space_id, SPACE);
    assert_eq!(room.block_hash, hash(1));
    assert_eq!(room.transaction_hash, hash(10));
    let user = database.user(room.author_id).unwrap().clone();
    assert_eq!(user.public_key, author());
    assert_eq!(user.nickname, None);
    assert_eq!(database.find_user(SPACE, &author()), Some(room.author_id));

    project_event(&mut database, SPACE, &mut done, &event(11, message("lounge", "hi")), &mut updates)
        .unwrap();
    assert_eq!(counts(&database), (1, 1, 1, 2));
    let row = database.public_message(1).unwrap();
    assert_eq!(
        row,
        &PublicRoomMessageInfo {
            room_id,
            user_id: room.author_id,
            block_hash: hash(1),
            transaction_hash: hash(11),
            timestamp: 1_700_000_000,
            content: String::from("hi"),
        }
    );
    assert_eq!(
        updates,
        vec![
            Update::VerificationDone,
            Update::NewEvent {
                block_hash: hash(1),
                transaction_hash: hash(10),
                block_timestamp: 1_700_000_000,
            },
            Update::NewEvent {
                block_hash: hash(1),
                transaction_hash: hash(11),
                block_timestamp: 1_700_000_000,
            },
        ]
    );
    assert!(done);
}

#[test]
fn projecting_twice_is_projecting_once() {
    let mut database = Database::new();
    let mut done = true;
    let mut updates = Vec::new();
    let first = event(10, create("lounge"));
    let second = event(11, message("lounge", "hi"));
    project_event(&mut database, SPACE, &mut done, &first, &mut updates).unwrap();
    project_event(&mut database, SPACE, &mut done, &second, &mut updates).unwrap();
    let before = counts(&database);
    assert_eq!(before, (1, 1, 1, 2));
    let reported = updates.len();
    project_event(&mut database, SPACE, &mut done, &first, &mut updates).unwrap();
    project_event(&mut database, SPACE, &mut done, &second, &mut updates).unwrap();
    assert_eq!(counts(&database), before);
    assert_eq!(updates.len(), reported);
    assert!(database.is_handled(SPACE, &hash(1), &hash(10)));
    assert!(!database.is_handled(2, &hash(1), &hash(10)));
}

#[test]
fn message_to_missing_room_is_dropped() {
    let mut database = Database::new();
    let mut done = false;
    let mut updates = Vec::new();
    let lost = event(10, message("nowhere", "hi"));
    assert_eq!(project_event(&mut database, SPACE, &mut done, &lost, &mut updates), Ok(()));
    assert_eq!(counts(&database), (1, 0, 0, 0));
    assert_eq!(updates, vec![Update::VerificationDone]);
    assert_eq!(project_event(&mut database, SPACE, &mut done, &lost, &mut updates), Ok(()));
    assert_eq!(counts(&database), (1, 0, 0, 0));
    project_event(&mut database, SPACE, &mut done, &event(11, create("lounge")), &mut updates)
        .unwrap();
    assert_eq!(counts(&database), (1, 1, 0, 1));
    assert_eq!(apply_event(&mut database, SPACE, &lost), Ok(false));
}

#[test]
fn duplicate_room_is_an_error_of_the_store() {
    let mut database = Database::new();
    let mut done = false;
    let mut updates = Vec::new();
    project_event(&mut database, SPACE, &mut done, &event(10, create("lounge")), &mut updates)
        .unwrap();
    let again = event(11, create("lounge"));
    assert_eq!(
        project_event(&mut database, SPACE, &mut done, &again, &mut updates),
        Err(StoreError::Constraint)
    );
    assert_eq!(counts(&database), (1, 1, 0, 1));
    assert!(!database.is_handled(SPACE, &hash(1), &hash(11)));
    assert_eq!(apply_event(&mut database, 2, &again), Ok(true));
    assert_eq!(counts(&database), (2, 2, 0, 2));
}

#[test]
fn block_is_projected_in_order() {
    let mut database = Database::new();
    let mut updates = Vec::new();
    let mut done = start(false, &mut updates);
    assert!(updates.is_empty());
    let transactions = vec![
        transaction(10, true, payload(&create("lounge"))),
        transaction(11, false, vec![0xFF]),
        transaction(12, true, payload(&message("lounge", "hi"))),
        transaction(13, true, payload(&message("nowhere", "hi"))),
    ];
    let block = block(transactions);
    assert_eq!(handle_block(&mut database, SPACE, &mut done, &block, &mut updates), Ok(()));
    assert_eq!(counts(&database), (1, 1, 1, 2));
    assert_eq!(updates.len(), 3);

    let mut again = Vec::new();
    let mut done = start(false, &mut again);
    assert_eq!(handle_block(&mut database, SPACE, &mut done, &block, &mut again), Ok(()));
    assert_eq!(counts(&database), (1, 1, 1, 2));
    assert_eq!(
        again,
        vec![
            Update::Verification {
                block_hash: hash(1),
                transaction_hash: hash(10),
                block_timestamp: 1_700_000_000,
            },
            Update::Verification {
                block_hash: hash(1),
                transaction_hash: hash(12),
                block_timestamp: 1_700_000_000,
            },
            Update::VerificationDone,
        ]
    );
    assert!(done);
}

#[test]
fn decode_failure_stops_the_block() {
    let mut database = Database::new();
    let mut updates = Vec::new();
    let mut done = start(true, &mut updates);
    assert_eq!(updates, vec![Update::VerificationDone]);
    let block = block(vec![
        transaction(10, true, payload(&create("lounge"))),
        transaction(11, true, vec![0xFF]),
        transaction(12, true, payload(&create("random"))),
    ]);
    assert_eq!(
        handle_block(&mut database, SPACE, &mut done, &block, &mut updates),
        Err(RunError::Decode(EventsError::UnknownEventId(0xFF)))
    );
    assert_eq!(counts(&database), (1, 1, 0, 1));
    assert_eq!(updates.len(), 2);
}

#[test]
fn handled_transactions_are_not_decoded() {
    let mut database = Database::new();
    database.mark_handled(SPACE, hash(1), hash(11));
    database.mark_handled(SPACE, hash(1), hash(11));
    assert_eq!(database.handled_count(), 1);
    let mut done = false;
    let mut updates = Vec::new();
    let block = block(Vec::new());
    let broken = transaction(11, true, vec![0xFF]);
    assert_eq!(
        handle_transaction(&mut database, SPACE, &mut done, &block, &broken, &mut updates),
        Ok(())
    );
    assert_eq!(updates.len(), 1);
    let fresh = transaction(12, true, vec![0xFF]);
    assert_eq!(
        handle_transaction(&mut database, SPACE, &mut done, &block, &fresh, &mut updates),
        Err(RunError::Decode(EventsError::UnknownEventId(0xFF)))
    );
}

#[test]
fn store_enforces_uniqueness() {
    let mut database = Database::new();
    let alice = UserInfo { space_id: SPACE, public_key: author(), nickname: Some(String::from("alice")) };
    assert_eq!(database.create_user(alice.clone()), Ok(1));
    assert_eq!(database.create_user(alice.clone()), Err(StoreError::Constraint));
    let other = UserInfo { space_id: 2, public_key: author(), nickname: Some(String::from("alice")) };
    assert_eq!(database.create_user(other), Err(StoreError::Constraint));
    let other = UserInfo { space_id: 2, public_key: author(), nickname: None };
    assert_eq!(database.create_user(other), Ok(2));
    assert!(database.nickname_taken("alice"));
    assert!(!database.nickname_taken("bob"));
    assert_eq!(find_or_create_user(&mut database, SPACE, author()), Ok(1));
    assert_eq!(find_or_create_user(&mut database, SPACE, PublicKey([9; 33])), Ok(3));
    assert_eq!(database.user(0), None);
    assert_eq!(database.user(4), None);
    assert_eq!(database.user(1), Some(&alice));

    let room = PublicRoomInfo {
        space_id: SPACE,
        name: String::from("lounge"),
        author_id: 1,
        block_hash: hash(1),
        transaction_hash: hash(2),
    };
    assert_eq!(database.create_public_room(room.clone()), Ok(1));
    assert_eq!(database.create_public_room(room.clone()), Err(StoreError::Constraint));
    assert_eq!(database.find_public_room(SPACE, "lounge"), Some(1));
    assert_eq!(database.find_public_room(2, "lounge"), None);
    assert_eq!(database.public_room(1), Some(&room));
    assert_eq!(database.public_room(2), None);
    assert_eq!(database.public_message(1), None);
}

#[test]
fn events_of_a_block_are_read_in_order() {
    let block = block(vec![
        transaction(10, true, payload(&create("lounge"))),
        transaction(11, false, vec![0xFF]),
        transaction(12, true, payload(&message("lounge", "hi"))),
    ]);
    let events = read_events(&block).unwrap();
    assert_eq!(events, vec![event(10, create("lounge")), event(12, message("lounge", "hi"))]);
    assert_eq!(read_events(&self::block(Vec::new())), Ok(Vec::new()));
    let broken = self::block(vec![
        transaction(10, true, payload(&create("lounge"))),
        transaction(11, true, vec![]),
    ]);
    assert_eq!(read_events(&broken), Err(EventsError::Io));
}

#[test]
fn applying_again_inserts_nothing_twice() {
    let mut database = Database::new();
    let created = event(10, create("lounge"));
    let posted = event(11, message("lounge", "hi"));
    assert_eq!(apply_event(&mut database, SPACE, &created), Ok(true));
    assert_eq!(apply_event(&mut database, SPACE, &posted), Ok(true));
    assert_eq!(counts(&database), (1, 1, 1, 2));
    assert_eq!(apply_event(&mut database, SPACE, &created), Ok(true));
    assert_eq!(apply_event(&mut database, SPACE, &posted), Ok(true));
    assert_eq!(counts(&database), (1, 1, 1, 2));
    assert!(database.room_created_by(1, &hash(1), &hash(10)));
    assert!(!database.room_created_by(1, &hash(1), &hash(11)));
    assert!(!database.room_created_by(2, &hash(1), &hash(10)));
    assert!(database.has_public_message(1, &hash(1), &hash(11)));
    assert!(!database.has_public_message(1, &hash(1), &hash(10)));
    let other = event(12, message("lounge", "hi"));
    assert_eq!(apply_event(&mut database, SPACE, &other), Ok(true));
    assert_eq!(counts(&database), (1, 1, 2, 3));
}

use flowerchat::client::HandlerEvent;
use flowerchat::events::rooms::create_public::CreatePublicRoomEvent;
use flowerchat::events::rooms::public_message::PublicRoomMessageEvent;
use flowerchat::events::Events;
use flowerchat::ledger::PublicKey;
use flowerchat::validator::{handle_event, ValidatorState};

fn hash(byte: u8) -> flowerchat::ledger::Hash {
    flowerchat::ledger::Hash([byte; 32])
}

fn event(transaction: u8, event: Events) -> HandlerEvent {
    HandlerEvent {
        block_hash: hash(1),
        block_public_key: PublicKey([2; 33]),
        block_timestamp: 1_700_000_000,
        transaction_hash: hash(transaction),
        transaction_public_key: PublicKey([3; 33]),
        event,
    }
}

fn create(name: &str) -> Events {
    Events::CreatePublicRoom(CreatePublicRoomEvent::new(name).unwrap())
}

fn message(room: &str, content: &str) -> Events {
    Events::PublicRoomMessage(PublicRoomMessageEvent::new(room, content).unwrap())
}

#[test]
fn first_create_wins() {
    let mut state = ValidatorState::new();
    assert!(handle_event(&mut state, &event(10, create("general"))));
    assert!(state.has_room("general"));
    assert!(!handle_event(&mut state, &event(11, create("general"))));
    assert!(handle_event(&mut state, &event(12, create("random"))));
    assert!(state.has_room("random"));
    assert!(!state.has_room("lounge"));
}

#[test]
fn messages_are_always_accepted() {
    let mut state = ValidatorState::new();
    assert!(handle_event(&mut state, &event(10, message("nowhere", "hi"))));
    assert!(!state.has_room("nowhere"));
    assert!(handle_event(&mut state, &event(11, create("general"))));
    assert!(handle_event(&mut state, &event(12, message("general", "hi"))));
    assert!(handle_event(&mut state, &event(12, message("general", "hi"))));
}

#[test]
fn handled_transactions_are_refused() {
    let mut state = ValidatorState::new();
    assert!(!state.is_handled(&hash(10)));
    assert!(state.mark_handled(hash(10)));
    assert!(!state.mark_handled(hash(10)));
    assert!(state.is_handled(&hash(10)));
    assert!(!handle_event(&mut state, &event(10, create("general"))));
    assert!(!state.has_room("general"));
    assert!(!handle_event(&mut state, &event(10, message("general", "hi"))));
    assert!(handle_event(&mut state, &event(11, create("general"))));
}

#[test]
fn validator_does_not_mark_transactions() {
    let mut state = ValidatorState::new();
    assert!(handle_event(&mut state, &event(10, create("general"))));
    assert!(!state.is_handled(&hash(10)));
}

#[test]
fn claimed_rooms_survive_a_clone() {
    let mut state = ValidatorState::new();
    assert!(state.claim_room("general"));
    assert!(!state.claim_room("general"));
    state.mark_handled(hash(7));
    let copy = state.clone();
    assert_eq!(copy, state);
    assert_ne!(copy, ValidatorState::default());
    assert_eq!(ValidatorState::new(), ValidatorState::default());
    assert_eq!(flowerchat::ledger::Hash::default(), hash(0));
    assert!(copy.has_room("general"));
    assert!(copy.is_handled(&hash(7)));
}

use flowerchat::plain_events::{Event, EventError};

fn hash(byte: u8) -> flowerchat::ledger::Hash {
    flowerchat::ledger::Hash([byte; 32])
}

fn message(room_name: &str, text: &str) -> Event {
    Event::PublicRoomMessage {
        reply_message_block: hash(1),
        reply_message_transaction: hash(2),
        room_name: String::from(room_name),
        text: String::from(text),
    }
}

#[test]
fn plain_room_creation() {
    let event = Event::PublicRoomCreate(String::from("lounge"));
    let bytes = event.to_bytes();
    assert_eq!(bytes, b"\0lounge");
    assert_eq!(Event::from_bytes(&bytes), Ok(event));
}

#[test]
fn plain_room_message() {
    let event = message("lounge", "hello, world");
    let bytes = event.to_bytes();
    assert_eq!(bytes[0], 1);
    assert_eq!(&bytes[1..33], &[1u8; 32]);
    assert_eq!(&bytes[33..65], &[2u8; 32]);
    assert_eq!(bytes[65], 6);
    assert_eq!(&bytes[66..], b"loungehello, world");
    assert_eq!(Event::from_bytes(&bytes), Ok(event));
    let empty = message("r", "");
    assert_eq!(Event::from_bytes(&empty.to_bytes()), Ok(empty));
    let long = message(&"n".repeat(255), "t");
    assert_eq!(Event::from_bytes(&long.to_bytes()), Ok(long));
}

#[test]
fn plain_events_that_are_refused() {
    assert_eq!(Event::from_bytes(&[0]), Err(EventError::EmptyRoomName));
    assert_eq!(Event::from_bytes(&[1]), Err(EventError::MessageTooShort));
    assert_eq!(Event::from_bytes(&[1; 65]), Err(EventError::MessageTooShort));
    assert_eq!(Event::from_bytes(&[2, 1, 2]), Err(EventError::UnknownFormat(2)));
    assert_eq!(Event::from_bytes(&[0xFF]), Err(EventError::UnknownFormat(0xFF)));
    assert_eq!(
        Event::from_bytes(&Event::PublicRoomCreate(String::new()).to_bytes()),
        Err(EventError::EmptyRoomName)
    );
}

#[test]
fn plain_events_with_ill_formed_text() {
    assert_eq!(
        Event::from_bytes(&[0, b'a', 0xFF]),
        Ok(Event::PublicRoomCreate(String::from("a\u{FFFD}")))
    );
    let mut bytes = vec![1u8];
    bytes.extend_from_slice(&[1; 32]);
    bytes.extend_from_slice(&[2; 32]);
    bytes.push(0);
    bytes.extend_from_slice(b"text");
    assert_eq!(Event::from_bytes(&bytes), Ok(message("", "text")));
}

#[test]
fn plain_events_that_cannot_be_read() {
    assert_eq!(Event::try_from_bytes(&[]), None);
    let mut bytes = vec![1u8; 66];
    bytes[65] = 3;
    bytes.extend_from_slice(b"ab");
    assert_eq!(Event::try_from_bytes(&bytes), None);
    bytes.push(b'c');
    assert_eq!(
        Event::try_from_bytes(&bytes),
        Some(Ok(Event::PublicRoomMessage {
            reply_message_block: hash(1),
            reply_message_transaction: hash(1),
            room_name: String::from("abc"),
            text: String::new(),
        }))
    );
    assert_eq!(Event::try_from_bytes(&[1]), Some(Err(EventError::MessageTooShort)));
    assert_eq!(Event::try_from_bytes(&[7]), Some(Err(EventError::UnknownFormat(7))));
}

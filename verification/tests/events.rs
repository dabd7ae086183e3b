use flowerchat::events::rooms::create_public::{CreatePublicRoomEvent, CreatePublicRoomEventError};
use flowerchat::events::rooms::public_message::{
    PublicRoomMessageEvent, PublicRoomMessageEventError,
};
use flowerchat::events::wire::{put_long_field, put_short_field, take_long_field, take_short_field};
use flowerchat::events::{Events, EventsError};
use flowerchat::types::room_message::RoomMessage;
use flowerchat::types::room_name::RoomName;

fn compressed(text: &str) -> Vec<u8> {
    flowerchat::compress::compress(text.as_bytes()).unwrap()
}

#[test]
fn create_public_test_serialize() -> Result<(), CreatePublicRoomEventError> {
    let event = CreatePublicRoomEvent::new("hello-world")
        .expect("failed to create public room event");

    let mut buf = Vec::new();

    event.serialize(&mut buf)?;

    assert_eq!(CreatePublicRoomEvent::deserialize(buf.as_slice())?, event);

    Ok(())
}

#[test]
fn public_message_test_serialize() -> Result<(), PublicRoomMessageEventError> {
    let event = PublicRoomMessageEvent::new("some-channel", "Hello, World!")
        .expect("failed to create public message event");

    let mut buf = Vec::new();

    event.serialize(&mut buf)?;

    assert_eq!(PublicRoomMessageEvent::deserialize(buf.as_slice())?, event);

    Ok(())
}

#[test]
fn compression_changes_and_restores_bytes() {
    let data = b"hello-world".to_vec();
    let packed = flowerchat::compress::compress(&data).unwrap();
    assert_ne!(packed, data);
    assert_eq!(&packed[..4], &[0x28, 0xb5, 0x2f, 0xfd]);
    assert_eq!(flowerchat::compress::decompress(&packed), Some(data));
    assert_eq!(flowerchat::compress::decompress(&[1, 2, 3]), None);
}

#[test]
fn create_public_wire_layout() {
    let event = CreatePublicRoomEvent::new("lounge").unwrap();
    let mut buf = vec![0xAA];
    event.serialize(&mut buf).unwrap();
    let blob = compressed("lounge");
    assert_eq!(buf[0], 0xAA);
    assert_eq!(buf[1] as usize, blob.len());
    assert_eq!(&buf[2..], blob.as_slice());
}

#[test]
fn public_message_wire_layout() {
    let event = PublicRoomMessageEvent::new("lounge", "hi").unwrap();
    let mut buf = Vec::new();
    event.serialize(&mut buf).unwrap();
    let name = compressed("lounge");
    let content = compressed("hi");
    let mut expected = vec![name.len() as u8];
    expected.extend_from_slice(&name);
    expected.extend_from_slice(&(content.len() as u16).to_le_bytes());
    expected.extend_from_slice(&content);
    assert_eq!(buf, expected);
}

#[test]
fn events_round_trip_both_variants() {
    let create = Events::CreatePublicRoom(CreatePublicRoomEvent::new("lounge").unwrap());
    let mut buf = Vec::new();
    create.serialize(&mut buf).unwrap();
    assert_eq!(buf[0], 0);
    assert_eq!(Events::deserialize(&buf), Ok(create));

    let message = Events::PublicRoomMessage(PublicRoomMessageEvent::new("lounge", "hi").unwrap());
    let mut buf = Vec::new();
    message.serialize(&mut buf).unwrap();
    assert_eq!(buf[0], 1);
    assert_eq!(Events::deserialize(&buf), Ok(message));
}

#[test]
fn events_round_trip_ignores_trailing_bytes() {
    let message = Events::PublicRoomMessage(
        PublicRoomMessageEvent::new("abc123-def456", "caf\u{e9} \u{1F600}").unwrap(),
    );
    let mut buf = Vec::new();
    message.serialize(&mut buf).unwrap();
    buf.extend_from_slice(&[1, 2, 3]);
    assert_eq!(Events::deserialize(&buf), Ok(message));
}

#[test]
fn unknown_event_id_is_refused() {
    assert_eq!(Events::deserialize(&[0xFF]), Err(EventsError::UnknownEventId(0xFF)));
    assert_eq!(Events::deserialize(&[2, 0, 0]), Err(EventsError::UnknownEventId(2)));
}

#[test]
fn short_input_is_an_io_error() {
    assert_eq!(Events::deserialize(&[]), Err(EventsError::Io));
    assert_eq!(
        Events::deserialize(&[0]),
        Err(EventsError::CreatePublicRoom(CreatePublicRoomEventError::Io))
    );
    assert_eq!(
        Events::deserialize(&[0, 5, 1, 2]),
        Err(EventsError::CreatePublicRoom(CreatePublicRoomEventError::Io))
    );
    assert_eq!(
        Events::deserialize(&[1]),
        Err(EventsError::PublicRoomMessage(PublicRoomMessageEventError::Io))
    );
    let mut buf = vec![1u8];
    put_short_field(&mut buf, &compressed("lounge"));
    buf.push(7);
    assert_eq!(
        Events::deserialize(&buf),
        Err(EventsError::PublicRoomMessage(PublicRoomMessageEventError::Io))
    );
}

#[test]
fn corrupt_blob_is_a_zstd_error() {
    assert_eq!(
        CreatePublicRoomEvent::deserialize(&[3, 1, 2, 3]),
        Err(CreatePublicRoomEventError::Zstd)
    );
    assert_eq!(
        PublicRoomMessageEvent::deserialize(&[3, 1, 2, 3]),
        Err(PublicRoomMessageEventError::Zstd)
    );
    let mut buf = Vec::new();
    put_short_field(&mut buf, &compressed("lounge"));
    put_long_field(&mut buf, &[9, 9, 9]);
    assert_eq!(
        PublicRoomMessageEvent::deserialize(&buf),
        Err(PublicRoomMessageEventError::Zstd)
    );
}

#[test]
fn invalid_texts_are_refused_with_the_text() {
    let mut buf = Vec::new();
    put_short_field(&mut buf, &compressed("hello, world!"));
    assert_eq!(
        CreatePublicRoomEvent::deserialize(&buf),
        Err(CreatePublicRoomEventError::InvalidName(String::from("hello, world!")))
    );
    assert_eq!(
        PublicRoomMessageEvent::deserialize(&buf),
        Err(PublicRoomMessageEventError::InvalidRoomName(String::from("hello, world!")))
    );

    let mut buf = Vec::new();
    put_short_field(&mut buf, &compressed("lounge"));
    put_long_field(&mut buf, &compressed("a\0b"));
    assert_eq!(
        PublicRoomMessageEvent::deserialize(&buf),
        Err(PublicRoomMessageEventError::InvalidContent(String::from("a\0b")))
    );
}

#[test]
fn empty_blob_is_a_zstd_error() {
    assert_eq!(
        CreatePublicRoomEvent::deserialize(&[0]),
        Err(CreatePublicRoomEventError::Zstd)
    );
}

#[test]
fn decoded_texts_are_trimmed() {
    let mut buf = Vec::new();
    put_short_field(&mut buf, &compressed(" lounge "));
    put_long_field(&mut buf, &compressed("  hi  "));
    let event = PublicRoomMessageEvent::deserialize(&buf).unwrap();
    assert_eq!(event.room_name(), "lounge");
    assert_eq!(event.content(), "hi");
}

#[test]
fn ill_formed_utf8_is_replaced() {
    let blob = flowerchat::compress::compress(&[b'a', 0xFF, b'b']).unwrap();
    let mut buf = Vec::new();
    put_short_field(&mut buf, &compressed("lounge"));
    put_long_field(&mut buf, &blob);
    let event = PublicRoomMessageEvent::deserialize(&buf).unwrap();
    assert_eq!(event.content(), "a\u{FFFD}b");
}

#[test]
fn from_text_validates() {
    assert_eq!(
        CreatePublicRoomEvent::from_text(String::from(" a-1 ")).unwrap().name(),
        "a-1"
    );
    assert_eq!(
        CreatePublicRoomEvent::from_text(String::from("-a")),
        Err(CreatePublicRoomEventError::InvalidName(String::from("-a")))
    );
    let room = RoomName::new("lounge").unwrap();
    assert_eq!(
        PublicRoomMessageEvent::from_text(room.clone(), String::from("\0")),
        Err(PublicRoomMessageEventError::InvalidContent(String::from("\0")))
    );
    let event = PublicRoomMessageEvent::from_text(room, String::from("hi")).unwrap();
    assert_eq!(event.content(), "hi");
}

#[test]
fn constructors_agree() {
    let a = PublicRoomMessageEvent::new(" lounge ", " hi ").unwrap();
    let b = PublicRoomMessageEvent::new_from(
        RoomName::new("lounge").unwrap(),
        RoomMessage::new("hi").unwrap(),
    );
    assert_eq!(a, b);
    assert!(PublicRoomMessageEvent::new("lounge", "").is_none());
    assert!(PublicRoomMessageEvent::new("", "hi").is_none());
    let c = CreatePublicRoomEvent::from(RoomName::new("lounge").unwrap());
    assert_eq!(Some(c), CreatePublicRoomEvent::new("lounge"));
    assert_eq!(
        Events::from(CreatePublicRoomEvent::new("a").unwrap()),
        Events::CreatePublicRoom(CreatePublicRoomEvent::new("a").unwrap())
    );
    assert_eq!(Events::from(a.clone()), Events::PublicRoomMessage(a));
    assert_eq!(String::from(RoomName::new(" lounge ").unwrap()), "lounge");
    assert_eq!(String::from(RoomMessage::new(" hi ").unwrap()), "hi");
}

#[test]
fn fields_are_length_prefixed() {
    let mut buf = vec![9u8];
    put_short_field(&mut buf, &[1, 2, 3]);
    assert_eq!(buf, vec![9, 3, 1, 2, 3]);
    let mut long = Vec::new();
    let blob = vec![7u8; 300];
    put_long_field(&mut long, &blob);
    assert_eq!(&long[..2], &[44, 1]);
    assert_eq!(&long[2..], blob.as_slice());

    let (blob, rest) = take_short_field(&[2, 10, 11, 12]).unwrap();
    assert_eq!(blob, &[10, 11]);
    assert_eq!(rest, &[12]);
    assert!(take_short_field(&[2, 10]).is_none());
    assert!(take_short_field(&[]).is_none());
    let (blob, rest) = take_long_field(&[1, 0, 5, 6]).unwrap();
    assert_eq!(blob, &[5]);
    assert_eq!(rest, &[6]);
    assert!(take_long_field(&[0, 1, 5]).is_none());
    assert!(take_long_field(&[0]).is_none());
}

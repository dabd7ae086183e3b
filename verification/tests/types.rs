use flowerchat::types::room_message::RoomMessage;
use flowerchat::types::room_name::RoomName;

#[test]
fn room_name_test() {
    assert!(RoomName::new("123").is_some());
    assert!(RoomName::new("hello-world").is_some());
    assert!(RoomName::new("a-1").is_some());
    assert!(RoomName::new("abcdefgh-abcdefgh-abcdefgh-abcdefgh").is_some());
    assert!(RoomName::new("abc123-def456").is_some());

    assert!(RoomName::new("").is_none());
    assert!(RoomName::new(" ").is_none());
    assert!(RoomName::new(&"a".repeat(65)).is_none());
    assert!(RoomName::new("hello, world!").is_none());
    assert!(RoomName::new("hello-world-").is_none());
    assert!(RoomName::new("-hello-world").is_none());
}

#[test]
fn room_message_test() {
    assert!(RoomMessage::new("a").is_some());
    assert!(RoomMessage::new("\0").is_none());
    assert!(RoomMessage::new(&"a".repeat(1025)).is_none());
}

#[test]
fn room_name_accepts_sixty_four_bytes() {
    let name = format!("{}-{}", "a".repeat(31), "b".repeat(32));
    assert_eq!(name.len(), 64);
    let room = RoomName::new(&name).unwrap();
    assert_eq!(room.as_str(), name);
}

#[test]
fn room_name_is_trimmed() {
    let room = RoomName::new("  \tgeneral\n ").unwrap();
    assert_eq!(room.as_str(), "general");
    let room = RoomName::new("\u{2003}a-1\u{a0}").unwrap();
    assert_eq!(room.as_str(), "a-1");
}

#[test]
fn room_name_rejects_inner_space_and_non_ascii() {
    assert!(RoomName::new("hello world").is_none());
    assert!(RoomName::new("caf\u{e9}").is_none());
    assert!(RoomName::new("-").is_none());
    assert!(RoomName::new("a--b").is_some());
    assert!(RoomName::new("a").is_some());
}

#[test]
fn room_name_clone_is_equal() {
    let room = RoomName::new("lounge").unwrap();
    assert_eq!(room.clone(), room);
}

#[test]
fn room_message_counts_bytes() {
    assert!(RoomMessage::new(&"a".repeat(1024)).is_some());
    assert!(RoomMessage::new(&"\u{e9}".repeat(512)).is_some());
    assert!(RoomMessage::new(&"\u{e9}".repeat(513)).is_none());
    assert!(RoomMessage::new("").is_none());
    assert!(RoomMessage::new("   ").is_none());
}

#[test]
fn room_message_rejects_control_characters() {
    assert!(RoomMessage::new("a\u{7f}b").is_none());
    assert!(RoomMessage::new("a\nb").is_none());
    assert!(RoomMessage::new("a\tb").is_none());
    assert!(RoomMessage::new("a b").is_some());
    assert!(RoomMessage::new("\u{80}").is_some());
}

#[test]
fn room_message_is_trimmed() {
    let message = RoomMessage::new("\n  Hello, World!  \r\n").unwrap();
    assert_eq!(message.as_str(), "Hello, World!");
    assert_eq!(message.clone(), message);
}

//! The plain event format: texts are stored as they are, and a message names
//! the message that it follows.

use vstd::prelude::*;
use vstd::utf8::encode_utf8;
use crate::events::wire::append_bytes;
use crate::text::{from_utf8_lossy, lemma_lossy_text_of_encoding, lossy_text};

verus! {

/// Format byte of a room creation.
pub const V1_PUBLIC_ROOM_CREATE: u8 = 0;

/// Format byte of a room message.
pub const V1_PUBLIC_ROOM_MESSAGE: u8 = 1;

/// Number of bytes of a room message before the room name: the format byte,
/// two hashes and the length of the room name.
pub const MESSAGE_HEAD: usize = 66;

/// An event in the plain format.
#[derive(Debug, Clone, PartialEq, Eq, Hash)]
pub enum Event {
    /// Create new space room with provided name.
    PublicRoomCreate(String),
    /// Send new message to the public room.
    PublicRoomMessage {
        /// Hash of the block that holds the message before this one.
        reply_message_block: crate::ledger::Hash,
        /// Hash of the transaction that holds the message before this one.
        reply_message_transaction: crate::ledger::Hash,
        /// Name of the room.
        room_name: String,
        /// Plain text content of the message.
        text: String,
    },
}

/// An event in the plain format, as a value of contracts.
pub enum EventModel {
    PublicRoomCreate(Seq<char>),
    PublicRoomMessage {
        reply_message_block: Seq<u8>,
        reply_message_transaction: Seq<u8>,
        room_name: Seq<char>,
        text: Seq<char>,
    },
}

impl View for Event {
    type V = EventModel;

    open spec fn view(&self) -> EventModel {
        match self {
            Event::PublicRoomCreate(name) => EventModel::PublicRoomCreate(name@),
            Event::PublicRoomMessage {
                reply_message_block,
                reply_message_transaction,
                room_name,
                text,
            } => EventModel::PublicRoomMessage {
                reply_message_block: reply_message_block@,
                reply_message_transaction: reply_message_transaction@,
                room_name: room_name@,
                text: text@,
            },
        }
    }
}

/// Why bytes are no event of the plain format.
#[derive(Debug, Clone, Copy, PartialEq, Eq, Structural)]
pub enum EventError {
    /// A room creation without a name.
    EmptyRoomName,
    /// A room message that ends before its room name starts.
    MessageTooShort,
    /// The format byte stands for no event.
    UnknownFormat(u8),
}

/// Whether an event can be written: the name of the room of a message takes 1
/// to 255 bytes.
pub open spec fn writable(event: EventModel) -> bool {
    match event {
        EventModel::PublicRoomCreate(_) => true,
        EventModel::PublicRoomMessage { room_name, .. } => 1 <= encode_utf8(room_name).len() < 256,
    }
}

/// The bytes of an event: the format byte; for a room creation the name; for
/// a message the two hashes, the length of the room name in one byte, the
/// room name and the text.
pub open spec fn event_written(event: EventModel) -> Seq<u8> {
    match event {
        EventModel::PublicRoomCreate(name) => seq![V1_PUBLIC_ROOM_CREATE] + encode_utf8(name),
        EventModel::PublicRoomMessage {
            reply_message_block,
            reply_message_transaction,
            room_name,
            text,
        } => seq![V1_PUBLIC_ROOM_MESSAGE] + reply_message_block + reply_message_transaction
            + seq![encode_utf8(room_name).len() as u8] + encode_utf8(room_name) + encode_utf8(text),
    }
}

/// Whether bytes can be read: there is a format byte, and a message holds the
/// whole of the room name that it announces.
pub open spec fn readable(bytes: Seq<u8>) -> bool {
    &&& bytes.len() >= 1
    &&& bytes[0] == V1_PUBLIC_ROOM_MESSAGE && bytes.len() >= MESSAGE_HEAD ==> bytes.len()
        >= MESSAGE_HEAD + bytes[65]
}

/// What reading an event from `bytes` yields.
pub open spec fn event_parsed(bytes: Seq<u8>) -> Result<EventModel, EventError> {
    if bytes[0] == V1_PUBLIC_ROOM_CREATE {
        if bytes.len() < 2 {
            Err(EventError::EmptyRoomName)
        } else {
            Ok(EventModel::PublicRoomCreate(lossy_text(bytes.skip(1))))
        }
    } else if bytes[0] == V1_PUBLIC_ROOM_MESSAGE {
        if bytes.len() < MESSAGE_HEAD {
            Err(EventError::MessageTooShort)
        } else {
            let end = MESSAGE_HEAD + bytes[65];
            Ok(
                EventModel::PublicRoomMessage {
                    reply_message_block: bytes.subrange(1, 33),
                    reply_message_transaction: bytes.subrange(33, 65),
                    room_name: lossy_text(bytes.subrange(MESSAGE_HEAD as int, end)),
                    text: lossy_text(bytes.skip(end)),
                },
            )
        }
    } else {
        Err(EventError::UnknownFormat(bytes[0]))
    }
}

/// Round trip: what was written for an event can be read, and reads back as
/// the event, but for a room creation without a name, which is refused.
pub proof fn lemma_event_read_back(event: EventModel)
    requires
        writable(event),
        event matches EventModel::PublicRoomMessage {
            reply_message_block,
            reply_message_transaction,
            ..
        } ==> reply_message_block.len() == 32 && reply_message_transaction.len() == 32,
    ensures
        readable(event_written(event)),
        event_parsed(event_written(event)) == match event {
            EventModel::PublicRoomCreate(name) => if name.len() == 0 {
                Err(EventError::EmptyRoomName)
            } else {
                Ok(event)
            },
            _ => Ok::<EventModel, EventError>(event),
        },
{
    let bytes = event_written(event);
    match event {
        EventModel::PublicRoomCreate(name) => {
            lemma_lossy_text_of_encoding(name);
            assert(bytes.skip(1) =~= encode_utf8(name));
            if name.len() > 0 {
                assert(encode_utf8(name).len() > 0) by {
                    assert(name =~= seq![name[0]] + name.drop_first());
                }
            } else {
                assert(encode_utf8(name).len() == 0);
            }
        },
        EventModel::PublicRoomMessage {
            reply_message_block,
            reply_message_transaction,
            room_name,
            text,
        } => {
            lemma_lossy_text_of_encoding(room_name);
            lemma_lossy_text_of_encoding(text);
            let n = encode_utf8(room_name).len() as int;
            assert(bytes[65] == n);
            assert(bytes.subrange(1, 33) =~= reply_message_block);
            assert(bytes.subrange(33, 65) =~= reply_message_transaction);
            assert(bytes.subrange(MESSAGE_HEAD as int, MESSAGE_HEAD + n) =~= encode_utf8(room_name));
            assert(bytes.skip(MESSAGE_HEAD + n) =~= encode_utf8(text));
        },
    }
}

/// The bytes of a slice as a hash.
fn hash_of(bytes: &[u8]) -> (r: crate::ledger::Hash)
    requires
        bytes@.len() == 32,
    ensures
        r@ == bytes@,
{
    let mut out: [u8; 32] = [0;32];
    let mut i: usize = 0;
    while i < 32
        invariant
            0 <= i <= 32,
            bytes@.len() == 32,
            forall|j: int| 0 <= j < i ==> out@[j] == bytes@[j],
        decreases 32 - i,
    {
        out[i] = bytes[i];
        i += 1;
    }
    assert(out@ =~= bytes@);
    crate::ledger::Hash(out)
}

impl Event {
    /// Writes the event.
    pub fn to_bytes(&self) -> (r: Vec<u8>)
        requires
            writable(self@),
        ensures
            r@ == event_written(self@),
    {
        let mut bytes: Vec<u8> = Vec::new();
        match self {
            Event::PublicRoomCreate(name) => {
                bytes.push(V1_PUBLIC_ROOM_CREATE);
                append_bytes(&mut bytes, name.as_str().as_bytes());
                assert(bytes@ =~= event_written(self@));
            },
            Event::PublicRoomMessage {
                reply_message_block,
                reply_message_transaction,
                room_name,
                text,
            } => {
                let name = room_name.as_str().as_bytes();
                bytes.push(V1_PUBLIC_ROOM_MESSAGE);
                append_bytes(&mut bytes, reply_message_block.0.as_slice());
                append_bytes(&mut bytes, reply_message_transaction.0.as_slice());
                bytes.push(name.len() as u8);
                append_bytes(&mut bytes, name);
                append_bytes(&mut bytes, text.as_str().as_bytes());
                assert(bytes@ =~= event_written(self@));
            },
        }
        bytes
    }

    /// Reads an event. Ill-formed UTF-8 in a text is replaced.
    pub fn from_bytes(bytes: &[u8]) -> (r: Result<Event, EventError>)
        requires
            readable(bytes@),
        ensures
            match r {
                Ok(event) => event_parsed(bytes@) == Ok::<EventModel, EventError>(event@),
                Err(e) => event_parsed(bytes@) == Err::<EventModel, EventError>(e),
            },
    {
        let total: usize = bytes.len();
        if bytes[0] == V1_PUBLIC_ROOM_CREATE {
            if total < 2 {
                return Err(EventError::EmptyRoomName);
            }
            let name = &bytes[1..total];
            assert(name@ =~= bytes@.skip(1));
            Ok(Event::PublicRoomCreate(from_utf8_lossy(name)))
        } else if bytes[0] == V1_PUBLIC_ROOM_MESSAGE {
            if total < MESSAGE_HEAD {
                return Err(EventError::MessageTooShort);
            }
            let end: usize = MESSAGE_HEAD + bytes[65] as usize;
            let text = &bytes[end..total];
            assert(text@ =~= bytes@.skip(end as int));
            Ok(
                Event::PublicRoomMessage {
                    reply_message_block: hash_of(&bytes[1..33]),
                    reply_message_transaction: hash_of(&bytes[33..65]),
                    room_name: from_utf8_lossy(&bytes[MESSAGE_HEAD..end]),
                    text: from_utf8_lossy(text),
                },
            )
        } else {
            Err(EventError::UnknownFormat(bytes[0]))
        }
    }

    /// Reads an event where the bytes can be read; `None` where they cannot.
    pub fn try_from_bytes(bytes: &[u8]) -> (r: Option<Result<Event, EventError>>)
        ensures
            r is Some <==> readable(bytes@),
            r matches Some(Ok(event)) ==> event_parsed(bytes@) == Ok::<EventModel, EventError>(
                event@,
            ),
            r matches Some(Err(e)) ==> event_parsed(bytes@) == Err::<EventModel, EventError>(e),
    {
        let total: usize = bytes.len();
        if total < 1 {
            return None;
        }
        if bytes[0] == V1_PUBLIC_ROOM_MESSAGE && total >= MESSAGE_HEAD && total - MESSAGE_HEAD
            < bytes[65] as usize {
            return None;
        }
        Some(Event::from_bytes(bytes))
    }
}

} // verus!

//! The event that posts a message to a public room.

use vstd::prelude::*;
use vstd::utf8::*;
use crate::compress::{compress, decompress, zstd_decoded, zstd_encoded, COMPRESSION_LEVEL};
use crate::events::wire::{
    lemma_split_long_field, lemma_split_short_field, long_field, put_long_field, put_short_field,
    short_field, split_long_field, split_short_field, take_long_field, take_short_field,
    LONG_FIELD_MAX, SHORT_FIELD_MAX,
};
use crate::text::{
    from_utf8_lossy, is_trimmed, lemma_lossy_text_of_encoding, lemma_trimmed_fixpoint, lossy_text,
    trimmed,
};
use crate::types::room_message::{valid_room_message, RoomMessage};
use crate::types::room_name::{valid_room_name, RoomName};

verus! {

/// Why a room-message event could not be written or read, as a value of
/// contracts.
pub enum PublicRoomMessageFailure {
    Io,
    Zstd,
    InvalidRoomName(Seq<char>),
    InvalidContent(Seq<char>),
}

/// Why a room-message event could not be written or read.
#[derive(Debug, Clone, PartialEq, Eq)]
pub enum PublicRoomMessageEventError {
    /// The input ended early, or a blob does not fit its length prefix.
    Io,
    /// The compressor or the decompressor failed.
    Zstd,
    /// The decoded room name is no room name.
    InvalidRoomName(String),
    /// The decoded content is no message.
    InvalidContent(String),
}

impl View for PublicRoomMessageEventError {
    type V = PublicRoomMessageFailure;

    open spec fn view(&self) -> PublicRoomMessageFailure {
        match self {
            PublicRoomMessageEventError::Io => PublicRoomMessageFailure::Io,
            PublicRoomMessageEventError::Zstd => PublicRoomMessageFailure::Zstd,
            PublicRoomMessageEventError::InvalidRoomName(s) => {
                PublicRoomMessageFailure::InvalidRoomName(s@)
            },
            PublicRoomMessageEventError::InvalidContent(s) => {
                PublicRoomMessageFailure::InvalidContent(s@)
            },
        }
    }
}

/// What reading the content of a room-message event from `bytes` yields, for
/// the room `room_name` that was read before it.
pub open spec fn public_room_message_content_parsed(
    room_name: Seq<char>,
    bytes: Seq<u8>,
) -> Result<(Seq<char>, Seq<char>), PublicRoomMessageFailure> {
    match split_long_field(bytes) {
        None => Err(PublicRoomMessageFailure::Io),
        Some((blob, _)) => match zstd_decoded(blob) {
            None => Err(PublicRoomMessageFailure::Zstd),
            Some(raw) => {
                let text = lossy_text(raw);
                if valid_room_message(trimmed(text)) {
                    Ok((room_name, trimmed(text)))
                } else {
                    Err(PublicRoomMessageFailure::InvalidContent(text))
                }
            },
        },
    }
}

/// What reading a room-message event from `bytes` yields: the room name and
/// the content, or the first reason why there is none. The room name is read
/// and checked before the content is looked at; bytes after the event are
/// ignored.
pub open spec fn public_room_message_parsed(bytes: Seq<u8>) -> Result<
    (Seq<char>, Seq<char>),
    PublicRoomMessageFailure,
> {
    match split_short_field(bytes) {
        None => Err(PublicRoomMessageFailure::Io),
        Some((blob, rest)) => match zstd_decoded(blob) {
            None => Err(PublicRoomMessageFailure::Zstd),
            Some(raw) => {
                let text = lossy_text(raw);
                if valid_room_name(trimmed(text)) {
                    public_room_message_content_parsed(trimmed(text), rest)
                } else {
                    Err(PublicRoomMessageFailure::InvalidRoomName(text))
                }
            },
        },
    }
}

/// The field that holds a compressed text behind a length prefix of one byte
/// (`long` false) or two (`long` true), or the reason why it cannot be
/// written.
pub open spec fn text_field_written(text: Seq<char>, long: bool) -> Result<
    Seq<u8>,
    PublicRoomMessageFailure,
> {
    match zstd_encoded(encode_utf8(text), COMPRESSION_LEVEL as int) {
        None => Err(PublicRoomMessageFailure::Zstd),
        Some(blob) => if long && blob.len() <= LONG_FIELD_MAX {
            Ok(long_field(blob))
        } else if !long && blob.len() <= SHORT_FIELD_MAX {
            Ok(short_field(blob))
        } else {
            Err(PublicRoomMessageFailure::Io)
        },
    }
}

/// What writing a room-message event yields: the bytes that are appended and
/// the failure, if any. The room name is appended before the content is
/// compressed, so it stays where the content fails.
pub open spec fn public_room_message_written(event: (Seq<char>, Seq<char>)) -> (
    Seq<u8>,
    Option<PublicRoomMessageFailure>,
) {
    match text_field_written(event.0, false) {
        Err(f) => (Seq::empty(), Some(f)),
        Ok(name_field) => match text_field_written(event.1, true) {
            Err(f) => (name_field, Some(f)),
            Ok(content_field) => (name_field + content_field, None),
        },
    }
}

/// Two fields whose blobs decompress to the encodings of a valid room name
/// and a valid message are read back as that pair, whatever follows them.
pub proof fn lemma_public_room_message_read_back(
    event: (Seq<char>, Seq<char>),
    name_blob: Seq<u8>,
    content_blob: Seq<u8>,
    rest: Seq<u8>,
)
    requires
        valid_room_name(event.0),
        is_trimmed(event.0),
        valid_room_message(event.1),
        is_trimmed(event.1),
        name_blob.len() <= SHORT_FIELD_MAX,
        content_blob.len() <= LONG_FIELD_MAX,
        zstd_decoded(name_blob) == Some(encode_utf8(event.0)),
        zstd_decoded(content_blob) == Some(encode_utf8(event.1)),
    ensures
        public_room_message_parsed(short_field(name_blob) + long_field(content_blob) + rest) == Ok::<
            (Seq<char>, Seq<char>),
            PublicRoomMessageFailure,
        >(event),
{
    let bytes = short_field(name_blob) + long_field(content_blob) + rest;
    assert(bytes =~= short_field(name_blob) + (long_field(content_blob) + rest));
    lemma_split_short_field(name_blob, long_field(content_blob) + rest);
    lemma_split_long_field(content_blob, rest);
    lemma_lossy_text_of_encoding(event.0);
    lemma_lossy_text_of_encoding(event.1);
    lemma_trimmed_fixpoint(event.0);
    lemma_trimmed_fixpoint(event.1);
}

/// A message posted to a public room.
#[derive(Debug, Clone, PartialEq, Eq, PartialOrd, Ord, Hash)]
pub struct PublicRoomMessageEvent {
    room_name: RoomName,
    content: RoomMessage,
}

impl View for PublicRoomMessageEvent {
    type V = (Seq<char>, Seq<char>);

    closed spec fn view(&self) -> (Seq<char>, Seq<char>) {
        (self.room_name@, self.content@)
    }
}

impl PublicRoomMessageEvent {
    /// The event holds a valid, trimmed room name and message.
    pub open spec fn wf(&self) -> bool {
        &&& valid_room_name(self@.0)
        &&& is_trimmed(self@.0)
        &&& valid_room_message(self@.1)
        &&& is_trimmed(self@.1)
    }

    /// The event for a message `content` to the room `room_name`, if both are
    /// valid once trimmed.
    pub fn new(room_name: &str, content: &str) -> (r: Option<Self>)
        ensures
            r is Some <==> valid_room_name(trimmed(room_name@)) && valid_room_message(
                trimmed(content@),
            ),
            r is Some ==> r.unwrap()@ == (trimmed(room_name@), trimmed(content@))
                && r.unwrap().wf(),
    {
        let room_name = match RoomName::new(room_name) {
            Some(room_name) => room_name,
            None => {
                return None;
            },
        };
        let content = match RoomMessage::new(content) {
            Some(content) => content,
            None => {
                return None;
            },
        };
        Some(Self::new_from(room_name, content))
    }

    /// The event for an existing room name and message.
    pub fn new_from(room_name: RoomName, content: RoomMessage) -> (r: Self)
        ensures
            r@ == (room_name@, content@),
            r.wf(),
    {
        proof {
            use_type_invariant(&room_name);
            use_type_invariant(&content);
        }
        PublicRoomMessageEvent { room_name, content }
    }

    /// The name of the room.
    pub fn room_name(&self) -> (r: &str)
        ensures
            r@ == self@.0,
            valid_room_name(r@),
            is_trimmed(r@),
    {
        self.room_name.as_str()
    }

    /// The text of the message.
    pub fn content(&self) -> (r: &str)
        ensures
            r@ == self@.1,
            valid_room_message(r@),
            is_trimmed(r@),
    {
        self.content.as_str()
    }

    /// Appends the event to `out_buf`. On success, what was appended reads
    /// back as this event. Where the content cannot be written, the field of
    /// the room name has been appended already.
    pub fn serialize(&self, out_buf: &mut Vec<u8>) -> (r: Result<(), PublicRoomMessageEventError>)
        ensures
            final(out_buf)@ == old(out_buf)@ + public_room_message_written(self@).0,
            match public_room_message_written(self@).1 {
                None => r is Ok && public_room_message_parsed(public_room_message_written(self@).0)
                    == Ok::<(Seq<char>, Seq<char>), PublicRoomMessageFailure>(self@),
                Some(f) => r is Err && r.unwrap_err()@ == f,
            },
    {
        let room_name = self.room_name.as_str();
        let content = self.content.as_str();
        let name_blob = match compress(room_name.as_bytes()) {
            Some(blob) => blob,
            None => {
                assert(out_buf@ =~= old(out_buf)@ + Seq::<u8>::empty());
                return Err(PublicRoomMessageEventError::Zstd);
            },
        };
        if name_blob.len() > SHORT_FIELD_MAX {
            assert(out_buf@ =~= old(out_buf)@ + Seq::<u8>::empty());
            return Err(PublicRoomMessageEventError::Io);
        }
        put_short_field(out_buf, name_blob.as_slice());
        let content_blob = match compress(content.as_bytes()) {
            Some(blob) => blob,
            None => {
                return Err(PublicRoomMessageEventError::Zstd);
            },
        };
        if content_blob.len() > LONG_FIELD_MAX {
            return Err(PublicRoomMessageEventError::Io);
        }
        put_long_field(out_buf, content_blob.as_slice());
        proof {
            let w = short_field(name_blob@) + long_field(content_blob@);
            lemma_public_room_message_read_back(self@, name_blob@, content_blob@, Seq::empty());
            assert(w + Seq::<u8>::empty() =~= w);
            assert(out_buf@ =~= old(out_buf)@ + w);
        }
        Ok(())
    }

    /// The event that a room name and a decoded content text stand for.
    pub fn from_text(room_name: RoomName, content: String) -> (r: Result<
        Self,
        PublicRoomMessageEventError,
    >)
        ensures
            match r {
                Ok(event) => valid_room_message(trimmed(content@)) && event@ == (
                    room_name@,
                    trimmed(content@),
                ) && event.wf(),
                Err(e) => !valid_room_message(trimmed(content@)) && e@
                    == PublicRoomMessageFailure::InvalidContent(content@),
            },
    {
        match RoomMessage::new(content.as_str()) {
            Some(message) => Ok(Self::new_from(room_name, message)),
            None => Err(PublicRoomMessageEventError::InvalidContent(content)),
        }
    }

    /// Reads the event at the start of `bytes`.
    pub fn deserialize(bytes: &[u8]) -> (r: Result<Self, PublicRoomMessageEventError>)
        ensures
            match r {
                Ok(event) => public_room_message_parsed(bytes@) == Ok::<
                    (Seq<char>, Seq<char>),
                    PublicRoomMessageFailure,
                >(event@) && event.wf(),
                Err(e) => public_room_message_parsed(bytes@) == Err::<
                    (Seq<char>, Seq<char>),
                    PublicRoomMessageFailure,
                >(e@),
            },
    {
        let (name_blob, rest) = match take_short_field(bytes) {
            Some(parts) => parts,
            None => {
                return Err(PublicRoomMessageEventError::Io);
            },
        };
        let name_raw = match decompress(name_blob) {
            Some(raw) => raw,
            None => {
                return Err(PublicRoomMessageEventError::Zstd);
            },
        };
        let name_text = from_utf8_lossy(name_raw.as_slice());
        let room_name = match RoomName::new(name_text.as_str()) {
            Some(room_name) => room_name,
            None => {
                return Err(PublicRoomMessageEventError::InvalidRoomName(name_text));
            },
        };
        let (content_blob, _) = match take_long_field(rest) {
            Some(parts) => parts,
            None => {
                return Err(PublicRoomMessageEventError::Io);
            },
        };
        let content_raw = match decompress(content_blob) {
            Some(raw) => raw,
            None => {
                return Err(PublicRoomMessageEventError::Zstd);
            },
        };
        Self::from_text(room_name, from_utf8_lossy(content_raw.as_slice()))
    }
}

} // verus!

//! The event that creates a public room.

use vstd::prelude::*;
use vstd::utf8::*;
use crate::compress::{compress, decompress, zstd_decoded, zstd_encoded, COMPRESSION_LEVEL};
use crate::events::wire::{
    lemma_split_short_field, put_short_field, short_field, split_short_field, take_short_field,
    SHORT_FIELD_MAX,
};
use crate::text::{
    from_utf8_lossy, is_trimmed, lemma_lossy_text_of_encoding, lemma_trimmed_fixpoint, lossy_text,
    trimmed,
};
use crate::types::room_name::{valid_room_name, RoomName};

verus! {

/// Why a room-creation event could not be written or read, as a value of
/// contracts.
pub enum CreatePublicRoomFailure {
    Io,
    Zstd,
    InvalidName(Seq<char>),
}

/// Why a room-creation event could not be written or read.
#[derive(Debug, Clone, PartialEq, Eq)]
pub enum CreatePublicRoomEventError {
    /// The input ended early, or a blob does not fit its length prefix.
    Io,
    /// The compressor or the decompressor failed.
    Zstd,
    /// The decoded text is no room name.
    InvalidName(String),
}

impl View for CreatePublicRoomEventError {
    type V = CreatePublicRoomFailure;

    open spec fn view(&self) -> CreatePublicRoomFailure {
        match self {
            CreatePublicRoomEventError::Io => CreatePublicRoomFailure::Io,
            CreatePublicRoomEventError::Zstd => CreatePublicRoomFailure::Zstd,
            CreatePublicRoomEventError::InvalidName(s) => CreatePublicRoomFailure::InvalidName(s@),
        }
    }
}

/// The event as text that was read from the wire: its name, or the text that
/// is no name.
pub open spec fn create_public_room_of_text(text: Seq<char>) -> Result<
    Seq<char>,
    CreatePublicRoomFailure,
> {
    if valid_room_name(trimmed(text)) {
        Ok(trimmed(text))
    } else {
        Err(CreatePublicRoomFailure::InvalidName(text))
    }
}

/// What reading a room-creation event from `bytes` yields: the name of the
/// room, or the reason why there is none. Bytes after the event are ignored.
pub open spec fn create_public_room_parsed(bytes: Seq<u8>) -> Result<
    Seq<char>,
    CreatePublicRoomFailure,
> {
    match split_short_field(bytes) {
        None => Err(CreatePublicRoomFailure::Io),
        Some((blob, _)) => match zstd_decoded(blob) {
            None => Err(CreatePublicRoomFailure::Zstd),
            Some(raw) => create_public_room_of_text(lossy_text(raw)),
        },
    }
}

/// What writing a room-creation event for `name` yields: the compressed name
/// behind a 1-byte length, or the reason why it cannot be written.
pub open spec fn create_public_room_written(name: Seq<char>) -> Result<
    Seq<u8>,
    CreatePublicRoomFailure,
> {
    match zstd_encoded(encode_utf8(name), COMPRESSION_LEVEL as int) {
        None => Err(CreatePublicRoomFailure::Zstd),
        Some(blob) => if blob.len() <= SHORT_FIELD_MAX {
            Ok(short_field(blob))
        } else {
            Err(CreatePublicRoomFailure::Io)
        },
    }
}

/// A field that holds a blob which decompresses to the encoding of a valid
/// name is read back as that name, whatever follows it.
pub proof fn lemma_create_public_room_read_back(name: Seq<char>, blob: Seq<u8>, rest: Seq<u8>)
    requires
        valid_room_name(name),
        is_trimmed(name),
        blob.len() <= SHORT_FIELD_MAX,
        zstd_decoded(blob) == Some(encode_utf8(name)),
    ensures
        create_public_room_parsed(short_field(blob) + rest) == Ok::<
            Seq<char>,
            CreatePublicRoomFailure,
        >(name),
{
    lemma_split_short_field(blob, rest);
    lemma_lossy_text_of_encoding(name);
    lemma_trimmed_fixpoint(name);
}

/// The event that creates the public room of a given name.
#[derive(Debug, Clone, PartialEq, Eq, PartialOrd, Ord, Hash)]
pub struct CreatePublicRoomEvent(RoomName);

impl View for CreatePublicRoomEvent {
    type V = Seq<char>;

    closed spec fn view(&self) -> Seq<char> {
        self.0@
    }
}

impl From<RoomName> for CreatePublicRoomEvent {
    fn from(value: RoomName) -> (r: Self) {
        CreatePublicRoomEvent(value)
    }
}

impl vstd::std_specs::convert::FromSpecImpl<RoomName> for CreatePublicRoomEvent {
    open spec fn obeys_from_spec() -> bool {
        true
    }

    closed spec fn from_spec(value: RoomName) -> Self {
        CreatePublicRoomEvent(value)
    }
}

/// The event made from a room name holds that name.
pub proof fn lemma_from_room_name(value: RoomName)
    ensures
        <CreatePublicRoomEvent as vstd::std_specs::convert::FromSpec<RoomName>>::from_spec(value)@
            == value@,
{
}

impl CreatePublicRoomEvent {
    /// The event holds a valid, trimmed room name.
    pub open spec fn wf(&self) -> bool {
        valid_room_name(self@) && is_trimmed(self@)
    }

    /// The event for the room `name`, if that is a valid room name once
    /// trimmed.
    pub fn new(name: &str) -> (r: Option<Self>)
        ensures
            r is Some <==> valid_room_name(trimmed(name@)),
            r is Some ==> r.unwrap()@ == trimmed(name@) && r.unwrap().wf(),
    {
        match RoomName::new(name) {
            Some(name) => {
                proof {
                    use_type_invariant(&name);
                }
                Some(CreatePublicRoomEvent(name))
            },
            None => None,
        }
    }

    /// The name of the room.
    pub fn name(&self) -> (r: &str)
        ensures
            r@ == self@,
            self.wf(),
    {
        self.0.as_str()
    }

    /// Appends the event to `out_buf`. On success, what was appended reads
    /// back as this event; on failure nothing is appended.
    pub fn serialize(&self, out_buf: &mut Vec<u8>) -> (r: Result<(), CreatePublicRoomEventError>)
        ensures
            match create_public_room_written(self@) {
                Ok(w) => r is Ok && final(out_buf)@ == old(out_buf)@ + w
                    && create_public_room_parsed(w) == Ok::<Seq<char>, CreatePublicRoomFailure>(
                    self@,
                ),
                Err(f) => r is Err && r.unwrap_err()@ == f && final(out_buf)@ == old(out_buf)@,
            },
    {
        let name = self.0.as_str();
        let blob = match compress(name.as_bytes()) {
            Some(blob) => blob,
            None => {
                return Err(CreatePublicRoomEventError::Zstd);
            },
        };
        if blob.len() > SHORT_FIELD_MAX {
            return Err(CreatePublicRoomEventError::Io);
        }
        proof {
            lemma_create_public_room_read_back(self@, blob@, Seq::empty());
            assert(short_field(blob@) + Seq::<u8>::empty() =~= short_field(blob@));
        }
        put_short_field(out_buf, blob.as_slice());
        Ok(())
    }

    /// The event that a decoded text stands for.
    pub fn from_text(text: String) -> (r: Result<Self, CreatePublicRoomEventError>)
        ensures
            match r {
                Ok(event) => create_public_room_of_text(text@) == Ok::<
                    Seq<char>,
                    CreatePublicRoomFailure,
                >(event@) && event.wf(),
                Err(e) => create_public_room_of_text(text@) == Err::<
                    Seq<char>,
                    CreatePublicRoomFailure,
                >(e@),
            },
    {
        match Self::new(text.as_str()) {
            Some(event) => Ok(event),
            None => Err(CreatePublicRoomEventError::InvalidName(text)),
        }
    }

    /// Reads the event at the start of `bytes`.
    pub fn deserialize(bytes: &[u8]) -> (r: Result<Self, CreatePublicRoomEventError>)
        ensures
            match r {
                Ok(event) => create_public_room_parsed(bytes@) == Ok::<
                    Seq<char>,
                    CreatePublicRoomFailure,
                >(event@) && event.wf(),
                Err(e) => create_public_room_parsed(bytes@) == Err::<
                    Seq<char>,
                    CreatePublicRoomFailure,
                >(e@),
            },
    {
        let (blob, _) = match take_short_field(bytes) {
            Some(parts) => parts,
            None => {
                return Err(CreatePublicRoomEventError::Io);
            },
        };
        let raw = match decompress(blob) {
            Some(raw) => raw,
            None => {
                return Err(CreatePublicRoomEventError::Zstd);
            },
        };
        Self::from_text(from_utf8_lossy(raw.as_slice()))
    }
}

} // verus!

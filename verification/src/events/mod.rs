//! The binary codec of the domain events.

pub mod wire;
pub mod rooms;

use vstd::prelude::*;
use crate::events::rooms::create_public::{
    create_public_room_parsed, create_public_room_written, CreatePublicRoomEvent,
    CreatePublicRoomEventError, CreatePublicRoomFailure,
};
use crate::events::rooms::public_message::{
    public_room_message_parsed, public_room_message_written, PublicRoomMessageEvent,
    PublicRoomMessageEventError, PublicRoomMessageFailure,
};

verus! {

/// Discriminant of a room-creation event.
pub const V1_CREATE_PUBLIC_ROOM: u8 = 0;

/// Discriminant of a room-message event.
pub const V1_PUBLIC_ROOM_MESSAGE: u8 = 1;

/// An event as a value of contracts.
pub enum EventsModel {
    CreatePublicRoom(Seq<char>),
    PublicRoomMessage(Seq<char>, Seq<char>),
}

/// Why an event could not be written or read, as a value of contracts.
pub enum EventsFailure {
    Io,
    UnknownEventId(u8),
    CreatePublicRoom(CreatePublicRoomFailure),
    PublicRoomMessage(PublicRoomMessageFailure),
}

/// Why an event could not be written or read.
#[derive(Debug, Clone, PartialEq, Eq)]
pub enum EventsError {
    /// The input holds no discriminant.
    Io,
    /// The discriminant stands for no event.
    UnknownEventId(u8),
    CreatePublicRoom(CreatePublicRoomEventError),
    PublicRoomMessage(PublicRoomMessageEventError),
}

impl View for EventsError {
    type V = EventsFailure;

    open spec fn view(&self) -> EventsFailure {
        match self {
            EventsError::Io => EventsFailure::Io,
            EventsError::UnknownEventId(id) => EventsFailure::UnknownEventId(*id),
            EventsError::CreatePublicRoom(e) => EventsFailure::CreatePublicRoom(e@),
            EventsError::PublicRoomMessage(e) => EventsFailure::PublicRoomMessage(e@),
        }
    }
}

/// The events that a transaction can carry.
#[derive(Debug, Clone, PartialEq, Eq, PartialOrd, Ord, Hash)]
pub enum Events {
    CreatePublicRoom(CreatePublicRoomEvent),
    PublicRoomMessage(PublicRoomMessageEvent),
}

impl View for Events {
    type V = EventsModel;

    open spec fn view(&self) -> EventsModel {
        match self {
            Events::CreatePublicRoom(event) => EventsModel::CreatePublicRoom(event@),
            Events::PublicRoomMessage(event) => EventsModel::PublicRoomMessage(event@.0, event@.1),
        }
    }
}

impl From<CreatePublicRoomEvent> for Events {
    fn from(value: CreatePublicRoomEvent) -> (r: Self) {
        Events::CreatePublicRoom(value)
    }
}

impl vstd::std_specs::convert::FromSpecImpl<CreatePublicRoomEvent> for Events {
    open spec fn obeys_from_spec() -> bool {
        true
    }

    open spec fn from_spec(value: CreatePublicRoomEvent) -> Self {
        Events::CreatePublicRoom(value)
    }
}

impl From<PublicRoomMessageEvent> for Events {
    fn from(value: PublicRoomMessageEvent) -> (r: Self) {
        Events::PublicRoomMessage(value)
    }
}

impl vstd::std_specs::convert::FromSpecImpl<PublicRoomMessageEvent> for Events {
    open spec fn obeys_from_spec() -> bool {
        true
    }

    open spec fn from_spec(value: PublicRoomMessageEvent) -> Self {
        Events::PublicRoomMessage(value)
    }
}

/// What reading an event from `bytes` yields: one discriminant byte, then the
/// event that it announces.
pub open spec fn events_parsed(bytes: Seq<u8>) -> Result<EventsModel, EventsFailure> {
    if bytes.len() < 1 {
        Err(EventsFailure::Io)
    } else if bytes[0] == V1_CREATE_PUBLIC_ROOM {
        match create_public_room_parsed(bytes.skip(1)) {
            Ok(name) => Ok(EventsModel::CreatePublicRoom(name)),
            Err(f) => Err(EventsFailure::CreatePublicRoom(f)),
        }
    } else if bytes[0] == V1_PUBLIC_ROOM_MESSAGE {
        match public_room_message_parsed(bytes.skip(1)) {
            Ok(event) => Ok(EventsModel::PublicRoomMessage(event.0, event.1)),
            Err(f) => Err(EventsFailure::PublicRoomMessage(f)),
        }
    } else {
        Err(EventsFailure::UnknownEventId(bytes[0]))
    }
}

/// What writing an event yields: the bytes that are appended and the failure,
/// if any. The discriminant is appended before the event is written, so it
/// stays where that fails.
pub open spec fn events_written(event: EventsModel) -> (Seq<u8>, Option<EventsFailure>) {
    match event {
        EventsModel::CreatePublicRoom(name) => match create_public_room_written(name) {
            Ok(w) => (seq![V1_CREATE_PUBLIC_ROOM] + w, None),
            Err(f) => (seq![V1_CREATE_PUBLIC_ROOM], Some(EventsFailure::CreatePublicRoom(f))),
        },
        EventsModel::PublicRoomMessage(room_name, content) => {
            let inner = public_room_message_written((room_name, content));
            (
                seq![V1_PUBLIC_ROOM_MESSAGE] + inner.0,
                match inner.1 {
                    None => None,
                    Some(f) => Some(EventsFailure::PublicRoomMessage(f)),
                },
            )
        },
    }
}

/// An input that starts with a byte that announces no event is refused with
/// that byte, whatever follows.
pub proof fn lemma_unknown_event_id(bytes: Seq<u8>)
    requires
        bytes.len() >= 1,
        bytes[0] != V1_CREATE_PUBLIC_ROOM,
        bytes[0] != V1_PUBLIC_ROOM_MESSAGE,
    ensures
        events_parsed(bytes) == Err::<EventsModel, EventsFailure>(
            EventsFailure::UnknownEventId(bytes[0]),
        ),
{
}

impl Events {
    /// The event holds valid, trimmed texts.
    pub open spec fn wf(&self) -> bool {
        match self {
            Events::CreatePublicRoom(event) => event.wf(),
            Events::PublicRoomMessage(event) => event.wf(),
        }
    }

    /// Appends the event to `out_buf`: its discriminant, then the event. On
    /// success, what was appended reads back as this event.
    pub fn serialize(&self, out_buf: &mut Vec<u8>) -> (r: Result<(), EventsError>)
        ensures
            final(out_buf)@ == old(out_buf)@ + events_written(self@).0,
            match events_written(self@).1 {
                None => r is Ok && events_parsed(events_written(self@).0) == Ok::<
                    EventsModel,
                    EventsFailure,
                >(self@),
                Some(f) => r is Err && r.unwrap_err()@ == f,
            },
    {
        match self {
            Events::CreatePublicRoom(event) => {
                out_buf.push(V1_CREATE_PUBLIC_ROOM);
                let ghost mid = out_buf@;
                match event.serialize(out_buf) {
                    Ok(()) => {
                        proof {
                            let w = create_public_room_written(event@)->Ok_0;
                            let all = seq![V1_CREATE_PUBLIC_ROOM] + w;
                            assert(all.skip(1) =~= w);
                            assert(out_buf@ =~= old(out_buf)@ + all);
                        }
                        Ok(())
                    },
                    Err(e) => {
                        assert(out_buf@ =~= old(out_buf)@ + seq![V1_CREATE_PUBLIC_ROOM]);
                        Err(EventsError::CreatePublicRoom(e))
                    },
                }
            },
            Events::PublicRoomMessage(event) => {
                out_buf.push(V1_PUBLIC_ROOM_MESSAGE);
                match event.serialize(out_buf) {
                    Ok(()) => {
                        proof {
                            let w = public_room_message_written(event@).0;
                            let all = seq![V1_PUBLIC_ROOM_MESSAGE] + w;
                            assert(all.skip(1) =~= w);
                            assert(out_buf@ =~= old(out_buf)@ + all);
                        }
                        Ok(())
                    },
                    Err(e) => {
                        proof {
                            let w = public_room_message_written(event@).0;
                            assert(out_buf@ =~= old(out_buf)@ + (seq![V1_PUBLIC_ROOM_MESSAGE] + w));
                        }
                        Err(EventsError::PublicRoomMessage(e))
                    },
                }
            },
        }
    }

    /// Reads the event at the start of `bytes`.
    pub fn deserialize(bytes: &[u8]) -> (r: Result<Self, EventsError>)
        ensures
            match r {
                Ok(event) => events_parsed(bytes@) == Ok::<EventsModel, EventsFailure>(event@)
                    && event.wf(),
                Err(e) => events_parsed(bytes@) == Err::<EventsModel, EventsFailure>(e@),
            },
    {
        let total: usize = bytes.len();
        if total < 1 {
            return Err(EventsError::Io);
        }
        let event_id: u8 = bytes[0];
        let body = &bytes[1..total];
        assert(body@ =~= bytes@.skip(1));
        if event_id == V1_CREATE_PUBLIC_ROOM {
            match CreatePublicRoomEvent::deserialize(body) {
                Ok(event) => Ok(Events::CreatePublicRoom(event)),
                Err(e) => Err(EventsError::CreatePublicRoom(e)),
            }
        } else if event_id == V1_PUBLIC_ROOM_MESSAGE {
            match PublicRoomMessageEvent::deserialize(body) {
                Ok(event) => Ok(Events::PublicRoomMessage(event)),
                Err(e) => Err(EventsError::PublicRoomMessage(e)),
            }
        } else {
            Err(EventsError::UnknownEventId(event_id))
        }
    }
}

} // verus!

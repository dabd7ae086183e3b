//! Events as the ledger delivers them, and their projection onto the read
//! model.

use vstd::prelude::*;
use crate::database::{
    message_at, Database, DatabaseModel, HandledModel, PublicRoomInfo, PublicRoomMessageInfo,
    PublicRoomMessageModel, PublicRoomModel, StoreError, UserInfo, UserModel,
};
use crate::events::{events_parsed, Events, EventsError, EventsFailure, EventsModel};
use crate::ledger::PublicKey;

verus! {

/// A decoded event with the place in the ledger where it was found.
#[derive(Debug, Clone, PartialEq, Eq)]
pub struct HandlerEvent {
    pub block_hash: crate::ledger::Hash,
    pub block_public_key: PublicKey,
    /// Seconds since the Unix epoch at which the block was made.
    pub block_timestamp: i64,
    pub transaction_hash: crate::ledger::Hash,
    pub transaction_public_key: PublicKey,
    pub event: Events,
}

/// A transaction of a block: what the verification of its signature gave, and
/// its payload.
#[derive(Debug, Clone, PartialEq, Eq)]
pub struct Transaction {
    /// Whether the signature is valid.
    pub is_valid: bool,
    pub hash: crate::ledger::Hash,
    /// Public key of the author.
    pub public_key: PublicKey,
    /// The payload: an encoded event.
    pub data: Vec<u8>,
}

/// A block of the ledger with its transactions in their order.
#[derive(Debug, Clone, PartialEq, Eq)]
pub struct Block {
    pub hash: crate::ledger::Hash,
    pub public_key: PublicKey,
    /// Seconds since the Unix epoch at which the block was made.
    pub timestamp: i64,
    pub transactions: Vec<Transaction>,
}

/// What the projection reports while it runs.
#[derive(Debug, Clone, Copy, PartialEq, Eq)]
pub enum Update {
    /// A transaction that was handled in an earlier run was seen again, before
    /// the first new one.
    Verification {
        block_hash: crate::ledger::Hash,
        transaction_hash: crate::ledger::Hash,
        block_timestamp: i64,
    },
    /// The blocks that were handled in earlier runs are behind.
    VerificationDone,
    /// A new event was materialised.
    NewEvent {
        block_hash: crate::ledger::Hash,
        transaction_hash: crate::ledger::Hash,
        block_timestamp: i64,
    },
}

/// Why a run of the projection stopped, as a value of contracts.
pub enum RunFailure {
    Decode(EventsFailure),
    Store(StoreError),
}

/// Why a run of the projection stopped.
#[derive(Debug, Clone, PartialEq, Eq)]
pub enum RunError {
    /// The payload of a valid transaction is no event.
    Decode(EventsError),
    /// The store refused a write.
    Store(StoreError),
}

impl View for RunError {
    type V = RunFailure;

    open spec fn view(&self) -> RunFailure {
        match self {
            RunError::Decode(e) => RunFailure::Decode(e@),
            RunError::Store(e) => RunFailure::Store(*e),
        }
    }
}

/// Where a run of the projection stands: the read model, whether the
/// transactions of earlier runs are behind, and the reports made.
pub struct Progress {
    pub database: DatabaseModel,
    pub verification_done: bool,
    pub updates: Seq<Update>,
}

/// A decoded event with its place in the ledger, as a value of contracts.
pub struct HandlerEventModel {
    pub block_hash: crate::ledger::Hash,
    pub block_public_key: PublicKey,
    pub block_timestamp: i64,
    pub transaction_hash: crate::ledger::Hash,
    pub transaction_public_key: PublicKey,
    pub event: EventsModel,
}

impl View for HandlerEvent {
    type V = HandlerEventModel;

    open spec fn view(&self) -> HandlerEventModel {
        HandlerEventModel {
            block_hash: self.block_hash,
            block_public_key: self.block_public_key,
            block_timestamp: self.block_timestamp,
            transaction_hash: self.transaction_hash,
            transaction_public_key: self.transaction_public_key,
            event: self.event@,
        }
    }
}

impl HandlerEventModel {
    /// The key under which the event's transaction is marked as handled in
    /// the space `space_id`.
    pub open spec fn key(self, space_id: i64) -> HandledModel {
        HandledModel {
            space_id,
            block_hash: self.block_hash@,
            transaction_hash: self.transaction_hash@,
        }
    }
}

/// The read model after the author `public_key` was resolved in `space_id`,
/// and the id of the author: the user that is found, or a new one without
/// nickname.
pub open spec fn author_resolved(m: DatabaseModel, space_id: i64, public_key: Seq<u8>) -> (
    DatabaseModel,
    Result<i64, StoreError>,
) {
    match m.find_user(space_id, public_key) {
        Some(id) => (m, Ok(id)),
        None => m.create_user(UserModel { space_id, public_key, nickname: None }),
    }
}

/// The read model after an event was applied in `space_id`, and the outcome:
/// `Ok(true)` where the event is materialised and its transaction marked as
/// handled, `Ok(false)` where a message was dropped because its room is
/// missing, or the error of the store.
///
/// The author is resolved first. A room creation inserts the room; a room of
/// that name that another transaction created is an error of the store. A
/// message is inserted into its room with the time of the block. What this
/// very transaction inserted before is not inserted again, so that an event
/// can be applied again, whether or not its transaction was marked.
pub open spec fn applied(m: DatabaseModel, space_id: i64, e: HandlerEventModel) -> (
    DatabaseModel,
    Result<bool, StoreError>,
) {
    let (m1, author) = author_resolved(m, space_id, e.transaction_public_key@);
    match author {
        Err(err) => (m1, Err(err)),
        Ok(author_id) => match e.event {
            EventsModel::CreatePublicRoom(name) => {
                let found = m1.find_public_room(space_id, name);
                if found is Some && m1.room_created_by(
                    found->0,
                    e.block_hash@,
                    e.transaction_hash@,
                ) {
                    (m1.mark_handled(e.key(space_id)), Ok(true))
                } else {
                    let (m2, created) = m1.create_public_room(
                        PublicRoomModel {
                            space_id,
                            name,
                            author_id,
                            block_hash: e.block_hash@,
                            transaction_hash: e.transaction_hash@,
                        },
                    );
                    match created {
                        Err(err) => (m2, Err(err)),
                        Ok(_) => (m2.mark_handled(e.key(space_id)), Ok(true)),
                    }
                }
            },
            EventsModel::PublicRoomMessage(room_name, content) => match m1.find_public_room(
                space_id,
                room_name,
            ) {
                None => (m1, Ok(false)),
                Some(room_id) => if m1.has_public_message(
                    room_id,
                    e.block_hash@,
                    e.transaction_hash@,
                ) {
                    (m1.mark_handled(e.key(space_id)), Ok(true))
                } else {
                    let (m2, created) = m1.create_public_message(
                        PublicRoomMessageModel {
                            room_id,
                            user_id: author_id,
                            block_hash: e.block_hash@,
                            transaction_hash: e.transaction_hash@,
                            timestamp: e.block_timestamp,
                            content,
                        },
                    );
                    match created {
                        Err(err) => (m2, Err(err)),
                        Ok(_) => (m2.mark_handled(e.key(space_id)), Ok(true)),
                    }
                },
            },
        },
    }
}

/// The read model after the projection of an event in `space_id`: an event of
/// a handled transaction changes nothing, any other is applied.
pub open spec fn projected(m: DatabaseModel, space_id: i64, e: HandlerEventModel) -> DatabaseModel {
    if m.is_handled(e.key(space_id)) {
        m
    } else {
        applied(m, space_id, e).0
    }
}

/// The reports that the application of a new event makes: that verification
/// is done, unless that was reported, and the new event, if it was
/// materialised.
pub open spec fn announced(done: bool, e: HandlerEventModel, outcome: Result<bool, StoreError>) -> Seq<
    Update,
> {
    let first = if done {
        Seq::<Update>::empty()
    } else {
        seq![Update::VerificationDone]
    };
    if outcome == Ok::<bool, StoreError>(true) {
        first.push(
            Update::NewEvent {
                block_hash: e.block_hash,
                transaction_hash: e.transaction_hash,
                block_timestamp: e.block_timestamp,
            },
        )
    } else {
        first
    }
}

/// The reports that a handled transaction makes: its verification, as long as
/// no new event was seen.
pub open spec fn verified(
    done: bool,
    block_hash: crate::ledger::Hash,
    transaction_hash: crate::ledger::Hash,
    block_timestamp: i64,
) -> Seq<Update> {
    if done {
        Seq::<Update>::empty()
    } else {
        seq![Update::Verification { block_hash, transaction_hash, block_timestamp }]
    }
}

/// One decoded event projected in `space_id`: the progress made from the read
/// model `m`, and the error of the store, if any.
pub open spec fn event_projected(m: DatabaseModel, done: bool, space_id: i64, e: HandlerEventModel) -> (
    Progress,
    Option<StoreError>,
) {
    if m.is_handled(e.key(space_id)) {
        (
            Progress {
                database: m,
                verification_done: done,
                updates: verified(done, e.block_hash, e.transaction_hash, e.block_timestamp),
            },
            None,
        )
    } else {
        let (m2, outcome) = applied(m, space_id, e);
        (
            Progress { database: m2, verification_done: true, updates: announced(done, e, outcome) },
            match outcome {
                Ok(_) => None,
                Err(err) => Some(err),
            },
        )
    }
}

/// One transaction of a block projected in `space_id`. A transaction with an
/// invalid signature is passed over; one that is handled is not decoded; the
/// payload of any other is decoded, which may fail, and the event projected.
pub open spec fn transaction_projected(
    m: DatabaseModel,
    done: bool,
    space_id: i64,
    block: Block,
    transaction: Transaction,
) -> (Progress, Option<RunFailure>) {
    let key = HandledModel {
        space_id,
        block_hash: block.hash@,
        transaction_hash: transaction.hash@,
    };
    if !transaction.is_valid {
        (Progress { database: m, verification_done: done, updates: Seq::empty() }, None)
    } else if m.is_handled(key) {
        (
            Progress {
                database: m,
                verification_done: done,
                updates: verified(done, block.hash, transaction.hash, block.timestamp),
            },
            None,
        )
    } else {
        match events_parsed(transaction.data@) {
            Err(f) => (
                Progress { database: m, verification_done: done, updates: Seq::empty() },
                Some(RunFailure::Decode(f)),
            ),
            Ok(event) => {
                let (p, failure) = event_projected(
                    m,
                    done,
                    space_id,
                    HandlerEventModel {
                        block_hash: block.hash,
                        block_public_key: block.public_key,
                        block_timestamp: block.timestamp,
                        transaction_hash: transaction.hash,
                        transaction_public_key: transaction.public_key,
                        event,
                    },
                );
                (
                    p,
                    match failure {
                        None => None,
                        Some(err) => Some(RunFailure::Store(err)),
                    },
                )
            },
        }
    }
}

/// The first `n` transactions of a block projected in their order; the first
/// failure stops the run.
pub open spec fn block_projected(m: DatabaseModel, done: bool, space_id: i64, block: Block, n: nat) -> (
    Progress,
    Option<RunFailure>,
)
    decreases n,
{
    if n == 0 || n > block.transactions@.len() {
        (Progress { database: m, verification_done: done, updates: Seq::empty() }, None)
    } else {
        let (p, failure) = block_projected(m, done, space_id, block, (n - 1) as nat);
        if failure is Some {
            (p, failure)
        } else {
            let (q, stopped) = transaction_projected(
                p.database,
                p.verification_done,
                space_id,
                block,
                block.transactions@[n - 1],
            );
            (
                Progress {
                    database: q.database,
                    verification_done: q.verification_done,
                    updates: p.updates + q.updates,
                },
                stopped,
            )
        }
    }
}

/// Once a transaction of a block has failed, the rest of the block changes
/// nothing.
pub proof fn lemma_block_stopped(
    m: DatabaseModel,
    done: bool,
    space_id: i64,
    block: Block,
    k: nat,
    n: nat,
)
    requires
        k <= n <= block.transactions@.len(),
        block_projected(m, done, space_id, block, k).1 is Some,
    ensures
        block_projected(m, done, space_id, block, n) == block_projected(m, done, space_id, block, k),
    decreases n - k,
{
    if k < n {
        lemma_block_stopped(m, done, space_id, block, k, (n - 1) as nat);
    }
}

/// Resolving an author a second time finds the same user and changes
/// nothing.
pub proof fn lemma_author_resolved_again(m: DatabaseModel, space_id: i64, public_key: Seq<u8>)
    requires
        m.well_formed(),
    ensures
        author_resolved(m, space_id, public_key).0.well_formed(),
        author_resolved(m, space_id, public_key).1 is Ok ==> author_resolved(
            author_resolved(m, space_id, public_key).0,
            space_id,
            public_key,
        ) == author_resolved(m, space_id, public_key),
        author_resolved(m, space_id, public_key).1 is Err ==> author_resolved(
            m,
            space_id,
            public_key,
        ).0 == m,
        author_resolved(m, space_id, public_key).0.public_rooms == m.public_rooms,
        author_resolved(m, space_id, public_key).0.public_messages == m.public_messages,
        author_resolved(m, space_id, public_key).0.handled == m.handled,
{
    m.lemma_writes_keep_well_formed();
    let (m1, r) = author_resolved(m, space_id, public_key);
    if m.find_user(space_id, public_key) is None && r is Ok {
        let user = UserModel { space_id, public_key, nickname: None };
        assert(m1.users == m.users.push(user));
        m1.lemma_find_user(m.users.len() as int);
    }
}

/// Applying an event again, with or without the marker of its transaction,
/// leaves the read model that applying it once leaves, and an application that
/// succeeded succeeds again with the same outcome.
pub proof fn lemma_application_reentrant(m: DatabaseModel, space_id: i64, e: HandlerEventModel)
    requires
        m.well_formed(),
    ensures
        applied(m, space_id, e).0.well_formed(),
        applied(applied(m, space_id, e).0, space_id, e).0 == applied(m, space_id, e).0,
        applied(m, space_id, e).1 is Ok ==> applied(applied(m, space_id, e).0, space_id, e).1
            == applied(m, space_id, e).1,
{
    let key = e.key(space_id);
    let bh = e.block_hash@;
    let th = e.transaction_hash@;
    lemma_author_resolved_again(m, space_id, e.transaction_public_key@);
    let (m1, author) = author_resolved(m, space_id, e.transaction_public_key@);
    let (m2, outcome) = applied(m, space_id, e);
    m1.lemma_writes_keep_well_formed();
    if author is Ok {
        let author_id = author->Ok_0;
        if outcome == Ok::<bool, StoreError>(true) {
            lemma_author_resolved_again(m2, space_id, e.transaction_public_key@);
            assert(author_resolved(m2, space_id, e.transaction_public_key@) == (m2, author)) by {
                assert(m2.users == m1.users);
            }
            assert(m2.is_handled(key)) by {
                if !m1.is_handled(key) {
                    assert(m2.handled.last() == key);
                }
            }
            assert(m2.mark_handled(key) == m2);
            match e.event {
                EventsModel::CreatePublicRoom(name) => {
                    let found = m1.find_public_room(space_id, name);
                    if found is Some && m1.room_created_by(found->0, bh, th) {
                        assert(m2.public_rooms == m1.public_rooms);
                    } else {
                        let last = m1.public_rooms.len() as int;
                        assert(m2.public_rooms[last].name == name);
                        m2.lemma_find_public_room(last);
                        assert(m2.room_created_by((last + 1) as i64, bh, th));
                    }
                },
                EventsModel::PublicRoomMessage(room_name, content) => {
                    let room_id = m1.find_public_room(space_id, room_name)->0;
                    assert(m2.public_rooms == m1.public_rooms);
                    if m1.has_public_message(room_id, bh, th) {
                        assert(m2.public_messages == m1.public_messages);
                    } else {
                        let last = m1.public_messages.len() as int;
                        assert(message_at(m2.public_messages, last, room_id, bh, th));
                    }
                },
            }
        } else {
            assert(m2 == m1);
            assert(applied(m1, space_id, e) == applied(m, space_id, e));
        }
    }
}

/// Idempotence of the projection: projecting the same event of the same
/// transaction twice leaves the read model that projecting it once leaves.
pub proof fn lemma_projection_idempotent(m: DatabaseModel, space_id: i64, e: HandlerEventModel)
    requires
        m.well_formed(),
    ensures
        projected(projected(m, space_id, e), space_id, e) == projected(m, space_id, e),
{
    let key = e.key(space_id);
    if !m.is_handled(key) {
        lemma_author_resolved_again(m, space_id, e.transaction_public_key@);
        let (m1, author) = author_resolved(m, space_id, e.transaction_public_key@);
        let (m2, outcome) = applied(m, space_id, e);
        m1.lemma_writes_keep_well_formed();
        if outcome == Ok::<bool, StoreError>(true) {
            assert(m2.handled.last() == key);
            assert(m2.is_handled(key));
        } else {
            assert(m2 == m1);
            assert(!m1.is_handled(key));
            if author is Ok {
                assert(applied(m1, space_id, e) == applied(m, space_id, e));
            }
        }
    }
}

/// A message to a room that does not exist is dropped: no room, no message
/// and no handled marker is added, and where the author is known the read
/// model stays as it is. The author, if unknown, is still recorded as a user.
/// Unless the table of users is full, no error is raised, so that the run
/// goes on with the next transaction.
pub proof fn lemma_message_to_missing_room(
    m: DatabaseModel,
    space_id: i64,
    e: HandlerEventModel,
    room_name: Seq<char>,
    content: Seq<char>,
)
    requires
        m.well_formed(),
        e.event == EventsModel::PublicRoomMessage(room_name, content),
        m.find_public_room(space_id, room_name) is None,
    ensures
        applied(m, space_id, e).0.public_rooms == m.public_rooms,
        applied(m, space_id, e).0.public_messages == m.public_messages,
        applied(m, space_id, e).0.handled == m.handled,
        applied(m, space_id, e).0 == author_resolved(m, space_id, e.transaction_public_key@).0,
        m.find_user(space_id, e.transaction_public_key@) is Some ==> applied(m, space_id, e) == (
            m,
            Ok::<bool, StoreError>(false),
        ),
        m.users.len() < crate::database::MAX_ROWS ==> applied(m, space_id, e).1 == Ok::<
            bool,
            StoreError,
        >(false),
        m.users.len() < crate::database::MAX_ROWS ==> forall|done: bool|
            (#[trigger] event_projected(m, done, space_id, e)).1 is None,
{
    lemma_author_resolved_again(m, space_id, e.transaction_public_key@);
}

/// Finds the user of `space_id` with the key `public_key`, or creates it
/// without nickname.
pub fn find_or_create_user(database: &mut Database, space_id: i64, public_key: PublicKey) -> (r:
    Result<i64, StoreError>)
    ensures
        (final(database)@, r) == author_resolved(old(database)@, space_id, public_key@),
        final(database)@.well_formed(),
{
    match database.find_user(space_id, &public_key) {
        Some(id) => Ok(id),
        None => database.create_user(UserInfo { space_id, public_key, nickname: None }),
    }
}

/// Applies an event to the read model of `space_id`, whether or not its
/// transaction is marked as handled.
pub fn apply_event(database: &mut Database, space_id: i64, event: &HandlerEvent) -> (r: Result<
    bool,
    StoreError,
>)
    ensures
        (final(database)@, r) == applied(old(database)@, space_id, event@),
        final(database)@.well_formed(),
{
    let author_id = match find_or_create_user(database, space_id, event.transaction_public_key) {
        Ok(id) => id,
        Err(err) => {
            return Err(err);
        },
    };
    match &event.event {
        Events::CreatePublicRoom(info) => {
            let already = match database.find_public_room(space_id, info.name()) {
                Some(id) => database.room_created_by(
                    id,
                    &event.block_hash,
                    &event.transaction_hash,
                ),
                None => false,
            };
            if !already {
                let created = database.create_public_room(
                    PublicRoomInfo {
                        space_id,
                        name: info.name().to_owned(),
                        author_id,
                        block_hash: event.block_hash,
                        transaction_hash: event.transaction_hash,
                    },
                );
                match created {
                    Ok(_) => {},
                    Err(err) => {
                        return Err(err);
                    },
                }
            }
        },
        Events::PublicRoomMessage(info) => {
            let room_id = match database.find_public_room(space_id, info.room_name()) {
                Some(id) => id,
                None => {
                    return Ok(false);
                },
            };
            if !database.has_public_message(room_id, &event.block_hash, &event.transaction_hash) {
                let created = database.create_public_message(
                    PublicRoomMessageInfo {
                        room_id,
                        user_id: author_id,
                        block_hash: event.block_hash,
                        transaction_hash: event.transaction_hash,
                        timestamp: event.block_timestamp,
                        content: info.content().to_owned(),
                    },
                );
                match created {
                    Ok(_) => {},
                    Err(err) => {
                        return Err(err);
                    },
                }
            }
        },
    }
    database.mark_handled(space_id, event.block_hash, event.transaction_hash);
    Ok(true)
}

/// The events of the first `n` transactions of a block, in their order: those
/// of the transactions with a valid signature, each with its place in the
/// ledger. The first payload that is no event fails the whole.
pub open spec fn events_read(block: Block, n: nat) -> Result<Seq<HandlerEventModel>, EventsFailure>
    decreases n,
{
    if n == 0 || n > block.transactions@.len() {
        Ok(Seq::empty())
    } else {
        match events_read(block, (n - 1) as nat) {
            Err(f) => Err(f),
            Ok(events) => {
                let transaction = block.transactions@[n - 1];
                if !transaction.is_valid {
                    Ok(events)
                } else {
                    match events_parsed(transaction.data@) {
                        Err(f) => Err(f),
                        Ok(event) => Ok(
                            events.push(
                                HandlerEventModel {
                                    block_hash: block.hash,
                                    block_public_key: block.public_key,
                                    block_timestamp: block.timestamp,
                                    transaction_hash: transaction.hash,
                                    transaction_public_key: transaction.public_key,
                                    event,
                                },
                            ),
                        ),
                    }
                }
            },
        }
    }
}

/// Once a payload of a block has failed to decode, the rest of the block
/// changes nothing.
pub proof fn lemma_events_read_stopped(block: Block, k: nat, n: nat)
    requires
        k <= n <= block.transactions@.len(),
        events_read(block, k) is Err,
    ensures
        events_read(block, n) == events_read(block, k),
    decreases n - k,
{
    if k < n {
        lemma_events_read_stopped(block, k, (n - 1) as nat);
    }
}

/// Decodes the events of a block: those of its transactions with a valid
/// signature, in their order.
pub fn read_events(block: &Block) -> (r: Result<Vec<HandlerEvent>, EventsError>)
    ensures
        match r {
            Ok(events) => events_read(*block, block.transactions@.len()) == Ok::<
                Seq<HandlerEventModel>,
                EventsFailure,
            >(events@.map_values(|e: HandlerEvent| e@)),
            Err(e) => events_read(*block, block.transactions@.len()) == Err::<
                Seq<HandlerEventModel>,
                EventsFailure,
            >(e@),
        },
{
    let mut events: Vec<HandlerEvent> = Vec::new();
    let n: usize = block.transactions.len();
    let mut i: usize = 0;
    assert(events@.map_values(|e: HandlerEvent| e@) =~= Seq::<HandlerEventModel>::empty());
    while i < n
        invariant
            n == block.transactions@.len(),
            0 <= i <= n,
            events_read(*block, i as nat) == Ok::<Seq<HandlerEventModel>, EventsFailure>(
                events@.map_values(|e: HandlerEvent| e@),
            ),
        decreases n - i,
    {
        let transaction = &block.transactions[i];
        if transaction.is_valid {
            let event = match Events::deserialize(transaction.data.as_slice()) {
                Ok(event) => event,
                Err(err) => {
                    proof {
                        lemma_events_read_stopped(*block, (i + 1) as nat, n as nat);
                    }
                    return Err(err);
                },
            };
            let ghost before = events@.map_values(|e: HandlerEvent| e@);
            let event = HandlerEvent {
                block_hash: block.hash,
                block_public_key: block.public_key,
                block_timestamp: block.timestamp,
                transaction_hash: transaction.hash,
                transaction_public_key: transaction.public_key,
                event,
            };
            events.push(event);
            assert(events@.map_values(|e: HandlerEvent| e@) =~= before.push(event@));
        }
        i += 1;
    }
    Ok(events)
}

/// Starts a run: where the viewer holds no block of an earlier run, there is
/// nothing to verify, which is reported at once.
pub fn start(pool_is_empty: bool, updates: &mut Vec<Update>) -> (verification_done: bool)
    ensures
        verification_done == pool_is_empty,
        final(updates)@ == if pool_is_empty {
            old(updates)@.push(Update::VerificationDone)
        } else {
            old(updates)@
        },
{
    if pool_is_empty {
        updates.push(Update::VerificationDone);
    }
    pool_is_empty
}

/// Applies an event of a transaction that is not handled and reports it.
fn project_new_event(
    database: &mut Database,
    space_id: i64,
    verification_done: &mut bool,
    event: &HandlerEvent,
    updates: &mut Vec<Update>,
) -> (r: Result<(), StoreError>)
    requires
        !old(database)@.is_handled(event@.key(space_id)),
    ensures
        final(database)@ == event_projected(
            old(database)@,
            *old(verification_done),
            space_id,
            event@,
        ).0.database,
        *final(verification_done) == true,
        final(updates)@ == old(updates)@ + event_projected(
            old(database)@,
            *old(verification_done),
            space_id,
            event@,
        ).0.updates,
        match r {
            Ok(()) => event_projected(old(database)@, *old(verification_done), space_id, event@).1
                is None,
            Err(err) => event_projected(old(database)@, *old(verification_done), space_id, event@).1
                == Some(err),
        },
{
    let ghost before = updates@;
    if !*verification_done {
        updates.push(Update::VerificationDone);
        *verification_done = true;
    }
    let ghost first = updates@;
    match apply_event(database, space_id, event) {
        Ok(true) => {
            updates.push(
                Update::NewEvent {
                    block_hash: event.block_hash,
                    transaction_hash: event.transaction_hash,
                    block_timestamp: event.block_timestamp,
                },
            );
            assert(updates@ =~= before + announced(
                *old(verification_done),
                event@,
                Ok::<bool, StoreError>(true),
            ));
            Ok(())
        },
        Ok(false) => {
            assert(updates@ =~= before + announced(
                *old(verification_done),
                event@,
                Ok::<bool, StoreError>(false),
            ));
            Ok(())
        },
        Err(err) => {
            assert(updates@ =~= before + announced(
                *old(verification_done),
                event@,
                Err::<bool, StoreError>(err),
            ));
            Err(err)
        },
    }
}

/// Reports the verification of a handled transaction.
fn report_verified(
    verification_done: bool,
    block_hash: crate::ledger::Hash,
    transaction_hash: crate::ledger::Hash,
    block_timestamp: i64,
    updates: &mut Vec<Update>,
)
    ensures
        final(updates)@ == old(updates)@ + verified(
            verification_done,
            block_hash,
            transaction_hash,
            block_timestamp,
        ),
{
    if !verification_done {
        updates.push(Update::Verification { block_hash, transaction_hash, block_timestamp });
    }
    assert(updates@ =~= old(updates)@ + verified(
        verification_done,
        block_hash,
        transaction_hash,
        block_timestamp,
    ));
}

/// Projects one decoded event onto the read model of `space_id`, exactly
/// once: an event of a handled transaction changes nothing.
pub fn project_event(
    database: &mut Database,
    space_id: i64,
    verification_done: &mut bool,
    event: &HandlerEvent,
    updates: &mut Vec<Update>,
) -> (r: Result<(), StoreError>)
    ensures
        final(database)@ == projected(old(database)@, space_id, event@),
        final(database)@ == event_projected(
            old(database)@,
            *old(verification_done),
            space_id,
            event@,
        ).0.database,
        *final(verification_done) == event_projected(
            old(database)@,
            *old(verification_done),
            space_id,
            event@,
        ).0.verification_done,
        final(updates)@ == old(updates)@ + event_projected(
            old(database)@,
            *old(verification_done),
            space_id,
            event@,
        ).0.updates,
        match r {
            Ok(()) => event_projected(old(database)@, *old(verification_done), space_id, event@).1
                is None,
            Err(err) => event_projected(old(database)@, *old(verification_done), space_id, event@).1
                == Some(err),
        },
{
    if database.is_handled(space_id, &event.block_hash, &event.transaction_hash) {
        report_verified(
            *verification_done,
            event.block_hash,
            event.transaction_hash,
            event.block_timestamp,
            updates,
        );
        Ok(())
    } else {
        project_new_event(database, space_id, verification_done, event, updates)
    }
}

/// Projects one transaction of `block` onto the read model of `space_id`.
pub fn handle_transaction(
    database: &mut Database,
    space_id: i64,
    verification_done: &mut bool,
    block: &Block,
    transaction: &Transaction,
    updates: &mut Vec<Update>,
) -> (r: Result<(), RunError>)
    ensures
        final(database)@ == transaction_projected(
            old(database)@,
            *old(verification_done),
            space_id,
            *block,
            *transaction,
        ).0.database,
        *final(verification_done) == transaction_projected(
            old(database)@,
            *old(verification_done),
            space_id,
            *block,
            *transaction,
        ).0.verification_done,
        final(updates)@ == old(updates)@ + transaction_projected(
            old(database)@,
            *old(verification_done),
            space_id,
            *block,
            *transaction,
        ).0.updates,
        match r {
            Ok(()) => transaction_projected(
                old(database)@,
                *old(verification_done),
                space_id,
                *block,
                *transaction,
            ).1 is None,
            Err(err) => transaction_projected(
                old(database)@,
                *old(verification_done),
                space_id,
                *block,
                *transaction,
            ).1 == Some(err@),
        },
{
    if !transaction.is_valid {
        assert(updates@ =~= old(updates)@ + Seq::<Update>::empty());
        return Ok(());
    }
    if database.is_handled(space_id, &block.hash, &transaction.hash) {
        report_verified(*verification_done, block.hash, transaction.hash, block.timestamp, updates);
        return Ok(());
    }
    let event = match Events::deserialize(transaction.data.as_slice()) {
        Ok(event) => event,
        Err(err) => {
            assert(updates@ =~= old(updates)@ + Seq::<Update>::empty());
            return Err(RunError::Decode(err));
        },
    };
    let event = HandlerEvent {
        block_hash: block.hash,
        block_public_key: block.public_key,
        block_timestamp: block.timestamp,
        transaction_hash: transaction.hash,
        transaction_public_key: transaction.public_key,
        event,
    };
    match project_new_event(database, space_id, verification_done, &event, updates) {
        Ok(()) => Ok(()),
        Err(err) => Err(RunError::Store(err)),
    }
}

/// Projects the transactions of `block` onto the read model of `space_id`, in
/// their order. The first failure stops the run: the transactions before it
/// stay projected.
pub fn handle_block(
    database: &mut Database,
    space_id: i64,
    verification_done: &mut bool,
    block: &Block,
    updates: &mut Vec<Update>,
) -> (r: Result<(), RunError>)
    ensures
        final(database)@ == block_projected(
            old(database)@,
            *old(verification_done),
            space_id,
            *block,
            block.transactions@.len(),
        ).0.database,
        *final(verification_done) == block_projected(
            old(database)@,
            *old(verification_done),
            space_id,
            *block,
            block.transactions@.len(),
        ).0.verification_done,
        final(updates)@ == old(updates)@ + block_projected(
            old(database)@,
            *old(verification_done),
            space_id,
            *block,
            block.transactions@.len(),
        ).0.updates,
        match r {
            Ok(()) => block_projected(
                old(database)@,
                *old(verification_done),
                space_id,
                *block,
                block.transactions@.len(),
            ).1 is None,
            Err(err) => block_projected(
                old(database)@,
                *old(verification_done),
                space_id,
                *block,
                block.transactions@.len(),
            ).1 == Some(err@),
        },
{
    let n: usize = block.transactions.len();
    let mut i: usize = 0;
    assert(updates@ =~= old(updates)@ + Seq::<Update>::empty());
    while i < n
        invariant
            n == block.transactions@.len(),
            0 <= i <= n,
            block_projected(old(database)@, *old(verification_done), space_id, *block, i as nat).1
                is None,
            database@ == block_projected(
                old(database)@,
                *old(verification_done),
                space_id,
                *block,
                i as nat,
            ).0.database,
            *verification_done == block_projected(
                old(database)@,
                *old(verification_done),
                space_id,
                *block,
                i as nat,
            ).0.verification_done,
            updates@ == old(updates)@ + block_projected(
                old(database)@,
                *old(verification_done),
                space_id,
                *block,
                i as nat,
            ).0.updates,
        decreases n - i,
    {
        let ghost before = block_projected(
            old(database)@,
            *old(verification_done),
            space_id,
            *block,
            i as nat,
        );
        let ghost step = transaction_projected(
            database@,
            *verification_done,
            space_id,
            *block,
            block.transactions@[i as int],
        );
        let result = handle_transaction(
            database,
            space_id,
            verification_done,
            block,
            &block.transactions[i],
            updates,
        );
        proof {
            assert(updates@ =~= old(updates)@ + (before.0.updates + step.0.updates));
        }
        match result {
            Ok(()) => {},
            Err(err) => {
                proof {
                    lemma_block_stopped(
                        old(database)@,
                        *old(verification_done),
                        space_id,
                        *block,
                        (i + 1) as nat,
                        n as nat,
                    );
                }
                return Err(err);
            },
        }
        i += 1;
    }
    Ok(())
}

} // verus!

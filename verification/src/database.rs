//! The read model: users, public rooms, their messages and the set of handled
//! transactions, with the uniqueness rules of the relational schema.

use vstd::prelude::*;
use crate::ledger::PublicKey;
use crate::events::wire::append_bytes;
use crate::text::str_eq;
use crate::utils::{bytes_to_emoji, bytes_to_shortname, crc32, emoji_of_hash, shortname_of_hash};

verus! {

/// Largest number of rows of a table: row ids are positive `i64` values.
pub const MAX_ROWS: u64 = 0x7fff_ffff_ffff_ffff;

/// Why the store refused a write.
#[derive(Debug, Clone, Copy, PartialEq, Eq, Structural)]
pub enum StoreError {
    /// A uniqueness rule of the schema would be broken.
    Constraint,
    /// The table has no row id left.
    Full,
}

/// A space row as a value of contracts.
pub struct SpaceModel {
    pub title: Seq<char>,
    pub root_block: Seq<u8>,
    pub author: Seq<u8>,
}

/// A shard row as a value of contracts.
pub struct ShardModel {
    pub space_id: i64,
    pub address: Seq<char>,
}

/// A user row as a value of contracts.
pub struct UserModel {
    pub space_id: i64,
    pub public_key: Seq<u8>,
    pub nickname: Option<Seq<char>>,
}

/// A public room row as a value of contracts.
pub struct PublicRoomModel {
    pub space_id: i64,
    pub name: Seq<char>,
    pub author_id: i64,
    pub block_hash: Seq<u8>,
    pub transaction_hash: Seq<u8>,
}

/// A public message row as a value of contracts.
pub struct PublicRoomMessageModel {
    pub room_id: i64,
    pub user_id: i64,
    pub block_hash: Seq<u8>,
    pub transaction_hash: Seq<u8>,
    pub timestamp: i64,
    pub content: Seq<char>,
}

/// The key of a handled transaction as a value of contracts.
pub struct HandledModel {
    pub space_id: i64,
    pub block_hash: Seq<u8>,
    pub transaction_hash: Seq<u8>,
}

/// A space: one chat instance, backed by one ledger.
#[derive(Debug, Clone, PartialEq, Eq, Hash)]
pub struct SpaceInfo {
    /// Title of the space.
    pub title: String,
    /// Hash of the root block of the ledger.
    pub root_block: crate::ledger::Hash,
    /// Public key of the creator of the ledger.
    pub author: PublicKey,
}

impl View for SpaceInfo {
    type V = SpaceModel;

    open spec fn view(&self) -> SpaceModel {
        SpaceModel { title: self.title@, root_block: self.root_block@, author: self.author@ }
    }
}

impl SpaceInfo {
    /// The bytes that identify the space: its root block, then the key of its
    /// creator.
    pub open spec fn identity(self) -> Seq<u8> {
        self.root_block@ + self.author@
    }

    /// The bytes that identify the space.
    pub fn slice(&self) -> (r: Vec<u8>)
        ensures
            r@ == self.identity(),
    {
        let mut out: Vec<u8> = Vec::new();
        append_bytes(&mut out, self.root_block.0.as_slice());
        append_bytes(&mut out, self.author.0.as_slice());
        out
    }

    /// The emoji that stands for the space.
    pub fn emoji(&self) -> (r: &'static str)
        ensures
            r@ == emoji_of_hash(crc32(self.identity())),
    {
        bytes_to_emoji(self.slice().as_slice())
    }

    /// The short name that stands for the space.
    pub fn shortname(&self) -> (r: String)
        ensures
            r@ == shortname_of_hash(crc32(self.identity())),
    {
        bytes_to_shortname(self.slice().as_slice())
    }
}

/// The address of a shard that serves the ledger of a space.
#[derive(Debug, Clone, PartialEq, Eq, Hash)]
pub struct ShardInfo {
    pub space_id: i64,
    pub address: String,
}

impl View for ShardInfo {
    type V = ShardModel;

    open spec fn view(&self) -> ShardModel {
        ShardModel { space_id: self.space_id, address: self.address@ }
    }
}

/// A user of a space: created the first time its key authors a transaction.
#[derive(Debug, Clone, PartialEq, Eq, Hash)]
pub struct UserInfo {
    /// Id of the space the user belongs to.
    pub space_id: i64,
    /// Public key of the user.
    pub public_key: PublicKey,
    /// Nickname of the user, unique among all users where there is one.
    pub nickname: Option<String>,
}

impl View for UserInfo {
    type V = UserModel;

    open spec fn view(&self) -> UserModel {
        UserModel {
            space_id: self.space_id,
            public_key: self.public_key@,
            nickname: match self.nickname {
                Some(s) => Some(s@),
                None => None,
            },
        }
    }
}

/// A public room of a space.
#[derive(Debug, Clone, PartialEq, Eq, Hash)]
pub struct PublicRoomInfo {
    /// Id of the space the room belongs to.
    pub space_id: i64,
    /// Name of the room, unique within its space.
    pub name: String,
    /// Id of the user who created the room.
    pub author_id: i64,
    /// Hash of the block that holds the creation.
    pub block_hash: crate::ledger::Hash,
    /// Hash of the transaction that holds the creation.
    pub transaction_hash: crate::ledger::Hash,
}

impl View for PublicRoomInfo {
    type V = PublicRoomModel;

    open spec fn view(&self) -> PublicRoomModel {
        PublicRoomModel {
            space_id: self.space_id,
            name: self.name@,
            author_id: self.author_id,
            block_hash: self.block_hash@,
            transaction_hash: self.transaction_hash@,
        }
    }
}

/// A message of a public room.
#[derive(Debug, Clone, PartialEq, Eq, Hash)]
pub struct PublicRoomMessageInfo {
    /// Id of the room the message was sent to.
    pub room_id: i64,
    /// Id of the user who sent the message.
    pub user_id: i64,
    /// Hash of the block that holds the message.
    pub block_hash: crate::ledger::Hash,
    /// Hash of the transaction that holds the message.
    pub transaction_hash: crate::ledger::Hash,
    /// Seconds since the Unix epoch at which the block was made.
    pub timestamp: i64,
    /// Text of the message.
    pub content: String,
}

impl View for PublicRoomMessageInfo {
    type V = PublicRoomMessageModel;

    open spec fn view(&self) -> PublicRoomMessageModel {
        PublicRoomMessageModel {
            room_id: self.room_id,
            user_id: self.user_id,
            block_hash: self.block_hash@,
            transaction_hash: self.transaction_hash@,
            timestamp: self.timestamp,
            content: self.content@,
        }
    }
}

/// The key under which a transaction is remembered as handled.
#[derive(Debug, Clone, Copy, PartialEq, Eq, Hash)]
pub struct HandledTransaction {
    pub space_id: i64,
    pub block_hash: crate::ledger::Hash,
    pub transaction_hash: crate::ledger::Hash,
}

impl View for HandledTransaction {
    type V = HandledModel;

    open spec fn view(&self) -> HandledModel {
        HandledModel {
            space_id: self.space_id,
            block_hash: self.block_hash@,
            transaction_hash: self.transaction_hash@,
        }
    }
}

/// Whether the space row at `i` has the given root block.
pub open spec fn space_at(spaces: Seq<SpaceModel>, i: int, root_block: Seq<u8>) -> bool {
    0 <= i < spaces.len() && spaces[i].root_block == root_block
}

/// Whether the shard row at `i` has the given space and address.
pub open spec fn shard_at(shards: Seq<ShardModel>, i: int, space_id: i64, address: Seq<char>) -> bool {
    0 <= i < shards.len() && shards[i].space_id == space_id && shards[i].address == address
}

/// Whether the user row at `i` has the given space and key.
pub open spec fn user_at(users: Seq<UserModel>, i: int, space_id: i64, public_key: Seq<u8>) -> bool {
    0 <= i < users.len() && users[i].space_id == space_id && users[i].public_key == public_key
}

/// Whether the user row at `i` has the given nickname.
pub open spec fn nickname_at(users: Seq<UserModel>, i: int, nickname: Seq<char>) -> bool {
    0 <= i < users.len() && users[i].nickname == Some(nickname)
}

/// Whether the room row at `i` has the given space and name.
pub open spec fn room_at(rooms: Seq<PublicRoomModel>, i: int, space_id: i64, name: Seq<char>) -> bool {
    0 <= i < rooms.len() && rooms[i].space_id == space_id && rooms[i].name == name
}

/// Whether the message row at `i` was sent to the given room by the given
/// transaction.
pub open spec fn message_at(
    messages: Seq<PublicRoomMessageModel>,
    i: int,
    room_id: i64,
    block_hash: Seq<u8>,
    transaction_hash: Seq<u8>,
) -> bool {
    0 <= i < messages.len() && messages[i].room_id == room_id && messages[i].block_hash
        == block_hash && messages[i].transaction_hash == transaction_hash
}

/// One space per root block, and every row id fits an `i64`.
pub open spec fn spaces_well_formed(spaces: Seq<SpaceModel>) -> bool {
    &&& forall|i: int, j: int, r: Seq<u8>| space_at(spaces, i, r) && space_at(spaces, j, r) ==> i == j
    &&& spaces.len() <= MAX_ROWS
}

/// One row per shard of a space.
pub open spec fn shards_well_formed(shards: Seq<ShardModel>) -> bool {
    forall|i: int, j: int, s: i64, a: Seq<char>|
        shard_at(shards, i, s, a) && shard_at(shards, j, s, a) ==> i == j
}

/// One user per space and key, one user per nickname, and every row id fits
/// an `i64`.
pub open spec fn users_well_formed(users: Seq<UserModel>) -> bool {
    &&& forall|i: int, j: int, s: i64, k: Seq<u8>|
        user_at(users, i, s, k) && user_at(users, j, s, k) ==> i == j
    &&& forall|i: int, j: int, n: Seq<char>|
        nickname_at(users, i, n) && nickname_at(users, j, n) ==> i == j
    &&& users.len() <= MAX_ROWS
}

/// One room per space and name, and every row id fits an `i64`.
pub open spec fn rooms_well_formed(rooms: Seq<PublicRoomModel>) -> bool {
    &&& forall|i: int, j: int, s: i64, n: Seq<char>|
        room_at(rooms, i, s, n) && room_at(rooms, j, s, n) ==> i == j
    &&& rooms.len() <= MAX_ROWS
}

/// One marker per handled transaction.
pub open spec fn handled_well_formed(handled: Seq<HandledModel>) -> bool {
    forall|i: int, j: int|
        0 <= i < handled.len() && 0 <= j < handled.len() && handled[i] == handled[j] ==> i == j
}

/// The read model as a value of contracts: each table as the sequence of its
/// rows in the order of insertion. The row at index `i` has the id `i + 1`.
pub struct DatabaseModel {
    pub spaces: Seq<SpaceModel>,
    pub shards: Seq<ShardModel>,
    pub users: Seq<UserModel>,
    pub public_rooms: Seq<PublicRoomModel>,
    pub public_messages: Seq<PublicRoomMessageModel>,
    pub handled: Seq<HandledModel>,
}

impl DatabaseModel {
    /// The read model without rows.
    pub open spec fn empty() -> DatabaseModel {
        DatabaseModel {
            spaces: Seq::empty(),
            shards: Seq::empty(),
            users: Seq::empty(),
            public_rooms: Seq::empty(),
            public_messages: Seq::empty(),
            handled: Seq::empty(),
        }
    }

    /// The uniqueness rules of the schema hold, and every row id fits an
    /// `i64`.
    pub open spec fn well_formed(self) -> bool {
        &&& spaces_well_formed(self.spaces)
        &&& shards_well_formed(self.shards)
        &&& users_well_formed(self.users)
        &&& rooms_well_formed(self.public_rooms)
        &&& handled_well_formed(self.handled)
        &&& self.public_messages.len() <= MAX_ROWS
    }

    /// Whether the transaction `key` is marked as handled.
    pub open spec fn is_handled(self, key: HandledModel) -> bool {
        self.handled.contains(key)
    }

    /// The read model after `key` was marked as handled: a marker is added
    /// unless there is one.
    pub open spec fn mark_handled(self, key: HandledModel) -> DatabaseModel {
        if self.is_handled(key) {
            self
        } else {
            DatabaseModel { handled: self.handled.push(key), ..self }
        }
    }

    /// The id of the space with the root block `root_block`.
    pub open spec fn find_space(self, root_block: Seq<u8>) -> Option<i64> {
        if exists|i: int| space_at(self.spaces, i, root_block) {
            Some(((choose|i: int| space_at(self.spaces, i, root_block)) + 1) as i64)
        } else {
            None
        }
    }

    /// The read model after the insertion of the space `space`, and the id of
    /// the new row or the reason why there is none.
    pub open spec fn create_space(self, space: SpaceModel) -> (DatabaseModel, Result<i64, StoreError>) {
        if self.find_space(space.root_block) is Some {
            (self, Err(StoreError::Constraint))
        } else if self.spaces.len() >= MAX_ROWS {
            (self, Err(StoreError::Full))
        } else {
            (
                DatabaseModel { spaces: self.spaces.push(space), ..self },
                Ok((self.spaces.len() + 1) as i64),
            )
        }
    }

    /// The read model after the space `id` got the title `title`; nothing
    /// changes where there is no such space.
    pub open spec fn update_title(self, id: i64, title: Seq<char>) -> DatabaseModel {
        if 1 <= id <= self.spaces.len() {
            DatabaseModel {
                spaces: self.spaces.update(id - 1, SpaceModel { title, ..self.spaces[id - 1] }),
                ..self
            }
        } else {
            self
        }
    }

    /// The id that follows `after` among the ids of the spaces.
    pub open spec fn next_space(self, after: i64) -> Option<i64> {
        let next = if after < 0 {
            1
        } else {
            after + 1
        };
        if next <= self.spaces.len() {
            Some(next as i64)
        } else {
            None
        }
    }

    /// Whether the space `space_id` has the shard `address`.
    pub open spec fn has_shard(self, space_id: i64, address: Seq<char>) -> bool {
        exists|i: int| shard_at(self.shards, i, space_id, address)
    }

    /// The read model after the shard `address` was added to the space
    /// `space_id`: a row is added unless there is one.
    pub open spec fn add_shard(self, space_id: i64, address: Seq<char>) -> DatabaseModel {
        if self.has_shard(space_id, address) {
            self
        } else {
            DatabaseModel { shards: self.shards.push(ShardModel { space_id, address }), ..self }
        }
    }

    /// The addresses of the shards of the space `space_id`, in the order in
    /// which they were added.
    pub open spec fn shards_of(self, space_id: i64) -> Seq<Seq<char>> {
        self.shards.filter(|s: ShardModel| s.space_id == space_id).map_values(
            |s: ShardModel| s.address,
        )
    }

    /// The id of the user of `space_id` with the key `public_key`.
    pub open spec fn find_user(self, space_id: i64, public_key: Seq<u8>) -> Option<i64> {
        if exists|i: int| user_at(self.users, i, space_id, public_key) {
            Some(((choose|i: int| user_at(self.users, i, space_id, public_key)) + 1) as i64)
        } else {
            None
        }
    }

    /// Whether some user has the nickname `nickname`.
    pub open spec fn nickname_taken(self, nickname: Seq<char>) -> bool {
        exists|i: int| nickname_at(self.users, i, nickname)
    }

    /// Whether a user other than `id` has the nickname `nickname`.
    pub open spec fn nickname_taken_by_other(self, id: i64, nickname: Seq<char>) -> bool {
        exists|i: int| i != id - 1 && nickname_at(self.users, i, nickname)
    }

    /// The read model after the insertion of the user `user`, and the id of
    /// the new row or the reason why there is none.
    pub open spec fn create_user(self, user: UserModel) -> (DatabaseModel, Result<i64, StoreError>) {
        if self.find_user(user.space_id, user.public_key) is Some || (user.nickname is Some
            && self.nickname_taken(user.nickname->0)) {
            (self, Err(StoreError::Constraint))
        } else if self.users.len() >= MAX_ROWS {
            (self, Err(StoreError::Full))
        } else {
            (
                DatabaseModel { users: self.users.push(user), ..self },
                Ok((self.users.len() + 1) as i64),
            )
        }
    }

    /// The read model after the user `id` got the nickname `nickname`, and the
    /// outcome. Nothing changes where there is no such user, or where another
    /// user has that nickname, which is an error.
    pub open spec fn update_nickname(self, id: i64, nickname: Seq<char>) -> (
        DatabaseModel,
        Result<(), StoreError>,
    ) {
        if !(1 <= id <= self.users.len()) {
            (self, Ok(()))
        } else if self.nickname_taken_by_other(id, nickname) {
            (self, Err(StoreError::Constraint))
        } else {
            (
                DatabaseModel {
                    users: self.users.update(
                        id - 1,
                        UserModel { nickname: Some(nickname), ..self.users[id - 1] },
                    ),
                    ..self
                },
                Ok(()),
            )
        }
    }

    /// The id of the room of `space_id` with the name `name`.
    pub open spec fn find_public_room(self, space_id: i64, name: Seq<char>) -> Option<i64> {
        if exists|i: int| room_at(self.public_rooms, i, space_id, name) {
            Some(((choose|i: int| room_at(self.public_rooms, i, space_id, name)) + 1) as i64)
        } else {
            None
        }
    }

    /// Whether a room other than `id` has the given space and name.
    pub open spec fn room_name_taken_by_other(self, id: i64, space_id: i64, name: Seq<char>) -> bool {
        exists|i: int| i != id - 1 && room_at(self.public_rooms, i, space_id, name)
    }

    /// The read model after the insertion of the room `room`, and the id of
    /// the new row or the reason why there is none.
    pub open spec fn create_public_room(self, room: PublicRoomModel) -> (
        DatabaseModel,
        Result<i64, StoreError>,
    ) {
        if self.find_public_room(room.space_id, room.name) is Some {
            (self, Err(StoreError::Constraint))
        } else if self.public_rooms.len() >= MAX_ROWS {
            (self, Err(StoreError::Full))
        } else {
            (
                DatabaseModel { public_rooms: self.public_rooms.push(room), ..self },
                Ok((self.public_rooms.len() + 1) as i64),
            )
        }
    }

    /// The read model after the room `id` got the name `name`, and the
    /// outcome. Nothing changes where there is no such room, or where another
    /// room of its space has that name, which is an error.
    pub open spec fn update_name(self, id: i64, name: Seq<char>) -> (
        DatabaseModel,
        Result<(), StoreError>,
    ) {
        if !(1 <= id <= self.public_rooms.len()) {
            (self, Ok(()))
        } else if self.room_name_taken_by_other(id, self.public_rooms[id - 1].space_id, name) {
            (self, Err(StoreError::Constraint))
        } else {
            (
                DatabaseModel {
                    public_rooms: self.public_rooms.update(
                        id - 1,
                        PublicRoomModel { name, ..self.public_rooms[id - 1] },
                    ),
                    ..self
                },
                Ok(()),
            )
        }
    }

    /// Whether `next` is the id that follows `after` among the ids of the
    /// rooms of the space `space_id`: the least id above `after`, or `None`
    /// where the space has no room above it.
    pub open spec fn is_next_public_room(self, space_id: i64, after: i64, next: Option<i64>) -> bool {
        match next {
            Some(id) => {
                &&& after < id
                &&& 1 <= id <= self.public_rooms.len()
                &&& self.public_rooms[id - 1].space_id == space_id
                &&& forall|k: int|
                    after < k < id && 1 <= k ==> (#[trigger] self.public_rooms[k - 1]).space_id
                        != space_id
            },
            None => forall|k: int|
                after < k && 1 <= k <= self.public_rooms.len() ==> (
                #[trigger] self.public_rooms[k - 1]).space_id != space_id,
        }
    }

    /// Whether the room `id` was created by the given transaction.
    pub open spec fn room_created_by(self, id: i64, block_hash: Seq<u8>, transaction_hash: Seq<u8>) -> bool {
        &&& 1 <= id <= self.public_rooms.len()
        &&& self.public_rooms[id - 1].block_hash == block_hash
        &&& self.public_rooms[id - 1].transaction_hash == transaction_hash
    }

    /// Whether the room `room_id` holds a message of the given transaction.
    pub open spec fn has_public_message(
        self,
        room_id: i64,
        block_hash: Seq<u8>,
        transaction_hash: Seq<u8>,
    ) -> bool {
        exists|i: int| message_at(self.public_messages, i, room_id, block_hash, transaction_hash)
    }

    /// The read model after the insertion of the message `message`, and the
    /// id of the new row or the reason why there is none.
    pub open spec fn create_public_message(self, message: PublicRoomMessageModel) -> (
        DatabaseModel,
        Result<i64, StoreError>,
    ) {
        if self.public_messages.len() >= MAX_ROWS {
            (self, Err(StoreError::Full))
        } else {
            (
                DatabaseModel { public_messages: self.public_messages.push(message), ..self },
                Ok((self.public_messages.len() + 1) as i64),
            )
        }
    }

    /// In a well-formed read model the space at `i` is the one that is found
    /// by its root block.
    pub proof fn lemma_find_space(self, i: int)
        requires
            self.well_formed(),
            0 <= i < self.spaces.len(),
        ensures
            self.find_space(self.spaces[i].root_block) == Some((i + 1) as i64),
    {
        let r = self.spaces[i].root_block;
        assert(space_at(self.spaces, i, r));
        let c = choose|c: int| space_at(self.spaces, c, r);
        assert(space_at(self.spaces, c, r));
    }

    /// In a well-formed read model the user at `i` is the one that is found
    /// by its space and key.
    pub proof fn lemma_find_user(self, i: int)
        requires
            self.well_formed(),
            0 <= i < self.users.len(),
        ensures
            self.find_user(self.users[i].space_id, self.users[i].public_key) == Some(
                (i + 1) as i64,
            ),
    {
        let s = self.users[i].space_id;
        let k = self.users[i].public_key;
        assert(user_at(self.users, i, s, k));
        let c = choose|c: int| user_at(self.users, c, s, k);
        assert(user_at(self.users, c, s, k));
    }

    /// In a well-formed read model the room at `i` is the one that is found
    /// by its space and name.
    pub proof fn lemma_find_public_room(self, i: int)
        requires
            self.well_formed(),
            0 <= i < self.public_rooms.len(),
        ensures
            self.find_public_room(self.public_rooms[i].space_id, self.public_rooms[i].name)
                == Some((i + 1) as i64),
    {
        let s = self.public_rooms[i].space_id;
        let n = self.public_rooms[i].name;
        assert(room_at(self.public_rooms, i, s, n));
        let c = choose|c: int| room_at(self.public_rooms, c, s, n);
        assert(room_at(self.public_rooms, c, s, n));
    }

    /// Each insertion keeps the read model well-formed.
    pub proof fn lemma_writes_keep_well_formed(self)
        requires
            self.well_formed(),
        ensures
            forall|key: HandledModel| #[trigger] self.mark_handled(key).well_formed(),
            forall|space: SpaceModel| (#[trigger] self.create_space(space)).0.well_formed(),
            forall|s: i64, a: Seq<char>| #[trigger] self.add_shard(s, a).well_formed(),
            forall|user: UserModel| (#[trigger] self.create_user(user)).0.well_formed(),
            forall|room: PublicRoomModel| (#[trigger] self.create_public_room(room)).0.well_formed(),
            forall|message: PublicRoomMessageModel|
                (#[trigger] self.create_public_message(message)).0.well_formed(),
    {
        assert forall|space: SpaceModel| (#[trigger] self.create_space(space)).0.well_formed() by {
            let m = self.create_space(space).0;
            if m != self {
                assert forall|i: int, j: int, r: Seq<u8>|
                    space_at(m.spaces, i, r) && space_at(m.spaces, j, r) implies i == j by {
                    if i < self.spaces.len() {
                        assert(space_at(self.spaces, i, r));
                    }
                    if j < self.spaces.len() {
                        assert(space_at(self.spaces, j, r));
                    }
                }
            }
        }
        assert forall|s: i64, a: Seq<char>| #[trigger] self.add_shard(s, a).well_formed() by {
            let m = self.add_shard(s, a);
            if m != self {
                assert forall|i: int, j: int, t: i64, b: Seq<char>|
                    shard_at(m.shards, i, t, b) && shard_at(m.shards, j, t, b) implies i == j by {
                    if i < self.shards.len() {
                        assert(shard_at(self.shards, i, t, b));
                    }
                    if j < self.shards.len() {
                        assert(shard_at(self.shards, j, t, b));
                    }
                }
            }
        }
        assert forall|user: UserModel| (#[trigger] self.create_user(user)).0.well_formed() by {
            let m = self.create_user(user).0;
            if m != self {
                assert forall|i: int, j: int, s: i64, k: Seq<u8>|
                    user_at(m.users, i, s, k) && user_at(m.users, j, s, k) implies i == j by {
                    if i < self.users.len() {
                        assert(user_at(self.users, i, s, k));
                    }
                    if j < self.users.len() {
                        assert(user_at(self.users, j, s, k));
                    }
                }
                assert forall|i: int, j: int, n: Seq<char>|
                    nickname_at(m.users, i, n) && nickname_at(m.users, j, n) implies i == j by {
                    if i < self.users.len() {
                        assert(nickname_at(self.users, i, n));
                    }
                    if j < self.users.len() {
                        assert(nickname_at(self.users, j, n));
                    }
                }
            }
        }
        assert forall|room: PublicRoomModel| (#[trigger] self.create_public_room(room)).0.well_formed() by {
            let m = self.create_public_room(room).0;
            if m != self {
                assert forall|i: int, j: int, s: i64, n: Seq<char>|
                    room_at(m.public_rooms, i, s, n) && room_at(m.public_rooms, j, s, n) implies i
                    == j by {
                    if i < self.public_rooms.len() {
                        assert(room_at(self.public_rooms, i, s, n));
                    }
                    if j < self.public_rooms.len() {
                        assert(room_at(self.public_rooms, j, s, n));
                    }
                }
            }
        }
    }

    /// Each update of a row keeps the read model well-formed.
    pub proof fn lemma_updates_keep_well_formed(self)
        requires
            self.well_formed(),
        ensures
            forall|id: i64, title: Seq<char>| #[trigger] self.update_title(id, title).well_formed(),
            forall|id: i64, n: Seq<char>| (#[trigger] self.update_nickname(id, n)).0.well_formed(),
            forall|id: i64, n: Seq<char>| (#[trigger] self.update_name(id, n)).0.well_formed(),
    {
        assert forall|id: i64, title: Seq<char>| #[trigger]
            self.update_title(id, title).well_formed() by {
            let m = self.update_title(id, title);
            assert forall|i: int, j: int, r: Seq<u8>|
                space_at(m.spaces, i, r) && space_at(m.spaces, j, r) implies i == j by {
                assert(space_at(self.spaces, i, r));
                assert(space_at(self.spaces, j, r));
            }
        }
        assert forall|id: i64, n: Seq<char>| (#[trigger] self.update_nickname(id, n)).0.well_formed() by {
            let m = self.update_nickname(id, n).0;
            if m != self {
                assert forall|i: int, j: int, s: i64, k: Seq<u8>|
                    user_at(m.users, i, s, k) && user_at(m.users, j, s, k) implies i == j by {
                    assert(user_at(self.users, i, s, k));
                    assert(user_at(self.users, j, s, k));
                }
                assert forall|i: int, j: int, x: Seq<char>|
                    nickname_at(m.users, i, x) && nickname_at(m.users, j, x) implies i == j by {
                    if i != id - 1 {
                        assert(nickname_at(self.users, i, x));
                    }
                    if j != id - 1 {
                        assert(nickname_at(self.users, j, x));
                    }
                }
            }
        }
        assert forall|id: i64, n: Seq<char>| (#[trigger] self.update_name(id, n)).0.well_formed() by {
            let m = self.update_name(id, n).0;
            if m != self {
                assert forall|i: int, j: int, s: i64, x: Seq<char>|
                    room_at(m.public_rooms, i, s, x) && room_at(m.public_rooms, j, s, x) implies i
                    == j by {
                    if i != id - 1 {
                        assert(room_at(self.public_rooms, i, s, x));
                    }
                    if j != id - 1 {
                        assert(room_at(self.public_rooms, j, s, x));
                    }
                }
            }
        }
    }

    /// A well-formed read model stays well-formed when one table is emptied.
    pub proof fn lemma_emptied_table_well_formed(self)
        requires
            self.well_formed(),
        ensures
            (DatabaseModel { spaces: Seq::empty(), ..self }).well_formed(),
            (DatabaseModel { shards: Seq::empty(), ..self }).well_formed(),
            (DatabaseModel { users: Seq::empty(), ..self }).well_formed(),
            (DatabaseModel { public_rooms: Seq::empty(), ..self }).well_formed(),
            (DatabaseModel { public_messages: Seq::empty(), ..self }).well_formed(),
            (DatabaseModel { handled: Seq::empty(), ..self }).well_formed(),
    {
    }
}

/// The read model, held in memory.
#[derive(Debug)]
pub struct Database {
    spaces: Vec<SpaceInfo>,
    shards: Vec<ShardInfo>,
    users: Vec<UserInfo>,
    public_rooms: Vec<PublicRoomInfo>,
    public_messages: Vec<PublicRoomMessageInfo>,
    handled_transactions: Vec<HandledTransaction>,
}

impl View for Database {
    type V = DatabaseModel;

    closed spec fn view(&self) -> DatabaseModel {
        DatabaseModel {
            spaces: self.spaces@.map_values(|s: SpaceInfo| s@),
            shards: self.shards@.map_values(|s: ShardInfo| s@),
            users: self.users@.map_values(|u: UserInfo| u@),
            public_rooms: self.public_rooms@.map_values(|r: PublicRoomInfo| r@),
            public_messages: self.public_messages@.map_values(|m: PublicRoomMessageInfo| m@),
            handled: self.handled_transactions@.map_values(|h: HandledTransaction| h@),
        }
    }
}

/// The row id of the row at index `i`.
fn row_id(i: usize) -> (r: i64)
    requires
        i < MAX_ROWS,
    ensures
        r == i + 1,
{
    (i as u64 + 1) as i64
}

/// The index of the row with the id `id` in a table of `len` rows.
fn row_index(id: i64, len: usize) -> (r: Option<usize>)
    ensures
        match r {
            Some(i) => i == id - 1 && 0 <= i < len,
            None => !(1 <= id <= len),
        },
{
    if id < 1 || (id as u64 - 1) >= len as u64 {
        None
    } else {
        Some((id as u64 - 1) as usize)
    }
}

impl Database {
    /// The read model obeys the rules of the schema.
    #[verifier::type_invariant]
    pub open spec fn wf(&self) -> bool {
        self@.well_formed()
    }

    /// The read model without rows.
    pub fn new() -> (r: Self)
        ensures
            r@ == DatabaseModel::empty(),
    {
        let r = Database {
            spaces: Vec::new(),
            shards: Vec::new(),
            users: Vec::new(),
            public_rooms: Vec::new(),
            public_messages: Vec::new(),
            handled_transactions: Vec::new(),
        };
        assert(r@.spaces =~= Seq::empty());
        assert(r@.shards =~= Seq::empty());
        assert(r@.users =~= Seq::empty());
        assert(r@.public_rooms =~= Seq::empty());
        assert(r@.public_messages =~= Seq::empty());
        assert(r@.handled =~= Seq::empty());
        r
    }

    /// Whether the transaction is marked as handled.
    pub fn is_handled(
        &self,
        space_id: i64,
        block_hash: &crate::ledger::Hash,
        transaction_hash: &crate::ledger::Hash,
    ) -> (r: bool)
        ensures
            r == self@.is_handled(
                HandledModel {
                    space_id,
                    block_hash: block_hash@,
                    transaction_hash: transaction_hash@,
                },
            ),
            self@.well_formed(),
    {
        proof {
            use_type_invariant(self);
        }
        let ghost key = HandledModel {
            space_id,
            block_hash: block_hash@,
            transaction_hash: transaction_hash@,
        };
        let n: usize = self.handled_transactions.len();
        let mut i: usize = 0;
        while i < n
            invariant
                n == self.handled_transactions@.len(),
                self@.well_formed(),
                0 <= i <= n,
                key == (HandledModel {
                    space_id,
                    block_hash: block_hash@,
                    transaction_hash: transaction_hash@,
                }),
                forall|j: int| 0 <= j < i ==> self@.handled[j] != key,
            decreases n - i,
        {
            let row = &self.handled_transactions[i];
            if row.space_id == space_id && row.block_hash.same(block_hash)
                && row.transaction_hash.same(transaction_hash) {
                assert(self@.handled[i as int] == key);
                return true;
            }
            i += 1;
        }
        false
    }

    /// Marks the transaction as handled; a transaction that is marked stays
    /// marked once.
    pub fn mark_handled(
        &mut self,
        space_id: i64,
        block_hash: crate::ledger::Hash,
        transaction_hash: crate::ledger::Hash,
    )
        ensures
            final(self)@ == old(self)@.mark_handled(
                HandledModel {
                    space_id,
                    block_hash: block_hash@,
                    transaction_hash: transaction_hash@,
                },
            ),
            final(self)@.well_formed(),
    {
        proof {
            use_type_invariant(&*self);
            self@.lemma_writes_keep_well_formed();
            self@.lemma_emptied_table_well_formed();
        }
        if self.is_handled(space_id, &block_hash, &transaction_hash) {
            return ;
        }
        let ghost key = HandledModel {
            space_id,
            block_hash: block_hash@,
            transaction_hash: transaction_hash@,
        };
        let ghost goal = old(self)@.mark_handled(key);
        let mut rows: Vec<HandledTransaction> = Vec::new();
        proof {
            assert(rows@.map_values(|h: HandledTransaction| h@) =~= Seq::empty());
        }
        core::mem::swap(&mut self.handled_transactions, &mut rows);
        rows.push(HandledTransaction { space_id, block_hash, transaction_hash });
        proof {
            assert(rows@.map_values(|h: HandledTransaction| h@) =~= goal.handled);
        }
        core::mem::swap(&mut self.handled_transactions, &mut rows);
    }

    /// The id of the space with the root block `root_block`.
    pub fn find_space(&self, root_block: &crate::ledger::Hash) -> (r: Option<i64>)
        ensures
            r == self@.find_space(root_block@),
            self@.well_formed(),
    {
        proof {
            use_type_invariant(self);
        }
        let n: usize = self.spaces.len();
        let mut i: usize = 0;
        while i < n
            invariant
                n == self.spaces@.len(),
                self@.well_formed(),
                0 <= i <= n,
                forall|j: int| 0 <= j < i ==> !space_at(self@.spaces, j, root_block@),
            decreases n - i,
        {
            if self.spaces[i].root_block.same(root_block) {
                proof {
                    self@.lemma_find_space(i as int);
                }
                return Some(row_id(i));
            }
            i += 1;
        }
        None
    }

    /// Inserts the space `info`. Fails where a space has that root block, or
    /// where no row id is left.
    pub fn create_space(&mut self, info: SpaceInfo) -> (r: Result<i64, StoreError>)
        ensures
            (final(self)@, r) == old(self)@.create_space(info@),
            final(self)@.well_formed(),
    {
        proof {
            use_type_invariant(&*self);
            self@.lemma_writes_keep_well_formed();
            self@.lemma_emptied_table_well_formed();
        }
        if self.find_space(&info.root_block).is_some() {
            return Err(StoreError::Constraint);
        }
        let n: usize = self.spaces.len();
        if n as u64 >= MAX_ROWS {
            return Err(StoreError::Full);
        }
        let ghost goal = old(self)@.create_space(info@).0;
        let mut rows: Vec<SpaceInfo> = Vec::new();
        proof {
            assert(rows@.map_values(|s: SpaceInfo| s@) =~= Seq::empty());
        }
        core::mem::swap(&mut self.spaces, &mut rows);
        rows.push(info);
        proof {
            assert(rows@.map_values(|s: SpaceInfo| s@) =~= goal.spaces);
        }
        core::mem::swap(&mut self.spaces, &mut rows);
        Ok(row_id(n))
    }

    /// The space with the id `id`.
    pub fn space(&self, id: i64) -> (r: Option<&SpaceInfo>)
        ensures
            match r {
                Some(row) => 1 <= id <= self@.spaces.len() && row@ == self@.spaces[id - 1],
                None => !(1 <= id <= self@.spaces.len()),
            },
    {
        match row_index(id, self.spaces.len()) {
            Some(i) => Some(&self.spaces[i]),
            None => None,
        }
    }

    /// Gives the space `id` the title `title`; nothing changes where there is
    /// no such space.
    pub fn update_title(&mut self, id: i64, title: &str)
        ensures
            final(self)@ == old(self)@.update_title(id, title@),
            final(self)@.well_formed(),
    {
        proof {
            use_type_invariant(&*self);
            self@.lemma_updates_keep_well_formed();
            self@.lemma_emptied_table_well_formed();
        }
        let i = match row_index(id, self.spaces.len()) {
            Some(i) => i,
            None => {
                return ;
            },
        };
        let ghost goal = old(self)@.update_title(id, title@);
        let row = SpaceInfo {
            title: title.to_owned(),
            root_block: self.spaces[i].root_block,
            author: self.spaces[i].author,
        };
        let mut rows: Vec<SpaceInfo> = Vec::new();
        proof {
            assert(rows@.map_values(|s: SpaceInfo| s@) =~= Seq::empty());
        }
        core::mem::swap(&mut self.spaces, &mut rows);
        rows.set(i, row);
        proof {
            assert(rows@.map_values(|s: SpaceInfo| s@) =~= goal.spaces);
        }
        core::mem::swap(&mut self.spaces, &mut rows);
    }

    /// The id that follows `after` among the ids of the spaces.
    pub fn next_space(&self, after: i64) -> (r: Option<i64>)
        ensures
            r == self@.next_space(after),
    {
        proof {
            use_type_invariant(self);
        }
        let n: usize = self.spaces.len();
        let index: u64 = if after < 0 {
            0
        } else {
            after as u64
        };
        if index < n as u64 {
            Some(row_id(index as usize))
        } else {
            None
        }
    }

    /// A cursor over the ids of the spaces, before the first.
    pub fn spaces(&self) -> (r: SpacesIter)
        ensures
            r.current == 0,
    {
        SpacesIter { current: 0 }
    }

    /// Whether the space `space_id` has the shard `address`.
    pub fn has_shard(&self, space_id: i64, address: &str) -> (r: bool)
        ensures
            r == self@.has_shard(space_id, address@),
    {
        let n: usize = self.shards.len();
        let mut i: usize = 0;
        while i < n
            invariant
                n == self.shards@.len(),
                0 <= i <= n,
                forall|j: int| 0 <= j < i ==> !shard_at(self@.shards, j, space_id, address@),
            decreases n - i,
        {
            if self.shards[i].space_id == space_id && str_eq(
                self.shards[i].address.as_str(),
                address,
            ) {
                assert(shard_at(self@.shards, i as int, space_id, address@));
                return true;
            }
            i += 1;
        }
        false
    }

    /// Adds the shard `address` to the space `space_id`, unless it has it.
    pub fn add_shard(&mut self, space_id: i64, address: &str)
        ensures
            final(self)@ == old(self)@.add_shard(space_id, address@),
            final(self)@.well_formed(),
    {
        proof {
            use_type_invariant(&*self);
            self@.lemma_writes_keep_well_formed();
            self@.lemma_emptied_table_well_formed();
        }
        if self.has_shard(space_id, address) {
            return ;
        }
        let ghost goal = old(self)@.add_shard(space_id, address@);
        let mut rows: Vec<ShardInfo> = Vec::new();
        proof {
            assert(rows@.map_values(|s: ShardInfo| s@) =~= Seq::empty());
        }
        core::mem::swap(&mut self.shards, &mut rows);
        rows.push(ShardInfo { space_id, address: address.to_owned() });
        proof {
            assert(rows@.map_values(|s: ShardInfo| s@) =~= goal.shards);
        }
        core::mem::swap(&mut self.shards, &mut rows);
    }

    /// The addresses of the shards of the space `space_id`, in the order in
    /// which they were added.
    pub fn shards(&self, space_id: i64) -> (r: Vec<String>)
        ensures
            r@.map_values(|a: String| a@) == self@.shards_of(space_id),
    {
        let ghost pred = |s: ShardModel| s.space_id == space_id;
        let ghost addr = |s: ShardModel| s.address;
        let mut out: Vec<String> = Vec::new();
        let n: usize = self.shards.len();
        let mut i: usize = 0;
        proof {
            reveal(Seq::filter);
            assert(self@.shards.subrange(0, 0) =~= Seq::empty());
            assert(out@.map_values(|a: String| a@) =~= Seq::empty());
            assert(Seq::<ShardModel>::empty().filter(pred).map_values(addr) =~= Seq::empty());
        }
        while i < n
            invariant
                n == self.shards@.len(),
                0 <= i <= n,
                pred == (|s: ShardModel| s.space_id == space_id),
                addr == (|s: ShardModel| s.address),
                out@.map_values(|a: String| a@) == self@.shards.subrange(0, i as int).filter(
                    pred,
                ).map_values(addr),
            decreases n - i,
        {
            let ghost before = self@.shards.subrange(0, i as int);
            let ghost after = self@.shards.subrange(0, i + 1);
            proof {
                reveal(Seq::filter);
                assert(after.drop_last() =~= before);
                assert(after.last() == self@.shards[i as int]);
            }
            if self.shards[i].space_id == space_id {
                let ghost old_out = out@;
                out.push(self.shards[i].address.clone());
                proof {
                    assert(after.filter(pred) == before.filter(pred).push(after.last()));
                    assert(out@.map_values(|a: String| a@) =~= old_out.map_values(
                        |a: String| a@,
                    ).push(self.shards@[i as int].address@));
                    assert(before.filter(pred).push(after.last()).map_values(addr)
                        =~= before.filter(pred).map_values(addr).push(after.last().address));
                }
            }
            i += 1;
        }
        proof {
            assert(self@.shards.subrange(0, n as int) =~= self@.shards);
        }
        out
    }

    /// Whether a user other than `id` has the nickname `nickname`.
    pub fn nickname_taken_by_other(&self, id: i64, nickname: &str) -> (r: bool)
        ensures
            r == self@.nickname_taken_by_other(id, nickname@),
    {
        let n: usize = self.users.len();
        let mut i: usize = 0;
        while i < n
            invariant
                n == self.users@.len(),
                0 <= i <= n,
                forall|j: int| 0 <= j < i && j != id - 1 ==> !nickname_at(self@.users, j, nickname@),
            decreases n - i,
        {
            let taken = match &self.users[i].nickname {
                Some(other) => str_eq(other.as_str(), nickname),
                None => false,
            };
            if taken && (id < 1 || i as u64 != (id as u64 - 1)) {
                assert(nickname_at(self@.users, i as int, nickname@));
                return true;
            }
            i += 1;
        }
        false
    }

    /// Gives the user `id` the nickname `nickname`. Nothing changes where
    /// there is no such user; fails where another user has that nickname.
    pub fn update_nickname(&mut self, id: i64, nickname: &str) -> (r: Result<(), StoreError>)
        ensures
            (final(self)@, r) == old(self)@.update_nickname(id, nickname@),
            final(self)@.well_formed(),
    {
        proof {
            use_type_invariant(&*self);
            self@.lemma_updates_keep_well_formed();
            self@.lemma_emptied_table_well_formed();
        }
        let i = match row_index(id, self.users.len()) {
            Some(i) => i,
            None => {
                return Ok(());
            },
        };
        if self.nickname_taken_by_other(id, nickname) {
            return Err(StoreError::Constraint);
        }
        let ghost goal = old(self)@.update_nickname(id, nickname@).0;
        let row = UserInfo {
            space_id: self.users[i].space_id,
            public_key: self.users[i].public_key,
            nickname: Some(nickname.to_owned()),
        };
        let mut rows: Vec<UserInfo> = Vec::new();
        proof {
            assert(rows@.map_values(|u: UserInfo| u@) =~= Seq::empty());
        }
        core::mem::swap(&mut self.users, &mut rows);
        rows.set(i, row);
        proof {
            assert(rows@.map_values(|u: UserInfo| u@) =~= goal.users);
        }
        core::mem::swap(&mut self.users, &mut rows);
        Ok(())
    }

    /// Whether a room other than `id` has the given space and name.
    pub fn room_name_taken_by_other(&self, id: i64, space_id: i64, name: &str) -> (r: bool)
        ensures
            r == self@.room_name_taken_by_other(id, space_id, name@),
    {
        let n: usize = self.public_rooms.len();
        let mut i: usize = 0;
        while i < n
            invariant
                n == self.public_rooms@.len(),
                0 <= i <= n,
                forall|j: int|
                    0 <= j < i && j != id - 1 ==> !room_at(self@.public_rooms, j, space_id, name@),
            decreases n - i,
        {
            if self.public_rooms[i].space_id == space_id && str_eq(
                self.public_rooms[i].name.as_str(),
                name,
            ) && (id < 1 || i as u64 != (id as u64 - 1)) {
                assert(room_at(self@.public_rooms, i as int, space_id, name@));
                return true;
            }
            i += 1;
        }
        false
    }

    /// Gives the room `id` the name `name`. Nothing changes where there is no
    /// such room; fails where another room of its space has that name.
    pub fn update_name(&mut self, id: i64, name: &str) -> (r: Result<(), StoreError>)
        ensures
            (final(self)@, r) == old(self)@.update_name(id, name@),
            final(self)@.well_formed(),
    {
        proof {
            use_type_invariant(&*self);
            self@.lemma_updates_keep_well_formed();
            self@.lemma_emptied_table_well_formed();
        }
        let i = match row_index(id, self.public_rooms.len()) {
            Some(i) => i,
            None => {
                return Ok(());
            },
        };
        let space_id = self.public_rooms[i].space_id;
        if self.room_name_taken_by_other(id, space_id, name) {
            return Err(StoreError::Constraint);
        }
        let ghost goal = old(self)@.update_name(id, name@).0;
        let row = PublicRoomInfo {
            space_id,
            name: name.to_owned(),
            author_id: self.public_rooms[i].author_id,
            block_hash: self.public_rooms[i].block_hash,
            transaction_hash: self.public_rooms[i].transaction_hash,
        };
        let mut rows: Vec<PublicRoomInfo> = Vec::new();
        proof {
            assert(rows@.map_values(|r: PublicRoomInfo| r@) =~= Seq::empty());
        }
        core::mem::swap(&mut self.public_rooms, &mut rows);
        rows.set(i, row);
        proof {
            assert(rows@.map_values(|r: PublicRoomInfo| r@) =~= goal.public_rooms);
        }
        core::mem::swap(&mut self.public_rooms, &mut rows);
        Ok(())
    }

    /// The id that follows `after` among the ids of the rooms of the space
    /// `space_id`.
    pub fn next_public_room(&self, space_id: i64, after: i64) -> (r: Option<i64>)
        ensures
            self@.is_next_public_room(space_id, after, r),
    {
        proof {
            use_type_invariant(self);
        }
        let n: usize = self.public_rooms.len();
        let start: u64 = if after < 0 {
            0
        } else {
            after as u64
        };
        if start >= n as u64 {
            return None;
        }
        let mut i: usize = start as usize;
        while i < n
            invariant
                n == self.public_rooms@.len(),
                n <= MAX_ROWS,
                start <= i <= n,
                start == if after < 0 {
                    0
                } else {
                    after as int
                },
                forall|k: int|
                    after < k <= i && 1 <= k ==> (#[trigger] self@.public_rooms[k - 1]).space_id
                        != space_id,
            decreases n - i,
        {
            if self.public_rooms[i].space_id == space_id {
                return Some(row_id(i));
            }
            i += 1;
        }
        None
    }

    /// A cursor over the ids of the rooms of the space `space_id`, before the
    /// first.
    pub fn public_rooms(&self, space_id: i64) -> (r: PublicRoomsIter)
        ensures
            r.space_id == space_id,
            r.current == 0,
    {
        PublicRoomsIter { space_id, current: 0 }
    }

    /// The id of the user of `space_id` with the key `public_key`.
    pub fn find_user(&self, space_id: i64, public_key: &PublicKey) -> (r: Option<i64>)
        ensures
            r == self@.find_user(space_id, public_key@),
            self@.well_formed(),
    {
        proof {
            use_type_invariant(self);
        }
        let n: usize = self.users.len();
        let mut i: usize = 0;
        while i < n
            invariant
                n == self.users@.len(),
                self@.well_formed(),
                0 <= i <= n,
                forall|j: int| 0 <= j < i ==> !user_at(self@.users, j, space_id, public_key@),
            decreases n - i,
        {
            let row = &self.users[i];
            if row.space_id == space_id && row.public_key.same(public_key) {
                proof {
                    self@.lemma_find_user(i as int);
                }
                return Some(row_id(i));
            }
            i += 1;
        }
        None
    }

    /// Whether some user has the nickname `nickname`.
    pub fn nickname_taken(&self, nickname: &str) -> (r: bool)
        ensures
            r == self@.nickname_taken(nickname@),
    {
        let n: usize = self.users.len();
        let mut i: usize = 0;
        while i < n
            invariant
                n == self.users@.len(),
                0 <= i <= n,
                forall|j: int| 0 <= j < i ==> !nickname_at(self@.users, j, nickname@),
            decreases n - i,
        {
            let taken = match &self.users[i].nickname {
                Some(other) => str_eq(other.as_str(), nickname),
                None => false,
            };
            if taken {
                assert(nickname_at(self@.users, i as int, nickname@));
                return true;
            }
            i += 1;
        }
        false
    }

    /// Inserts the user `info`. Fails where the space has a user with that
    /// key, where the nickname is taken, or where no row id is left.
    pub fn create_user(&mut self, info: UserInfo) -> (r: Result<i64, StoreError>)
        ensures
            (final(self)@, r) == old(self)@.create_user(info@),
            final(self)@.well_formed(),
    {
        proof {
            use_type_invariant(&*self);
            self@.lemma_writes_keep_well_formed();
            self@.lemma_emptied_table_well_formed();
        }
        if self.find_user(info.space_id, &info.public_key).is_some() {
            return Err(StoreError::Constraint);
        }
        let taken = match &info.nickname {
            Some(nickname) => self.nickname_taken(nickname.as_str()),
            None => false,
        };
        if taken {
            return Err(StoreError::Constraint);
        }
        let n: usize = self.users.len();
        if n as u64 >= MAX_ROWS {
            return Err(StoreError::Full);
        }
        let ghost goal = old(self)@.create_user(info@).0;
        let mut rows: Vec<UserInfo> = Vec::new();
        proof {
            assert(rows@.map_values(|u: UserInfo| u@) =~= Seq::empty());
        }
        core::mem::swap(&mut self.users, &mut rows);
        rows.push(info);
        proof {
            assert(rows@.map_values(|u: UserInfo| u@) =~= goal.users);
        }
        core::mem::swap(&mut self.users, &mut rows);
        Ok(row_id(n))
    }

    /// The id of the room of `space_id` with the name `name`.
    pub fn find_public_room(&self, space_id: i64, name: &str) -> (r: Option<i64>)
        ensures
            r == self@.find_public_room(space_id, name@),
            self@.well_formed(),
    {
        proof {
            use_type_invariant(self);
        }
        let n: usize = self.public_rooms.len();
        let mut i: usize = 0;
        while i < n
            invariant
                n == self.public_rooms@.len(),
                self@.well_formed(),
                0 <= i <= n,
                forall|j: int| 0 <= j < i ==> !room_at(self@.public_rooms, j, space_id, name@),
            decreases n - i,
        {
            let row = &self.public_rooms[i];
            if row.space_id == space_id && str_eq(row.name.as_str(), name) {
                proof {
                    self@.lemma_find_public_room(i as int);
                }
                return Some(row_id(i));
            }
            i += 1;
        }
        None
    }

    /// Inserts the room `info`. Fails where the space has a room of that
    /// name, or where no row id is left.
    pub fn create_public_room(&mut self, info: PublicRoomInfo) -> (r: Result<i64, StoreError>)
        ensures
            (final(self)@, r) == old(self)@.create_public_room(info@),
            final(self)@.well_formed(),
    {
        proof {
            use_type_invariant(&*self);
            self@.lemma_writes_keep_well_formed();
            self@.lemma_emptied_table_well_formed();
        }
        if self.find_public_room(info.space_id, info.name.as_str()).is_some() {
            return Err(StoreError::Constraint);
        }
        let n: usize = self.public_rooms.len();
        if n as u64 >= MAX_ROWS {
            return Err(StoreError::Full);
        }
        let ghost goal = old(self)@.create_public_room(info@).0;
        let mut rows: Vec<PublicRoomInfo> = Vec::new();
        proof {
            assert(rows@.map_values(|r: PublicRoomInfo| r@) =~= Seq::empty());
        }
        core::mem::swap(&mut self.public_rooms, &mut rows);
        rows.push(info);
        proof {
            assert(rows@.map_values(|r: PublicRoomInfo| r@) =~= goal.public_rooms);
        }
        core::mem::swap(&mut self.public_rooms, &mut rows);
        Ok(row_id(n))
    }

    /// Whether the room `id` was created by the given transaction.
    pub fn room_created_by(
        &self,
        id: i64,
        block_hash: &crate::ledger::Hash,
        transaction_hash: &crate::ledger::Hash,
    ) -> (r: bool)
        ensures
            r == self@.room_created_by(id, block_hash@, transaction_hash@),
    {
        match row_index(id, self.public_rooms.len()) {
            Some(i) => self.public_rooms[i].block_hash.same(block_hash)
                && self.public_rooms[i].transaction_hash.same(transaction_hash),
            None => false,
        }
    }

    /// Whether the room `room_id` holds a message of the given transaction.
    pub fn has_public_message(
        &self,
        room_id: i64,
        block_hash: &crate::ledger::Hash,
        transaction_hash: &crate::ledger::Hash,
    ) -> (r: bool)
        ensures
            r == self@.has_public_message(room_id, block_hash@, transaction_hash@),
    {
        let n: usize = self.public_messages.len();
        let mut i: usize = 0;
        while i < n
            invariant
                n == self.public_messages@.len(),
                0 <= i <= n,
                forall|j: int|
                    0 <= j < i ==> !message_at(
                        self@.public_messages,
                        j,
                        room_id,
                        block_hash@,
                        transaction_hash@,
                    ),
            decreases n - i,
        {
            let row = &self.public_messages[i];
            if row.room_id == room_id && row.block_hash.same(block_hash)
                && row.transaction_hash.same(transaction_hash) {
                assert(message_at(
                    self@.public_messages,
                    i as int,
                    room_id,
                    block_hash@,
                    transaction_hash@,
                ));
                return true;
            }
            i += 1;
        }
        false
    }

    /// Inserts the message `info`. Fails where no row id is left.
    pub fn create_public_message(&mut self, info: PublicRoomMessageInfo) -> (r: Result<
        i64,
        StoreError,
    >)
        ensures
            (final(self)@, r) == old(self)@.create_public_message(info@),
            final(self)@.well_formed(),
    {
        proof {
            use_type_invariant(&*self);
            self@.lemma_writes_keep_well_formed();
            self@.lemma_emptied_table_well_formed();
        }
        let n: usize = self.public_messages.len();
        if n as u64 >= MAX_ROWS {
            return Err(StoreError::Full);
        }
        let ghost goal = old(self)@.create_public_message(info@).0;
        let mut rows: Vec<PublicRoomMessageInfo> = Vec::new();
        proof {
            assert(rows@.map_values(|m: PublicRoomMessageInfo| m@) =~= Seq::empty());
        }
        core::mem::swap(&mut self.public_messages, &mut rows);
        rows.push(info);
        proof {
            assert(rows@.map_values(|m: PublicRoomMessageInfo| m@) =~= goal.public_messages);
        }
        core::mem::swap(&mut self.public_messages, &mut rows);
        Ok(row_id(n))
    }

    /// The user with the id `id`.
    pub fn user(&self, id: i64) -> (r: Option<&UserInfo>)
        ensures
            match r {
                Some(row) => 1 <= id <= self@.users.len() && row@ == self@.users[id - 1],
                None => !(1 <= id <= self@.users.len()),
            },
    {
        match row_index(id, self.users.len()) {
            Some(i) => Some(&self.users[i]),
            None => None,
        }
    }

    /// The public room with the id `id`.
    pub fn public_room(&self, id: i64) -> (r: Option<&PublicRoomInfo>)
        ensures
            match r {
                Some(row) => 1 <= id <= self@.public_rooms.len() && row@ == self@.public_rooms[id
                    - 1],
                None => !(1 <= id <= self@.public_rooms.len()),
            },
    {
        match row_index(id, self.public_rooms.len()) {
            Some(i) => Some(&self.public_rooms[i]),
            None => None,
        }
    }

    /// The public message with the id `id`.
    pub fn public_message(&self, id: i64) -> (r: Option<&PublicRoomMessageInfo>)
        ensures
            match r {
                Some(row) => 1 <= id <= self@.public_messages.len() && row@
                    == self@.public_messages[id - 1],
                None => !(1 <= id <= self@.public_messages.len()),
            },
    {
        match row_index(id, self.public_messages.len()) {
            Some(i) => Some(&self.public_messages[i]),
            None => None,
        }
    }

    /// The marker of a handled transaction at `index`, in the order of
    /// marking.
    pub fn handled(&self, index: usize) -> (r: Option<&HandledTransaction>)
        ensures
            match r {
                Some(row) => index < self@.handled.len() && row@ == self@.handled[index as int],
                None => index >= self@.handled.len(),
            },
    {
        if index < self.handled_transactions.len() {
            Some(&self.handled_transactions[index])
        } else {
            None
        }
    }

    /// The shard at `index`, in the order of insertion.
    pub fn shard(&self, index: usize) -> (r: Option<&ShardInfo>)
        ensures
            match r {
                Some(row) => index < self@.shards.len() && row@ == self@.shards[index as int],
                None => index >= self@.shards.len(),
            },
    {
        if index < self.shards.len() {
            Some(&self.shards[index])
        } else {
            None
        }
    }

    /// The number of spaces.
    pub fn space_count(&self) -> (r: usize)
        ensures
            r == self@.spaces.len(),
    {
        self.spaces.len()
    }

    /// The number of users.
    pub fn user_count(&self) -> (r: usize)
        ensures
            r == self@.users.len(),
    {
        self.users.len()
    }

    /// The number of public rooms.
    pub fn public_room_count(&self) -> (r: usize)
        ensures
            r == self@.public_rooms.len(),
    {
        self.public_rooms.len()
    }

    /// The number of public messages.
    pub fn public_message_count(&self) -> (r: usize)
        ensures
            r == self@.public_messages.len(),
    {
        self.public_messages.len()
    }

    /// The number of handled transactions.
    pub fn handled_count(&self) -> (r: usize)
        ensures
            r == self@.handled.len(),
    {
        self.handled_transactions.len()
    }
}

/// A cursor over the ids of the spaces, in ascending order. It holds the id
/// it gave last and can be kept across writes to the read model.
#[derive(Debug, Clone, Copy, PartialEq, Eq)]
pub struct SpacesIter {
    pub current: i64,
}

impl SpacesIter {
    /// The next id, if there is one; the cursor moves to it.
    pub fn next(&mut self, database: &Database) -> (r: Option<i64>)
        ensures
            r == database@.next_space(old(self).current),
            final(self).current == match r {
                Some(id) => id,
                None => old(self).current,
            },
    {
        let r = database.next_space(self.current);
        match r {
            Some(id) => {
                self.current = id;
            },
            None => {},
        }
        r
    }
}

/// A cursor over the ids of the rooms of one space, in ascending order. It
/// holds the id it gave last and can be kept across writes to the read model.
#[derive(Debug, Clone, Copy, PartialEq, Eq)]
pub struct PublicRoomsIter {
    pub space_id: i64,
    pub current: i64,
}

impl PublicRoomsIter {
    /// The next id, if there is one; the cursor moves to it.
    pub fn next(&mut self, database: &Database) -> (r: Option<i64>)
        ensures
            database@.is_next_public_room(old(self).space_id, old(self).current, r),
            final(self).space_id == old(self).space_id,
            final(self).current == match r {
                Some(id) => id,
                None => old(self).current,
            },
    {
        let r = database.next_public_room(self.space_id, self.current);
        match r {
            Some(id) => {
                self.current = id;
            },
            None => {},
        }
        r
    }
}

} // verus!

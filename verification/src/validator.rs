//! Admission of events before they enter the ledger: the first creation of a
//! room name wins.

use vstd::prelude::*;
use crate::client::HandlerEvent;
use crate::events::{Events, EventsModel};
use crate::text::str_eq;

verus! {

/// What the validator remembers: the transactions that were handled and the
/// room names that were claimed. Neither list holds a value twice.
#[derive(Debug, PartialEq, Eq)]
pub struct ValidatorState {
    handled_transactions: Vec<crate::ledger::Hash>,
    public_rooms: Vec<String>,
}

impl Clone for ValidatorState {
    fn clone(&self) -> (r: Self)
        ensures
            r.handled() == self.handled(),
            r.rooms() == self.rooms(),
    {
        proof {
            use_type_invariant(self);
        }
        let mut handled: Vec<crate::ledger::Hash> = Vec::new();
        let mut i: usize = 0;
        while i < self.handled_transactions.len()
            invariant
                0 <= i <= self.handled_transactions@.len(),
                handled@ == self.handled_transactions@.subrange(0, i as int),
            decreases self.handled_transactions@.len() - i,
        {
            handled.push(self.handled_transactions[i]);
            i += 1;
            assert(handled@ =~= self.handled_transactions@.subrange(0, i as int));
        }
        let mut rooms: Vec<String> = Vec::new();
        let mut k: usize = 0;
        while k < self.public_rooms.len()
            invariant
                0 <= k <= self.public_rooms@.len(),
                rooms@ == self.public_rooms@.subrange(0, k as int),
            decreases self.public_rooms@.len() - k,
        {
            rooms.push(self.public_rooms[k].clone());
            k += 1;
            assert(rooms@ =~= self.public_rooms@.subrange(0, k as int));
        }
        assert(handled@ =~= self.handled_transactions@);
        assert(rooms@ =~= self.public_rooms@);
        ValidatorState { handled_transactions: handled, public_rooms: rooms }
    }
}

impl Default for ValidatorState {
    fn default() -> (r: Self)
        ensures
            r.handled() == Set::<Seq<u8>>::empty(),
            r.rooms() == Set::<Seq<char>>::empty(),
    {
        ValidatorState::new()
    }
}

impl ValidatorState {
    /// No hash and no room name is stored twice.
    #[verifier::type_invariant]
    pub closed spec fn wf(&self) -> bool {
        &&& forall|i: int, j: int|
            0 <= i < j < self.handled_transactions@.len() ==> self.handled_transactions@[i]@
                != self.handled_transactions@[j]@
        &&& forall|i: int, j: int|
            0 <= i < j < self.public_rooms@.len() ==> self.public_rooms@[i]@
                != self.public_rooms@[j]@
    }

    /// The hashes of the handled transactions.
    pub closed spec fn handled(&self) -> Set<Seq<u8>> {
        Set::new(
            |h: Seq<u8>|
                exists|i: int|
                    0 <= i < self.handled_transactions@.len()
                        && #[trigger] self.handled_transactions@[i]@ == h,
        )
    }

    /// The claimed room names.
    pub closed spec fn rooms(&self) -> Set<Seq<char>> {
        Set::new(
            |name: Seq<char>|
                exists|i: int|
                    0 <= i < self.public_rooms@.len() && #[trigger] self.public_rooms@[i]@ == name,
        )
    }

    /// The state that remembers nothing.
    pub fn new() -> (r: Self)
        ensures
            r.handled() == Set::<Seq<u8>>::empty(),
            r.rooms() == Set::<Seq<char>>::empty(),
    {
        let r = ValidatorState { handled_transactions: Vec::new(), public_rooms: Vec::new() };
        assert(r.handled() =~= Set::<Seq<u8>>::empty());
        assert(r.rooms() =~= Set::<Seq<char>>::empty());
        r
    }

    /// Whether the transaction `hash` was handled.
    pub fn is_handled(&self, hash: &crate::ledger::Hash) -> (r: bool)
        ensures
            r == self.handled().contains(hash@),
    {
        let n: usize = self.handled_transactions.len();
        let mut i: usize = 0;
        while i < n
            invariant
                n == self.handled_transactions@.len(),
                0 <= i <= n,
                forall|j: int| 0 <= j < i ==> self.handled_transactions@[j]@ != hash@,
            decreases n - i,
        {
            if self.handled_transactions[i].same(hash) {
                return true;
            }
            i += 1;
        }
        false
    }

    /// Whether the room `name` was claimed.
    pub fn has_room(&self, name: &str) -> (r: bool)
        ensures
            r == self.rooms().contains(name@),
    {
        let n: usize = self.public_rooms.len();
        let mut i: usize = 0;
        while i < n
            invariant
                n == self.public_rooms@.len(),
                0 <= i <= n,
                forall|j: int| 0 <= j < i ==> self.public_rooms@[j]@ != name@,
            decreases n - i,
        {
            if str_eq(self.public_rooms[i].as_str(), name) {
                return true;
            }
            i += 1;
        }
        false
    }

    /// Remembers the transaction `hash` as handled. Returns whether it was
    /// new.
    pub fn mark_handled(&mut self, hash: crate::ledger::Hash) -> (r: bool)
        ensures
            r == !old(self).handled().contains(hash@),
            final(self).handled() == old(self).handled().insert(hash@),
            final(self).rooms() == old(self).rooms(),
    {
        proof {
            use_type_invariant(&*self);
        }
        if self.is_handled(&hash) {
            assert(self.handled() =~= self.handled().insert(hash@));
            return false;
        }
        let ghost before = self.handled_transactions@;
        let mut list: Vec<crate::ledger::Hash> = Vec::new();
        core::mem::swap(&mut self.handled_transactions, &mut list);
        list.push(hash);
        core::mem::swap(&mut self.handled_transactions, &mut list);
        proof {
            let after = self.handled_transactions@;
            assert forall|h: Seq<u8>| #[trigger]
                final(self).handled().contains(h) == old(self).handled().insert(hash@).contains(
                    h,
                ) by {
                if old(self).handled().contains(h) {
                    let i = choose|i: int| 0 <= i < before.len() && #[trigger] before[i]@ == h;
                    assert(after[i]@ == h);
                }
                if h == hash@ {
                    assert(after[before.len() as int]@ == h);
                }
            }
            assert(final(self).handled() =~= old(self).handled().insert(hash@));
        }
        true
    }

    /// Claims the room `name`. Returns whether it was free.
    pub fn claim_room(&mut self, name: &str) -> (r: bool)
        ensures
            r == !old(self).rooms().contains(name@),
            final(self).rooms() == old(self).rooms().insert(name@),
            final(self).handled() == old(self).handled(),
    {
        proof {
            use_type_invariant(&*self);
        }
        if self.has_room(name) {
            assert(self.rooms() =~= self.rooms().insert(name@));
            return false;
        }
        let ghost before = self.public_rooms@;
        let mut list: Vec<String> = Vec::new();
        core::mem::swap(&mut self.public_rooms, &mut list);
        list.push(name.to_owned());
        core::mem::swap(&mut self.public_rooms, &mut list);
        proof {
            let after = self.public_rooms@;
            assert forall|s: Seq<char>| #[trigger]
                final(self).rooms().contains(s) == old(self).rooms().insert(name@).contains(
                    s,
                ) by {
                if old(self).rooms().contains(s) {
                    let i = choose|i: int| 0 <= i < before.len() && #[trigger] before[i]@ == s;
                    assert(after[i]@ == s);
                }
                if s == name@ {
                    assert(after[before.len() as int]@ == s);
                }
            }
            assert(final(self).rooms() =~= old(self).rooms().insert(name@));
        }
        true
    }
}

/// The outcome that the validator owes for `event` in a state with the given
/// handled transactions and claimed rooms: whether the event is accepted, and
/// the rooms that are claimed afterwards.
pub open spec fn validated(
    handled: Set<Seq<u8>>,
    rooms: Set<Seq<char>>,
    transaction_hash: Seq<u8>,
    event: EventsModel,
) -> (bool, Set<Seq<char>>) {
    if handled.contains(transaction_hash) {
        (false, rooms)
    } else {
        match event {
            EventsModel::CreatePublicRoom(name) => (!rooms.contains(name), rooms.insert(name)),
            EventsModel::PublicRoomMessage(_, _) => (true, rooms),
        }
    }
}

/// First create wins: a room creation that is accepted claims its name, and a
/// second creation of the same name is then refused, whatever its
/// transaction.
pub proof fn lemma_first_create_wins(
    handled: Set<Seq<u8>>,
    rooms: Set<Seq<char>>,
    first: Seq<u8>,
    second: Seq<u8>,
    name: Seq<char>,
)
    requires
        !handled.contains(first),
        !rooms.contains(name),
    ensures
        validated(handled, rooms, first, EventsModel::CreatePublicRoom(name)).0,
        !validated(
            handled,
            validated(handled, rooms, first, EventsModel::CreatePublicRoom(name)).1,
            second,
            EventsModel::CreatePublicRoom(name),
        ).0,
{
}

/// A room message of a transaction that is not handled is accepted in every
/// state, and claims nothing.
pub proof fn lemma_message_accepted(
    handled: Set<Seq<u8>>,
    rooms: Set<Seq<char>>,
    transaction_hash: Seq<u8>,
    room_name: Seq<char>,
    content: Seq<char>,
)
    requires
        !handled.contains(transaction_hash),
    ensures
        validated(
            handled,
            rooms,
            transaction_hash,
            EventsModel::PublicRoomMessage(room_name, content),
        ) == (true, rooms),
{
}

/// Decides whether `event` may enter the ledger, and claims the room name of
/// an accepted room creation. An event of a handled transaction is refused; a
/// room creation is accepted when its name is free; a room message is
/// accepted.
pub fn handle_event(state: &mut ValidatorState, event: &HandlerEvent) -> (r: bool)
    ensures
        final(state).handled() == old(state).handled(),
        (r, final(state).rooms()) == validated(
            old(state).handled(),
            old(state).rooms(),
            event.transaction_hash@,
            event.event@,
        ),
{
    if state.is_handled(&event.transaction_hash) {
        return false;
    }
    match &event.event {
        Events::CreatePublicRoom(info) => state.claim_room(info.name()),
        Events::PublicRoomMessage(_) => true,
    }
}

} // verus!

//! Names of public rooms.

use vstd::prelude::*;
use vstd::utf8::*;
use crate::text::{trim, trimmed, is_trimmed, lemma_trimmed_is_trimmed};

verus! {

/// ASCII letter or digit.
pub open spec fn is_alnum(b: u8) -> bool {
    ||| 0x30 <= b <= 0x39
    ||| 0x41 <= b <= 0x5A
    ||| 0x61 <= b <= 0x7A
}

/// The shape of a room name, over the bytes of its UTF-8 encoding: letters and
/// digits, with dashes allowed anywhere but at the two ends.
pub open spec fn name_pattern(b: Seq<u8>) -> bool {
    &&& b.len() >= 1
    &&& is_alnum(b[0])
    &&& is_alnum(b[b.len() - 1])
    &&& forall|i: int| 0 <= i < b.len() ==> is_alnum(#[trigger] b[i]) || b[i] == 0x2D
}

/// A text is a room name when its encoding has 1 to 64 bytes of the right
/// shape.
pub open spec fn valid_room_name(s: Seq<char>) -> bool {
    let b = encode_utf8(s);
    1 <= b.len() <= 64 && name_pattern(b)
}

pub fn is_alnum_byte(b: u8) -> (r: bool)
    ensures
        r == is_alnum(b),
{
    (0x30 <= b && b <= 0x39) || (0x41 <= b && b <= 0x5A) || (0x61 <= b && b <= 0x7A)
}

/// Decides `name_pattern` for a slice of bytes.
pub fn matches_name_pattern(b: &[u8]) -> (r: bool)
    ensures
        r == name_pattern(b@),
{
    let n: usize = b.len();
    if n == 0 {
        return false;
    }
    if !is_alnum_byte(b[0]) || !is_alnum_byte(b[n - 1]) {
        return false;
    }
    let mut i: usize = 0;
    while i < n
        invariant
            n == b@.len(),
            0 <= i <= n,
            forall|j: int| 0 <= j < i ==> is_alnum(#[trigger] b@[j]) || b@[j] == 0x2D,
        decreases n - i,
    {
        if !is_alnum_byte(b[i]) && b[i] != 0x2D {
            return false;
        }
        i += 1;
    }
    true
}

/// A valid public room name.
#[derive(Debug, PartialEq, Eq, PartialOrd, Ord, Hash)]
pub struct RoomName(String);

impl Clone for RoomName {
    fn clone(&self) -> (r: Self)
        ensures
            r@ == self@,
    {
        proof {
            use_type_invariant(self);
        }
        RoomName(self.0.clone())
    }
}

impl View for RoomName {
    type V = Seq<char>;

    closed spec fn view(&self) -> Seq<char> {
        self.0@
    }
}

impl From<RoomName> for String {
    fn from(value: RoomName) -> (r: Self) {
        value.0
    }
}

impl vstd::std_specs::convert::FromSpecImpl<RoomName> for String {
    open spec fn obeys_from_spec() -> bool {
        true
    }

    closed spec fn from_spec(value: RoomName) -> Self {
        value.0
    }
}

/// The text made from the value is its text.
pub proof fn lemma_into_string(value: RoomName)
    ensures
        <String as vstd::std_specs::convert::FromSpec<RoomName>>::from_spec(value)@ == value@,
{
}

impl RoomName {
    /// Every room name is valid and trimmed.
    #[verifier::type_invariant]
    pub open spec fn wf(&self) -> bool {
        valid_room_name(self@) && is_trimmed(self@)
    }

    /// Trims `name` and accepts it if what is left is a valid room name.
    pub fn new(name: &str) -> (r: Option<RoomName>)
        ensures
            r is Some <==> valid_room_name(trimmed(name@)),
            r is Some ==> r.unwrap()@ == trimmed(name@),
    {
        proof {
            lemma_trimmed_is_trimmed(name@);
        }
        let name = trim(name);
        let bytes = name.as_bytes();
        let len: usize = bytes.len();
        if len < 1 || len > 64 || !matches_name_pattern(bytes) {
            return None;
        }
        let owned = name.to_owned();
        assert(valid_room_name(owned@));
        Some(RoomName(owned))
    }

    /// The name as text.
    pub fn as_str(&self) -> (r: &str)
        ensures
            r@ == self@,
            valid_room_name(r@),
            is_trimmed(r@),
    {
        proof {
            use_type_invariant(self);
        }
        self.0.as_str()
    }

}

} // verus!

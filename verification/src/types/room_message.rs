//! Message bodies of public rooms.

use vstd::prelude::*;
use vstd::utf8::*;
use crate::text::{trim, trimmed, is_trimmed, lemma_trimmed_is_trimmed};

verus! {

/// ASCII control character: U+0000 to U+001F, and U+007F.
pub open spec fn is_ascii_control(c: char) -> bool {
    c as u32 <= 0x1F || c as u32 == 0x7F
}

/// The byte of an ASCII control character.
pub open spec fn is_control_byte(b: u8) -> bool {
    b <= 0x1F || b == 0x7F
}

/// No character of `s` is an ASCII control character.
pub open spec fn no_control_chars(s: Seq<char>) -> bool {
    forall|i: int| 0 <= i < s.len() ==> !is_ascii_control(#[trigger] s[i])
}

/// No byte of `b` is that of an ASCII control character.
pub open spec fn no_control_bytes(b: Seq<u8>) -> bool {
    forall|i: int| 0 <= i < b.len() ==> !is_control_byte(#[trigger] b[i])
}

/// A text is a message when its encoding has 1 to 1024 bytes and it holds no
/// ASCII control character.
pub open spec fn valid_room_message(s: Seq<char>) -> bool {
    1 <= encode_utf8(s).len() <= 1024 && no_control_chars(s)
}

proof fn lemma_scalar_bytes(v: u32)
    by (bit_vector)
    ensures
        (v & 0x7F) as u8 == v || v > 0x7F,
        0xC0 | ((v >> 6) & 0x1F) as u8 >= 0x80,
        0xE0 | ((v >> 12) & 0x0F) as u8 >= 0x80,
        0xF0 | ((v >> 18) & 0x7) as u8 >= 0x80,
        0x80 | (v & 0x3F) as u8 >= 0x80,
        0x80 | ((v >> 6) & 0x3F) as u8 >= 0x80,
        0x80 | ((v >> 12) & 0x3F) as u8 >= 0x80,
{
}

/// The encoding of one character holds a control byte exactly when the
/// character is an ASCII control character.
proof fn lemma_control_scalar(c: char)
    ensures
        no_control_bytes(encode_scalar(c as u32)) <==> !is_ascii_control(c),
        encode_scalar(c as u32).len() >= 1,
{
    let v = c as u32;
    lemma_scalar_bytes(v);
    let e = encode_scalar(v);
    if has_width_1_encoding(v) {
        assert(e[0] == v);
    } else {
        assert(!is_ascii_control(c));
    }
}

/// A text holds an ASCII control character exactly when its UTF-8 encoding
/// holds the byte of one.
pub proof fn lemma_control_bytes(s: Seq<char>)
    ensures
        no_control_bytes(encode_utf8(s)) <==> no_control_chars(s),
    decreases s.len(),
{
    if s.len() > 0 {
        let head = encode_scalar(s[0] as u32);
        let rest = s.drop_first();
        let tail = encode_utf8(rest);
        let all = encode_utf8(s);
        assert(all == head + tail);
        lemma_control_scalar(s[0]);
        lemma_control_bytes(rest);
        if no_control_bytes(all) {
            assert forall|i: int| 0 <= i < head.len() implies !is_control_byte(#[trigger] head[i]) by {
                assert(all[i] == head[i]);
            }
            assert forall|i: int| 0 <= i < tail.len() implies !is_control_byte(#[trigger] tail[i]) by {
                assert(all[head.len() + i] == tail[i]);
            }
            assert forall|i: int| 0 <= i < s.len() implies !is_ascii_control(#[trigger] s[i]) by {
                if i > 0 {
                    assert(rest[i - 1] == s[i]);
                }
            }
        }
        if no_control_chars(s) {
            assert forall|i: int| 0 <= i < rest.len() implies !is_ascii_control(#[trigger] rest[i]) by {
                assert(rest[i] == s[i + 1]);
            }
            assert forall|i: int| 0 <= i < all.len() implies !is_control_byte(#[trigger] all[i]) by {
                if i < head.len() {
                    assert(all[i] == head[i]);
                } else {
                    assert(all[i] == tail[i - head.len()]);
                }
            }
        }
    }
}

/// Decides `no_control_bytes` for a slice of bytes.
pub fn has_no_control_bytes(b: &[u8]) -> (r: bool)
    ensures
        r == no_control_bytes(b@),
{
    let n: usize = b.len();
    let mut i: usize = 0;
    while i < n
        invariant
            n == b@.len(),
            0 <= i <= n,
            forall|j: int| 0 <= j < i ==> !is_control_byte(#[trigger] b@[j]),
        decreases n - i,
    {
        if b[i] <= 0x1F || b[i] == 0x7F {
            return false;
        }
        i += 1;
    }
    true
}

/// A valid public room message: trimmed, 1 to 1024 bytes, free of ASCII
/// control characters.
#[derive(Debug, PartialEq, Eq, PartialOrd, Ord, Hash)]
pub struct RoomMessage(String);

impl View for RoomMessage {
    type V = Seq<char>;

    closed spec fn view(&self) -> Seq<char> {
        self.0@
    }
}

impl Clone for RoomMessage {
    fn clone(&self) -> (r: Self)
        ensures
            r@ == self@,
    {
        proof {
            use_type_invariant(self);
        }
        RoomMessage(self.0.clone())
    }
}

impl From<RoomMessage> for String {
    fn from(value: RoomMessage) -> (r: Self) {
        value.0
    }
}

impl vstd::std_specs::convert::FromSpecImpl<RoomMessage> for String {
    open spec fn obeys_from_spec() -> bool {
        true
    }

    closed spec fn from_spec(value: RoomMessage) -> Self {
        value.0
    }
}

/// The text made from the value is its text.
pub proof fn lemma_into_string(value: RoomMessage)
    ensures
        <String as vstd::std_specs::convert::FromSpec<RoomMessage>>::from_spec(value)@ == value@,
{
}

impl RoomMessage {
    /// Every message is valid and trimmed.
    #[verifier::type_invariant]
    pub open spec fn wf(&self) -> bool {
        valid_room_message(self@) && is_trimmed(self@)
    }

    /// Trims `content` and accepts it if what is left is a valid message.
    pub fn new(content: &str) -> (r: Option<RoomMessage>)
        ensures
            r is Some <==> valid_room_message(trimmed(content@)),
            r is Some ==> r.unwrap()@ == trimmed(content@),
    {
        proof {
            lemma_trimmed_is_trimmed(content@);
        }
        let content = trim(content);
        let bytes = content.as_bytes();
        let len: usize = bytes.len();
        proof {
            lemma_control_bytes(content@);
        }
        if len < 1 || len > 1024 {
            return None;
        }
        if !has_no_control_bytes(bytes) {
            return None;
        }
        let owned = content.to_owned();
        Some(RoomMessage(owned))
    }

    /// The message as text.
    pub fn as_str(&self) -> (r: &str)
        ensures
            r@ == self@,
            valid_room_message(r@),
            is_trimmed(r@),
    {
        proof {
            use_type_invariant(self);
        }
        self.0.as_str()
    }
}

} // verus!

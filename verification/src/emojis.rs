//! Emojis that stand for byte strings, such as keys and hashes.

use vstd::prelude::*;

verus! {

/// The number of emojis.
pub const EMOJI_COUNT: usize = 182;

/// The emojis: food and drink, plants and flowers, animals.
pub const EMOJIS: [&'static str; 182] = [
    "🍇", "🍈", "🍉", "🍊", "🍋", "🍌", "🍍", "🥭", "🍎", "🍏",
    "🍐", "🍑", "🍒", "🍓", "🥝", "🍅", "🥥", "🥑", "🍆", "🥔",
    "🥕", "🌽", "🌶️", "🥒", "🥬", "🥦", "🧄", "🧅", "🥜", "🌰",
    "🍞", "🥐", "🥖", "🥨", "🥯", "🥞", "🧇", "🧀", "🍖", "🍗",
    "🥩", "🥓", "🍔", "🍟", "🍕", "🌭", "🥪", "🌮", "🌯", "🥙",
    "🧆", "🥚", "🍳", "🥘", "🍲", "🥣", "🥗", "🍿", "🧈", "🧂",
    "🥫", "🍱", "🍘", "🍙", "🍚", "🍛", "🍜", "🍝", "🍠", "🍢",
    "🍣", "🍤", "🍥", "🥮", "🍡", "🥟", "🥠", "🥡", "🍦", "🍧",
    "🍨", "🍩", "🍪", "🎂", "🍰", "🧁", "🥧", "🍫", "🍬", "🍭",
    "🍮", "🍯", "🍺", "🍷", "🍸", "🍹", "🧉", "🌸", "🏵️", "🌼",
    "🌷", "🌹", "🥀", "🌺", "🌻", "🌵", "🌲", "🌳", "🌴", "🌿",
    "🍀", "🍁", "🍂", "🌾", "💐", "🌰", "🎋", "🌱", "🍄", "🐶",
    "🐹", "🐰", "🦊", "🐻", "🐼", "🐨", "🐯", "🦁", "🐸", "🦝",
    "🐺", "🐧", "🐤", "🦆", "🦅", "🦉", "🦇", "🐴", "🦄", "🐝",
    "🐛", "🦋", "🐌", "🦂", "🐢", "🐍", "🦎", "🦖", "🦕", "🐙",
    "🦐", "🦞", "🦀", "🐡", "🐠", "🐟", "🐬", "🐋", "🦈", "🐊",
    "🦓", "🦍", "🐘", "🦛", "🦏", "🐫", "🦒", "🦘", "🦬", "🐃",
    "🐄", "🐎", "🐑", "🦙", "🐐", "🦜", "🦢", "🦩", "🐇", "🦨",
    "🦫", "🦦",
];

/// Offset basis of the 64-bit FNV-1a hash.
pub const FNV_OFFSET_BASIS: u64 = 0xcbf29ce484222325;

/// Prime of the 64-bit FNV-1a hash.
pub const FNV_PRIME: u64 = 0x100000001b3;

/// The 64-bit FNV-1a hash of `bytes`: from the offset basis, each byte is
/// mixed in with xor, and the hash multiplied by the prime modulo 2^64.
pub open spec fn fnv1a(bytes: Seq<u8>) -> u64
    decreases bytes.len(),
{
    if bytes.len() == 0 {
        FNV_OFFSET_BASIS
    } else {
        (fnv1a(bytes.drop_last()) ^ (bytes.last() as u64)).wrapping_mul(FNV_PRIME)
    }
}

/// The emoji that stands for `bytes`: the one at the index that the FNV-1a
/// hash of the bytes gives modulo the number of emojis.
pub open spec fn emoji_of(bytes: Seq<u8>) -> Seq<char> {
    EMOJIS@[(fnv1a(bytes) % (EMOJI_COUNT as u64)) as int]@
}

/// Computes the 64-bit FNV-1a hash of `bytes`.
pub fn fnv1a_hash(bytes: &[u8]) -> (r: u64)
    ensures
        r == fnv1a(bytes@),
{
    let mut hash: u64 = FNV_OFFSET_BASIS;
    let n: usize = bytes.len();
    let mut i: usize = 0;
    assert(bytes@.subrange(0, 0) =~= Seq::<u8>::empty());
    while i < n
        invariant
            n == bytes@.len(),
            0 <= i <= n,
            hash == fnv1a(bytes@.subrange(0, i as int)),
        decreases n - i,
    {
        proof {
            let next = bytes@.subrange(0, i + 1);
            assert(next.drop_last() =~= bytes@.subrange(0, i as int));
            assert(next.last() == bytes@[i as int]);
        }
        hash = (hash ^ (bytes[i] as u64)).wrapping_mul(FNV_PRIME);
        i += 1;
    }
    assert(bytes@.subrange(0, n as int) =~= bytes@);
    hash
}

/// The emoji that stands for `bytes`.
pub fn bytes_to_emoji(bytes: &[u8]) -> (r: &'static str)
    ensures
        r@ == emoji_of(bytes@),
{
    let hash = fnv1a_hash(bytes);
    EMOJIS[(hash % (EMOJI_COUNT as u64)) as usize]
}

} // verus!

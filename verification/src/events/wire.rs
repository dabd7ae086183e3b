//! Length-prefixed fields of the wire format.

use vstd::prelude::*;

verus! {

/// Largest blob that fits a field with a 1-byte length.
pub const SHORT_FIELD_MAX: usize = 255;

/// Largest blob that fits a field with a 2-byte length.
pub const LONG_FIELD_MAX: usize = 65535;

/// A field with a 1-byte length prefix.
pub open spec fn short_field(blob: Seq<u8>) -> Seq<u8>
    recommends
        blob.len() <= SHORT_FIELD_MAX,
{
    seq![blob.len() as u8] + blob
}

/// A field with a 2-byte little-endian length prefix.
pub open spec fn long_field(blob: Seq<u8>) -> Seq<u8>
    recommends
        blob.len() <= LONG_FIELD_MAX,
{
    seq![(blob.len() % 256) as u8, (blob.len() / 256) as u8] + blob
}

/// The blob of the short field at the start of `bytes` and what follows it,
/// or `None` where `bytes` ends early.
pub open spec fn split_short_field(bytes: Seq<u8>) -> Option<(Seq<u8>, Seq<u8>)> {
    if bytes.len() >= 1 && bytes.len() >= 1 + bytes[0] {
        Some((bytes.subrange(1, 1 + bytes[0]), bytes.skip(1 + bytes[0])))
    } else {
        None
    }
}

/// The length that the two prefix bytes of a long field give.
pub open spec fn long_len(lo: u8, hi: u8) -> int {
    lo + 256 * hi
}

/// The blob of the long field at the start of `bytes` and what follows it,
/// or `None` where `bytes` ends early.
pub open spec fn split_long_field(bytes: Seq<u8>) -> Option<(Seq<u8>, Seq<u8>)> {
    if bytes.len() >= 2 && bytes.len() >= 2 + long_len(bytes[0], bytes[1]) {
        let n = long_len(bytes[0], bytes[1]);
        Some((bytes.subrange(2, 2 + n), bytes.skip(2 + n)))
    } else {
        None
    }
}

/// Splitting what `short_field` built gives the blob back, whatever follows.
pub proof fn lemma_split_short_field(blob: Seq<u8>, rest: Seq<u8>)
    requires
        blob.len() <= SHORT_FIELD_MAX,
    ensures
        split_short_field(short_field(blob) + rest) == Some((blob, rest)),
{
    let bytes = short_field(blob) + rest;
    let n = blob.len() as int;
    assert(bytes[0] == n);
    assert(bytes.subrange(1, 1 + n) =~= blob);
    assert(bytes.skip(1 + n) =~= rest);
}

/// Splitting what `long_field` built gives the blob back, whatever follows.
pub proof fn lemma_split_long_field(blob: Seq<u8>, rest: Seq<u8>)
    requires
        blob.len() <= LONG_FIELD_MAX,
    ensures
        split_long_field(long_field(blob) + rest) == Some((blob, rest)),
{
    let bytes = long_field(blob) + rest;
    assert(bytes[0] == blob.len() % 256);
    assert(bytes[1] == blob.len() / 256);
    let n = blob.len() as int;
    assert(long_len(bytes[0], bytes[1]) == n);
    assert(bytes.subrange(2, 2 + n) =~= blob);
    assert(bytes.skip(2 + n) =~= rest);
}

/// Appends `data` to `out`.
pub fn append_bytes(out: &mut Vec<u8>, data: &[u8])
    ensures
        final(out)@ == old(out)@ + data@,
{
    let n: usize = data.len();
    let mut i: usize = 0;
    while i < n
        invariant
            n == data@.len(),
            0 <= i <= n,
            out@ == old(out)@ + data@.subrange(0, i as int),
        decreases n - i,
    {
        out.push(data[i]);
        i += 1;
        assert(out@ =~= old(out)@ + data@.subrange(0, i as int));
    }
    assert(data@.subrange(0, n as int) =~= data@);
}

/// Appends `blob` to `out` as a field with a 1-byte length.
pub fn put_short_field(out: &mut Vec<u8>, blob: &[u8])
    requires
        blob@.len() <= SHORT_FIELD_MAX,
    ensures
        final(out)@ == old(out)@ + short_field(blob@),
{
    let n: usize = blob.len();
    out.push(n as u8);
    append_bytes(out, blob);
    assert(out@ =~= old(out)@ + short_field(blob@));
}

/// Appends `blob` to `out` as a field with a 2-byte little-endian length.
pub fn put_long_field(out: &mut Vec<u8>, blob: &[u8])
    requires
        blob@.len() <= LONG_FIELD_MAX,
    ensures
        final(out)@ == old(out)@ + long_field(blob@),
{
    let n: usize = blob.len();
    out.push((n % 256) as u8);
    out.push((n / 256) as u8);
    append_bytes(out, blob);
    assert(out@ =~= old(out)@ + long_field(blob@));
}

/// Reads the short field at the start of `bytes`: its blob and what follows.
pub fn take_short_field(bytes: &[u8]) -> (r: Option<(&[u8], &[u8])>)
    ensures
        match r {
            Some((blob, rest)) => split_short_field(bytes@) == Some((blob@, rest@)),
            None => split_short_field(bytes@) is None,
        },
{
    let total: usize = bytes.len();
    if total < 1 {
        return None;
    }
    let n: usize = bytes[0] as usize;
    if total - 1 < n {
        return None;
    }
    let blob = &bytes[1..1 + n];
    let rest = &bytes[1 + n..total];
    assert(rest@ =~= bytes@.skip(1 + n));
    Some((blob, rest))
}

/// Reads the long field at the start of `bytes`: its blob and what follows.
pub fn take_long_field(bytes: &[u8]) -> (r: Option<(&[u8], &[u8])>)
    ensures
        match r {
            Some((blob, rest)) => split_long_field(bytes@) == Some((blob@, rest@)),
            None => split_long_field(bytes@) is None,
        },
{
    let total: usize = bytes.len();
    if total < 2 {
        return None;
    }
    let n: usize = bytes[0] as usize + 256 * (bytes[1] as usize);
    if total - 2 < n {
        return None;
    }
    let blob = &bytes[2..2 + n];
    let rest = &bytes[2 + n..total];
    assert(rest@ =~= bytes@.skip(2 + n));
    Some((blob, rest))
}

} // verus!

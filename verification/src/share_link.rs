//! Links that share a space: the root block of its ledger, the public key of
//! its creator and the addresses of shards to start from.

use vstd::prelude::*;
use vstd::utf8::encode_utf8;
use crate::compress::{compress, decompress, zstd_decoded, zstd_encoded, COMPRESSION_LEVEL};
use crate::events::wire::{
    append_bytes, lemma_split_long_field, long_field, put_long_field, split_long_field,
    take_long_field, LONG_FIELD_MAX,
};
use crate::ledger::PublicKey;
use crate::text::{from_utf8_lossy, lemma_lossy_text_of_encoding, lossy_text};

verus! {

/// The format byte of a link.
pub const V1_SHARE_LINK: u8 = 0;

/// Number of bytes before the shards: the root block and the public key.
pub const SHARE_LINK_HEAD: usize = 65;

/// Why a link could not be written or read.
#[derive(Debug, Clone, Copy, PartialEq, Eq, Structural)]
pub enum Error {
    /// The compressor or the decompressor failed.
    Zstd,
    /// The format byte stands for no format.
    InvalidFormat(u8),
    /// The input ends before the link does.
    Truncated,
}

/// A link as a value of contracts.
pub struct ShareLinkModel {
    pub root_block: Seq<u8>,
    pub public_key: Seq<u8>,
    pub shards: Seq<Seq<char>>,
}

/// The shards of a link as bytes: each address that fits a 2-byte length as a
/// field with that length; longer addresses are left out.
pub open spec fn shards_written(shards: Seq<Seq<char>>) -> Seq<u8>
    decreases shards.len(),
{
    if shards.len() == 0 {
        Seq::empty()
    } else if encode_utf8(shards.last()).len() <= LONG_FIELD_MAX {
        shards_written(shards.drop_last()) + long_field(encode_utf8(shards.last()))
    } else {
        shards_written(shards.drop_last())
    }
}

/// The shards that are written: those whose address fits a 2-byte length.
pub open spec fn shards_kept(shards: Seq<Seq<char>>) -> Seq<Seq<char>>
    decreases shards.len(),
{
    if shards.len() == 0 {
        Seq::empty()
    } else if encode_utf8(shards.last()).len() <= LONG_FIELD_MAX {
        shards_kept(shards.drop_last()).push(shards.last())
    } else {
        shards_kept(shards.drop_last())
    }
}

/// A link before compression: root block, public key, shards.
pub open spec fn payload_written(link: ShareLinkModel) -> Seq<u8> {
    link.root_block + link.public_key + shards_written(link.shards)
}

/// What writing a link yields: the format byte and the compressed payload.
pub open spec fn share_link_written(link: ShareLinkModel) -> Result<Seq<u8>, Error> {
    match zstd_encoded(payload_written(link), COMPRESSION_LEVEL as int) {
        Some(blob) => Ok(seq![V1_SHARE_LINK] + blob),
        None => Err(Error::Zstd),
    }
}

/// The shards that a sequence of fields holds, or `None` where it ends within
/// a field.
pub open spec fn shards_parsed(bytes: Seq<u8>) -> Option<Seq<Seq<char>>>
    decreases bytes.len(),
{
    if bytes.len() == 0 {
        Some(Seq::empty())
    } else {
        match split_long_field(bytes) {
            None => None,
            Some((blob, rest)) => if rest.len() < bytes.len() {
                match shards_parsed(rest) {
                    None => None,
                    Some(tail) => Some(seq![lossy_text(blob)] + tail),
                }
            } else {
                None
            },
        }
    }
}

/// What reading a decompressed link yields.
pub open spec fn payload_parsed(payload: Seq<u8>) -> Result<ShareLinkModel, Error> {
    if payload.len() < SHARE_LINK_HEAD {
        Err(Error::Truncated)
    } else {
        match shards_parsed(payload.skip(SHARE_LINK_HEAD as int)) {
            None => Err(Error::Truncated),
            Some(shards) => Ok(
                ShareLinkModel {
                    root_block: payload.subrange(0, 32),
                    public_key: payload.subrange(32, SHARE_LINK_HEAD as int),
                    shards,
                },
            ),
        }
    }
}

/// What reading a link from `bytes` yields: the link, or the reason why there
/// is none.
pub open spec fn share_link_parsed(bytes: Seq<u8>) -> Result<ShareLinkModel, Error> {
    if bytes.len() < 1 {
        Err(Error::Truncated)
    } else if bytes[0] != V1_SHARE_LINK {
        Err(Error::InvalidFormat(bytes[0]))
    } else {
        match zstd_decoded(bytes.skip(1)) {
            None => Err(Error::Zstd),
            Some(payload) => payload_parsed(payload),
        }
    }
}

/// The shards that were written are read back, in their order.
pub proof fn lemma_shards_read_back(shards: Seq<Seq<char>>, rest: Seq<u8>, tail: Seq<Seq<char>>)
    requires
        shards_parsed(rest) == Some(tail),
    ensures
        shards_parsed(shards_written(shards) + rest) == Some(shards_kept(shards) + tail),
    decreases shards.len(),
{
    if shards.len() == 0 {
        assert(shards_written(shards) + rest =~= rest);
        assert(shards_kept(shards) + tail =~= tail);
    } else {
        let last = shards.last();
        let front = shards.drop_last();
        let blob = encode_utf8(last);
        if blob.len() <= LONG_FIELD_MAX {
            let field = long_field(blob) + rest;
            lemma_split_long_field(blob, rest);
            lemma_lossy_text_of_encoding(last);
            assert(field.len() > rest.len());
            assert(shards_parsed(field) == Some(seq![last] + tail));
            lemma_shards_read_back(front, field, seq![last] + tail);
            assert(shards_written(shards) + rest =~= shards_written(front) + field);
            assert(shards_kept(shards) + tail =~= shards_kept(front) + (seq![last] + tail));
        } else {
            lemma_shards_read_back(front, rest, tail);
        }
    }
}

/// A payload that was written is read back as the link, without the shards
/// that were left out.
pub proof fn lemma_payload_read_back(link: ShareLinkModel)
    requires
        link.root_block.len() == 32,
        link.public_key.len() == 33,
    ensures
        payload_parsed(payload_written(link)) == Ok::<ShareLinkModel, Error>(
            ShareLinkModel { shards: shards_kept(link.shards), ..link },
        ),
{
    let payload = payload_written(link);
    let shards = shards_written(link.shards);
    lemma_shards_read_back(link.shards, Seq::empty(), Seq::empty());
    assert(shards + Seq::<u8>::empty() =~= shards);
    assert(shards_kept(link.shards) + Seq::<Seq<char>>::empty() =~= shards_kept(link.shards));
    assert(payload.skip(SHARE_LINK_HEAD as int) =~= shards);
    assert(payload.subrange(0, 32) =~= link.root_block);
    assert(payload.subrange(32, SHARE_LINK_HEAD as int) =~= link.public_key);
}

/// A link that shares a space.
#[derive(Debug, Clone, PartialEq, Eq)]
pub struct ShareLink {
    root_block: crate::ledger::Hash,
    public_key: PublicKey,
    shards: Vec<String>,
}

impl View for ShareLink {
    type V = ShareLinkModel;

    closed spec fn view(&self) -> ShareLinkModel {
        ShareLinkModel {
            root_block: self.root_block@,
            public_key: self.public_key@,
            shards: self.shards@.map_values(|s: String| s@),
        }
    }
}

/// The bytes of a slice as an array of 32.
fn array_32(bytes: &[u8]) -> (r: [u8; 32])
    requires
        bytes@.len() == 32,
    ensures
        r@ == bytes@,
{
    let mut out: [u8; 32] = [0;32];
    let mut i: usize = 0;
    while i < 32
        invariant
            0 <= i <= 32,
            bytes@.len() == 32,
            forall|j: int| 0 <= j < i ==> out@[j] == bytes@[j],
        decreases 32 - i,
    {
        out[i] = bytes[i];
        i += 1;
    }
    assert(out@ =~= bytes@);
    out
}

/// The bytes of a slice as an array of 33.
fn array_33(bytes: &[u8]) -> (r: [u8; 33])
    requires
        bytes@.len() == 33,
    ensures
        r@ == bytes@,
{
    let mut out: [u8; 33] = [0;33];
    let mut i: usize = 0;
    while i < 33
        invariant
            0 <= i <= 33,
            bytes@.len() == 33,
            forall|j: int| 0 <= j < i ==> out@[j] == bytes@[j],
        decreases 33 - i,
    {
        out[i] = bytes[i];
        i += 1;
    }
    assert(out@ =~= bytes@);
    out
}

impl ShareLink {
    /// The link for a space.
    pub fn new(root_block: crate::ledger::Hash, public_key: PublicKey, shards: Vec<String>) -> (r:
        Self)
        ensures
            r@ == (ShareLinkModel {
                root_block: root_block@,
                public_key: public_key@,
                shards: shards@.map_values(|s: String| s@),
            }),
    {
        ShareLink { root_block, public_key, shards }
    }

    /// Hash of the root block of the space.
    pub fn root_block(&self) -> (r: &crate::ledger::Hash)
        ensures
            r@ == self@.root_block,
    {
        &self.root_block
    }

    /// Public key of the creator of the space.
    pub fn public_key(&self) -> (r: &PublicKey)
        ensures
            r@ == self@.public_key,
    {
        &self.public_key
    }

    /// Addresses of the shards to start from.
    pub fn shards(&self) -> (r: &Vec<String>)
        ensures
            r@.map_values(|s: String| s@) == self@.shards,
    {
        &self.shards
    }

    /// The payload of the link, before compression.
    pub fn payload(&self) -> (r: Vec<u8>)
        ensures
            r@ == payload_written(self@),
    {
        let mut link: Vec<u8> = Vec::new();
        append_bytes(&mut link, self.root_block.0.as_slice());
        append_bytes(&mut link, self.public_key.0.as_slice());
        let ghost head = link@;
        let ghost all = self@.shards;
        let n: usize = self.shards.len();
        let mut i: usize = 0;
        assert(all.subrange(0, 0) =~= Seq::<Seq<char>>::empty());
        assert(link@ =~= head + shards_written(all.subrange(0, 0)));
        while i < n
            invariant
                n == self.shards@.len(),
                0 <= i <= n,
                all == self@.shards,
                link@ == head + shards_written(all.subrange(0, i as int)),
            decreases n - i,
        {
            let address = self.shards[i].as_str().as_bytes();
            proof {
                let next = all.subrange(0, i + 1);
                assert(next.drop_last() =~= all.subrange(0, i as int));
                assert(next.last() == self.shards@[i as int]@);
            }
            if address.len() <= LONG_FIELD_MAX {
                put_long_field(&mut link, address);
            }
            i += 1;
            assert(link@ =~= head + shards_written(all.subrange(0, i as int)));
        }
        assert(all.subrange(0, n as int) =~= all);
        assert(link@ =~= payload_written(self@));
        link
    }

    /// Writes the link: the format byte and the compressed payload. What is
    /// written reads back as this link without the shards whose address does
    /// not fit a 2-byte length.
    pub fn to_bytes(&self) -> (r: Result<Vec<u8>, Error>)
        ensures
            match r {
                Ok(bytes) => share_link_written(self@) == Ok::<Seq<u8>, Error>(bytes@)
                    && share_link_parsed(bytes@) == Ok::<ShareLinkModel, Error>(
                    ShareLinkModel { shards: shards_kept(self@.shards), ..self@ },
                ),
                Err(e) => share_link_written(self@) == Err::<Seq<u8>, Error>(e),
            },
    {
        let link = self.payload();
        let blob = match compress(link.as_slice()) {
            Some(blob) => blob,
            None => {
                return Err(Error::Zstd);
            },
        };
        let mut out: Vec<u8> = Vec::new();
        out.push(V1_SHARE_LINK);
        append_bytes(&mut out, blob.as_slice());
        proof {
            assert(out@ =~= seq![V1_SHARE_LINK] + blob@);
            assert(out@.skip(1) =~= blob@);
            lemma_payload_read_back(self@);
        }
        Ok(out)
    }

    /// The link that a decompressed payload holds.
    pub fn from_payload(payload: &[u8]) -> (r: Result<Self, Error>)
        ensures
            match r {
                Ok(link) => payload_parsed(payload@) == Ok::<ShareLinkModel, Error>(link@),
                Err(e) => payload_parsed(payload@) == Err::<ShareLinkModel, Error>(e),
            },
    {
        let total: usize = payload.len();
        if total < SHARE_LINK_HEAD {
            return Err(Error::Truncated);
        }
        let root_block = array_32(&payload[0..32]);
        let public_key = array_33(&payload[32..SHARE_LINK_HEAD]);
        let mut rest = &payload[SHARE_LINK_HEAD..total];
        let ghost all = payload@.skip(SHARE_LINK_HEAD as int);
        assert(rest@ =~= all);
        let mut shards: Vec<String> = Vec::new();
        assert(shards@.map_values(|s: String| s@) =~= Seq::<Seq<char>>::empty());
        while rest.len() > 0
            invariant
                payload@.len() >= SHARE_LINK_HEAD,
                all == payload@.skip(SHARE_LINK_HEAD as int),
                shards_parsed(all) == match shards_parsed(rest@) {
                    None => None::<Seq<Seq<char>>>,
                    Some(tail) => Some(shards@.map_values(|s: String| s@) + tail),
                },
            decreases rest@.len(),
        {
            let (blob, next) = match take_long_field(rest) {
                Some(parts) => parts,
                None => {
                    return Err(Error::Truncated);
                },
            };
            let ghost before = shards@.map_values(|s: String| s@);
            shards.push(from_utf8_lossy(blob));
            proof {
                let after = shards@.map_values(|s: String| s@);
                assert(after =~= before.push(lossy_text(blob@)));
                assert(next@.len() < rest@.len());
                match shards_parsed(next@) {
                    Some(tail) => {
                        assert(before + (seq![lossy_text(blob@)] + tail) =~= after + tail);
                    },
                    None => {},
                }
            }
            rest = next;
        }
        proof {
            assert(shards@.map_values(|s: String| s@) + Seq::<Seq<char>>::empty()
                =~= shards@.map_values(|s: String| s@));
        }
        Ok(
            ShareLink {
                root_block: crate::ledger::Hash(root_block),
                public_key: PublicKey(public_key),
                shards,
            },
        )
    }

    /// Reads a link.
    pub fn from_bytes(bytes: &[u8]) -> (r: Result<Self, Error>)
        ensures
            match r {
                Ok(link) => share_link_parsed(bytes@) == Ok::<ShareLinkModel, Error>(link@),
                Err(e) => share_link_parsed(bytes@) == Err::<ShareLinkModel, Error>(e),
            },
    {
        let total: usize = bytes.len();
        if total < 1 {
            return Err(Error::Truncated);
        }
        if bytes[0] != V1_SHARE_LINK {
            return Err(Error::InvalidFormat(bytes[0]));
        }
        let body = &bytes[1..total];
        assert(body@ =~= bytes@.skip(1));
        match decompress(body) {
            Some(payload) => Self::from_payload(payload.as_slice()),
            None => Err(Error::Zstd),
        }
    }
}

} // verus!

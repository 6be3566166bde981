//! BLAKE3 digests, site identifiers and their base58 text form.

use vstd::prelude::*;
use vstd::utf8::encode_utf8;
use crate::bytes::append_bytes;
use crate::types::{ChunkId, PublicKey, SiteId};

verus! {

/// The BLAKE3 digest of a byte string: 32 bytes that depend on the input alone.
pub uninterp spec fn blake3_digest(data: Seq<u8>) -> Seq<u8>;

/// The base58 text (Bitcoin alphabet, no checksum) of a byte string.
pub uninterp spec fn base58_text(data: Seq<u8>) -> Seq<char>;

/// The bytes that a base58 text stands for, or `None` where the text is not base58.
pub uninterp spec fn base58_bytes(text: Seq<char>) -> Option<Seq<u8>>;

/// The parts of a message, one after the other.
pub open spec fn concat_parts(parts: Seq<Seq<u8>>) -> Seq<u8>
    decreases parts.len(),
{
    if parts.len() == 0 {
        Seq::empty()
    } else {
        concat_parts(parts.drop_last()) + parts.last()
    }
}

/// The identifier of the site that `publisher` publishes under `name`:
/// the digest of the key followed by the name's UTF-8 bytes.
pub open spec fn site_id_of(publisher: Seq<u8>, name: Seq<char>) -> Seq<u8> {
    blake3_digest(publisher + encode_utf8(name))
}

/// Calls `blake3::hash` and copies the 32 bytes out. Trusted: the result is
/// the BLAKE3 digest of exactly the bytes given.
#[verifier::external_body]
fn blake3_hash(data: &[u8]) -> (digest: [u8; 32])
    ensures
        digest@ == blake3_digest(data@),
{
    *blake3::hash(data).as_bytes()
}

/// Calls `bs58::encode(..).into_string()`. Trusted: the result is the base58
/// text of the bytes given, and decoding that text gives the bytes back.
#[verifier::external_body]
fn bs58_encode(data: &[u8]) -> (text: String)
    ensures
        text@ == base58_text(data@),
        base58_bytes(text@) == Some(data@),
{
    bs58::encode(data).into_string()
}

/// Calls `bs58::decode(..).into_vec()`. Trusted: the call succeeds exactly on
/// base58 text and then gives the bytes it stands for.
#[verifier::external_body]
fn bs58_decode(text: &str) -> (bytes: Option<Vec<u8>>)
    ensures
        match bytes {
            Some(v) => base58_bytes(text@) == Some(v@),
            None => base58_bytes(text@) is None,
        },
{
    bs58::decode(text).into_vec().ok()
}

/// Hash data using BLAKE3.
pub fn hash(data: &[u8]) -> (digest: [u8; 32])
    ensures
        digest@ == blake3_digest(data@),
{
    blake3_hash(data)
}

/// Hash several byte strings as one message: the digest of their concatenation.
pub fn hash_multi(parts: &[&[u8]]) -> (digest: [u8; 32])
    ensures
        digest@ == blake3_digest(concat_parts(parts@.map_values(|p: &[u8]| p@))),
{
    let ghost views = parts@.map_values(|p: &[u8]| p@);
    let mut message: Vec<u8> = Vec::new();
    let mut i: usize = 0;
    while i < parts.len()
        invariant
            i <= parts@.len(),
            views == parts@.map_values(|p: &[u8]| p@),
            message@ == concat_parts(views.subrange(0, i as int)),
        decreases parts@.len() - i,
    {
        append_bytes(&mut message, parts[i]);
        proof {
            let next = views.subrange(0, i + 1);
            assert(next.drop_last() == views.subrange(0, i as int));
        }
        i += 1;
    }
    assert(views.subrange(0, parts@.len() as int) == views);
    blake3_hash(message.as_slice())
}

/// Operations on site identifiers.
pub trait SiteIdExt: Sized {
    /// The bytes of the identifier.
    spec fn id_bytes(&self) -> Seq<u8>;

    /// Generate a stable site ID from publisher key and site name.
    fn generate(publisher: &PublicKey, name: &str) -> (id: SiteId)
        ensures
            id@ == site_id_of(publisher@, name@),
    ;

    /// Encode as base58 string.
    fn to_base58(&self) -> (text: String)
        ensures
            text@ == base58_text(self.id_bytes()),
            base58_bytes(text@) == Some(self.id_bytes()),
    ;

    /// Decode from base58 string: only a text that stands for exactly 32 bytes is an identifier.
    fn from_base58(s: &str) -> (id: Option<SiteId>)
        ensures
            match id {
                Some(found) => base58_bytes(s@) == Some(found@),
                None => base58_bytes(s@) matches Some(bytes) ==> bytes.len() != 32,
            },
    ;
}

impl SiteIdExt for SiteId {
    open spec fn id_bytes(&self) -> Seq<u8> {
        self@
    }

    fn generate(publisher: &PublicKey, name: &str) -> (id: SiteId) {
        let mut message: Vec<u8> = Vec::new();
        append_bytes(&mut message, publisher.as_slice());
        append_bytes(&mut message, name.as_bytes());
        blake3_hash(message.as_slice())
    }

    fn to_base58(&self) -> (text: String) {
        bs58_encode(self.as_slice())
    }

    fn from_base58(s: &str) -> (id: Option<SiteId>) {
        match bs58_decode(s) {
            Some(bytes) => {
                if bytes.len() != 32 {
                    None
                } else {
                    let id = crate::bytes::array32_at(bytes.as_slice(), 0);
                    Some(id)
                }
            },
            None => None,
        }
    }
}

/// Encode bytes as base58.
pub fn encode_base58(data: &[u8]) -> (text: String)
    ensures
        text@ == base58_text(data@),
        base58_bytes(text@) == Some(data@),
{
    bs58_encode(data)
}

/// Decode base58 string to bytes.
pub fn decode_base58(s: &str) -> (bytes: Option<Vec<u8>>)
    ensures
        match bytes {
            Some(v) => base58_bytes(s@) == Some(v@),
            None => base58_bytes(s@) is None,
        },
{
    bs58_decode(s)
}

/// Calculate chunk ID for data.
pub fn chunk_id(data: &[u8]) -> (id: ChunkId)
    ensures
        id@ == blake3_digest(data@),
{
    hash(data)
}

} // verus!

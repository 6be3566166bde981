//! Wire protocol: requests and responses in their binary form, framed by a
//! 4-byte big-endian length.

use vstd::prelude::*;
use crate::bytes::{append_bytes, be_bytes, be_value, le_bytes, push_le, push_u32_be, read_u32_be};
use crate::bytes::{lemma_be_bytes_len, lemma_be_bytes_of_value, lemma_be_value_of_bytes};
use crate::bytes::{lemma_pow256_values, lemma_skip_skip};
use crate::codec::{decode, decoded, encode, law_decode_encode, law_encode_decode};
use crate::codec::containers::models;
use crate::codec::records::{lemma_models_ids, lemma_models_peers};
use crate::codec::wire::{lemma_parse_uint_sound, lemma_parse_uint_wire, parse_uint, read_uint, Wire};
use crate::types::{ChunkId, GrabRequest, GrabRequestView, GrabResponse, GrabResponseView, PeerRecord};
use crate::types::{SiteId, WebBundle};

verus! {

/// Protocol identifier of the request/response exchange.
pub const PROTOCOL_NAME: &'static str = "/grabnet/1.0.0";

/// The largest payload that a frame may carry: 100 MiB.
pub const MAX_MESSAGE_SIZE: usize = 104857600;

/// Why bytes were refused as a protocol message.
#[derive(Debug, Clone, Copy, PartialEq, Eq, Structural)]
pub enum ProtocolError {
    /// The payload is longer than `MAX_MESSAGE_SIZE`.
    MessageTooLarge,
    /// Fewer bytes are there than the frame announces.
    Truncated,
    /// The payload is the binary form of no message.
    Malformed,
}

/// GrabNet protocol definition.
#[derive(Debug, Clone, Copy)]
pub struct GrabProtocol;

impl GrabProtocol {
    /// The protocol identifier.
    pub fn name(&self) -> (name: &'static str)
        ensures
            name@ == PROTOCOL_NAME@,
    {
        PROTOCOL_NAME
    }
}

/// A payload behind the tag of its variant.
pub open spec fn wire_tagged<P: Wire>(tag: nat, payload: P::Model) -> Seq<u8> {
    le_bytes(tag, 4) + P::wire(payload)
}

/// The payload behind a 4-byte tag at the front of `bytes`.
pub open spec fn parse_tagged<P: Wire>(bytes: Seq<u8>) -> Option<(P::Model, nat)> {
    match P::parse(bytes.skip(4)) {
        Some((payload, used)) => Some((payload, 4 + used)),
        None => None,
    }
}

/// Parsing a tagged payload that was written gives tag and payload back.
pub proof fn lemma_tagged_parse_wire<P: Wire>(tag: nat, payload: P::Model, rest: Seq<u8>)
    requires
        tag < 0x1_0000_0000,
        P::fits(payload),
    ensures
        parse_uint(wire_tagged::<P>(tag, payload) + rest, 4) == Some((tag, 4nat)),
        parse_tagged::<P>(wire_tagged::<P>(tag, payload) + rest) == Some(
            (payload, wire_tagged::<P>(tag, payload).len()),
        ),
{
    lemma_pow256_values();
    let body = P::wire(payload) + rest;
    let all = wire_tagged::<P>(tag, payload) + rest;
    lemma_parse_uint_wire(tag, 4, body);
    assert(all =~= le_bytes(tag, 4) + body);
    assert(all.skip(4) =~= body);
    P::lemma_parse_wire(payload, rest);
}

/// What `parse_tagged` accepts is the binary form of the tag and of what it
/// gives.
pub proof fn lemma_tagged_wire_parse<P: Wire>(bytes: Seq<u8>)
    ensures
        parse_uint(bytes, 4) matches Some((tag, _)) ==> (parse_tagged::<P>(bytes) matches Some(
            (payload, used),
        ) ==> {
            &&& used <= bytes.len()
            &&& P::fits(payload)
            &&& wire_tagged::<P>(tag, payload) == bytes.take(used as int)
        }),
{
    lemma_parse_uint_sound(bytes, 4);
    P::lemma_wire_parse(bytes.skip(4));
}

/// Appends a payload behind the tag of its variant.
fn write_tagged<P: Wire>(tag: u32, payload: &P, out: &mut Vec<u8>)
    ensures
        final(out)@ == old(out)@ + wire_tagged::<P>(tag as nat, payload.model()),
        P::fits(payload.model()),
{
    push_le(out, tag as u64, 4);
    payload.write(out);
}

/// Reads the payload behind the tag at `pos`.
fn read_tagged<P: Wire>(bytes: &[u8], pos: usize) -> (found: Option<(P, usize)>)
    requires
        pos + 4 <= bytes@.len(),
    ensures
        match found {
            Some((payload, next)) => {
                &&& pos <= next <= bytes@.len()
                &&& parse_tagged::<P>(bytes@.skip(pos as int)) == Some(
                    (payload.model(), (next - pos) as nat),
                )
            },
            None => parse_tagged::<P>(bytes@.skip(pos as int)) is None,
        },
{
    proof {
        lemma_skip_skip(bytes@, pos as int, 4);
    }
    let n: usize = bytes.len();
    P::read(bytes, pos + 4)
}

pub type ChunkBody = (ChunkId, Vec<u8>);

/// The models of chunks with their identifiers are their views.
pub proof fn lemma_models_chunks(chunks: Seq<ChunkBody>)
    ensures
        models::<ChunkBody>(chunks) == chunks.map_values(|c: ChunkBody| (c.0@, c.1@)),
{
}

/// A request: the number of its variant as 4 bytes, then the variant's fields.
impl Wire for GrabRequest {
    type Model = GrabRequestView;

    open spec fn model(&self) -> GrabRequestView {
        self@
    }

    open spec fn fits(m: GrabRequestView) -> bool {
        match m {
            GrabRequestView::FindSite { site_id } => SiteId::fits(site_id),
            GrabRequestView::GetManifest { site_id } => SiteId::fits(site_id),
            GrabRequestView::GetChunks { chunk_ids } => Vec::<ChunkId>::fits(chunk_ids),
            GrabRequestView::Announce { site_id, revision } => SiteId::fits(site_id),
            GrabRequestView::PushUpdate { bundle } => WebBundle::fits(bundle),
        }
    }

    open spec fn wire(m: GrabRequestView) -> Seq<u8> {
        match m {
            GrabRequestView::FindSite { site_id } => wire_tagged::<SiteId>(0, site_id),
            GrabRequestView::GetManifest { site_id } => wire_tagged::<SiteId>(1, site_id),
            GrabRequestView::GetChunks { chunk_ids } => wire_tagged::<Vec<ChunkId>>(2, chunk_ids),
            GrabRequestView::Announce { site_id, revision } => wire_tagged::<(SiteId, u64)>(
                3,
                (site_id, revision),
            ),
            GrabRequestView::PushUpdate { bundle } => wire_tagged::<WebBundle>(4, bundle),
        }
    }

    open spec fn parse(bytes: Seq<u8>) -> Option<(GrabRequestView, nat)> {
        match parse_uint(bytes, 4) {
            Some((tag, _)) => if tag == 0 {
                match parse_tagged::<SiteId>(bytes) {
                    Some((site_id, used)) => Some((GrabRequestView::FindSite { site_id }, used)),
                    None => None,
                }
            } else if tag == 1 {
                match parse_tagged::<SiteId>(bytes) {
                    Some((site_id, used)) => Some((GrabRequestView::GetManifest { site_id }, used)),
                    None => None,
                }
            } else if tag == 2 {
                match parse_tagged::<Vec<ChunkId>>(bytes) {
                    Some((chunk_ids, used)) => Some((GrabRequestView::GetChunks { chunk_ids }, used)),
                    None => None,
                }
            } else if tag == 3 {
                match parse_tagged::<(SiteId, u64)>(bytes) {
                    Some((pair, used)) => Some(
                        (GrabRequestView::Announce { site_id: pair.0, revision: pair.1 }, used),
                    ),
                    None => None,
                }
            } else if tag == 4 {
                match parse_tagged::<WebBundle>(bytes) {
                    Some((bundle, used)) => Some((GrabRequestView::PushUpdate { bundle }, used)),
                    None => None,
                }
            } else {
                None
            },
            None => None,
        }
    }

    proof fn lemma_parse_wire(m: GrabRequestView, rest: Seq<u8>) {
        match m {
            GrabRequestView::FindSite { site_id } => {
                lemma_tagged_parse_wire::<SiteId>(0, site_id, rest);
            },
            GrabRequestView::GetManifest { site_id } => {
                lemma_tagged_parse_wire::<SiteId>(1, site_id, rest);
            },
            GrabRequestView::GetChunks { chunk_ids } => {
                lemma_tagged_parse_wire::<Vec<ChunkId>>(2, chunk_ids, rest);
            },
            GrabRequestView::Announce { site_id, revision } => {
                lemma_tagged_parse_wire::<(SiteId, u64)>(3, (site_id, revision), rest);
            },
            GrabRequestView::PushUpdate { bundle } => {
                lemma_tagged_parse_wire::<WebBundle>(4, bundle, rest);
            },
        }
    }

    proof fn lemma_wire_parse(bytes: Seq<u8>) {
        lemma_tagged_wire_parse::<SiteId>(bytes);
        lemma_tagged_wire_parse::<Vec<ChunkId>>(bytes);
        lemma_tagged_wire_parse::<(SiteId, u64)>(bytes);
        lemma_tagged_wire_parse::<WebBundle>(bytes);
    }

    fn write(&self, out: &mut Vec<u8>) {
        match self {
            GrabRequest::FindSite { site_id } => {
                write_tagged::<SiteId>(0, site_id, out);
            },
            GrabRequest::GetManifest { site_id } => {
                write_tagged::<SiteId>(1, site_id, out);
            },
            GrabRequest::GetChunks { chunk_ids } => {
                write_tagged::<Vec<ChunkId>>(2, chunk_ids, out);
                proof {
                    lemma_models_ids(chunk_ids@);
                }
            },
            GrabRequest::Announce { site_id, revision } => {
                let pair: (SiteId, u64) = (*site_id, *revision);
                write_tagged::<(SiteId, u64)>(3, &pair, out);
            },
            GrabRequest::PushUpdate { bundle } => {
                write_tagged::<WebBundle>(4, &**bundle, out);
            },
        }
    }

    fn read(bytes: &[u8], pos: usize) -> (found: Option<(Self, usize)>) {
        let tag = match read_uint(bytes, pos, 4) {
            Some(tag) => tag,
            None => {
                return None;
            },
        };
        if tag == 0 {
            match read_tagged::<SiteId>(bytes, pos) {
                Some((site_id, next)) => Some((GrabRequest::FindSite { site_id }, next)),
                None => None,
            }
        } else if tag == 1 {
            match read_tagged::<SiteId>(bytes, pos) {
                Some((site_id, next)) => Some((GrabRequest::GetManifest { site_id }, next)),
                None => None,
            }
        } else if tag == 2 {
            match read_tagged::<Vec<ChunkId>>(bytes, pos) {
                Some((chunk_ids, next)) => {
                    proof {
                        lemma_models_ids(chunk_ids@);
                    }
                    Some((GrabRequest::GetChunks { chunk_ids }, next))
                },
                None => None,
            }
        } else if tag == 3 {
            match read_tagged::<(SiteId, u64)>(bytes, pos) {
                Some((pair, next)) => Some(
                    (GrabRequest::Announce { site_id: pair.0, revision: pair.1 }, next),
                ),
                None => None,
            }
        } else if tag == 4 {
            match read_tagged::<WebBundle>(bytes, pos) {
                Some((bundle, next)) => Some((GrabRequest::PushUpdate { bundle: Box::new(bundle) }, next)),
                None => None,
            }
        } else {
            None
        }
    }
}

/// A response: the number of its variant as 4 bytes, then the variant's fields.
impl Wire for GrabResponse {
    type Model = GrabResponseView;

    open spec fn model(&self) -> GrabResponseView {
        self@
    }

    open spec fn fits(m: GrabResponseView) -> bool {
        match m {
            GrabResponseView::SiteHosts { hosts } => Vec::<PeerRecord>::fits(hosts),
            GrabResponseView::Manifest { bundle } => WebBundle::fits(bundle),
            GrabResponseView::Chunks { chunks } => Vec::<ChunkBody>::fits(chunks),
            GrabResponseView::Ack => true,
            GrabResponseView::Error { message } => String::fits(message),
        }
    }

    open spec fn wire(m: GrabResponseView) -> Seq<u8> {
        match m {
            GrabResponseView::SiteHosts { hosts } => wire_tagged::<Vec<PeerRecord>>(0, hosts),
            GrabResponseView::Manifest { bundle } => wire_tagged::<WebBundle>(1, bundle),
            GrabResponseView::Chunks { chunks } => wire_tagged::<Vec<ChunkBody>>(2, chunks),
            GrabResponseView::Ack => le_bytes(3, 4),
            GrabResponseView::Error { message } => wire_tagged::<String>(4, message),
        }
    }

    open spec fn parse(bytes: Seq<u8>) -> Option<(GrabResponseView, nat)> {
        match parse_uint(bytes, 4) {
            Some((tag, _)) => if tag == 0 {
                match parse_tagged::<Vec<PeerRecord>>(bytes) {
                    Some((hosts, used)) => Some((GrabResponseView::SiteHosts { hosts }, used)),
                    None => None,
                }
            } else if tag == 1 {
                match parse_tagged::<WebBundle>(bytes) {
                    Some((bundle, used)) => Some((GrabResponseView::Manifest { bundle }, used)),
                    None => None,
                }
            } else if tag == 2 {
                match parse_tagged::<Vec<ChunkBody>>(bytes) {
                    Some((chunks, used)) => Some((GrabResponseView::Chunks { chunks }, used)),
                    None => None,
                }
            } else if tag == 3 {
                Some((GrabResponseView::Ack, 4))
            } else if tag == 4 {
                match parse_tagged::<String>(bytes) {
                    Some((message, used)) => Some((GrabResponseView::Error { message }, used)),
                    None => None,
                }
            } else {
                None
            },
            None => None,
        }
    }

    proof fn lemma_parse_wire(m: GrabResponseView, rest: Seq<u8>) {
        match m {
            GrabResponseView::SiteHosts { hosts } => {
                lemma_tagged_parse_wire::<Vec<PeerRecord>>(0, hosts, rest);
            },
            GrabResponseView::Manifest { bundle } => {
                lemma_tagged_parse_wire::<WebBundle>(1, bundle, rest);
            },
            GrabResponseView::Chunks { chunks } => {
                lemma_tagged_parse_wire::<Vec<ChunkBody>>(2, chunks, rest);
            },
            GrabResponseView::Ack => {
                lemma_pow256_values();
                lemma_parse_uint_wire(3, 4, rest);
            },
            GrabResponseView::Error { message } => {
                lemma_tagged_parse_wire::<String>(4, message, rest);
            },
        }
    }

    proof fn lemma_wire_parse(bytes: Seq<u8>) {
        lemma_parse_uint_sound(bytes, 4);
        lemma_tagged_wire_parse::<Vec<PeerRecord>>(bytes);
        lemma_tagged_wire_parse::<WebBundle>(bytes);
        lemma_tagged_wire_parse::<Vec<ChunkBody>>(bytes);
        lemma_tagged_wire_parse::<String>(bytes);
    }

    fn write(&self, out: &mut Vec<u8>) {
        match self {
            GrabResponse::SiteHosts { hosts } => {
                write_tagged::<Vec<PeerRecord>>(0, hosts, out);
                proof {
                    lemma_models_peers(hosts@);
                }
            },
            GrabResponse::Manifest { bundle } => {
                write_tagged::<WebBundle>(1, &**bundle, out);
            },
            GrabResponse::Chunks { chunks } => {
                write_tagged::<Vec<ChunkBody>>(2, chunks, out);
                proof {
                    lemma_models_chunks(chunks@);
                }
            },
            GrabResponse::Ack => {
                push_le(out, 3, 4);
            },
            GrabResponse::Error { message } => {
                write_tagged::<String>(4, message, out);
            },
        }
    }

    fn read(bytes: &[u8], pos: usize) -> (found: Option<(Self, usize)>) {
        let tag = match read_uint(bytes, pos, 4) {
            Some(tag) => tag,
            None => {
                return None;
            },
        };
        if tag == 0 {
            match read_tagged::<Vec<PeerRecord>>(bytes, pos) {
                Some((hosts, next)) => {
                    proof {
                        lemma_models_peers(hosts@);
                    }
                    Some((GrabResponse::SiteHosts { hosts }, next))
                },
                None => None,
            }
        } else if tag == 1 {
            match read_tagged::<WebBundle>(bytes, pos) {
                Some((bundle, next)) => Some((GrabResponse::Manifest { bundle: Box::new(bundle) }, next)),
                None => None,
            }
        } else if tag == 2 {
            match read_tagged::<Vec<ChunkBody>>(bytes, pos) {
                Some((chunks, next)) => {
                    proof {
                        lemma_models_chunks(chunks@);
                    }
                    Some((GrabResponse::Chunks { chunks }, next))
                },
                None => None,
            }
        } else if tag == 3 {
            Some((GrabResponse::Ack, pos + 4))
        } else if tag == 4 {
            match read_tagged::<String>(bytes, pos) {
                Some((message, next)) => Some((GrabResponse::Error { message }, next)),
                None => None,
            }
        } else {
            None
        }
    }
}

/// A payload behind its length as 4 big-endian bytes.
pub open spec fn framed(payload: Seq<u8>) -> Seq<u8> {
    be_bytes(payload.len(), 4) + payload
}

/// What the front of a byte stream holds: the payload of the first frame
/// and the length of that frame, or the reason why there is none.
pub open spec fn unframed(stream: Seq<u8>) -> Result<(Seq<u8>, nat), ProtocolError> {
    if stream.len() < 4 {
        Err(ProtocolError::Truncated)
    } else {
        let len = be_value(stream.take(4));
        if len > MAX_MESSAGE_SIZE {
            Err(ProtocolError::MessageTooLarge)
        } else if stream.len() - 4 < len {
            Err(ProtocolError::Truncated)
        } else {
            Ok((stream.subrange(4, 4 + len as int), 4 + len))
        }
    }
}

/// The message that a frame carries, or the reason why it carries none.
pub open spec fn unframed_message<T: Wire>(frame: Seq<u8>) -> Result<T::Model, ProtocolError> {
    match unframed(frame) {
        Ok((payload, used)) => if used != frame.len() {
            Err(ProtocolError::Malformed)
        } else {
            match decoded::<T>(payload) {
                Some(m) => Ok(m),
                None => Err(ProtocolError::Malformed),
            }
        },
        Err(e) => Err(e),
    }
}

/// The payload length that a frame's first 4 bytes announce; a length over
/// `MAX_MESSAGE_SIZE` is refused.
pub fn frame_length(prefix: &[u8; 4]) -> (len: Result<usize, ProtocolError>)
    ensures
        match len {
            Ok(n) => n == be_value(prefix@) && n <= MAX_MESSAGE_SIZE,
            Err(e) => e == ProtocolError::MessageTooLarge && be_value(prefix@) > MAX_MESSAGE_SIZE,
        },
{
    let len = read_u32_be(prefix.as_slice(), 0);
    assert(prefix@.subrange(0, 4) =~= prefix@);
    if len > 104857600 {
        Err(ProtocolError::MessageTooLarge)
    } else {
        Ok(len as usize)
    }
}

/// Puts a payload behind its length; a payload over `MAX_MESSAGE_SIZE` is refused.
pub fn frame(payload: &[u8]) -> (framed_bytes: Result<Vec<u8>, ProtocolError>)
    ensures
        match framed_bytes {
            Ok(bytes) => payload@.len() <= MAX_MESSAGE_SIZE && bytes@ == framed(payload@),
            Err(e) => e == ProtocolError::MessageTooLarge && payload@.len() > MAX_MESSAGE_SIZE,
        },
{
    if payload.len() > MAX_MESSAGE_SIZE {
        return Err(ProtocolError::MessageTooLarge);
    }
    let mut bytes: Vec<u8> = Vec::new();
    push_u32_be(&mut bytes, payload.len() as u32);
    append_bytes(&mut bytes, payload);
    Ok(bytes)
}

/// Takes the first frame off a byte stream: its payload and its length.
pub fn unframe(stream: &[u8]) -> (first: Result<(Vec<u8>, usize), ProtocolError>)
    ensures
        match first {
            Ok((payload, used)) => unframed(stream@) == Ok::<(Seq<u8>, nat), ProtocolError>(
                (payload@, used as nat),
            ),
            Err(e) => unframed(stream@) == Err::<(Seq<u8>, nat), ProtocolError>(e),
        },
{
    if stream.len() < 4 {
        return Err(ProtocolError::Truncated);
    }
    let len = read_u32_be(stream, 0);
    if len > 104857600 {
        return Err(ProtocolError::MessageTooLarge);
    }
    if stream.len() - 4 < len as usize {
        return Err(ProtocolError::Truncated);
    }
    let end: usize = 4 + len as usize;
    let mut payload: Vec<u8> = Vec::new();
    append_bytes(&mut payload, &stream[4..end]);
    Ok((payload, end))
}

/// The first frame of a stream that starts with `framed(payload)` is `payload`.
pub proof fn law_unframe_frame(payload: Seq<u8>, rest: Seq<u8>)
    requires
        payload.len() <= MAX_MESSAGE_SIZE,
    ensures
        unframed(framed(payload) + rest) == Ok::<(Seq<u8>, nat), ProtocolError>(
            (payload, framed(payload).len()),
        ),
{
    lemma_pow256_values();
    lemma_be_bytes_len(payload.len(), 4);
    lemma_be_value_of_bytes(payload.len(), 4);
    let stream = framed(payload) + rest;
    assert(stream.take(4) =~= be_bytes(payload.len(), 4));
    assert(stream.subrange(4, 4 + payload.len() as int) =~= payload);
}

/// A frame that yields a message is exactly the frame of that message.
pub proof fn law_frame_canonical<T: Wire>(frame: Seq<u8>)
    ensures
        unframed_message::<T>(frame) matches Ok(m) ==> T::fits(m) && frame == framed(T::wire(m)),
{
    if let Ok(m) = unframed_message::<T>(frame) {
        let (payload, used) = unframed(frame).unwrap();
        law_encode_decode::<T>(payload);
        lemma_be_bytes_of_value(frame.take(4));
    }
}

/// Round trip: the frame of a message that fits the size limit yields the message.
pub proof fn law_message_roundtrip<T: Wire>(m: T::Model)
    requires
        T::fits(m),
        T::wire(m).len() <= MAX_MESSAGE_SIZE,
    ensures
        unframed_message::<T>(framed(T::wire(m))) == Ok::<T::Model, ProtocolError>(m),
{
    law_unframe_frame(T::wire(m), Seq::empty());
    law_decode_encode::<T>(m);
}

/// Writes a message as one frame.
fn encode_message<T: Wire>(message: &T) -> (frame_bytes: Result<Vec<u8>, ProtocolError>)
    ensures
        T::fits(message.model()),
        match frame_bytes {
            Ok(bytes) => {
                &&& T::wire(message.model()).len() <= MAX_MESSAGE_SIZE
                &&& bytes@ == framed(T::wire(message.model()))
            },
            Err(e) => e == ProtocolError::MessageTooLarge && T::wire(message.model()).len()
                > MAX_MESSAGE_SIZE,
        },
{
    let payload = encode(message);
    frame(payload.as_slice())
}

/// Reads the message that one frame carries.
fn decode_message<T: Wire>(frame_bytes: &[u8]) -> (message: Result<T, ProtocolError>)
    ensures
        match message {
            Ok(m) => unframed_message::<T>(frame_bytes@) == Ok::<T::Model, ProtocolError>(m.model()),
            Err(e) => unframed_message::<T>(frame_bytes@) == Err::<T::Model, ProtocolError>(e),
        },
{
    match unframe(frame_bytes) {
        Ok((payload, used)) => {
            if used != frame_bytes.len() {
                return Err(ProtocolError::Malformed);
            }
            match decode::<T>(payload.as_slice()) {
                Some(m) => Ok(m),
                None => Err(ProtocolError::Malformed),
            }
        },
        Err(e) => Err(e),
    }
}

/// Codec for encoding/decoding messages.
#[derive(Debug, Clone, Copy)]
pub struct GrabCodec;

impl GrabCodec {
    /// The frame of a request.
    pub fn write_request(&self, request: &GrabRequest) -> (frame_bytes: Result<Vec<u8>, ProtocolError>)
        ensures
            match frame_bytes {
                Ok(bytes) => {
                    &&& GrabRequest::wire(request@).len() <= MAX_MESSAGE_SIZE
                    &&& bytes@ == framed(GrabRequest::wire(request@))
                    &&& unframed_message::<GrabRequest>(bytes@) == Ok::<GrabRequestView, ProtocolError>(
                        request@,
                    )
                },
                Err(e) => e == ProtocolError::MessageTooLarge && GrabRequest::wire(request@).len()
                    > MAX_MESSAGE_SIZE,
            },
    {
        let frame_bytes = encode_message(request);
        proof {
            if frame_bytes is Ok {
                law_message_roundtrip::<GrabRequest>(request@);
            }
        }
        frame_bytes
    }

    /// The request that a frame carries.
    pub fn read_request(&self, frame_bytes: &[u8]) -> (request: Result<GrabRequest, ProtocolError>)
        ensures
            match request {
                Ok(r) => unframed_message::<GrabRequest>(frame_bytes@) == Ok::<
                    GrabRequestView,
                    ProtocolError,
                >(r@),
                Err(e) => unframed_message::<GrabRequest>(frame_bytes@) == Err::<
                    GrabRequestView,
                    ProtocolError,
                >(e),
            },
    {
        decode_message(frame_bytes)
    }

    /// The frame of a response.
    pub fn write_response(&self, response: &GrabResponse) -> (frame_bytes: Result<
        Vec<u8>,
        ProtocolError,
    >)
        ensures
            match frame_bytes {
                Ok(bytes) => {
                    &&& GrabResponse::wire(response@).len() <= MAX_MESSAGE_SIZE
                    &&& bytes@ == framed(GrabResponse::wire(response@))
                    &&& unframed_message::<GrabResponse>(bytes@) == Ok::<
                        GrabResponseView,
                        ProtocolError,
                    >(response@)
                },
                Err(e) => e == ProtocolError::MessageTooLarge && GrabResponse::wire(response@).len()
                    > MAX_MESSAGE_SIZE,
            },
    {
        let frame_bytes = encode_message(response);
        proof {
            if frame_bytes is Ok {
                law_message_roundtrip::<GrabResponse>(response@);
            }
        }
        frame_bytes
    }

    /// The response that a frame carries.
    pub fn read_response(&self, frame_bytes: &[u8]) -> (response: Result<GrabResponse, ProtocolError>)
        ensures
            match response {
                Ok(r) => unframed_message::<GrabResponse>(frame_bytes@) == Ok::<
                    GrabResponseView,
                    ProtocolError,
                >(r@),
                Err(e) => unframed_message::<GrabResponse>(frame_bytes@) == Err::<
                    GrabResponseView,
                    ProtocolError,
                >(e),
            },
    {
        decode_message(frame_bytes)
    }
}

} // verus!

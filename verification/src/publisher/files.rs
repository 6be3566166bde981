//! From source files to file entries: which files are published, how
//! their bytes are compressed and split, and what is stored for them.

use vstd::prelude::*;
use vstd::utf8::encode_utf8;
use std::io::Read;
use crate::bytes::{bytes_eq, contains_part, has_part, has_prefix, starts_with, to_vec};
use crate::crypto::hash::{blake3_digest, concat_parts, hash};
use crate::gateway::gunzip_of;
use crate::storage::chunks::{chunk_stored, counted_after, sized_after, ChunkStore};
use crate::storage::kv::StoreError;
use crate::text::copy_text;
use crate::types::{id_views, ChunkId, Compression, FileEntry, FileEntryView};

verus! {

/// The MIME type that the extension of a path stands for;
/// `application/octet-stream` where it stands for none.
pub uninterp spec fn mime_type_of(path: Seq<char>) -> Seq<char>;

/// The gzip stream of a byte string at the default compression level.
pub uninterp spec fn gzip_of(data: Seq<u8>) -> Seq<u8>;

/// Why a publish was given up.
#[derive(Debug, Clone)]
pub enum PublishError {
    /// A store reported an error before the record of the site was written.
    Store { error: StoreError },
    /// The bundle is stored, but the store reported an error while the
    /// record of the published site was written.
    RecordNotWritten { error: StoreError },
    /// The compressor reported an error.
    CompressionFailed,
    /// The chunk size asked for is zero.
    InvalidChunkSize,
    /// The site is at the last revision that a number can hold.
    RevisionExhausted,
    /// More files than a Merkle tree can be built over.
    TooManyFiles,
}

/// A file to publish: its path below the site root, with forward
/// slashes, and its bytes.
#[derive(Debug, Clone)]
pub struct SourceFile {
    pub path: String,
    pub content: Vec<u8>,
}

/// The mathematical view of a `SourceFile`.
pub struct SourceFileView {
    pub path: Seq<char>,
    pub content: Seq<u8>,
}

impl View for SourceFile {
    type V = SourceFileView;

    open spec fn view(&self) -> SourceFileView {
        SourceFileView { path: self.path@, content: self.content@ }
    }
}

/// The views of a list of source files.
pub open spec fn source_views(files: Seq<SourceFile>) -> Seq<SourceFileView> {
    files.map_values(|f: SourceFile| f@)
}

/// The views of a list of byte strings.
pub open spec fn blob_views(blobs: Seq<Vec<u8>>) -> Seq<Seq<u8>> {
    blobs.map_values(|b: Vec<u8>| b@)
}

/// Calls `mime_guess::from_path(..).first_or_octet_stream()`. Trusted:
/// the type depends on the path's text alone.
#[verifier::external_body]
fn guess_mime(path: &str) -> (mime: String)
    ensures
        mime@ == mime_type_of(path@),
{
    mime_guess::from_path(path).first_or_octet_stream().to_string()
}

/// Reads a `flate2::read::GzEncoder` at the default level to its end.
/// Trusted: where it succeeds, the stream depends on the input alone,
/// and unpacking the stream gives the input back.
#[verifier::external_body]
fn gzip_encode(data: &[u8]) -> (packed: Option<Vec<u8>>)
    ensures
        packed matches Some(stream) ==> stream@ == gzip_of(data@),
        packed matches Some(stream) ==> gunzip_of(stream@) == Some(data@),
{
    let mut encoder = flate2::read::GzEncoder::new(data, flate2::Compression::default());
    let mut stream = Vec::new();
    encoder.read_to_end(&mut stream).ok().map(|_| stream)
}

/// A path that is left out: it begins with a dot, has a part that begins
/// with a dot, or lies under `node_modules/` or `target/`.
pub open spec fn path_ignored(path: Seq<char>) -> bool {
    let bytes = encode_utf8(path);
    ||| has_prefix(bytes, encode_utf8("."@))
    ||| has_part(bytes, encode_utf8("/."@))
    ||| has_prefix(bytes, encode_utf8("node_modules/"@))
    ||| has_prefix(bytes, encode_utf8("target/"@))
}

/// Whether a path is left out of the site.
pub fn is_ignored(path: &str) -> (ignored: bool)
    ensures
        ignored == path_ignored(path@),
{
    let bytes = path.as_bytes();
    starts_with(bytes, ".".as_bytes()) || contains_part(bytes, "/.".as_bytes()) || starts_with(
        bytes,
        "node_modules/".as_bytes(),
    ) || starts_with(bytes, "target/".as_bytes())
}

/// A MIME type whose files are worth compressing: text, JavaScript,
/// JSON, XML, SVG and WebAssembly.
pub open spec fn compressible(mime: Seq<char>) -> bool {
    let bytes = encode_utf8(mime);
    ||| has_prefix(bytes, encode_utf8("text/"@))
    ||| has_part(bytes, encode_utf8("javascript"@))
    ||| has_part(bytes, encode_utf8("json"@))
    ||| has_part(bytes, encode_utf8("xml"@))
    ||| has_part(bytes, encode_utf8("svg"@))
    ||| bytes == encode_utf8("application/wasm"@)
}

/// Check if a MIME type benefits from compression.
pub fn is_compressible(mime: &str) -> (worth: bool)
    ensures
        worth == compressible(mime@),
{
    let bytes = mime.as_bytes();
    starts_with(bytes, "text/".as_bytes()) || contains_part(bytes, "javascript".as_bytes())
        || contains_part(bytes, "json".as_bytes()) || contains_part(bytes, "xml".as_bytes())
        || contains_part(bytes, "svg".as_bytes()) || bytes_eq(bytes, "application/wasm".as_bytes())
}

/// The bytes cut into pieces of `size` bytes; the last piece may be shorter.
pub open spec fn chunks_of(data: Seq<u8>, size: nat) -> Seq<Seq<u8>>
    decreases data.len(),
{
    if data.len() == 0 || size == 0 {
        Seq::empty()
    } else if data.len() <= size {
        seq![data]
    } else {
        seq![data.take(size as int)] + chunks_of(data.skip(size as int), size)
    }
}

/// The pieces of a byte string, one after the other, are the byte string.
pub proof fn law_chunks_concat(data: Seq<u8>, size: nat)
    requires
        size > 0,
    ensures
        concat_parts(chunks_of(data, size)) == data,
        forall|i: int| 0 <= i < chunks_of(data, size).len() ==> 0 < (#[trigger] chunks_of(data, size)[i]).len() <= size,
    decreases data.len(),
{
    let pieces = chunks_of(data, size);
    if 0 < data.len() <= size {
        assert(concat_parts(pieces.drop_last()) =~= Seq::<u8>::empty());
    } else if data.len() > size {
        let rest = chunks_of(data.skip(size as int), size);
        law_chunks_concat(data.skip(size as int), size);
        lemma_concat_front(data.take(size as int), rest);
        assert forall|i: int| 0 <= i < pieces.len() implies 0 < (#[trigger] pieces[i]).len() <= size by {
        }
    }
}

proof fn lemma_concat_front(first: Seq<u8>, rest: Seq<Seq<u8>>)
    ensures
        concat_parts(seq![first] + rest) == first + concat_parts(rest),
    decreases rest.len(),
{
    let all = seq![first] + rest;
    if rest.len() == 0 {
        assert(concat_parts(all.drop_last()) =~= Seq::<u8>::empty());
    } else {
        lemma_concat_front(first, rest.drop_last());
        assert(all.drop_last() =~= seq![first] + rest.drop_last());
    }
}

/// Cuts bytes into pieces of `chunk_size` bytes; the last piece may be shorter.
pub fn split_chunks(data: &[u8], chunk_size: usize) -> (pieces: Vec<Vec<u8>>)
    requires
        chunk_size > 0,
    ensures
        blob_views(pieces@) == chunks_of(data@, chunk_size as nat),
{
    let mut pieces: Vec<Vec<u8>> = Vec::new();
    let mut pos: usize = 0;
    let n: usize = data.len();
    assert(data@.skip(0) =~= data@);
    while pos < n
        invariant
            pos <= n,
            n == data@.len(),
            chunk_size > 0,
            blob_views(pieces@) + chunks_of(data@.skip(pos as int), chunk_size as nat) == chunks_of(
                data@,
                chunk_size as nat,
            ),
        decreases n - pos,
    {
        let end: usize = if n - pos <= chunk_size { n } else { pos + chunk_size };
        let piece = to_vec(&data[pos..end]);
        proof {
            let rest = data@.skip(pos as int);
            if !(n - pos <= chunk_size) {
                assert(piece@ =~= rest.take(chunk_size as int));
                assert(rest.skip(chunk_size as int) =~= data@.skip(end as int));
            }
        }
        pieces.push(piece);
        pos = end;
    }
    pieces
}

/// What is stored for a file: the gzip stream where compression is
/// asked for, the type is worth it and the stream is strictly smaller;
/// else the bytes as they are.
pub open spec fn payload_of(content: Seq<u8>, mime: Seq<char>, compress: bool) -> (Seq<u8>, Option<Compression>) {
    if compress && compressible(mime) && gzip_of(content).len() < content.len() {
        (gzip_of(content), Some(Compression::Gzip))
    } else {
        (content, None)
    }
}

/// What is stored for a file gives the file back: where a gzip stream
/// is stored, it unpacks to the content.
pub open spec fn unpacks(content: Seq<u8>, mime: Seq<char>, compress: bool) -> bool {
    payload_of(content, mime, compress).1 is Some ==> gunzip_of(payload_of(content, mime, compress).0)
        == Some(content)
}

/// Keeps the compressed stream only if it is strictly smaller than the content.
pub fn pick_payload(content: Vec<u8>, packed: Vec<u8>) -> (payload: (Vec<u8>, Option<Compression>))
    ensures
        payload.0@ == (if packed@.len() < content@.len() { packed@ } else { content@ }),
        payload.1 == (if packed@.len() < content@.len() { Some(Compression::Gzip) } else { None }),
{
    if packed.len() < content.len() {
        (packed, Some(Compression::Gzip))
    } else {
        (content, None)
    }
}

/// The bytes to store for a file and how they are compressed.
pub fn stored_payload(content: &[u8], mime: &str, compress: bool) -> (payload: Result<
    (Vec<u8>, Option<Compression>),
    PublishError,
>)
    ensures
        match payload {
            Ok(p) => (p.0@, p.1) == payload_of(content@, mime@, compress) && unpacks(
                content@,
                mime@,
                compress,
            ),
            Err(e) => e is CompressionFailed && compress && compressible(mime@),
        },
{
    if compress && is_compressible(mime) {
        match gzip_encode(content) {
            Some(packed) => Ok(pick_payload(to_vec(content), packed)),
            None => Err(PublishError::CompressionFailed),
        }
    } else {
        Ok((to_vec(content), None))
    }
}

/// The pieces that are stored for a file.
pub open spec fn stored_chunks(file: SourceFileView, chunk_size: nat, compress: bool) -> Seq<Seq<u8>> {
    chunks_of(payload_of(file.content, mime_type_of(file.path), compress).0, chunk_size)
}

/// The digests of a list of byte strings.
pub open spec fn digests(blobs: Seq<Seq<u8>>) -> Seq<Seq<u8>> {
    blobs.map_values(|b: Seq<u8>| blake3_digest(b))
}

/// The manifest entry of a file.
pub open spec fn entry_of(file: SourceFileView, chunk_size: nat, compress: bool) -> FileEntryView {
    FileEntryView {
        path: file.path,
        hash: blake3_digest(file.content),
        size: file.content.len() as u64,
        mime_type: mime_type_of(file.path),
        chunks: digests(stored_chunks(file, chunk_size, compress)),
        compression: payload_of(file.content, mime_type_of(file.path), compress).1,
    }
}

/// The chunks after each of `payloads` was put, in order.
pub open spec fn store_all(chunks: Map<Seq<u8>, Seq<u8>>, payloads: Seq<Seq<u8>>) -> Map<Seq<u8>, Seq<u8>>
    decreases payloads.len(),
{
    if payloads.len() == 0 {
        chunks
    } else {
        chunk_stored(store_all(chunks, payloads.drop_last()), payloads.last())
    }
}

/// How many of `payloads`, put in order, are stored newly.
pub open spec fn fresh_count(chunks: Map<Seq<u8>, Seq<u8>>, payloads: Seq<Seq<u8>>) -> nat
    decreases payloads.len(),
{
    if payloads.len() == 0 {
        0
    } else {
        let before = store_all(chunks, payloads.drop_last());
        fresh_count(chunks, payloads.drop_last()) + if before.contains_key(
            blake3_digest(payloads.last()),
        ) {
            0nat
        } else {
            1nat
        }
    }
}

/// The chunk counter after each of `payloads` was put, in order.
pub open spec fn counted_all(count: usize, chunks: Map<Seq<u8>, Seq<u8>>, payloads: Seq<Seq<u8>>) -> usize
    decreases payloads.len(),
{
    if payloads.len() == 0 {
        count
    } else {
        counted_after(
            counted_all(count, chunks, payloads.drop_last()),
            store_all(chunks, payloads.drop_last()),
            payloads.last(),
        )
    }
}

/// The byte counter after each of `payloads` was put, in order.
pub open spec fn sized_all(size: u64, chunks: Map<Seq<u8>, Seq<u8>>, payloads: Seq<Seq<u8>>) -> u64
    decreases payloads.len(),
{
    if payloads.len() == 0 {
        size
    } else {
        sized_after(
            sized_all(size, chunks, payloads.drop_last()),
            store_all(chunks, payloads.drop_last()),
            payloads.last(),
        )
    }
}

/// A file that is bundled without a call of the store or of the
/// compressor: it has no bytes, and compression is not tried on it.
pub open spec fn bundled_freely(file: SourceFileView, compress: bool) -> bool {
    file.content.len() == 0 && !(compress && compressible(mime_type_of(file.path)))
}

/// Storing two lists of pieces one after the other stores their
/// concatenation, and the new pieces and the counters add up.
pub proof fn lemma_store_all_concat(chunks: Map<Seq<u8>, Seq<u8>>, a: Seq<Seq<u8>>, b: Seq<Seq<u8>>)
    ensures
        store_all(chunks, a + b) == store_all(store_all(chunks, a), b),
        fresh_count(chunks, a + b) == fresh_count(chunks, a) + fresh_count(store_all(chunks, a), b),
        fresh_count(chunks, a) <= a.len(),
        forall|count: usize| #[trigger]
            counted_all(count, chunks, a + b) == counted_all(
                counted_all(count, chunks, a),
                store_all(chunks, a),
                b,
            ),
        forall|size: u64| #[trigger]
            sized_all(size, chunks, a + b) == sized_all(sized_all(size, chunks, a), store_all(chunks, a), b),
    decreases b.len(),
{
    if !(b.len() == 0) {
        lemma_store_all_concat(chunks, a, b.drop_last());
        assert((a + b).drop_last() =~= a + b.drop_last());
        assert((a + b).last() == b.last());
        assert forall|count: usize| #[trigger]
            counted_all(count, chunks, a + b) == counted_all(
                counted_all(count, chunks, a),
                store_all(chunks, a),
                b,
            ) by {
            assert(counted_all(count, chunks, a + b.drop_last()) == counted_all(
                counted_all(count, chunks, a),
                store_all(chunks, a),
                b.drop_last(),
            ));
        }
        assert forall|size: u64| #[trigger]
            sized_all(size, chunks, a + b) == sized_all(
                sized_all(size, chunks, a),
                store_all(chunks, a),
                b,
            ) by {
            assert(sized_all(size, chunks, a + b.drop_last()) == sized_all(
                sized_all(size, chunks, a),
                store_all(chunks, a),
                b.drop_last(),
            ));
        }
    } else {
        assert(a + b =~= a);
    }
    lemma_fresh_bound(chunks, a);
}

/// What was put is there: after pieces were stored, the store holds a
/// chunk under the digest of each.
pub proof fn lemma_stored_are_held(chunks: Map<Seq<u8>, Seq<u8>>, pieces: Seq<Seq<u8>>)
    ensures
        forall|i: int|
            0 <= i < pieces.len() ==> store_all(chunks, pieces).contains_key(
                blake3_digest(#[trigger] pieces[i]),
            ),
        forall|id: Seq<u8>| chunks.contains_key(id) ==> #[trigger] store_all(chunks, pieces).contains_key(id),
    decreases pieces.len(),
{
    if pieces.len() > 0 {
        lemma_stored_are_held(chunks, pieces.drop_last());
        assert forall|i: int| 0 <= i < pieces.len() implies store_all(chunks, pieces).contains_key(
            blake3_digest(#[trigger] pieces[i]),
        ) by {
            if i < pieces.len() - 1 {
                assert(pieces.drop_last()[i] == pieces[i]);
            }
        }
        assert forall|id: Seq<u8>| chunks.contains_key(id) implies #[trigger] store_all(
            chunks,
            pieces,
        ).contains_key(id) by {
            assert(store_all(chunks, pieces.drop_last()).contains_key(id));
        }
    }
}

/// Storing pieces that the store holds already changes nothing: not
/// the chunks, not the counters, and none of them counts as new.
pub proof fn law_stored_again(
    count: usize,
    size: u64,
    chunks: Map<Seq<u8>, Seq<u8>>,
    pieces: Seq<Seq<u8>>,
)
    requires
        forall|i: int| 0 <= i < pieces.len() ==> chunks.contains_key(blake3_digest(#[trigger] pieces[i])),
    ensures
        store_all(chunks, pieces) == chunks,
        fresh_count(chunks, pieces) == 0,
        counted_all(count, chunks, pieces) == count,
        sized_all(size, chunks, pieces) == size,
    decreases pieces.len(),
{
    if pieces.len() > 0 {
        let front = pieces.drop_last();
        assert forall|i: int| 0 <= i < front.len() implies chunks.contains_key(
            blake3_digest(#[trigger] front[i]),
        ) by {
            assert(front[i] == pieces[i]);
        }
        law_stored_again(count, size, chunks, front);
        assert(pieces[pieces.len() - 1] == pieces.last());
    }
}

/// No more pieces are new than there are pieces.
pub proof fn lemma_fresh_bound(chunks: Map<Seq<u8>, Seq<u8>>, a: Seq<Seq<u8>>)
    ensures
        fresh_count(chunks, a) <= a.len(),
    decreases a.len(),
{
    if a.len() > 0 {
        lemma_fresh_bound(chunks, a.drop_last());
    }
}

/// Stores the pieces of a file and makes its manifest entry. Gives the
/// entry, the number of pieces stored newly, and the number of bytes the
/// pieces hold together.
pub fn bundle_file(store: &mut ChunkStore, file: &SourceFile, chunk_size: usize, compress: bool) -> (made:
    Result<(FileEntry, usize, usize), PublishError>)
    requires
        old(store).wf(),
        chunk_size > 0,
    ensures
        final(store).wf(),
        match made {
            Ok((entry, fresh, stored)) => {
                &&& entry@ == entry_of(file@, chunk_size as nat, compress)
                &&& final(store).chunks() == store_all(
                    old(store).chunks(),
                    stored_chunks(file@, chunk_size as nat, compress),
                )
                &&& fresh == fresh_count(
                    old(store).chunks(),
                    stored_chunks(file@, chunk_size as nat, compress),
                )
                &&& stored == payload_of(file@.content, mime_type_of(file@.path), compress).0.len()
                &&& unpacks(file@.content, mime_type_of(file@.path), compress)
                &&& final(store).counted() == counted_all(
                    old(store).counted(),
                    old(store).chunks(),
                    stored_chunks(file@, chunk_size as nat, compress),
                )
                &&& final(store).sized() == sized_all(
                    old(store).sized(),
                    old(store).chunks(),
                    stored_chunks(file@, chunk_size as nat, compress),
                )
            },
            Err(e) => e is Store || (e is CompressionFailed && compress && compressible(
                mime_type_of(file@.path),
            )),
        },
        bundled_freely(file@, compress) ==> made is Ok,
{
    let mime_type = guess_mime(file.path.as_str());
    let (payload, compression) = match stored_payload(
        file.content.as_slice(),
        mime_type.as_str(),
        compress,
    ) {
        Ok(p) => p,
        Err(e) => {
            return Err(e);
        },
    };
    let pieces = split_chunks(payload.as_slice(), chunk_size);
    let ghost bodies = blob_views(pieces@);
    let ghost start = store.chunks();
    let mut chunks: Vec<ChunkId> = Vec::new();
    let mut fresh: usize = 0;
    let mut i: usize = 0;
    proof {
        assert(bodies.len() == pieces@.len());
    }
    while i < pieces.len()
        invariant
            i <= pieces@.len(),
            bundled_freely(file@, compress) ==> pieces@.len() == 0,
            store.wf(),
            start == old(store).chunks(),
            bodies == blob_views(pieces@),
            fresh <= i,
            store.chunks() == store_all(start, bodies.take(i as int)),
            store.counted() == counted_all(old(store).counted(), start, bodies.take(i as int)),
            store.sized() == sized_all(old(store).sized(), start, bodies.take(i as int)),
            fresh == fresh_count(start, bodies.take(i as int)),
            id_views(chunks@) == digests(bodies.take(i as int)),
        decreases pieces@.len() - i,
    {
        proof {
            assert(bodies.take(i + 1).drop_last() =~= bodies.take(i as int));
        }
        match store.put_counted(pieces[i].as_slice()) {
            Ok((id, is_new)) => {
                if is_new {
                    fresh += 1;
                }
                proof {
                    assert(digests(bodies.take(i + 1)) =~= digests(bodies.take(i as int)).push(
                        blake3_digest(bodies[i as int]),
                    ));
                }
                chunks.push(id);
            },
            Err(error) => {
                return Err(PublishError::Store { error });
            },
        }
        i += 1;
    }
    proof {
        assert(bodies.take(pieces@.len() as int) =~= bodies);
    }
    let entry = FileEntry {
        path: copy_text(file.path.as_str()),
        hash: hash(file.content.as_slice()),
        size: file.content.len() as u64,
        mime_type,
        chunks,
        compression,
    };
    Ok((entry, fresh, payload.len()))
}

} // verus!

//! What the HTTP gateway asks of the core: which file a request path
//! names, and the bytes of a file put together from its chunks.

use vstd::prelude::*;
use vstd::utf8::encode_utf8;
use std::io::Read;
use crate::bytes::{append_bytes, bytes_eq, contains_part, has_part, has_prefix, id_eq, starts_with, to_vec};
use crate::crypto::hash::{base58_text, blake3_digest, concat_parts, encode_base58, hash};
use crate::storage::ChunkStore;
use crate::storage::chunks::all_cached;
use crate::types::{id_views, Compression, FileEntry, FileEntryView, RouteConfig, RouteConfigView};
use crate::types::SiteManifest;

verus! {

/// The bytes that a gzip stream unpacks to, or `None` where the bytes are no gzip stream.
pub uninterp spec fn gunzip_of(stream: Seq<u8>) -> Option<Seq<u8>>;

/// Reads a `flate2::read::GzDecoder` to its end. Trusted: the outcome
/// depends on the stream alone.
#[verifier::external_body]
fn gzip_decode(stream: &[u8]) -> (unpacked: Option<Vec<u8>>)
    ensures
        match unpacked {
            Some(data) => gunzip_of(stream@) == Some(data@),
            None => gunzip_of(stream@) is None,
        },
{
    let mut decoder = flate2::read::GzDecoder::new(stream);
    let mut data = Vec::new();
    decoder.read_to_end(&mut data).ok().map(|_| data)
}

/// The bytes without the slashes at their end.
pub open spec fn trim_slashes(bytes: Seq<u8>) -> Seq<u8>
    decreases bytes.len(),
{
    if bytes.len() > 0 && bytes.last() == 0x2f {
        trim_slashes(bytes.drop_last())
    } else {
        bytes
    }
}

/// The first file whose path has the bytes, if any.
pub open spec fn first_with_path(files: Seq<FileEntryView>, path: Seq<u8>) -> Option<int> {
    if exists|i: int| 0 <= i < files.len() && encode_utf8((#[trigger] files[i]).path) == path {
        Some(
            choose|i: int|
                0 <= i < files.len() && encode_utf8((#[trigger] files[i]).path) == path && forall|k: int|
                    0 <= k < i ==> encode_utf8((#[trigger] files[k]).path) != path,
        )
    } else {
        None
    }
}

/// The file that a request path names: the file of that path; else,
/// with clean URLs, the file of that path with `.html` behind it; else
/// the `index.html` below that path; else the fallback file, where the
/// routes name one.
pub open spec fn resolved_file(files: Seq<FileEntryView>, path: Seq<char>, routes: Option<RouteConfigView>) -> Option<int> {
    resolved_bytes(files, encode_utf8(path), routes)
}

/// The file that the bytes of a request path name.
pub open spec fn resolved_bytes(files: Seq<FileEntryView>, bytes: Seq<u8>, routes: Option<RouteConfigView>) -> Option<int> {
    let clean = bytes + encode_utf8(".html"@);
    let index = trim_slashes(bytes) + encode_utf8("/index.html"@);
    if first_with_path(files, bytes) is Some {
        first_with_path(files, bytes)
    } else if routes is Some && routes->0.clean_urls && first_with_path(files, clean) is Some {
        first_with_path(files, clean)
    } else if first_with_path(files, index) is Some {
        first_with_path(files, index)
    } else if routes is Some && routes->0.fallback is Some {
        first_with_path(files, encode_utf8(routes->0.fallback->0))
    } else {
        None
    }
}

/// The views of a list of entries.
pub open spec fn file_views(files: Seq<FileEntry>) -> Seq<FileEntryView> {
    files.map_values(|f: FileEntry| f@)
}

/// The position of the first file whose path has the bytes.
fn find_by_bytes(files: &[FileEntry], path: &[u8]) -> (at: Option<usize>)
    ensures
        match at {
            Some(i) => first_with_path(file_views(files@), path@) == Some(i as int) && i < files@.len(),
            None => first_with_path(file_views(files@), path@) is None,
        },
{
    let ghost views = file_views(files@);
    let mut i: usize = 0;
    while i < files.len()
        invariant
            i <= files@.len(),
            views == file_views(files@),
            forall|k: int| 0 <= k < i ==> encode_utf8((#[trigger] views[k]).path) != path@,
        decreases files@.len() - i,
    {
        if bytes_eq(files[i].path.as_str().as_bytes(), path) {
            proof {
                assert(views[i as int] == files@[i as int]@);
            }
            return Some(i);
        }
        i += 1;
    }
    None
}

/// The bytes without the slashes at their end.
fn trimmed(bytes: &[u8]) -> (kept: Vec<u8>)
    ensures
        kept@ == trim_slashes(bytes@),
{
    let mut end: usize = bytes.len();
    assert(bytes@.take(end as int) =~= bytes@);
    while end > 0 && bytes[end - 1] == 0x2f
        invariant
            end <= bytes@.len(),
            trim_slashes(bytes@) == trim_slashes(bytes@.take(end as int)),
        decreases end,
    {
        proof {
            let front = bytes@.take(end as int);
            assert(front.drop_last() =~= bytes@.take(end - 1));
        }
        end -= 1;
    }
    to_vec(&bytes[0..end])
}

/// The view of optional routes.
pub open spec fn routes_view(routes: Option<&RouteConfig>) -> Option<RouteConfigView> {
    match routes {
        Some(r) => Some(r@),
        None => None,
    }
}

/// The file that a request path names, by the routing rules of the manifest.
pub fn find_file<'a>(files: &'a [FileEntry], path: &str, routes: Option<&RouteConfig>) -> (found: Option<
    &'a FileEntry,
>)
    ensures
        match found {
            Some(file) => resolved_file(file_views(files@), path@, routes_view(routes)) matches Some(i)
                && 0 <= i < files@.len() && *file == files@[i],
            None => resolved_file(file_views(files@), path@, routes_view(routes)) is None,
        },
{
    find_file_by_bytes(files, path.as_bytes(), routes)
}

/// The file that the bytes of a request path name.
pub fn find_file_by_bytes<'a>(files: &'a [FileEntry], bytes: &[u8], routes: Option<&RouteConfig>) -> (found:
    Option<&'a FileEntry>)
    ensures
        match found {
            Some(file) => resolved_bytes(file_views(files@), bytes@, routes_view(routes)) matches Some(i)
                && 0 <= i < files@.len() && *file == files@[i],
            None => resolved_bytes(file_views(files@), bytes@, routes_view(routes)) is None,
        },
{
    match find_by_bytes(files, bytes) {
        Some(i) => {
            return Some(&files[i]);
        },
        None => {},
    }
    match routes {
        Some(r) => {
            if r.clean_urls {
                let mut clean = to_vec(bytes);
                append_bytes(&mut clean, ".html".as_bytes());
                match find_by_bytes(files, clean.as_slice()) {
                    Some(i) => {
                        return Some(&files[i]);
                    },
                    None => {},
                }
            }
        },
        None => {},
    }
    let mut index = trimmed(bytes);
    append_bytes(&mut index, "/index.html".as_bytes());
    match find_by_bytes(files, index.as_slice()) {
        Some(i) => {
            return Some(&files[i]);
        },
        None => {},
    }
    match routes {
        Some(r) => match &r.fallback {
            Some(fallback) => match find_by_bytes(files, fallback.as_str().as_bytes()) {
                Some(i) => Some(&files[i]),
                None => None,
            },
            None => None,
        },
        None => None,
    }
}

/// The bytes without the slashes at their front.
pub open spec fn skip_slashes(bytes: Seq<u8>) -> Seq<u8>
    decreases bytes.len(),
{
    if bytes.len() > 0 && bytes[0] == 0x2f {
        skip_slashes(bytes.drop_first())
    } else {
        bytes
    }
}

/// The path that a request means: the request path without the slashes
/// at its front, and with the entry point behind it where it is empty
/// or ends in a slash.
pub open spec fn page_path(request: Seq<u8>, entry: Seq<u8>) -> Seq<u8> {
    let path = skip_slashes(request);
    if path.len() == 0 || path.last() == 0x2f {
        path + entry
    } else {
        path
    }
}

/// What a request for a page of a site is answered with.
pub enum Page<'a> {
    /// The file that the path names.
    Found(&'a FileEntry),
    /// No file is named; the site's `404.html` stands in.
    NotFoundPage(&'a FileEntry),
    /// No file is named and the site has no `404.html`.
    Missing,
}

/// What a request for a page of a site is answered with.
pub open spec fn page_for(files: Seq<FileEntryView>, entry: Seq<char>, routes: Option<RouteConfigView>, request: Seq<char>) -> (bool, Option<int>) {
    let path = page_path(encode_utf8(request), encode_utf8(entry));
    if resolved_bytes(files, path, routes) is Some {
        (true, resolved_bytes(files, path, routes))
    } else {
        (false, first_with_path(files, encode_utf8("404.html"@)))
    }
}

/// The bytes without the slashes at their front.
fn skipped(bytes: &[u8]) -> (kept: Vec<u8>)
    ensures
        kept@ == skip_slashes(bytes@),
{
    let mut start: usize = 0;
    assert(bytes@.skip(0) =~= bytes@);
    while start < bytes.len() && bytes[start] == 0x2f
        invariant
            start <= bytes@.len(),
            skip_slashes(bytes@) == skip_slashes(bytes@.skip(start as int)),
        decreases bytes@.len() - start,
    {
        proof {
            let rest = bytes@.skip(start as int);
            assert(rest.drop_first() =~= bytes@.skip(start + 1));
        }
        start += 1;
    }
    to_vec(&bytes[start..bytes.len()])
}

/// Finds the page of a site that a request path asks for.
pub fn resolve_page<'a>(manifest: &'a SiteManifest, request: &str) -> (page: Page<'a>)
    ensures
        ({
            let choice = page_for(
                file_views(manifest.files@),
                manifest.entry@,
                match manifest.routes {
                    Some(r) => Some(r@),
                    None => None,
                },
                request@,
            );
            match page {
                Page::Found(file) => choice.0 && (choice.1 matches Some(i) && 0 <= i
                    < manifest.files@.len() && *file == manifest.files@[i]),
                Page::NotFoundPage(file) => !choice.0 && (choice.1 matches Some(i) && 0 <= i
                    < manifest.files@.len() && *file == manifest.files@[i]),
                Page::Missing => !choice.0 && choice.1 is None,
            }
        }),
{
    let mut path = skipped(request.as_bytes());
    let n: usize = path.len();
    if n == 0 || path[n - 1] == 0x2f {
        append_bytes(&mut path, manifest.entry.as_str().as_bytes());
    }
    let found = match &manifest.routes {
        Some(r) => find_file_by_bytes(manifest.files.as_slice(), path.as_slice(), Some(r)),
        None => find_file_by_bytes(manifest.files.as_slice(), path.as_slice(), None),
    };
    match found {
        Some(file) => Page::Found(file),
        None => match find_by_bytes(manifest.files.as_slice(), "404.html".as_bytes()) {
            Some(i) => Page::NotFoundPage(&manifest.files[i]),
            None => Page::Missing,
        },
    }
}

/// A path that the gateway keeps for itself when a site is served at the root.
pub open spec fn path_reserved(path: Seq<char>) -> bool {
    let bytes = encode_utf8(path);
    ||| has_prefix(bytes, encode_utf8("api/"@))
    ||| has_prefix(bytes, encode_utf8("site/"@))
    ||| has_prefix(bytes, encode_utf8("uploads/"@))
    ||| bytes == encode_utf8("health"@)
}

/// Whether the gateway keeps a path for itself when a site is served at the root.
pub fn is_reserved_path(path: &str) -> (reserved: bool)
    ensures
        reserved == path_reserved(path@),
{
    let bytes = path.as_bytes();
    starts_with(bytes, "api/".as_bytes()) || starts_with(bytes, "site/".as_bytes()) || starts_with(
        bytes,
        "uploads/".as_bytes(),
    ) || bytes_eq(bytes, "health".as_bytes())
}

/// The entity tag of a file with the content hash: the base58 text of
/// the first 8 bytes of the hash, in double quotes.
pub open spec fn etag_text(hash: Seq<u8>) -> Seq<char> {
    "\""@ + base58_text(hash.take(8)) + "\""@
}

/// The entity tag of a file.
pub fn etag_of(file: &FileEntry) -> (tag: String)
    ensures
        tag@ == etag_text(file.hash@),
{
    let head = to_vec(&file.hash.as_slice()[0..8]);
    let text = encode_base58(head.as_slice());
    let quoted = crate::text::join("\"", text.as_str());
    crate::text::join(quoted.as_str(), "\"")
}

/// Whether the stored payload of a file can go out as it is, compressed:
/// the file is stored as gzip and the client takes gzip.
pub open spec fn goes_compressed(compression: Option<Compression>, accept_encoding: Seq<char>) -> bool {
    compression == Some(Compression::Gzip) && has_part(encode_utf8(accept_encoding), encode_utf8("gzip"@))
}

/// Whether the stored payload of a file can go out as it is, compressed.
pub fn serves_compressed(file: &FileEntry, accept_encoding: &str) -> (compressed: bool)
    ensures
        compressed == goes_compressed(file.compression, accept_encoding@),
{
    match file.compression {
        Some(Compression::Gzip) => contains_part(accept_encoding.as_bytes(), "gzip".as_bytes()),
        _ => false,
    }
}

/// Why the bytes of a file could not be handed out.
#[derive(Debug, Clone)]
pub enum FileError {
    /// The store holds no chunk of this identifier.
    MissingChunk { chunk_id: [u8; 32] },
    /// The store reported an error.
    Storage { message: String },
    /// The stored bytes do not unpack.
    Unpacking,
    /// The file is compressed in a way that is not supported.
    UnsupportedCompression,
    /// The bytes do not hash to the content hash of the entry.
    HashMismatch,
}

/// The chunks of the identifiers, where the store holds them all.
pub open spec fn chunk_bodies_of(chunks: Map<Seq<u8>, Seq<u8>>, ids: Seq<Seq<u8>>) -> Seq<Seq<u8>> {
    ids.map_values(|id: Seq<u8>| chunks[id])
}

/// The bytes that an entry stands for: its chunks one after the other,
/// unpacked where the entry is compressed.
pub open spec fn file_content(chunks: Map<Seq<u8>, Seq<u8>>, entry: FileEntryView) -> Option<Seq<u8>> {
    let payload = concat_parts(chunk_bodies_of(chunks, entry.chunks));
    match entry.compression {
        Some(Compression::Gzip) => gunzip_of(payload),
        Some(Compression::Brotli) => None,
        _ => Some(payload),
    }
}

/// The chunks of the identifiers, one after the other.
pub fn read_chunks(chunk_store: &mut ChunkStore, chunk_ids: &[[u8; 32]]) -> (payload: Result<
    Vec<u8>,
    FileError,
>)
    requires
        old(chunk_store).wf(),
    ensures
        final(chunk_store).wf(),
        final(chunk_store).chunks() == old(chunk_store).chunks(),
        match payload {
            Ok(bytes) => {
                &&& forall|i: int|
                    0 <= i < chunk_ids@.len() ==> old(chunk_store).chunks().contains_key(
                        #[trigger] id_views(chunk_ids@)[i],
                    )
                &&& bytes@ == concat_parts(chunk_bodies_of(old(chunk_store).chunks(), id_views(chunk_ids@)))
            },
            Err(FileError::MissingChunk { chunk_id }) => !old(chunk_store).chunks().contains_key(chunk_id@)
                && id_views(chunk_ids@).contains(chunk_id@),
            Err(FileError::Storage { message }) => true,
            Err(_) => false,
        },
        all_cached(old(chunk_store).cached(), id_views(chunk_ids@)) ==> payload is Ok
            && final(chunk_store).cached() == old(chunk_store).cached(),
{
    let ghost chunks = chunk_store.chunks();
    let ghost ids = id_views(chunk_ids@);
    let ghost hit = all_cached(chunk_store.cached(), ids);
    let ghost bodies = chunk_bodies_of(chunks, ids);
    let mut payload: Vec<u8> = Vec::new();
    let mut i: usize = 0;
    while i < chunk_ids.len()
        invariant
            i <= chunk_ids@.len(),
            chunk_store.wf(),
            chunks == chunk_store.chunks(),
            chunks == old(chunk_store).chunks(),
            ids == id_views(chunk_ids@),
            bodies == chunk_bodies_of(chunks, ids),
            forall|k: int| 0 <= k < i ==> chunks.contains_key(#[trigger] ids[k]),
            payload@ == concat_parts(bodies.take(i as int)),
            hit == all_cached(old(chunk_store).cached(), ids),
            hit ==> chunk_store.cached() == old(chunk_store).cached(),
        decreases chunk_ids@.len() - i,
    {
        let id: [u8; 32] = chunk_ids[i];
        assert(ids[i as int] == id@);
        match chunk_store.get(&id) {
            Ok(Some(data)) => {
                proof {
                    assert(bodies.take(i + 1).drop_last() =~= bodies.take(i as int));
                }
                append_bytes(&mut payload, data.as_slice());
            },
            Ok(None) => {
                return Err(FileError::MissingChunk { chunk_id: id });
            },
            Err(e) => {
                return Err(FileError::Storage { message: e.to_text() });
            },
        }
        i += 1;
    }
    proof {
        assert(bodies.take(chunk_ids@.len() as int) =~= bodies);
    }
    Ok(payload)
}

/// The stored payload of a file: its chunks, one after the other.
pub fn read_payload(chunk_store: &mut ChunkStore, entry: &FileEntry) -> (payload: Result<Vec<u8>, FileError>)
    requires
        old(chunk_store).wf(),
    ensures
        final(chunk_store).wf(),
        final(chunk_store).chunks() == old(chunk_store).chunks(),
        match payload {
            Ok(bytes) => {
                &&& forall|i: int|
                    0 <= i < entry@.chunks.len() ==> old(chunk_store).chunks().contains_key(
                        #[trigger] entry@.chunks[i],
                    )
                &&& bytes@ == concat_parts(chunk_bodies_of(old(chunk_store).chunks(), entry@.chunks))
            },
            Err(FileError::MissingChunk { chunk_id }) => !old(chunk_store).chunks().contains_key(chunk_id@)
                && entry@.chunks.contains(chunk_id@),
            Err(FileError::Storage { message }) => true,
            Err(_) => false,
        },
        all_cached(old(chunk_store).cached(), entry@.chunks) ==> payload is Ok,
{
    read_chunks(chunk_store, entry.chunks.as_slice())
}

/// The bytes of a file as they were published: the payload, unpacked
/// where the entry is compressed, and checked against the content hash.
pub fn read_file(chunk_store: &mut ChunkStore, entry: &FileEntry) -> (content: Result<Vec<u8>, FileError>)
    requires
        old(chunk_store).wf(),
    ensures
        final(chunk_store).wf(),
        final(chunk_store).chunks() == old(chunk_store).chunks(),
        match content {
            Ok(bytes) => {
                &&& file_content(old(chunk_store).chunks(), entry@) == Some(bytes@)
                &&& blake3_digest(bytes@) == entry@.hash
            },
            Err(FileError::MissingChunk { chunk_id }) => !old(chunk_store).chunks().contains_key(chunk_id@)
                && entry@.chunks.contains(chunk_id@),
            Err(FileError::Storage { message }) => true,
            Err(FileError::Unpacking) => entry@.compression == Some(Compression::Gzip) && gunzip_of(
                concat_parts(chunk_bodies_of(old(chunk_store).chunks(), entry@.chunks)),
            ) is None,
            Err(FileError::UnsupportedCompression) => entry@.compression == Some(Compression::Brotli),
            Err(FileError::HashMismatch) => file_content(old(chunk_store).chunks(), entry@) matches Some(
                bytes,
            ) && blake3_digest(bytes) != entry@.hash,
        },
        all_cached(old(chunk_store).cached(), entry@.chunks) ==> !(content matches Err(
            FileError::Storage { .. },
        )) && !(content matches Err(FileError::MissingChunk { .. })),
{
    let payload = match read_payload(chunk_store, entry) {
        Ok(payload) => payload,
        Err(e) => {
            return Err(e);
        },
    };
    let content = match entry.compression {
        Some(Compression::Gzip) => match gzip_decode(payload.as_slice()) {
            Some(unpacked) => unpacked,
            None => {
                return Err(FileError::Unpacking);
            },
        },
        Some(Compression::Brotli) => {
            return Err(FileError::UnsupportedCompression);
        },
        _ => payload,
    };
    let digest = hash(content.as_slice());
    if !id_eq(&digest, &entry.hash) {
        return Err(FileError::HashMismatch);
    }
    Ok(content)
}

/// What goes out for a file that was asked for.
#[derive(Debug)]
pub enum FileAnswer {
    /// The client holds the file already: the entity tag it sent is the file's.
    NotModified,
    /// The body and the file's entity tag. `gzip` says that the body is
    /// the stored gzip stream and not the content itself.
    Body { body: Vec<u8>, gzip: bool, etag: String },
    /// The bytes could not be handed out.
    Failed { error: FileError },
}

/// Whether the entity tag that a client sent is the file's.
pub open spec fn tag_matches(if_none_match: Option<&[u8]>, hash: Seq<u8>) -> bool {
    if_none_match matches Some(tag) && tag@ == encode_utf8(etag_text(hash))
}

/// Answers a request for a file. A client that sent the file's entity
/// tag is told that nothing changed. A client that takes gzip gets the
/// stored stream of a file stored as gzip; any other client gets the
/// content, checked against the content hash.
pub fn answer_file(
    chunk_store: &mut ChunkStore,
    file: &FileEntry,
    if_none_match: Option<&[u8]>,
    accept_encoding: &str,
) -> (answer: FileAnswer)
    requires
        old(chunk_store).wf(),
    ensures
        final(chunk_store).wf(),
        final(chunk_store).chunks() == old(chunk_store).chunks(),
        answer is NotModified <==> tag_matches(if_none_match, file@.hash),
        answer matches FileAnswer::Body { body, gzip, etag } ==> {
            &&& etag@ == etag_text(file@.hash)
            &&& gzip == goes_compressed(file@.compression, accept_encoding@)
            &&& gzip ==> body@ == concat_parts(chunk_bodies_of(old(chunk_store).chunks(), file@.chunks))
            &&& !gzip ==> file_content(old(chunk_store).chunks(), file@) == Some(body@) && blake3_digest(
                body@,
            ) == file@.hash
        },
        answer matches FileAnswer::Failed { error } ==> (goes_compressed(
            file@.compression,
            accept_encoding@,
        ) ==> error is MissingChunk || error is Storage),
        answer matches FileAnswer::Failed { error } ==> (all_cached(
            old(chunk_store).cached(),
            file@.chunks,
        ) ==> !(error is MissingChunk) && !(error is Storage)),
{
    let etag = etag_of(file);
    match if_none_match {
        Some(tag) => {
            if bytes_eq(tag, etag.as_str().as_bytes()) {
                return FileAnswer::NotModified;
            }
        },
        None => {},
    }
    if serves_compressed(file, accept_encoding) {
        match read_payload(chunk_store, file) {
            Ok(body) => FileAnswer::Body { body, gzip: true, etag },
            Err(error) => FileAnswer::Failed { error },
        }
    } else {
        match read_file(chunk_store, file) {
            Ok(body) => FileAnswer::Body { body, gzip: false, etag },
            Err(error) => FileAnswer::Failed { error },
        }
    }
}

} // verus!

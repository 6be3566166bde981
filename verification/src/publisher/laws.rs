//! What holds of every publish.

use vstd::prelude::*;
use crate::codec::law_decode_encode;
use crate::crypto::hash::blake3_digest;
use crate::crypto::signing::{bundle_message, signature_valid};
use crate::gateway::{chunk_bodies_of, file_content};
use crate::publisher::bundle::{chunk_size_for, entries_of, has_path, kept_files, payloads_of};
use crate::publisher::bundle::{text_view, PublishOptions, PublishResult, Publisher};
use crate::publisher::files::{digests, entry_of, law_chunks_concat, mime_type_of, path_ignored};
use crate::publisher::files::{payload_of, store_all, stored_chunks, SourceFileView};
use crate::storage::kv::entry_at;
use crate::publisher::order::{law_sort_by_path, sort_by_path, sorted_by_path};
use crate::types::{FileEntryView, PublishedSite};

verus! {

/// Whether the entry point that `entry_for` picks is among the files: an
/// entry asked for is one of the paths, or one of the three usual entry
/// files is there.
pub open spec fn entry_present(explicit: Option<Seq<char>>, entries: Seq<FileEntryView>) -> bool {
    match explicit {
        Some(entry) => has_path(entries, entry),
        None => has_path(entries, "index.html"@) || has_path(entries, "index.htm"@) || has_path(
            entries,
            "main.html"@,
        ),
    }
}

/// Whether some entry lists the chunk.
pub open spec fn referenced(entries: Seq<FileEntryView>, chunk: Seq<u8>) -> bool {
    exists|i: int| 0 <= i < entries.len() && (#[trigger] entries[i]).chunks.contains(chunk)
}

/// The bundle of a publish is intact: identifier, root hash and
/// signature fit, where every stored private key had its own public key
/// beside it.
pub proof fn law_published_bundle_intact(
    before: Publisher,
    after: Publisher,
    path: Seq<char>,
    dir_name: Option<Seq<char>>,
    files: Seq<SourceFileView>,
    options: PublishOptions,
    now: u64,
    result: PublishResult,
)
    requires
        Publisher::published(before, after, path, dir_name, files, options, now, result),
        before.key_store.consistent(),
    ensures
        crate::publisher::bundle::bundle_intact(result.bundle@),
{
}

/// The bundle of a publish verifies under its publisher key, where every
/// stored private key had its own public key beside it.
pub proof fn law_published_bundle_verifies(
    before: Publisher,
    after: Publisher,
    path: Seq<char>,
    dir_name: Option<Seq<char>>,
    files: Seq<SourceFileView>,
    options: PublishOptions,
    now: u64,
    result: PublishResult,
)
    requires
        Publisher::published(before, after, path, dir_name, files, options, now, result),
        before.key_store.consistent(),
    ensures
        signature_valid(
            bundle_message(result.bundle@.site_id, result.bundle@.revision, result.bundle@.root_hash),
            result.bundle@.signature,
            result.bundle@.publisher,
        ),
{
}

/// The files of a published manifest are sorted by path, and its entry
/// point is one of them where `entry_present` holds.
pub proof fn law_manifest_shape(
    before: Publisher,
    after: Publisher,
    path: Seq<char>,
    dir_name: Option<Seq<char>>,
    files: Seq<SourceFileView>,
    options: PublishOptions,
    now: u64,
    result: PublishResult,
)
    requires
        Publisher::published(before, after, path, dir_name, files, options, now, result),
    ensures
        sorted_by_path(result.bundle@.manifest.files),
        entry_present(text_view(options.entry), result.bundle@.manifest.files) ==> has_path(
            result.bundle@.manifest.files,
            result.bundle@.manifest.entry,
        ),
{
    let size = crate::publisher::bundle::chunk_size_for(options.chunk_size) as nat;
    law_sort_by_path(entries_of(kept_files(files), size, options.compress));
}

/// Publishing the same files again, with the same options, gives the
/// same site, the same files and root hash, and the next revision; and
/// it stores no chunk anew, so that the chunk store and its counters are
/// as the first publish left them.
pub proof fn law_republish(
    first: Publisher,
    second: Publisher,
    third: Publisher,
    path: Seq<char>,
    dir_name: Option<Seq<char>>,
    files: Seq<SourceFileView>,
    options: PublishOptions,
    now: u64,
    later: u64,
    one: PublishResult,
    two: PublishResult,
)
    requires
        Publisher::published(first, second, path, dir_name, files, options, now, one),
        Publisher::published(second, third, path, dir_name, files, options, later, two),
    ensures
        two.bundle@.site_id == one.bundle@.site_id,
        two.bundle@.publisher == one.bundle@.publisher,
        two.bundle@.manifest.files == one.bundle@.manifest.files,
        two.bundle@.root_hash == one.bundle@.root_hash,
        two.bundle@.revision == one.bundle@.revision + 1,
        two.bundle@.revision > one.bundle@.revision,
        two.new_chunks == 0,
        two.file_count == one.file_count,
        third.chunk_store.chunks() == second.chunk_store.chunks(),
        third.chunk_store.counted() == second.chunk_store.counted(),
        third.chunk_store.sized() == second.chunk_store.sized(),
{
    let pieces = payloads_of(
        kept_files(files),
        chunk_size_for(options.chunk_size) as nat,
        options.compress,
    );
    crate::publisher::files::lemma_stored_are_held(first.chunk_store.chunks(), pieces);
    crate::publisher::files::law_stored_again(
        second.chunk_store.counted(),
        second.chunk_store.sized(),
        second.chunk_store.chunks(),
        pieces,
    );
    let record = crate::types::PublishedSiteView {
        site_id: one.bundle@.site_id,
        name: one.bundle@.name,
        revision: one.bundle@.revision,
        root_path: path,
        created_at: crate::publisher::bundle::first_published(
            first.bundle_store.published(),
            one.bundle@.site_id,
            now,
        ),
        updated_at: now,
    };
    law_decode_encode::<PublishedSite>(record);
}

/// The published files are the files whose path is not left out.
pub proof fn lemma_kept_files(files: Seq<SourceFileView>)
    ensures
        forall|f: SourceFileView| #[trigger]
            kept_files(files).contains(f) <==> files.contains(f) && !path_ignored(f.path),
    decreases files.len(),
{
    if files.len() > 0 {
        let front = files.drop_last();
        let last = files.last();
        let inner = kept_files(front);
        let kept = kept_files(files);
        lemma_kept_files(front);
        assert forall|f: SourceFileView| #[trigger]
            kept.contains(f) <==> files.contains(f) && !path_ignored(f.path) by {
            if files.contains(f) && f != last {
                let k = choose|k: int| 0 <= k < files.len() && files[k] == f;
                assert(front[k] == f);
            }
            if !(path_ignored(last.path)) {
                assert(kept[kept.len() - 1] == last);
                if inner.contains(f) {
                    let k = choose|k: int| 0 <= k < inner.len() && inner[k] == f;
                    assert(kept[k] == f);
                }
            }
        }
    } else {
        assert forall|f: SourceFileView| #[trigger]
            kept_files(files).contains(f) <==> files.contains(f) && !path_ignored(f.path) by {
        }
    }
}

proof fn lemma_referenced(files: Seq<SourceFileView>, size: nat, compress: bool, chunk: Seq<u8>)
    ensures
        referenced(sort_by_path(entries_of(kept_files(files), size, compress)), chunk) <==> exists|
            k: int,
        |
            0 <= k < files.len() && !path_ignored((#[trigger] files[k]).path) && entry_of(
                files[k],
                size,
                compress,
            ).chunks.contains(chunk),
{
    let kept = kept_files(files);
    let entries = entries_of(kept, size, compress);
    let sorted = sort_by_path(entries);
    law_sort_by_path(entries);
    lemma_kept_files(files);
    if referenced(sorted, chunk) {
        let i = choose|i: int| 0 <= i < sorted.len() && (#[trigger] sorted[i]).chunks.contains(chunk);
        assert(entries.contains(sorted[i]));
        let j = choose|j: int| 0 <= j < entries.len() && entries[j] == sorted[i];
        assert(kept.contains(kept[j]));
    }
    if exists|k: int|
        0 <= k < files.len() && !path_ignored((#[trigger] files[k]).path) && entry_of(
            files[k],
            size,
            compress,
        ).chunks.contains(chunk) {
        let k = choose|k: int|
            0 <= k < files.len() && !path_ignored((#[trigger] files[k]).path) && entry_of(
                files[k],
                size,
                compress,
            ).chunks.contains(chunk);
        assert(kept.contains(files[k]));
        let j = choose|j: int| 0 <= j < kept.len() && kept[j] == files[k];
        assert(entries.contains(entries[j]));
    }
}

/// Where the bytes of exactly one file change, a chunk that only one of
/// the two manifests lists belongs to that file.
pub proof fn law_one_file_changed(
    old_files: Seq<SourceFileView>,
    new_files: Seq<SourceFileView>,
    at: int,
    size: nat,
    compress: bool,
    chunk: Seq<u8>,
)
    requires
        old_files.len() == new_files.len(),
        0 <= at < old_files.len(),
        old_files[at].path == new_files[at].path,
        forall|k: int| 0 <= k < old_files.len() && k != at ==> old_files[k] == new_files[k],
    ensures
        ({
            let old_entries = sort_by_path(entries_of(kept_files(old_files), size, compress));
            let new_entries = sort_by_path(entries_of(kept_files(new_files), size, compress));
            &&& referenced(new_entries, chunk) && !referenced(old_entries, chunk) ==> entry_of(
                new_files[at],
                size,
                compress,
            ).chunks.contains(chunk)
            &&& referenced(old_entries, chunk) && !referenced(new_entries, chunk) ==> entry_of(
                old_files[at],
                size,
                compress,
            ).chunks.contains(chunk)
        }),
{
    lemma_referenced(old_files, size, compress, chunk);
    lemma_referenced(new_files, size, compress, chunk);
}

/// No piece shares its digest with a different chunk of the store or
/// with a different piece.
pub open spec fn no_collision(chunks: Map<Seq<u8>, Seq<u8>>, pieces: Seq<Seq<u8>>) -> bool {
    &&& forall|i: int|
        0 <= i < pieces.len() && chunks.contains_key(blake3_digest(#[trigger] pieces[i]))
            ==> chunks[blake3_digest(pieces[i])] == pieces[i]
    &&& forall|i: int, j: int|
        0 <= i < pieces.len() && 0 <= j < pieces.len() && blake3_digest(#[trigger] pieces[i])
            == blake3_digest(#[trigger] pieces[j]) ==> pieces[i] == pieces[j]
}

/// Where nothing collides, a store holds each piece that was put under
/// the digest of the piece, and holds nothing but its chunks and the pieces.
proof fn lemma_store_all_holds(chunks: Map<Seq<u8>, Seq<u8>>, pieces: Seq<Seq<u8>>)
    requires
        no_collision(chunks, pieces),
    ensures
        forall|i: int|
            0 <= i < pieces.len() ==> entry_at(
                store_all(chunks, pieces),
                blake3_digest(#[trigger] pieces[i]),
            ) == Some(pieces[i]),
        forall|id: Seq<u8>| #[trigger]
            store_all(chunks, pieces).contains_key(id) ==> (chunks.contains_key(id) && store_all(
                chunks,
                pieces,
            )[id] == chunks[id]) || exists|j: int|
                0 <= j < pieces.len() && blake3_digest(#[trigger] pieces[j]) == id && store_all(
                    chunks,
                    pieces,
                )[id] == pieces[j],
    decreases pieces.len(),
{
    if pieces.len() > 0 {
        let front = pieces.drop_last();
        let last = pieces.last();
        let mid = store_all(chunks, front);
        let after = store_all(chunks, pieces);
        assert(no_collision(chunks, front)) by {
            assert forall|i: int|
                0 <= i < front.len() && chunks.contains_key(
                    blake3_digest(#[trigger] front[i]),
                ) implies chunks[blake3_digest(front[i])] == front[i] by {
            }
            assert forall|i: int, j: int|
                0 <= i < front.len() && 0 <= j < front.len() && blake3_digest(#[trigger] front[i])
                    == blake3_digest(#[trigger] front[j]) implies front[i] == front[j] by {
            }
        }
        lemma_store_all_holds(chunks, front);
        if mid.contains_key(blake3_digest(last)) {
            if !(chunks.contains_key(blake3_digest(last)) && mid[blake3_digest(last)]
                == chunks[blake3_digest(last)]) {
            }
        }
        assert forall|i: int| 0 <= i < pieces.len() implies entry_at(
            after,
            blake3_digest(#[trigger] pieces[i]),
        ) == Some(pieces[i]) by {
            if i < front.len() {
                assert(front[i] == pieces[i]);
            }
        }
        assert forall|id: Seq<u8>| #[trigger] after.contains_key(id) implies (chunks.contains_key(id)
            && after[id] == chunks[id]) || exists|j: int|
            0 <= j < pieces.len() && blake3_digest(#[trigger] pieces[j]) == id && after[id]
                == pieces[j] by {
        }
    }
}

/// The pieces of each file are among the pieces of all the files.
proof fn lemma_payloads_hold(files: Seq<SourceFileView>, size: nat, compress: bool, k: int, i: int)
    requires
        0 <= k < files.len(),
        0 <= i < stored_chunks(files[k], size, compress).len(),
    ensures
        payloads_of(files, size, compress).contains(stored_chunks(files[k], size, compress)[i]),
    decreases files.len(),
{
    let front = payloads_of(files.drop_last(), size, compress);
    let tail = stored_chunks(files.last(), size, compress);
    let all = payloads_of(files, size, compress);
    if k == files.len() - 1 {
        assert(all[front.len() + i] == tail[i]);
    } else {
        lemma_payloads_hold(files.drop_last(), size, compress, k, i);
        let piece = stored_chunks(files[k], size, compress)[i];
        let j = choose|j: int| 0 <= j < front.len() && front[j] == piece;
        assert(all[j] == piece);
    }
}

/// A published file reads back bit for bit: its manifest entry is in the
/// bundle, and the chunks of the entry, one after the other and unpacked
/// where the entry is compressed, are the bytes of the file. This holds
/// where no piece shares its digest with a different chunk or piece.
pub proof fn law_published_file_reads_back(
    before: Publisher,
    after: Publisher,
    path: Seq<char>,
    dir_name: Option<Seq<char>>,
    files: Seq<SourceFileView>,
    options: PublishOptions,
    now: u64,
    result: PublishResult,
    file: SourceFileView,
)
    requires
        Publisher::published(before, after, path, dir_name, files, options, now, result),
        files.contains(file),
        !path_ignored(file.path),
        no_collision(
            before.chunk_store.chunks(),
            payloads_of(kept_files(files), chunk_size_for(options.chunk_size) as nat, options.compress),
        ),
    ensures
        result.bundle@.manifest.files.contains(
            entry_of(file, chunk_size_for(options.chunk_size) as nat, options.compress),
        ),
        file_content(
            after.chunk_store.chunks(),
            entry_of(file, chunk_size_for(options.chunk_size) as nat, options.compress),
        ) == Some(file.content),
{
    let size = chunk_size_for(options.chunk_size) as nat;
    let compress = options.compress;
    let kept = kept_files(files);
    let entries = entries_of(kept, size, compress);
    let all = payloads_of(kept, size, compress);
    let stored = after.chunk_store.chunks();
    let entry = entry_of(file, size, compress);
    let payload = payload_of(file.content, mime_type_of(file.path), compress);
    let pieces = stored_chunks(file, size, compress);
    lemma_kept_files(files);
    assert(kept.contains(file));
    let k = choose|k: int| 0 <= k < kept.len() && kept[k] == file;
    assert(entries[k] == entry);
    assert(entries.contains(entry));
    law_sort_by_path(entries);
    lemma_store_all_holds(before.chunk_store.chunks(), all);
    assert forall|i: int| 0 <= i < pieces.len() implies stored[blake3_digest(#[trigger] pieces[i])]
        == pieces[i] by {
        lemma_payloads_hold(kept, size, compress, k, i);
    }
    assert(chunk_bodies_of(stored, digests(pieces)) =~= pieces);
    law_chunks_concat(payload.0, size);
}

} // verus!

//! Website bundling and publishing.

use vstd::prelude::*;
use vstd::utf8::encode_utf8;
use crate::clock::unix_millis;
use crate::codec::decoded;
use crate::codec::wire::Wire;
use crate::crypto::hash::{site_id_of, SiteIdExt};
use crate::crypto::merkle::{hashes, merkle_root, MerkleTree};
use crate::crypto::signing::{bundle_message, ed25519_public_key, ed25519_signature, sign_bundle};
use crate::crypto::signing::signature_valid;
use crate::publisher::files::{bundle_file, entry_of, fresh_count, is_ignored, lemma_store_all_concat};
use crate::publisher::files::{path_ignored, source_views, store_all, stored_chunks, PublishError};
use crate::publisher::files::{mime_type_of, payload_of, unpacks, SourceFile, SourceFileView};
use crate::publisher::files::{bundled_freely, compressible, counted_all, sized_all};
use crate::publisher::order::{entry_views, sort_by_path, sort_entries, sorted_by_path};
use crate::storage::{BundleStore, ChunkStore, KeyStore};
use crate::storage::keys::name_key;
use crate::storage::kv::entry_at;
use crate::text::{copy_text, same_text};
use crate::types::{FileEntry, FileEntryView, PublishedSite, PublishedSiteView, RouteConfig};
use crate::types::{RouteConfigView, SiteId, SiteManifest, WebBundle, WebBundleView};

verus! {

/// The chunk size used where the options name none: 256 KiB.
pub const DEFAULT_CHUNK_SIZE: usize = 262144;

/// Options for publishing a website.
#[derive(Debug, Clone)]
pub struct PublishOptions {
    /// Site name (defaults to directory name).
    pub name: Option<String>,
    /// Entry point (defaults to index.html).
    pub entry: Option<String>,
    /// Key name to use for signing.
    pub key_name: Option<String>,
    /// Enable gzip compression.
    pub compress: bool,
    /// Chunk size in bytes.
    pub chunk_size: Option<usize>,
    /// SPA fallback path.
    pub spa_fallback: Option<String>,
    /// Enable clean URLs.
    pub clean_urls: bool,
    /// Command to run before publishing (pre-deploy hook); not interpreted here.
    pub pre_hook: Option<String>,
    /// Command to run after publishing (post-deploy hook); not interpreted here.
    pub post_hook: Option<String>,
}

impl Default for PublishOptions {
    fn default() -> (options: Self)
        ensures
            options.name is None,
            options.entry is None,
            options.key_name is None,
            !options.compress,
            options.chunk_size is None,
            options.spa_fallback is None,
            !options.clean_urls,
            options.pre_hook is None,
            options.post_hook is None,
    {
        PublishOptions {
            name: None,
            entry: None,
            key_name: None,
            compress: false,
            chunk_size: None,
            spa_fallback: None,
            clean_urls: false,
            pre_hook: None,
            post_hook: None,
        }
    }
}

/// The options of an update of a site called `name`: the name is kept,
/// everything else is the default.
pub open spec fn updates(options: PublishOptions, name: Seq<char>) -> bool {
    &&& text_view(options.name) == Some(name)
    &&& options.entry is None
    &&& options.key_name is None
    &&& !options.compress
    &&& options.chunk_size is None
    &&& options.spa_fallback is None
    &&& !options.clean_urls
    &&& options.pre_hook is None
    &&& options.post_hook is None
}

/// The options with which a published site is published again.
pub fn update_options(site: &PublishedSite) -> (options: PublishOptions)
    ensures
        updates(options, site.name@),
{
    PublishOptions {
        name: Some(copy_text(site.name.as_str())),
        entry: None,
        key_name: None,
        compress: false,
        chunk_size: None,
        spa_fallback: None,
        clean_urls: false,
        pre_hook: None,
        post_hook: None,
    }
}

/// Result of publishing a website.
#[derive(Debug)]
pub struct PublishResult {
    /// The published bundle.
    pub bundle: WebBundle,
    /// Files included.
    pub file_count: usize,
    /// Total size before compression.
    pub total_size: u64,
    /// Size after compression.
    pub compressed_size: u64,
    /// Chunks created.
    pub chunk_count: usize,
    /// Chunks that the store did not hold before.
    pub new_chunks: usize,
}

/// What bundling a directory counted.
#[derive(Debug, Clone, Copy)]
pub struct BundleStats {
    pub total_size: u64,
    pub compressed_size: u64,
    pub chunk_count: usize,
    pub new_chunks: usize,
}

/// The view of an optional text.
pub open spec fn text_view(text: Option<String>) -> Option<Seq<char>> {
    match text {
        Some(t) => Some(t@),
        None => None,
    }
}

/// A count, held at the largest `u64` where it is more.
pub open spec fn capped_u64(n: nat) -> u64 {
    if n > u64::MAX {
        u64::MAX
    } else {
        n as u64
    }
}

/// A count, held at the largest `usize` where it is more.
pub open spec fn capped_usize(n: nat) -> usize {
    if n > usize::MAX {
        usize::MAX
    } else {
        n as usize
    }
}

/// The files that are published: those whose path is not left out, in their order.
pub open spec fn kept_files(files: Seq<SourceFileView>) -> Seq<SourceFileView>
    decreases files.len(),
{
    if files.len() == 0 {
        Seq::empty()
    } else if path_ignored(files.last().path) {
        kept_files(files.drop_last())
    } else {
        kept_files(files.drop_last()).push(files.last())
    }
}

/// The manifest entries of files, in their order.
pub open spec fn entries_of(files: Seq<SourceFileView>, chunk_size: nat, compress: bool) -> Seq<
    FileEntryView,
> {
    files.map_values(|f: SourceFileView| entry_of(f, chunk_size, compress))
}

/// The pieces stored for files, file after file.
pub open spec fn payloads_of(files: Seq<SourceFileView>, chunk_size: nat, compress: bool) -> Seq<Seq<u8>>
    decreases files.len(),
{
    if files.len() == 0 {
        Seq::empty()
    } else {
        payloads_of(files.drop_last(), chunk_size, compress) + stored_chunks(
            files.last(),
            chunk_size,
            compress,
        )
    }
}

/// The bytes of files, added up.
pub open spec fn content_bytes(files: Seq<SourceFileView>) -> nat
    decreases files.len(),
{
    if files.len() == 0 {
        0
    } else {
        content_bytes(files.drop_last()) + files.last().content.len()
    }
}

/// The bytes stored for files, added up.
pub open spec fn stored_bytes(files: Seq<SourceFileView>, compress: bool) -> nat
    decreases files.len(),
{
    if files.len() == 0 {
        0
    } else {
        stored_bytes(files.drop_last(), compress) + payload_of(
            files.last().content,
            mime_type_of(files.last().path),
            compress,
        ).0.len()
    }
}

/// What is stored for each of the files gives the file back.
pub open spec fn all_unpack(files: Seq<SourceFileView>, compress: bool) -> bool {
    forall|i: int|
        0 <= i < files.len() ==> unpacks(
            (#[trigger] files[i]).content,
            mime_type_of(files[i].path),
            compress,
        )
}

/// Every one of the files is bundled without a call of the store or of
/// the compressor; so it is where there are no files.
pub open spec fn all_free(files: Seq<SourceFileView>, compress: bool) -> bool {
    forall|i: int| 0 <= i < files.len() ==> bundled_freely(#[trigger] files[i], compress)
}

/// Some one of the files has a type that is worth compressing.
pub open spec fn some_compressible(files: Seq<SourceFileView>) -> bool {
    exists|i: int| 0 <= i < files.len() && compressible(mime_type_of((#[trigger] files[i]).path))
}

/// The content hashes of entries, in their order.
pub open spec fn content_hashes(entries: Seq<FileEntryView>) -> Seq<Seq<u8>> {
    entries.map_values(|e: FileEntryView| e.hash)
}

/// Whether some entry has the path.
pub open spec fn has_path(entries: Seq<FileEntryView>, path: Seq<char>) -> bool {
    exists|i: int| 0 <= i < entries.len() && (#[trigger] entries[i]).path == path
}

/// The entry point of a site: the one asked for, else the first of
/// `index.html`, `index.htm`, `main.html` that is among the files, else
/// `index.html`.
pub open spec fn entry_for(explicit: Option<Seq<char>>, entries: Seq<FileEntryView>) -> Seq<char> {
    match explicit {
        Some(entry) => entry,
        None => if has_path(entries, "index.html"@) {
            "index.html"@
        } else if has_path(entries, "index.htm"@) {
            "index.htm"@
        } else if has_path(entries, "main.html"@) {
            "main.html"@
        } else {
            "index.html"@
        },
    }
}

/// The route configuration of a site: there is one where a fallback or
/// clean URLs are asked for.
pub open spec fn routes_for(spa_fallback: Option<Seq<char>>, clean_urls: bool) -> Option<RouteConfigView> {
    if spa_fallback is Some || clean_urls {
        Some(
            RouteConfigView {
                clean_urls,
                fallback: spa_fallback,
                redirects: Seq::empty(),
                rewrites: Seq::empty(),
            },
        )
    } else {
        None
    }
}

/// The name of a site: the one asked for, else the final part of the
/// directory's path, else `unnamed`.
pub open spec fn site_name_for(explicit: Option<Seq<char>>, dir_name: Option<Seq<char>>) -> Seq<char> {
    match explicit {
        Some(name) => name,
        None => match dir_name {
            Some(name) => name,
            None => "unnamed"@,
        },
    }
}

/// The name of the signing key: the one asked for, else `default`.
pub open spec fn key_name_for(explicit: Option<Seq<char>>) -> Seq<char> {
    match explicit {
        Some(name) => name,
        None => "default"@,
    }
}

/// The chunk size: the one asked for, else 256 KiB.
pub open spec fn chunk_size_for(explicit: Option<usize>) -> usize {
    match explicit {
        Some(size) => size,
        None => DEFAULT_CHUNK_SIZE,
    }
}

/// The published record stored under a site identifier, if one decodes.
pub open spec fn published_record(published: Map<Seq<u8>, Seq<u8>>, site_id: Seq<u8>) -> Option<
    PublishedSiteView,
> {
    match entry_at(published, site_id) {
        Some(bytes) => decoded::<PublishedSite>(bytes),
        None => None,
    }
}

/// The revision that a site was last published at; 0 where it never was.
pub open spec fn previous_revision(published: Map<Seq<u8>, Seq<u8>>, site_id: Seq<u8>) -> u64 {
    match published_record(published, site_id) {
        Some(site) => site.revision,
        None => 0,
    }
}

/// The time that a site was first published at; `now` where it never was.
pub open spec fn first_published(published: Map<Seq<u8>, Seq<u8>>, site_id: Seq<u8>, now: u64) -> u64 {
    match published_record(published, site_id) {
        Some(site) => site.created_at,
        None => now,
    }
}

/// What holds of a bundle that nobody tampered with: its identifier is
/// the digest of publisher key and name, its root hash is the Merkle root
/// of its files' content hashes, and its signature verifies under the
/// publisher key.
pub open spec fn bundle_intact(bundle: WebBundleView) -> bool {
    &&& bundle.site_id == site_id_of(bundle.publisher, bundle.name)
    &&& bundle.root_hash == merkle_root(content_hashes(bundle.manifest.files))
    &&& signature_valid(
        bundle_message(bundle.site_id, bundle.revision, bundle.root_hash),
        bundle.signature,
        bundle.publisher,
    )
}

/// Checks a bundle: identifier, root hash and signature. A bundle with
/// more files than a Merkle tree can be built over is not checked and
/// counts as broken.
pub fn is_intact(bundle: &WebBundle) -> (intact: bool)
    ensures
        intact ==> bundle_intact(bundle@),
        4 * bundle@.manifest.files.len() <= usize::MAX ==> intact == bundle_intact(bundle@),
{
    if bundle.manifest.files.len() > usize::MAX / 4 {
        return false;
    }
    let expected_id = SiteId::generate(&bundle.publisher, bundle.name.as_str());
    let leaves = collect_hashes(&bundle.manifest.files);
    let root = MerkleTree::new(leaves).root();
    crate::bytes::id_eq(&expected_id, &bundle.site_id) && crate::bytes::id_eq(&root, &bundle.root_hash)
        && crate::crypto::signing::verify_bundle(
        &bundle.site_id,
        bundle.revision,
        &bundle.root_hash,
        &bundle.signature,
        &bundle.publisher,
    )
}

/// Website publisher. It owns the three stores it writes to.
pub struct Publisher {
    pub chunk_store: ChunkStore,
    pub bundle_store: BundleStore,
    pub key_store: KeyStore,
}

/// Calls `Path::file_name`. Nothing is claimed of the result: what counts
/// as the final part of a path is the platform's matter.
#[verifier::external_body]
fn path_final_component(path: &str) -> (name: Option<String>) {
    std::path::Path::new(path).file_name().map(|n| n.to_string_lossy().to_string())
}

/// The index of the first entry with the path, if any.
pub fn find_path(entries: &Vec<FileEntry>, path: &str) -> (at: Option<usize>)
    ensures
        match at {
            Some(i) => i < entries@.len() && entries@[i as int].path@ == path@ && forall|k: int|
                0 <= k < i ==> entries@[k].path@ != path@,
            None => !has_path(entry_views(entries@), path@),
        },
        at is Some <==> has_path(entry_views(entries@), path@),
{
    let mut i: usize = 0;
    while i < entries.len()
        invariant
            i <= entries@.len(),
            forall|k: int| 0 <= k < i ==> entries@[k].path@ != path@,
        decreases entries@.len() - i,
    {
        if same_text(entries[i].path.as_str(), path) {
            assert(entry_views(entries@)[i as int].path == path@);
            return Some(i);
        }
        i += 1;
    }
    assert forall|k: int| 0 <= k < entry_views(entries@).len() implies (#[trigger] entry_views(
        entries@,
    )[k]).path != path@ by {
    }
    None
}

/// The entry point of a site.
pub fn detect_entry(explicit: &Option<String>, entries: &Vec<FileEntry>) -> (entry: String)
    ensures
        entry@ == entry_for(text_view(*explicit), entry_views(entries@)),
{
    match explicit {
        Some(entry) => copy_text(entry.as_str()),
        None => {
            if find_path(entries, "index.html").is_some() {
                "index.html".to_owned()
            } else if find_path(entries, "index.htm").is_some() {
                "index.htm".to_owned()
            } else if find_path(entries, "main.html").is_some() {
                "main.html".to_owned()
            } else {
                "index.html".to_owned()
            }
        },
    }
}

/// The route configuration of a site.
pub fn build_routes(spa_fallback: &Option<String>, clean_urls: bool) -> (routes: Option<RouteConfig>)
    ensures
        (match routes {
            Some(r) => Some(r@),
            None => None,
        }) == routes_for(text_view(*spa_fallback), clean_urls),
{
    if spa_fallback.is_some() || clean_urls {
        let fallback = match spa_fallback {
            Some(path) => Some(copy_text(path.as_str())),
            None => None,
        };
        let routes = RouteConfig {
            clean_urls,
            fallback,
            redirects: Vec::new(),
            rewrites: Vec::new(),
        };
        proof {
            assert(routes@.redirects =~= Seq::empty());
            assert(routes@.rewrites =~= Seq::empty());
        }
        Some(routes)
    } else {
        None
    }
}

/// The name of a site.
pub fn site_name(explicit: &Option<String>, dir_name: &Option<String>) -> (name: String)
    ensures
        name@ == site_name_for(text_view(*explicit), text_view(*dir_name)),
{
    match explicit {
        Some(name) => copy_text(name.as_str()),
        None => match dir_name {
            Some(name) => copy_text(name.as_str()),
            None => "unnamed".to_owned(),
        },
    }
}

/// Stores the pieces of every published file and makes the sorted list
/// of manifest entries.
pub fn bundle_files(store: &mut ChunkStore, files: &Vec<SourceFile>, chunk_size: usize, compress: bool) -> (
    made: Result<(Vec<FileEntry>, BundleStats), PublishError>)
    requires
        old(store).wf(),
        chunk_size > 0,
    ensures
        final(store).wf(),
        match made {
            Ok((entries, stats)) => {
                let kept = kept_files(source_views(files@));
                &&& entry_views(entries@) == sort_by_path(entries_of(kept, chunk_size as nat, compress))
                &&& sorted_by_path(entry_views(entries@))
                &&& entries@.len() == kept.len()
                &&& final(store).chunks() == store_all(
                    old(store).chunks(),
                    payloads_of(kept, chunk_size as nat, compress),
                )
                &&& stats.total_size == capped_u64(content_bytes(kept))
                &&& stats.compressed_size == capped_u64(stored_bytes(kept, compress))
                &&& stats.chunk_count == capped_usize(
                    payloads_of(kept, chunk_size as nat, compress).len(),
                )
                &&& stats.new_chunks == capped_usize(
                    fresh_count(old(store).chunks(), payloads_of(kept, chunk_size as nat, compress)),
                )
                &&& all_unpack(kept, compress)
                &&& final(store).counted() == counted_all(
                    old(store).counted(),
                    old(store).chunks(),
                    payloads_of(kept, chunk_size as nat, compress),
                )
                &&& final(store).sized() == sized_all(
                    old(store).sized(),
                    old(store).chunks(),
                    payloads_of(kept, chunk_size as nat, compress),
                )
            },
            Err(e) => e is Store || (e is CompressionFailed && compress && some_compressible(
                kept_files(source_views(files@)),
            )),
        },
        all_free(kept_files(source_views(files@)), compress) ==> made is Ok,
{
    let ghost all = source_views(files@);
    proof {
        crate::publisher::laws::lemma_kept_files(all);
    }
    let ghost start = store.chunks();
    let ghost size = chunk_size as nat;
    let mut entries: Vec<FileEntry> = Vec::new();
    let mut total_size: u64 = 0;
    let mut compressed_size: u64 = 0;
    let mut chunk_count: usize = 0;
    let mut new_chunks: usize = 0;
    let mut i: usize = 0;
    while i < files.len()
        invariant
            i <= files@.len(),
            store.wf(),
            chunk_size > 0,
            size == chunk_size as nat,
            all == source_views(files@),
            start == old(store).chunks(),
            entry_views(entries@) == entries_of(kept_files(all.take(i as int)), size, compress),
            store.chunks() == store_all(start, payloads_of(kept_files(all.take(i as int)), size, compress)),
            store.counted() == counted_all(
                old(store).counted(),
                start,
                payloads_of(kept_files(all.take(i as int)), size, compress),
            ),
            store.sized() == sized_all(
                old(store).sized(),
                start,
                payloads_of(kept_files(all.take(i as int)), size, compress),
            ),
            forall|f: SourceFileView| #[trigger]
                kept_files(all).contains(f) <==> all.contains(f) && !path_ignored(f.path),
            total_size == capped_u64(content_bytes(kept_files(all.take(i as int)))),
            compressed_size == capped_u64(stored_bytes(kept_files(all.take(i as int)), compress)),
            chunk_count == capped_usize(payloads_of(kept_files(all.take(i as int)), size, compress).len()),
            new_chunks == capped_usize(
                fresh_count(start, payloads_of(kept_files(all.take(i as int)), size, compress)),
            ),
            all_unpack(kept_files(all.take(i as int)), compress),
        decreases files@.len() - i,
    {
        let file = &files[i];
        let ghost before = kept_files(all.take(i as int));
        proof {
            assert(all.take(i + 1).drop_last() =~= all.take(i as int));
        }
        if !is_ignored(file.path.as_str()) {
            proof {
                assert(all[i as int] == file@);
                assert(all.contains(file@));
                assert(kept_files(all).contains(file@));
            }
            let (entry, fresh, stored) = match bundle_file(store, file, chunk_size, compress) {
                Ok(made) => made,
                Err(e) => {
                    return Err(e);
                },
            };
            proof {
                let after = before.push(file@);
                assert(after.drop_last() =~= before);
                let earlier = payloads_of(before, size, compress);
                let pieces = stored_chunks(file@, size, compress);
                lemma_store_all_concat(start, earlier, pieces);
                assert(entry.chunks@.len() == pieces.len()) by {
                    assert(crate::types::id_views(entry.chunks@).len() == entry.chunks@.len());
                }
                assert(entries_of(after, size, compress) =~= entries_of(before, size, compress).push(
                    entry_of(file@, size, compress),
                ));
            }
            total_size = total_size.saturating_add(file.content.len() as u64);
            compressed_size = compressed_size.saturating_add(stored as u64);
            chunk_count = chunk_count.saturating_add(entry.chunks.len());
            new_chunks = new_chunks.saturating_add(fresh);
            entries.push(entry);
        }
        i += 1;
    }
    proof {
        assert(all.take(files@.len() as int) =~= all);
    }
    let sorted = sort_entries(entries);
    Ok((sorted, BundleStats { total_size, compressed_size, chunk_count, new_chunks }))
}

/// The content hashes of entries, in their order.
fn collect_hashes(entries: &Vec<FileEntry>) -> (leaves: Vec<[u8; 32]>)
    ensures
        hashes(leaves@) == content_hashes(entry_views(entries@)),
        leaves@.len() == entries@.len(),
{
    let mut leaves: Vec<[u8; 32]> = Vec::new();
    let mut i: usize = 0;
    while i < entries.len()
        invariant
            i <= entries@.len(),
            leaves@.len() == i,
            hashes(leaves@) == content_hashes(entry_views(entries@)).take(i as int),
        decreases entries@.len() - i,
    {
        let leaf: [u8; 32] = entries[i].hash;
        leaves.push(leaf);
        i += 1;
    }
    leaves
}

impl Publisher {
    /// Create a new publisher over the three stores.
    pub fn new(chunk_store: ChunkStore, bundle_store: BundleStore, key_store: KeyStore) -> (publisher: Self)
        ensures
            publisher.chunk_store == chunk_store,
            publisher.bundle_store == bundle_store,
            publisher.key_store == key_store,
    {
        Publisher { chunk_store, bundle_store, key_store }
    }

    /// What a successful publish at `now` leaves behind in the stores and
    /// hands back, for a directory whose path ends in `dir_name`.
    pub open spec fn published(
        before: Publisher,
        after: Publisher,
        path: Seq<char>,
        dir_name: Option<Seq<char>>,
        files: Seq<SourceFileView>,
        options: PublishOptions,
        now: u64,
        result: PublishResult,
    ) -> bool {
        let name = site_name_for(text_view(options.name), dir_name);
        let key = name_key(key_name_for(text_view(options.key_name)));
        let size = chunk_size_for(options.chunk_size) as nat;
        let kept = kept_files(files);
        let entries = sort_by_path(entries_of(kept, size, options.compress));
        let bundle = result.bundle@;
        let message = bundle_message(bundle.site_id, bundle.revision, bundle.root_hash);
        let record = PublishedSiteView {
            site_id: bundle.site_id,
            name,
            revision: bundle.revision,
            root_path: path,
            created_at: first_published(before.bundle_store.published(), bundle.site_id, now),
            updated_at: now,
        };
        &&& size > 0
        &&& bundle.name == name
        &&& bundle.site_id == site_id_of(bundle.publisher, name)
        &&& entry_at(after.key_store.public(), key) == Some(bundle.publisher)
        &&& after.key_store.private().contains_key(key)
        &&& if before.key_store.private().contains_key(key) {
            &&& after.key_store.private() == before.key_store.private()
            &&& after.key_store.public() == before.key_store.public()
        } else {
            &&& after.key_store.private() == before.key_store.private().insert(
                key,
                after.key_store.private()[key],
            )
            &&& after.key_store.public() == before.key_store.public().insert(key, bundle.publisher)
            &&& bundle.publisher == ed25519_public_key(after.key_store.private()[key])
        }
        &&& bundle.signature == ed25519_signature(after.key_store.private()[key], message)
        &&& before.key_store.consistent() ==> signature_valid(message, bundle.signature, bundle.publisher)
        &&& before.key_store.consistent() ==> after.key_store.consistent()
        &&& bundle.revision == previous_revision(before.bundle_store.published(), bundle.site_id) + 1
        &&& bundle.manifest.files == entries
        &&& bundle.manifest.entry == entry_for(text_view(options.entry), entries)
        &&& bundle.manifest.routes == routes_for(text_view(options.spa_fallback), options.clean_urls)
        &&& bundle.manifest.headers is None
        &&& bundle.root_hash == merkle_root(content_hashes(entries))
        &&& bundle.created_at == now
        &&& after.chunk_store.chunks() == store_all(
            before.chunk_store.chunks(),
            payloads_of(kept, size, options.compress),
        )
        &&& all_unpack(kept, options.compress)
        &&& after.bundle_store.bundles() == before.bundle_store.bundles().insert(
            bundle.site_id,
            WebBundle::wire(bundle),
        )
        &&& after.bundle_store.manifests() == before.bundle_store.manifests().insert(
            bundle.site_id,
            SiteManifest::wire(bundle.manifest),
        )
        &&& after.bundle_store.published() == before.bundle_store.published().insert(
            bundle.site_id,
            PublishedSite::wire(record),
        )
        &&& PublishedSite::fits(record)
        &&& after.bundle_store.names() == before.bundle_store.names().insert(
            encode_utf8(name),
            bundle.site_id,
        )
        &&& after.bundle_store.hosted() == before.bundle_store.hosted()
        &&& result.file_count == entries.len()
        &&& result.total_size == capped_u64(content_bytes(kept))
        &&& result.compressed_size == capped_u64(stored_bytes(kept, options.compress))
        &&& result.chunk_count == capped_usize(payloads_of(kept, size, options.compress).len())
        &&& result.new_chunks == capped_usize(
            fresh_count(before.chunk_store.chunks(), payloads_of(kept, size, options.compress)),
        )
        &&& after.chunk_store.counted() == counted_all(
            before.chunk_store.counted(),
            before.chunk_store.chunks(),
            payloads_of(kept, size, options.compress),
        )
        &&& after.chunk_store.sized() == sized_all(
            before.chunk_store.sized(),
            before.chunk_store.chunks(),
            payloads_of(kept, size, options.compress),
        )
    }

    /// Why a publish may be given up, as far as the inputs decide it, and
    /// what it leaves behind. The records of published sites and the name
    /// index are as they were, unless it was the writing of the record
    /// itself that failed; unless a store failed, the whole bundle store
    /// is as it was.
    pub open spec fn refused(
        before: Publisher,
        after: Publisher,
        dir_name: Option<Seq<char>>,
        files: Seq<SourceFileView>,
        options: PublishOptions,
        error: PublishError,
    ) -> bool {
        let name = site_name_for(text_view(options.name), dir_name);
        let key = name_key(key_name_for(text_view(options.key_name)));
        &&& !(error is Store) && !(error is RecordNotWritten) ==> after.bundle_store == before.bundle_store
        &&& !(error is RecordNotWritten) ==> {
            &&& after.bundle_store.published() == before.bundle_store.published()
            &&& after.bundle_store.names() == before.bundle_store.names()
        }
        &&& after.bundle_store.hosted() == before.bundle_store.hosted()
        &&& error is InvalidChunkSize <==> options.chunk_size == Some(0usize)
        &&& error is InvalidChunkSize ==> after.key_store == before.key_store && after.chunk_store
            == before.chunk_store
        &&& error is CompressionFailed ==> options.compress && some_compressible(kept_files(files))
        &&& error is TooManyFiles ==> 4 * kept_files(files).len() > usize::MAX
        &&& error is RevisionExhausted ==> {
            &&& entry_at(after.key_store.public(), key) matches Some(publisher)
            &&& previous_revision(before.bundle_store.published(), site_id_of(publisher, name)) == u64::MAX
            &&& after.chunk_store == before.chunk_store
        }
    }

    /// What a publish at `now` comes to, for a directory whose path ends
    /// in `dir_name`: what `published` says where it succeeds, what
    /// `refused` says where it is given up.
    pub open spec fn outcome(
        before: Publisher,
        after: Publisher,
        path: Seq<char>,
        dir_name: Option<Seq<char>>,
        files: Seq<SourceFileView>,
        options: PublishOptions,
        now: u64,
        done: Result<PublishResult, PublishError>,
    ) -> bool {
        match done {
            Ok(result) => Self::published(before, after, path, dir_name, files, options, now, result),
            Err(e) => Self::refused(before, after, dir_name, files, options, e),
        }
    }

    /// Publish the files of a website directory, now. `path` is the
    /// directory's resolved path, `files` are the files found below it.
    pub fn publish(&mut self, path: &str, files: &Vec<SourceFile>, options: PublishOptions) -> (done:
        Result<PublishResult, PublishError>)
        requires
            old(self).chunk_store.wf(),
        ensures
            final(self).chunk_store.wf(),
            exists|now: u64, dir_name: Option<Seq<char>>| #[trigger]
                Self::outcome(
                    *old(self),
                    *final(self),
                    path@,
                    dir_name,
                    source_views(files@),
                    options,
                    now,
                    done,
                ),
    {
        let now = unix_millis();
        let dir_name = path_final_component(path);
        let done = self.publish_at(path, &dir_name, files, options, now);
        proof {
            assert(Self::outcome(
                *old(self),
                *self,
                path@,
                text_view(dir_name),
                source_views(files@),
                options,
                now,
                done,
            ));
        }
        done
    }

    /// Publish a site again, now, from the directory it was published
    /// from and under the name it has. `files` are the files found below
    /// that directory.
    pub fn update(&mut self, site: &PublishedSite, files: &Vec<SourceFile>) -> (done: Result<
        PublishResult,
        PublishError,
    >)
        requires
            old(self).chunk_store.wf(),
        ensures
            final(self).chunk_store.wf(),
            exists|options: PublishOptions, now: u64, dir_name: Option<Seq<char>>|
                updates(options, site.name@) && #[trigger] Self::outcome(
                    *old(self),
                    *final(self),
                    site.root_path@,
                    dir_name,
                    source_views(files@),
                    options,
                    now,
                    done,
                ),
    {
        let options = update_options(site);
        let ghost used = options;
        let done = self.publish(site.root_path.as_str(), files, options);
        proof {
            let (now, dir_name) = choose|now: u64, dir_name: Option<Seq<char>>| #[trigger]
                Self::outcome(
                    *old(self),
                    *self,
                    site.root_path@,
                    dir_name,
                    source_views(files@),
                    used,
                    now,
                    done,
                );
            assert(updates(used, site.name@) && Self::outcome(
                *old(self),
                *self,
                site.root_path@,
                dir_name,
                source_views(files@),
                used,
                now,
                done,
            ));
        }
        done
    }

    /// Bundle a directory into chunks: the entries of the published
    /// files, sorted by path, and what was counted on the way.
    pub fn bundle_directory(&mut self, files: &Vec<SourceFile>, chunk_size: usize, compress: bool) -> (made:
        Result<(Vec<FileEntry>, BundleStats), PublishError>)
        requires
            old(self).chunk_store.wf(),
            chunk_size > 0,
        ensures
            final(self).chunk_store.wf(),
            final(self).bundle_store == old(self).bundle_store,
            final(self).key_store == old(self).key_store,
            match made {
                Ok((entries, stats)) => {
                    let kept = kept_files(source_views(files@));
                    &&& entry_views(entries@) == sort_by_path(
                        entries_of(kept, chunk_size as nat, compress),
                    )
                    &&& sorted_by_path(entry_views(entries@))
                    &&& entries@.len() == kept.len()
                    &&& final(self).chunk_store.chunks() == store_all(
                        old(self).chunk_store.chunks(),
                        payloads_of(kept, chunk_size as nat, compress),
                    )
                    &&& stats.total_size == capped_u64(content_bytes(kept))
                    &&& stats.compressed_size == capped_u64(stored_bytes(kept, compress))
                    &&& stats.chunk_count == capped_usize(
                        payloads_of(kept, chunk_size as nat, compress).len(),
                    )
                    &&& stats.new_chunks == capped_usize(
                        fresh_count(
                            old(self).chunk_store.chunks(),
                            payloads_of(kept, chunk_size as nat, compress),
                        ),
                    )
                    &&& all_unpack(kept, compress)
                    &&& final(self).chunk_store.counted() == counted_all(
                        old(self).chunk_store.counted(),
                        old(self).chunk_store.chunks(),
                        payloads_of(kept, chunk_size as nat, compress),
                    )
                    &&& final(self).chunk_store.sized() == sized_all(
                        old(self).chunk_store.sized(),
                        old(self).chunk_store.chunks(),
                        payloads_of(kept, chunk_size as nat, compress),
                    )
                },
                Err(e) => e is Store || (e is CompressionFailed && compress && some_compressible(
                    kept_files(source_views(files@)),
                )),
            },
            all_free(kept_files(source_views(files@)), compress) ==> made is Ok,
    {
        bundle_files(&mut self.chunk_store, files, chunk_size, compress)
    }

    /// Publish the files of a website directory at the time `now`, for a
    /// directory whose path ends in `dir_name`.
    pub fn publish_at(
        &mut self,
        path: &str,
        dir_name: &Option<String>,
        files: &Vec<SourceFile>,
        options: PublishOptions,
        now: u64,
    ) -> (done: Result<PublishResult, PublishError>)
        requires
            old(self).chunk_store.wf(),
        ensures
            final(self).chunk_store.wf(),
            Self::outcome(
                *old(self),
                *final(self),
                path@,
                text_view(*dir_name),
                source_views(files@),
                options,
                now,
                done,
            ),
    {
        let chunk_size: usize = match options.chunk_size {
            Some(size) => size,
            None => DEFAULT_CHUNK_SIZE,
        };
        if chunk_size == 0 {
            return Err(PublishError::InvalidChunkSize);
        }
        let name = site_name(&options.name, dir_name);
        let (public_key, private_key) = match &options.key_name {
            Some(key_name) => match self.key_store.get_or_create(key_name.as_str()) {
                Ok(pair) => pair,
                Err(error) => {
                    return Err(PublishError::Store { error });
                },
            },
            None => match self.key_store.get_or_create("default") {
                Ok(pair) => pair,
                Err(error) => {
                    return Err(PublishError::Store { error });
                },
            },
        };
        let site_id = SiteId::generate(&public_key, name.as_str());
        let previous = match self.bundle_store.get_published_by_id(&site_id) {
            Ok(previous) => previous,
            Err(error) => {
                return Err(PublishError::Store { error });
            },
        };
        let (previous_revision, created_at) = match &previous {
            Some(site) => (site.revision, site.created_at),
            None => (0, now),
        };
        if previous_revision == u64::MAX {
            assert(self::previous_revision(old(self).bundle_store.published(), site_id@) == u64::MAX);
            return Err(PublishError::RevisionExhausted);
        }
        let revision: u64 = previous_revision + 1;
        let (entries, stats) = match self.bundle_directory(files, chunk_size, options.compress) {
            Ok(made) => made,
            Err(e) => {
                return Err(e);
            },
        };
        if entries.len() > usize::MAX / 4 {
            return Err(PublishError::TooManyFiles);
        }
        let entry = detect_entry(&options.entry, &entries);
        let routes = build_routes(&options.spa_fallback, options.clean_urls);
        let leaves = collect_hashes(&entries);
        let tree = MerkleTree::new(leaves);
        let root_hash = tree.root();
        let signature = sign_bundle(&site_id, revision, &root_hash, &private_key);
        let file_count: usize = entries.len();
        let manifest = SiteManifest { files: entries, entry, routes, headers: None };
        let bundle = WebBundle {
            site_id,
            name: copy_text(name.as_str()),
            revision,
            root_hash,
            publisher: public_key,
            signature,
            manifest,
            created_at: now,
        };
        match self.bundle_store.save_bundle(&bundle) {
            Ok(_) => {},
            Err(error) => {
                return Err(PublishError::Store { error });
            },
        }
        let published = PublishedSite {
            site_id,
            name,
            revision,
            root_path: copy_text(path),
            created_at,
            updated_at: now,
        };
        match self.bundle_store.save_published_site(&published) {
            Ok(_) => {},
            Err(error) => {
                return Err(PublishError::RecordNotWritten { error });
            },
        }
        Ok(
            PublishResult {
                bundle,
                file_count,
                total_size: stats.total_size,
                compressed_size: stats.compressed_size,
                chunk_count: stats.chunk_count,
                new_chunks: stats.new_chunks,
            },
        )
    }
}

} // verus!

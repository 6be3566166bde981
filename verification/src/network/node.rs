//! The node's decisions: how an incoming request is answered, what a
//! response is worth, and how the event loop's state moves with each
//! command and each network event. The loop itself, which performs the
//! actions decided here, runs outside this library.

use vstd::prelude::*;
use crate::bytes::id_eq;
use crate::codec::decoded;
use crate::codec::wire::Wire;
use crate::collections::IdMap;
use crate::crypto::hash::{blake3_digest, hash};
use crate::crypto::signing::{bundle_message, signature_valid, verify_bundle};
use crate::network::health::HealthMonitor;
use crate::network::replication::ReplicationManager;
use crate::storage::{BundleStore, ChunkStore};
use crate::storage::chunks::{all_cached, cache_holds, chunk_views};
use crate::storage::kv::entry_at;
use crate::publisher::files::store_all;
use crate::text::copy_text;
use crate::types::{id_views, text_views, ChunkId, GrabRequest, GrabResponse, PeerRecord};
use crate::types::{PeerRecordView, SiteId, SiteManifest, WebBundle};

verus! {

/// Gossip topic for site announcements.
pub const SITES_TOPIC: &'static str = "grabnet/sites/1.0.0";

/// Gossip topic for revision updates.
pub const UPDATES_TOPIC: &'static str = "grabnet/updates/1.0.0";

/// Protocol identifier of the identify exchange.
pub const IDENTIFY_PROTOCOL: &'static str = "/grabnet/id/1.0.0";

/// Seconds after which a request without response has failed.
pub const REQUEST_TIMEOUT_SECS: u64 = 60;

/// Seconds after which a provider query is answered with what was found.
pub const PROVIDER_QUERY_TIMEOUT_SECS: u64 = 30;

/// Seconds after which an idle connection is closed.
pub const IDLE_CONNECTION_TIMEOUT_SECS: u64 = 120;

/// The number of commands that may wait for the event loop.
pub const COMMAND_MAILBOX_SIZE: usize = 256;

/// Default bootstrap peers of the network: none so far.
pub fn default_bootstrap_peers() -> (peers: Vec<String>)
    ensures
        peers@.len() == 0,
{
    Vec::new()
}

/// The chunks served for a request: those asked for that the store holds
/// and whose read did not fail, in the order asked.
pub open spec fn served_chunks(chunks: Map<Seq<u8>, Seq<u8>>, ids: Seq<Seq<u8>>, failed: Set<int>) -> Seq<
    (Seq<u8>, Seq<u8>),
>
    decreases ids.len(),
{
    if ids.len() == 0 {
        Seq::empty()
    } else if chunks.contains_key(ids.last()) && !failed.contains(ids.len() - 1) {
        served_chunks(chunks, ids.drop_last(), failed).push((ids.last(), chunks[ids.last()]))
    } else {
        served_chunks(chunks, ids.drop_last(), failed)
    }
}

/// The revision of the bundle stored for a site, if one is stored and decodes.
pub open spec fn stored_revision(bundles: Map<Seq<u8>, Seq<u8>>, site_id: Seq<u8>) -> Option<u64> {
    match entry_at(bundles, site_id) {
        Some(bytes) => match decoded::<WebBundle>(bytes) {
            Some(bundle) => Some(bundle.revision),
            None => None,
        },
        None => None,
    }
}

/// Whether a pushed bundle is taken: its signature verifies under its
/// publisher key, and no bundle of a higher revision is stored for its site.
pub open spec fn update_accepted(bundles: Map<Seq<u8>, Seq<u8>>, bundle: crate::types::WebBundleView) -> bool {
    &&& signature_valid(
        bundle_message(bundle.site_id, bundle.revision, bundle.root_hash),
        bundle.signature,
        bundle.publisher,
    )
    &&& !(stored_revision(bundles, bundle.site_id) matches Some(r) && r > bundle.revision)
}

/// Reads that may have failed while chunks were served: a read fails
/// only behind the chunks that were in the cache when the serving began,
/// so that none fails where all the chunks asked for were in the cache.
pub open spec fn may_fail(cache: Seq<(Seq<u8>, Seq<u8>)>, ids: Seq<Seq<u8>>, failed: Set<int>) -> bool {
    forall|k: int| #[trigger] failed.contains(k) ==> 0 <= k < ids.len() && !all_cached(cache, ids.take(k + 1))
}

/// What a read adds to the chunks served: the chunk with its
/// identifier where the read gave one; nothing where the store holds no
/// such chunk or the read failed.
pub fn add_served(
    served: &mut Vec<(ChunkId, Vec<u8>)>,
    id: ChunkId,
    read: Result<Option<Vec<u8>>, crate::storage::kv::StoreError>,
)
    ensures
        chunk_views(final(served)@) == (match read {
            Ok(Some(data)) => chunk_views(old(served)@).push((id@, data@)),
            _ => chunk_views(old(served)@),
        }),
{
    match read {
        Ok(Some(data)) => {
            proof {
                assert(chunk_views(served@.push((id, data))) =~= chunk_views(served@).push((id@, data@)));
            }
            served.push((id, data));
        },
        _ => {},
    }
}

/// Serves the chunks asked for: those the store holds; a chunk whose
/// read fails is left out like one that is not there.
fn serve_chunks(chunk_store: &mut ChunkStore, chunk_ids: &Vec<ChunkId>) -> (served: Vec<(ChunkId, Vec<u8>)>)
    requires
        old(chunk_store).wf(),
    ensures
        final(chunk_store).wf(),
        final(chunk_store).chunks() == old(chunk_store).chunks(),
        final(chunk_store).counted() == old(chunk_store).counted(),
        final(chunk_store).sized() == old(chunk_store).sized(),
        exists|failed: Set<int>|
            may_fail(old(chunk_store).cached(), id_views(chunk_ids@), failed) && chunk_views(served@)
                == #[trigger] served_chunks(old(chunk_store).chunks(), id_views(chunk_ids@), failed),
{
    let ghost ids = id_views(chunk_ids@);
    let ghost chunks = chunk_store.chunks();
    let ghost mut failed: Set<int> = Set::empty();
    let mut served: Vec<(ChunkId, Vec<u8>)> = Vec::new();
    let mut i: usize = 0;
    while i < chunk_ids.len()
        invariant
            i <= chunk_ids@.len(),
            chunk_store.wf(),
            ids == id_views(chunk_ids@),
            chunks == chunk_store.chunks(),
            chunks == old(chunk_store).chunks(),
            chunk_store.counted() == old(chunk_store).counted(),
            chunk_store.sized() == old(chunk_store).sized(),
            forall|k: int| failed.contains(k) ==> 0 <= k < i,
            may_fail(old(chunk_store).cached(), ids, failed),
            all_cached(old(chunk_store).cached(), ids.take(i as int)) ==> chunk_store.cached() == old(
                chunk_store,
            ).cached(),
            chunk_views(served@) == served_chunks(chunks, ids.take(i as int), failed),
        decreases chunk_ids@.len() - i,
    {
        let id: ChunkId = chunk_ids[i];
        let ghost before = failed;
        let ghost start = old(chunk_store).cached();
        proof {
            assert(ids.take(i + 1).drop_last() =~= ids.take(i as int));
            assert(ids[i as int] == id@);
            if all_cached(start, ids.take(i + 1)) {
                assert forall|k: int| 0 <= k < i implies cache_holds(start, #[trigger] ids.take(i as int)[k]) by {
                    assert(ids.take(i + 1)[k] == ids.take(i as int)[k]);
                }
                assert(ids.take(i + 1)[i as int] == id@);
            }
        }
        let read = chunk_store.get(&id);
        proof {
            if read is Err {
                failed = failed.insert(i as int);
                lemma_served_later_failure(chunks, ids.take(i as int), before, i as int);
            }
        }
        add_served(&mut served, id, read);
        i += 1;
    }
    proof {
        assert(ids.take(chunk_ids@.len() as int) =~= ids);
    }
    served
}

/// A failure at or behind the end of a list does not change what is served of the list.
proof fn lemma_served_later_failure(chunks: Map<Seq<u8>, Seq<u8>>, ids: Seq<Seq<u8>>, failed: Set<int>, at: int)
    requires
        at >= ids.len(),
    ensures
        served_chunks(chunks, ids, failed.insert(at)) == served_chunks(chunks, ids, failed),
    decreases ids.len(),
{
    if ids.len() > 0 {
        lemma_served_later_failure(chunks, ids.drop_last(), failed, at);
    }
}

/// The answer to `GetManifest` for what the bundle store gave: the
/// bundle, the error `Site not found` where there is none, or the
/// store's error.
pub fn manifest_response(found: Result<Option<WebBundle>, crate::storage::kv::StoreError>) -> (response:
    GrabResponse)
    ensures
        match found {
            Ok(Some(stored)) => response matches GrabResponse::Manifest { bundle } && bundle@ == stored@,
            Ok(None) => response matches GrabResponse::Error { message } && message@
                == "Site not found"@,
            Err(_) => response is Error,
        },
{
    match found {
        Ok(Some(bundle)) => GrabResponse::Manifest { bundle: Box::new(bundle) },
        Ok(None) => GrabResponse::Error { message: "Site not found".to_owned() },
        Err(e) => GrabResponse::Error { message: e.to_text() },
    }
}

/// What answering a request of `peer` does: the response, and what
/// becomes of the stores.
pub open spec fn answered(
    request: GrabRequest,
    peer: Seq<char>,
    chunks_before: ChunkStore,
    chunks_after: ChunkStore,
    bundles_before: BundleStore,
    bundles_after: BundleStore,
    hosts_before: ReplicationManager,
    hosts_after: ReplicationManager,
    announced: IdMap<u64>,
    local_peer_id: Seq<char>,
    response: GrabResponse,
) -> bool {
    &&& chunks_after.chunks() == chunks_before.chunks()
    &&& chunks_after.counted() == chunks_before.counted()
    &&& chunks_after.sized() == chunks_before.sized()
    &&& !(request is GetChunks) ==> chunks_after == chunks_before
    &&& bundles_after.published() == bundles_before.published()
    &&& bundles_after.names() == bundles_before.names()
    &&& bundles_after.hosted() == bundles_before.hosted()
    &&& !(request is PushUpdate) ==> bundles_after == bundles_before
    &&& !(request is Announce) ==> hosts_after == hosts_before
    &&& forall|site: Seq<u8>| #[trigger] hosts_after.policy(site) == hosts_before.policy(site)
    &&& forall|site: Seq<u8>| #[trigger] hosts_after.health(site) == hosts_before.health(site)
    &&& forall|site: Seq<u8>| #[trigger] hosts_after.announced(site) == hosts_before.announced(site)
    &&& hosts_after.policies() == hosts_before.policies()
    &&& hosts_after.health_records() == hosts_before.health_records()
    &&& match request {
            GrabRequest::FindSite { site_id } => {
                &&& response matches GrabResponse::SiteHosts { hosts }
                &&& if announced.has(site_id@) {
                    &&& hosts@.len() == 1
                    &&& hosts@[0]@ == (PeerRecordView {
                        peer_id: local_peer_id,
                        addresses: Seq::empty(),
                        revision: announced.value(site_id@),
                    })
                } else {
                    hosts@.len() == 0
                }
                &&& bundles_after.bundles() == bundles_before.bundles()
            },
            GrabRequest::GetManifest { site_id } => {
                &&& bundles_after.bundles() == bundles_before.bundles()
                &&& match response {
                    GrabResponse::Manifest { bundle } => entry_at(bundles_before.bundles(), site_id@)
                        matches Some(bytes) && decoded::<WebBundle>(bytes) == Some(bundle@),
                    GrabResponse::Error { message } => true,
                    _ => false,
                }
                &&& !bundles_before.bundles().contains_key(site_id@) ==> response is Error
            },
            GrabRequest::GetChunks { chunk_ids } => {
                &&& bundles_after.bundles() == bundles_before.bundles()
                &&& response matches GrabResponse::Chunks { chunks }
                &&& exists|failed: Set<int>|
                    may_fail(chunks_before.cached(), id_views(chunk_ids@), failed) && chunk_views(chunks@)
                        == #[trigger] served_chunks(
                        chunks_before.chunks(),
                        id_views(chunk_ids@),
                        failed,
                    )
            },
            GrabRequest::Announce { site_id, revision } => {
                &&& response is Ack
                &&& bundles_after.bundles() == bundles_before.bundles()
                &&& hosts_after.hosts(site_id@) == (if hosts_before.hosts(site_id@).contains(
                    peer,
                ) {
                    hosts_before.hosts(site_id@)
                } else {
                    hosts_before.hosts(site_id@).push(peer)
                })
                &&& forall|other: Seq<u8>|
                    other != site_id@ ==> hosts_after.hosts(other) == hosts_before.hosts(other)
            },
            GrabRequest::PushUpdate { bundle } => {
                &&& response is Ack || response is Error
                &&& response is Ack ==> {
                    &&& update_accepted(bundles_before.bundles(), bundle@)
                    &&& bundles_after.bundles() == bundles_before.bundles().insert(
                        bundle@.site_id,
                        WebBundle::wire(bundle@),
                    )
                    &&& bundles_after.manifests() == bundles_before.manifests().insert(
                        bundle@.site_id,
                        SiteManifest::wire(bundle@.manifest),
                    )
                }
                &&& !signature_valid(
                    bundle_message(bundle@.site_id, bundle@.revision, bundle@.root_hash),
                    bundle@.signature,
                    bundle@.publisher,
                ) ==> {
                    &&& response matches GrabResponse::Error { message } && message@
                        == "invalid signature"@
                    &&& bundles_after.bundles() == bundles_before.bundles()
                    &&& bundles_after.manifests() == bundles_before.manifests()
                }
                &&& (stored_revision(bundles_before.bundles(), bundle@.site_id) matches Some(r) && r
                    > bundle@.revision) ==> {
                    &&& response is Error
                    &&& bundles_after.bundles() == bundles_before.bundles()
                    &&& bundles_after.manifests() == bundles_before.manifests()
                }
            },
        }
}

/// Handle an incoming request of `peer`.
///
/// - `FindSite`: this node as the one host, with the revision it
///   announced, where it announces the site; else no host.
/// - `GetManifest`: the stored bundle, or the error `Site not found`.
/// - `GetChunks`: the chunks asked for that the store holds.
/// - `Announce`: the peer is recorded as a host of the site; acknowledged.
/// - `PushUpdate`: the bundle is stored and acknowledged where its
///   signature verifies and no higher revision is stored; else an error.
pub fn handle_request(
    request: GrabRequest,
    peer: &str,
    chunk_store: &mut ChunkStore,
    bundle_store: &mut BundleStore,
    replication: &mut ReplicationManager,
    announced: &IdMap<u64>,
    local_peer_id: &str,
) -> (response: GrabResponse)
    requires
        old(chunk_store).wf(),
        old(replication).wf(),
        announced.wf(),
    ensures
        final(chunk_store).wf(),
        final(replication).wf(),
        answered(
            request,
            peer@,
            *old(chunk_store),
            *final(chunk_store),
            *old(bundle_store),
            *final(bundle_store),
            *old(replication),
            *final(replication),
            *announced,
            local_peer_id@,
            response,
        ),
{
    match request {
        GrabRequest::FindSite { site_id } => {
            let mut hosts: Vec<PeerRecord> = Vec::new();
            match announced.get(&site_id) {
                Some(revision) => {
                    let record = PeerRecord {
                        peer_id: copy_text(local_peer_id),
                        addresses: Vec::new(),
                        revision: *revision,
                    };
                    proof {
                        assert(text_views(record.addresses@) =~= Seq::<Seq<char>>::empty());
                    }
                    hosts.push(record);
                },
                None => {},
            }
            GrabResponse::SiteHosts { hosts }
        },
        GrabRequest::GetManifest { site_id } => manifest_response(bundle_store.get_bundle(&site_id)),
        GrabRequest::GetChunks { chunk_ids } => {
            let chunks = serve_chunks(chunk_store, &chunk_ids);
            GrabResponse::Chunks { chunks }
        },
        GrabRequest::Announce { site_id, revision } => {
            replication.add_host(site_id, copy_text(peer));
            GrabResponse::Ack
        },
        GrabRequest::PushUpdate { bundle } => {
            if !verify_bundle(
                &bundle.site_id,
                bundle.revision,
                &bundle.root_hash,
                &bundle.signature,
                &bundle.publisher,
            ) {
                return GrabResponse::Error { message: "invalid signature".to_owned() };
            }
            match bundle_store.get_bundle(&bundle.site_id) {
                Ok(Some(stored)) => {
                    if stored.revision > bundle.revision {
                        return GrabResponse::Error { message: "stale revision".to_owned() };
                    }
                },
                Ok(None) => {},
                Err(e) => {
                    return GrabResponse::Error { message: e.to_text() };
                },
            }
            match bundle_store.save_bundle(&bundle) {
                Ok(_) => GrabResponse::Ack,
                Err(e) => GrabResponse::Error { message: e.to_text() },
            }
        },
    }
}

/// The chunk identifiers of a manifest's files, file after file.
pub open spec fn manifest_chunks(files: Seq<crate::types::FileEntryView>) -> Seq<Seq<u8>>
    decreases files.len(),
{
    if files.len() == 0 {
        Seq::empty()
    } else {
        manifest_chunks(files.drop_last()) + files.last().chunks
    }
}

/// The chunk identifiers of a manifest's files, file after file.
pub fn chunk_ids_of(manifest: &SiteManifest) -> (ids: Vec<ChunkId>)
    ensures
        id_views(ids@) == manifest_chunks(manifest@.files),
{
    let ghost files = manifest@.files;
    let mut ids: Vec<ChunkId> = Vec::new();
    let mut i: usize = 0;
    while i < manifest.files.len()
        invariant
            i <= manifest.files@.len(),
            files == manifest@.files,
            id_views(ids@) == manifest_chunks(files.take(i as int)),
        decreases manifest.files@.len() - i,
    {
        let file = &manifest.files[i];
        let ghost before = id_views(ids@);
        proof {
            assert(files.take(i + 1).drop_last() =~= files.take(i as int));
        }
        let mut k: usize = 0;
        while k < file.chunks.len()
            invariant
                k <= file.chunks@.len(),
                id_views(ids@) == before + file@.chunks.take(k as int),
            decreases file.chunks@.len() - k,
        {
            let id: ChunkId = file.chunks[k];
            proof {
                assert(id_views(ids@.push(id)) =~= id_views(ids@).push(id@));
            }
            ids.push(id);
            k += 1;
        }
        i += 1;
    }
    proof {
        assert(files.take(manifest.files@.len() as int) =~= files);
    }
    ids
}

/// The chunks of a manifest that the store does not hold yet, in the
/// order of the manifest: what a host has to fetch. The store is asked
/// for each chunk that is not in its cache, and the first failure of
/// the store is handed on; with every chunk in the cache, and so for a
/// manifest without chunks, nothing can fail.
pub fn chunks_to_fetch(chunk_store: &ChunkStore, manifest: &SiteManifest) -> (wanted: Result<
    Vec<ChunkId>,
    crate::storage::kv::StoreError,
>)
    requires
        chunk_store.wf(),
    ensures
        wanted matches Ok(ids) ==> id_views(ids@) == crate::storage::chunks::missing_of(
            chunk_store.chunks(),
            manifest_chunks(manifest@.files),
        ),
        wanted matches Err(e) ==> e is Storage,
        crate::storage::chunks::all_cached(chunk_store.cached(), manifest_chunks(manifest@.files))
            ==> wanted is Ok,
{
    let all = chunk_ids_of(manifest);
    chunk_store.get_missing(all.as_slice())
}

/// The bundle that a response to `GetManifest` is worth: the bundle it
/// carries, where that is of the site asked for and its signature
/// verifies under its publisher key.
pub fn accept_manifest(site_id: &SiteId, response: GrabResponse) -> (accepted: Option<WebBundle>)
    ensures
        match accepted {
            Some(found) => {
                &&& response matches GrabResponse::Manifest { bundle } && bundle@ == found@
                &&& found@.site_id == site_id@
                &&& signature_valid(
                    bundle_message(found@.site_id, found@.revision, found@.root_hash),
                    found@.signature,
                    found@.publisher,
                )
            },
            None => response matches GrabResponse::Manifest { bundle } ==> bundle@.site_id != site_id@
                || !signature_valid(
                bundle_message(bundle@.site_id, bundle@.revision, bundle@.root_hash),
                bundle@.signature,
                bundle@.publisher,
            ),
        },
{
    match response {
        GrabResponse::Manifest { bundle } => {
            if id_eq(&bundle.site_id, site_id) && verify_bundle(
                &bundle.site_id,
                bundle.revision,
                &bundle.root_hash,
                &bundle.signature,
                &bundle.publisher,
            ) {
                Some(*bundle)
            } else {
                None
            }
        },
        _ => None,
    }
}

/// Whether a response acknowledges a pushed update.
pub fn is_ack(response: &GrabResponse) -> (ack: bool)
    ensures
        ack == (response is Ack),
{
    match response {
        GrabResponse::Ack => true,
        _ => false,
    }
}

/// Why fetched chunks were refused.
#[derive(Debug, Clone)]
pub enum FetchError {
    /// The peer answered with an error of its own.
    Remote { message: String },
    /// The peer answered with something that is no answer to the request.
    UnexpectedResponse,
    /// A chunk's bytes do not hash to its identifier, or it was not asked for.
    Tampered,
    /// The store reported an error.
    Storage { message: String },
}

/// The chunks that a response to `GetChunks` carries.
pub fn accept_chunks(response: GrabResponse) -> (accepted: Result<Vec<(ChunkId, Vec<u8>)>, FetchError>)
    ensures
        match accepted {
            Ok(found) => response matches GrabResponse::Chunks { chunks } && chunks@ == found@,
            Err(FetchError::Remote { message }) => response matches GrabResponse::Error { message: m }
                && m@ == message@,
            Err(FetchError::UnexpectedResponse) => !(response is Chunks) && !(response is Error),
            Err(_) => false,
        },
{
    match response {
        GrabResponse::Chunks { chunks } => Ok(chunks),
        GrabResponse::Error { message } => Err(FetchError::Remote { message }),
        _ => Err(FetchError::UnexpectedResponse),
    }
}

/// Whether every fetched chunk was asked for and hashes to its identifier.
pub open spec fn chunks_genuine(requested: Seq<Seq<u8>>, received: Seq<(Seq<u8>, Seq<u8>)>) -> bool {
    forall|i: int|
        0 <= i < received.len() ==> blake3_digest((#[trigger] received[i]).1) == received[i].0
            && requested.contains(received[i].0)
}

/// The bodies of chunks with their identifiers.
pub open spec fn chunk_bodies(received: Seq<(Seq<u8>, Seq<u8>)>) -> Seq<Seq<u8>> {
    received.map_values(|c: (Seq<u8>, Seq<u8>)| c.1)
}

/// Whether a list of identifiers holds the identifier.
fn has_id(ids: &[ChunkId], id: &ChunkId) -> (found: bool)
    ensures
        found == id_views(ids@).contains(id@),
{
    let mut i: usize = 0;
    while i < ids.len()
        invariant
            i <= ids@.len(),
            forall|k: int| 0 <= k < i ==> ids@[k]@ != id@,
        decreases ids@.len() - i,
    {
        if id_eq(&ids[i], id) {
            assert(id_views(ids@)[i as int] == id@);
            return true;
        }
        i += 1;
    }
    assert forall|k: int| 0 <= k < id_views(ids@).len() implies id_views(ids@)[k] != id@ by {
    }
    false
}

/// Checks chunks fetched from a peer and stores them. Where a chunk was
/// not asked for, or its bytes do not hash to its identifier, nothing is
/// stored and a failure is recorded against the peer.
pub fn store_fetched_chunks(
    chunk_store: &mut ChunkStore,
    monitor: &mut HealthMonitor,
    peer: &str,
    requested: &[ChunkId],
    received: &Vec<(ChunkId, Vec<u8>)>,
) -> (stored: Result<(), FetchError>)
    requires
        old(chunk_store).wf(),
        old(monitor).wf(),
    ensures
        final(chunk_store).wf(),
        final(monitor).wf(),
        match stored {
            Ok(_) => {
                &&& chunks_genuine(id_views(requested@), chunk_views(received@))
                &&& final(chunk_store).chunks() == store_all(
                    old(chunk_store).chunks(),
                    chunk_bodies(chunk_views(received@)),
                )
                &&& *final(monitor) == *old(monitor)
            },
            Err(FetchError::Tampered) => {
                &&& !chunks_genuine(id_views(requested@), chunk_views(received@))
                &&& *final(chunk_store) == *old(chunk_store)
                &&& final(monitor).score(peer@) == Some(
                    crate::network::health::after_failure(
                        crate::network::health::score_or_new(old(monitor).score(peer@), peer@),
                    ),
                )
                &&& forall|other: Seq<char>|
                    other != peer@ ==> final(monitor).score(other) == old(monitor).score(other)
            },
            Err(FetchError::Storage { message }) => {
                &&& chunks_genuine(id_views(requested@), chunk_views(received@))
                &&& received@.len() > 0
                &&& *final(monitor) == *old(monitor)
            },
            Err(_) => false,
        },
{
    let ghost all = chunk_views(received@);
    let mut i: usize = 0;
    while i < received.len()
        invariant
            i <= received@.len(),
            chunk_store.wf(),
            monitor.wf(),
            *chunk_store == *old(chunk_store),
            *monitor == *old(monitor),
            all == chunk_views(received@),
            forall|k: int|
                0 <= k < i ==> blake3_digest((#[trigger] all[k]).1) == all[k].0 && id_views(
                    requested@,
                ).contains(all[k].0),
        decreases received@.len() - i,
    {
        let digest = hash(received[i].1.as_slice());
        if !id_eq(&digest, &received[i].0) || !has_id(requested, &received[i].0) {
            proof {
                assert(all[i as int] == (received@[i as int].0@, received@[i as int].1@));
            }
            monitor.record_request_failure(peer);
            return Err(FetchError::Tampered);
        }
        i += 1;
    }
    let ghost bodies = chunk_bodies(all);
    let ghost start = chunk_store.chunks();
    let mut k: usize = 0;
    while k < received.len()
        invariant
            k <= received@.len(),
            chunk_store.wf(),
            monitor.wf(),
            *monitor == *old(monitor),
            chunks_genuine(id_views(requested@), all),
            all == chunk_views(received@),
            bodies == chunk_bodies(all),
            start == old(chunk_store).chunks(),
            chunk_store.chunks() == store_all(start, bodies.take(k as int)),
        decreases received@.len() - k,
    {
        proof {
            assert(bodies.take(k + 1).drop_last() =~= bodies.take(k as int));
        }
        match chunk_store.put(received[k].1.as_slice()) {
            Ok(_) => {},
            Err(e) => {
                return Err(FetchError::Storage { message: e.to_text() });
            },
        }
        k += 1;
    }
    proof {
        assert(bodies.take(received@.len() as int) =~= bodies);
    }
    Ok(())
}

} // verus!

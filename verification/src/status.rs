//! What a node reports of itself.

use vstd::prelude::*;
use crate::storage::{BundleStore, ChunkStore};
use crate::storage::kv::StoreError;
use crate::types::{HostedSite, PublishedSite};

verus! {

/// Network status information.
#[derive(Debug)]
pub struct NetworkStatus {
    pub running: bool,
    pub peer_id: Option<String>,
    pub peers: usize,
    pub addresses: Vec<String>,
}

impl Default for NetworkStatus {
    fn default() -> (status: Self)
        ensures
            !status.running,
            status.peer_id is None,
            status.peers == 0,
            status.addresses@.len() == 0,
    {
        NetworkStatus { running: false, peer_id: None, peers: 0, addresses: Vec::new() }
    }
}

/// Storage statistics.
#[derive(Debug, Clone, Copy)]
pub struct StorageStats {
    pub chunks: usize,
    pub total_size: u64,
    pub published_sites: usize,
    pub hosted_sites: usize,
}

impl Default for StorageStats {
    fn default() -> (stats: Self)
        ensures
            stats.chunks == 0,
            stats.total_size == 0,
            stats.published_sites == 0,
            stats.hosted_sites == 0,
    {
        StorageStats { chunks: 0, total_size: 0, published_sites: 0, hosted_sites: 0 }
    }
}

/// The statistics for what the stores answered: the counters of the
/// chunk store, and the length of each list of sites; a list that could
/// not be read counts as empty.
pub fn stats_from(
    chunks: usize,
    total_size: u64,
    published: &Result<Vec<PublishedSite>, StoreError>,
    hosted: &Result<Vec<HostedSite>, StoreError>,
) -> (stats: StorageStats)
    ensures
        stats.chunks == chunks,
        stats.total_size == total_size,
        stats.published_sites == (match published {
            Ok(sites) => sites@.len(),
            Err(_) => 0,
        }),
        stats.hosted_sites == (match hosted {
            Ok(sites) => sites@.len(),
            Err(_) => 0,
        }),
{
    let published_sites = match published {
        Ok(sites) => sites.len(),
        Err(_) => 0,
    };
    let hosted_sites = match hosted {
        Ok(sites) => sites.len(),
        Err(_) => 0,
    };
    StorageStats { chunks, total_size, published_sites, hosted_sites }
}

/// What the stores hold: the chunks and their bytes as the chunk store
/// counts them, and the number of published and of hosted sites. A
/// list of sites that cannot be read counts as empty.
pub fn storage_stats(chunk_store: &ChunkStore, bundle_store: &BundleStore) -> (stats: StorageStats)
    ensures
        stats.chunks == chunk_store.counted(),
        stats.total_size == chunk_store.sized(),
        stats.published_sites == 0 || stats.published_sites == bundle_store.published().dom().len(),
        stats.hosted_sites == 0 || stats.hosted_sites == bundle_store.hosted().dom().len(),
{
    let published = bundle_store.get_all_published_sites();
    let hosted = bundle_store.get_all_hosted_sites();
    stats_from(chunk_store.count(), chunk_store.total_size(), &published, &hosted)
}

} // verus!

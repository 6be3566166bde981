//! Content-addressed chunk storage with a bounded lookaside cache.

use vstd::prelude::*;
use crate::bytes::{id_eq, to_vec};
use crate::crypto::hash::{blake3_digest, hash};
use crate::storage::kv::{bytes_view, db_flush, flush_outcome, default_tree, entry_at, is_listing, open_db, pair_views};
use crate::storage::kv::{storage_error, tree_contains, tree_entries, tree_get, tree_insert, tree_list};
use crate::storage::kv::{tree_remove, StoreError};
use crate::types::{id_views, ChunkId};

verus! {

/// The number of chunks the cache holds at most.
pub const DEFAULT_CACHE_ENTRIES: usize = 1000;

/// The chunks after `data` was put: stored under its digest, unless a
/// chunk is stored under that digest already.
pub open spec fn chunk_stored(chunks: Map<Seq<u8>, Seq<u8>>, data: Seq<u8>) -> Map<Seq<u8>, Seq<u8>> {
    if chunks.contains_key(blake3_digest(data)) {
        chunks
    } else {
        chunks.insert(blake3_digest(data), data)
    }
}

/// Every chunk is stored under the digest of its bytes.
pub open spec fn content_addressed(chunks: Map<Seq<u8>, Seq<u8>>) -> bool {
    forall|id: Seq<u8>| #[trigger] chunks.contains_key(id) ==> blake3_digest(chunks[id]) == id
}

/// The identifiers among `ids` that have no chunk, in their order.
pub open spec fn missing_of(chunks: Map<Seq<u8>, Seq<u8>>, ids: Seq<Seq<u8>>) -> Seq<Seq<u8>>
    decreases ids.len(),
{
    if ids.len() == 0 {
        Seq::empty()
    } else if chunks.contains_key(ids.last()) {
        missing_of(chunks, ids.drop_last())
    } else {
        missing_of(chunks, ids.drop_last()).push(ids.last())
    }
}

/// The identifiers among `ids` that have a chunk, each with its bytes, in their order.
pub open spec fn found_of(chunks: Map<Seq<u8>, Seq<u8>>, ids: Seq<Seq<u8>>) -> Seq<(Seq<u8>, Seq<u8>)>
    decreases ids.len(),
{
    if ids.len() == 0 {
        Seq::empty()
    } else if chunks.contains_key(ids.last()) {
        found_of(chunks, ids.drop_last()).push((ids.last(), chunks[ids.last()]))
    } else {
        found_of(chunks, ids.drop_last())
    }
}

/// The views of chunks with their identifiers.
pub open spec fn chunk_views(list: Seq<(ChunkId, Vec<u8>)>) -> Seq<(Seq<u8>, Seq<u8>)> {
    list.map_values(|c: (ChunkId, Vec<u8>)| (c.0@, c.1@))
}

/// The sizes of listed values, added up.
pub open spec fn listed_bytes(list: Seq<(Seq<u8>, Seq<u8>)>) -> nat
    decreases list.len(),
{
    if list.len() == 0 {
        0
    } else {
        listed_bytes(list.drop_last()) + list.last().1.len()
    }
}

/// After `put(b)`, `get` of its identifier gives `b`, provided no other
/// chunk was stored under that identifier before.
pub proof fn law_put_then_get(chunks: Map<Seq<u8>, Seq<u8>>, data: Seq<u8>)
    requires
        chunks.contains_key(blake3_digest(data)) ==> chunks[blake3_digest(data)] == data,
    ensures
        entry_at(chunk_stored(chunks, data), blake3_digest(data)) == Some(data),
{
}

/// In a store where every chunk lies under its own digest, what `get`
/// gives after `put(b)` has the digest of `b`, and the store stays so.
pub proof fn law_put_keeps_content_addressed(chunks: Map<Seq<u8>, Seq<u8>>, data: Seq<u8>)
    requires
        content_addressed(chunks),
    ensures
        content_addressed(chunk_stored(chunks, data)),
        entry_at(chunk_stored(chunks, data), blake3_digest(data)) matches Some(found)
            && blake3_digest(found) == blake3_digest(data),
{
    let after = chunk_stored(chunks, data);
    assert forall|id: Seq<u8>| #[trigger] after.contains_key(id) implies blake3_digest(after[id])
        == id by {
    }
}

/// The chunk counter after `data` was put: one more where the chunk is
/// new, wrapping round as the counter does.
pub open spec fn counted_after(count: usize, chunks: Map<Seq<u8>, Seq<u8>>, data: Seq<u8>) -> usize {
    if chunks.contains_key(blake3_digest(data)) {
        count
    } else {
        count.wrapping_add(1)
    }
}

/// The byte counter after `data` was put: the chunk's length more where
/// the chunk is new, wrapping round as the counter does.
pub open spec fn sized_after(size: u64, chunks: Map<Seq<u8>, Seq<u8>>, data: Seq<u8>) -> u64 {
    if chunks.contains_key(blake3_digest(data)) {
        size
    } else {
        size.wrapping_add(data.len() as u64)
    }
}

/// Putting the same bytes twice stores what putting them once stores:
/// the second put leaves chunks and counters alone, so that both puts
/// together raise the chunk count by one at most.
pub proof fn law_put_twice(count: usize, size: u64, chunks: Map<Seq<u8>, Seq<u8>>, data: Seq<u8>)
    ensures
        chunk_stored(chunks, data).contains_key(blake3_digest(data)),
        chunk_stored(chunk_stored(chunks, data), data) == chunk_stored(chunks, data),
        counted_after(counted_after(count, chunks, data), chunk_stored(chunks, data), data)
            == counted_after(count, chunks, data),
        sized_after(sized_after(size, chunks, data), chunk_stored(chunks, data), data) == sized_after(
            size,
            chunks,
            data,
        ),
        counted_after(count, chunks, data) == count || counted_after(count, chunks, data)
            == count.wrapping_add(1),
{
}

/// Whether a cache holds a chunk under the identifier.
pub open spec fn cache_holds(cache: Seq<(Seq<u8>, Seq<u8>)>, id: Seq<u8>) -> bool {
    exists|i: int| 0 <= i < cache.len() && (#[trigger] cache[i]).0 == id
}

/// Whether a cache holds a chunk under each of the identifiers.
pub open spec fn all_cached(cache: Seq<(Seq<u8>, Seq<u8>)>, ids: Seq<Seq<u8>>) -> bool {
    forall|i: int| 0 <= i < ids.len() ==> cache_holds(cache, #[trigger] ids[i])
}

/// The cache after a chunk was added to it. A chunk that is there
/// already changes nothing. A cache that is full first drops its older
/// half, the first `limit / 2` entries; the chunk then goes to the end.
pub open spec fn cache_after(cache: Seq<(Seq<u8>, Seq<u8>)>, limit: usize, id: Seq<u8>, data: Seq<u8>) -> Seq<
    (Seq<u8>, Seq<u8>),
> {
    if cache_holds(cache, id) {
        cache
    } else if cache.len() >= limit {
        cache.skip((limit / 2) as int).push((id, data))
    } else {
        cache.push((id, data))
    }
}

/// A chunk that was added to a cache is in the cache.
pub proof fn law_cache_after_holds(cache: Seq<(Seq<u8>, Seq<u8>)>, limit: usize, id: Seq<u8>, data: Seq<u8>)
    ensures
        cache_holds(cache_after(cache, limit, id, data), id),
{
    let after = cache_after(cache, limit, id, data);
    if !cache_holds(cache, id) {
        assert(after[after.len() - 1].0 == id);
    }
}

/// Content-addressed chunk store backed by the embedded database.
pub struct ChunkStore {
    db: sled::Db,
    tree: sled::Tree,
    /// Lookaside cache: chunks that the database holds, newest last.
    cache: Vec<(ChunkId, Vec<u8>)>,
    cache_max_size: usize,
    chunk_count: usize,
    total_size: u64,
}

impl ChunkStore {
    /// The chunks in the store, by identifier.
    pub closed spec fn chunks(&self) -> Map<Seq<u8>, Seq<u8>> {
        tree_entries(self.tree)
    }

    /// The chunk counter.
    pub closed spec fn counted(&self) -> usize {
        self.chunk_count
    }

    /// The byte counter.
    pub closed spec fn sized(&self) -> u64 {
        self.total_size
    }

    /// The chunks in the cache, oldest first.
    pub closed spec fn cached(&self) -> Seq<(Seq<u8>, Seq<u8>)> {
        chunk_views(self.cache@)
    }

    /// The number of chunks that the cache holds at most.
    pub closed spec fn cache_limit(&self) -> usize {
        self.cache_max_size
    }

    /// The cache is bounded and holds only chunks that the store holds.
    pub closed spec fn wf(&self) -> bool {
        &&& self.cache_max_size >= 2
        &&& self.cache@.len() <= self.cache_max_size
        &&& forall|i: int|
            0 <= i < self.cache@.len() ==> entry_at(self.chunks(), (#[trigger] self.cache@[i]).0@) == Some(
                self.cache@[i].1@,
            )
    }

    /// Create a new chunk store in the directory `chunks` under `data_dir`.
    /// The counters start from what the database holds.
    pub fn new(data_dir: &str) -> (opened: Result<Self, StoreError>)
        ensures
            opened matches Ok(store) ==> {
                &&& store.wf()
                &&& store.chunks().dom().finite()
                &&& store.cached().len() == 0
                &&& store.cache_limit() == DEFAULT_CACHE_ENTRIES
                &&& store.counted() == store.chunks().dom().len()
                &&& exists|list: Seq<(Seq<u8>, Seq<u8>)>|
                    is_listing(list, store.chunks()) && store.sized() == listed_bytes(list)
                        % 0x1_0000_0000_0000_0000
            },
            opened matches Err(e) ==> e is Storage,
    {
        let path = chunk_dir(data_dir);
        let db = match open_db(path.as_str()) {
            Ok(db) => db,
            Err(e) => {
                return Err(storage_error(&e));
            },
        };
        let tree = default_tree(&db);
        let list = match tree_list(&tree) {
            Ok(list) => list,
            Err(e) => {
                return Err(storage_error(&e));
            },
        };
        let ghost listed = pair_views(list@);
        let mut total_size: u64 = 0;
        let mut i: usize = 0;
        while i < list.len()
            invariant
                i <= list@.len(),
                listed == pair_views(list@),
                total_size == listed_bytes(listed.take(i as int)) % 0x1_0000_0000_0000_0000,
            decreases list@.len() - i,
        {
            let size: u64 = list[i].1.len() as u64;
            proof {
                let next = listed.take(i + 1);
                assert(next.drop_last() =~= listed.take(i as int));
            }
            total_size = total_size.wrapping_add(size);
            i += 1;
        }
        let store = ChunkStore {
            db,
            tree,
            cache: Vec::new(),
            cache_max_size: DEFAULT_CACHE_ENTRIES,
            chunk_count: list.len(),
            total_size,
        };
        proof {
            assert(listed.take(list@.len() as int) =~= listed);
            assert(store.sized() == listed_bytes(listed) % 0x1_0000_0000_0000_0000);
        }
        Ok(store)
    }

    /// Store a chunk, returns its content-addressed ID. Where a chunk is
    /// stored under that ID already, nothing is written or counted.
    pub fn put(&mut self, data: &[u8]) -> (stored: Result<ChunkId, StoreError>)
        requires
            old(self).wf(),
        ensures
            final(self).wf(),
            stored matches Ok(id) ==> {
                &&& id@ == blake3_digest(data@)
                &&& final(self).chunks() == chunk_stored(old(self).chunks(), data@)
                &&& final(self).chunks().contains_key(id@)
                &&& final(self).counted() == counted_after(old(self).counted(), old(self).chunks(), data@)
                &&& final(self).sized() == sized_after(old(self).sized(), old(self).chunks(), data@)
                &&& final(self).cached() == (if old(self).chunks().contains_key(id@) {
                    old(self).cached()
                } else {
                    cache_after(old(self).cached(), old(self).cache_limit(), id@, data@)
                })
            },
            stored matches Err(e) ==> e is Storage,
            final(self).cache_limit() == old(self).cache_limit(),
    {
        match self.put_counted(data) {
            Ok((id, _)) => Ok(id),
            Err(e) => Err(e),
        }
    }

    /// Store a chunk as `put` does; says also whether the chunk was newly stored.
    pub fn put_counted(&mut self, data: &[u8]) -> (stored: Result<(ChunkId, bool), StoreError>)
        requires
            old(self).wf(),
        ensures
            final(self).wf(),
            stored matches Ok((id, fresh)) ==> {
                &&& id@ == blake3_digest(data@)
                &&& fresh == !old(self).chunks().contains_key(id@)
                &&& final(self).chunks() == chunk_stored(old(self).chunks(), data@)
                &&& final(self).chunks().contains_key(id@)
                &&& final(self).counted() == counted_after(old(self).counted(), old(self).chunks(), data@)
                &&& final(self).sized() == sized_after(old(self).sized(), old(self).chunks(), data@)
                &&& final(self).cached() == (if fresh {
                    cache_after(old(self).cached(), old(self).cache_limit(), id@, data@)
                } else {
                    old(self).cached()
                })
            },
            stored matches Err(e) ==> e is Storage,
            final(self).cache_limit() == old(self).cache_limit(),
    {
        let chunk_id = hash(data);
        match tree_contains(&self.tree, chunk_id.as_slice()) {
            Ok(true) => {
                return Ok((chunk_id, false));
            },
            Ok(false) => {},
            Err(e) => {
                return Err(storage_error(&e));
            },
        }
        match tree_insert(&mut self.tree, chunk_id.as_slice(), data) {
            Ok(_) => {},
            Err(e) => {
                self.cache.clear();
                return Err(storage_error(&e));
            },
        }
        self.chunk_count = self.chunk_count.wrapping_add(1);
        self.total_size = self.total_size.wrapping_add(data.len() as u64);
        self.cache_put(chunk_id, to_vec(data));
        Ok((chunk_id, true))
    }

    /// Get a chunk by ID: the bytes stored under it, if any.
    pub fn get(&mut self, chunk_id: &ChunkId) -> (found: Result<Option<Vec<u8>>, StoreError>)
        requires
            old(self).wf(),
        ensures
            final(self).wf(),
            final(self).chunks() == old(self).chunks(),
            final(self).counted() == old(self).counted(),
            final(self).sized() == old(self).sized(),
            found matches Ok(data) ==> bytes_view(data) == entry_at(old(self).chunks(), chunk_id@),
            found matches Err(e) ==> e is Storage,
            cache_holds(old(self).cached(), chunk_id@) ==> found matches Ok(Some(_)),
            final(self).cache_limit() == old(self).cache_limit(),
            final(self).cached() == (match found {
                Ok(Some(data)) => cache_after(
                    old(self).cached(),
                    old(self).cache_limit(),
                    chunk_id@,
                    data@,
                ),
                _ => old(self).cached(),
            }),
    {
        match self.cache_find(chunk_id) {
            Some(i) => {
                proof {
                    assert(self.cached()[i as int].0 == chunk_id@);
                }
                return Ok(Some(to_vec(self.cache[i].1.as_slice())));
            },
            None => {},
        }
        proof {
            self.lemma_cache_miss(chunk_id@);
        }
        match tree_get(&self.tree, chunk_id.as_slice()) {
            Ok(Some(data)) => {
                self.cache_put(*chunk_id, to_vec(data.as_slice()));
                Ok(Some(data))
            },
            Ok(None) => Ok(None),
            Err(e) => Err(storage_error(&e)),
        }
    }

    /// Check if a chunk exists.
    pub fn contains(&self, chunk_id: &ChunkId) -> (found: Result<bool, StoreError>)
        requires
            self.wf(),
        ensures
            found matches Ok(present) ==> present == self.chunks().contains_key(chunk_id@),
            found matches Err(e) ==> e is Storage,
            cache_holds(self.cached(), chunk_id@) ==> found is Ok,
    {
        if self.cache_find(chunk_id).is_some() {
            return Ok(true);
        }
        proof {
            self.lemma_cache_miss(chunk_id@);
        }
        match tree_contains(&self.tree, chunk_id.as_slice()) {
            Ok(present) => Ok(present),
            Err(e) => Err(storage_error(&e)),
        }
    }

    /// Get multiple chunks, returning found and missing, each in the order asked.
    pub fn get_many(&mut self, chunk_ids: &[ChunkId]) -> (sorted: Result<
        (Vec<(ChunkId, Vec<u8>)>, Vec<ChunkId>),
        StoreError,
    >)
        requires
            old(self).wf(),
        ensures
            final(self).wf(),
            final(self).chunks() == old(self).chunks(),
            sorted matches Ok((found, missing)) ==> {
                &&& chunk_views(found@) == found_of(old(self).chunks(), id_views(chunk_ids@))
                &&& id_views(missing@) == missing_of(old(self).chunks(), id_views(chunk_ids@))
            },
            sorted matches Err(e) ==> e is Storage,
            final(self).counted() == old(self).counted(),
            final(self).sized() == old(self).sized(),
            final(self).cache_limit() == old(self).cache_limit(),
            all_cached(old(self).cached(), id_views(chunk_ids@)) ==> sorted is Ok && final(self).cached()
                == old(self).cached(),
    {
        let mut found: Vec<(ChunkId, Vec<u8>)> = Vec::new();
        let ghost hit = all_cached(self.cached(), id_views(chunk_ids@));
        let mut missing: Vec<ChunkId> = Vec::new();
        let ghost ids = id_views(chunk_ids@);
        let ghost chunks = self.chunks();
        let mut i: usize = 0;
        while i < chunk_ids.len()
            invariant
                i <= chunk_ids@.len(),
                self.wf(),
                ids == id_views(chunk_ids@),
                chunks == self.chunks(),
                chunks == old(self).chunks(),
                chunk_views(found@) == found_of(chunks, ids.take(i as int)),
                id_views(missing@) == missing_of(chunks, ids.take(i as int)),
                self.counted() == old(self).counted(),
                self.sized() == old(self).sized(),
                self.cache_limit() == old(self).cache_limit(),
                hit == all_cached(old(self).cached(), ids),
                hit ==> self.cached() == old(self).cached(),
            decreases chunk_ids@.len() - i,
        {
            let id: ChunkId = chunk_ids[i];
            proof {
                assert(ids.take(i + 1).drop_last() =~= ids.take(i as int));
                assert(ids[i as int] == id@);
            }
            match self.get(&id) {
                Ok(Some(data)) => {
                    found.push((id, data));
                },
                Ok(None) => {
                    missing.push(id);
                },
                Err(e) => {
                    return Err(e);
                },
            }
            i += 1;
        }
        proof {
            assert(ids.take(chunk_ids@.len() as int) =~= ids);
        }
        Ok((found, missing))
    }

    /// Get chunks we're missing from a list, in the order asked.
    pub fn get_missing(&self, chunk_ids: &[ChunkId]) -> (missing: Result<Vec<ChunkId>, StoreError>)
        requires
            self.wf(),
        ensures
            missing matches Ok(ids) ==> id_views(ids@) == missing_of(self.chunks(), id_views(chunk_ids@)),
            missing matches Err(e) ==> e is Storage,
            all_cached(self.cached(), id_views(chunk_ids@)) ==> missing is Ok,
    {
        let mut missing: Vec<ChunkId> = Vec::new();
        let ghost ids = id_views(chunk_ids@);
        let mut i: usize = 0;
        while i < chunk_ids.len()
            invariant
                i <= chunk_ids@.len(),
                self.wf(),
                ids == id_views(chunk_ids@),
                id_views(missing@) == missing_of(self.chunks(), ids.take(i as int)),
            decreases chunk_ids@.len() - i,
        {
            let id: ChunkId = chunk_ids[i];
            proof {
                assert(ids.take(i + 1).drop_last() =~= ids.take(i as int));
            }
            proof {
                assert(ids[i as int] == id@);
            }
            match self.contains(&id) {
                Ok(true) => {},
                Ok(false) => {
                    missing.push(id);
                },
                Err(e) => {
                    return Err(e);
                },
            }
            i += 1;
        }
        proof {
            assert(ids.take(chunk_ids@.len() as int) =~= ids);
        }
        Ok(missing)
    }

    /// Delete a chunk; says whether there was one. Nothing else is deleted with it.
    pub fn delete(&mut self, chunk_id: &ChunkId) -> (deleted: Result<bool, StoreError>)
        requires
            old(self).wf(),
        ensures
            final(self).wf(),
            deleted matches Ok(existed) ==> {
                &&& existed == old(self).chunks().contains_key(chunk_id@)
                &&& final(self).chunks() == old(self).chunks().remove(chunk_id@)
                &&& if existed {
                    &&& final(self).counted() == old(self).counted().wrapping_sub(1)
                    &&& final(self).sized() == old(self).sized().wrapping_sub(
                        old(self).chunks()[chunk_id@].len() as u64,
                    )
                } else {
                    &&& final(self).counted() == old(self).counted()
                    &&& final(self).sized() == old(self).sized()
                }
            },
            deleted matches Err(e) ==> e is Storage,
    {
        match tree_remove(&mut self.tree, chunk_id.as_slice()) {
            Ok(Some(data)) => {
                self.chunk_count = self.chunk_count.wrapping_sub(1);
                self.total_size = self.total_size.wrapping_sub(data.len() as u64);
                self.cache_remove(chunk_id);
                Ok(true)
            },
            Ok(None) => {
                Ok(false)
            },
            Err(e) => {
                self.cache.clear();
                Err(storage_error(&e))
            },
        }
    }

    /// Get chunk count.
    pub fn count(&self) -> (n: usize)
        ensures
            n == self.counted(),
    {
        self.chunk_count
    }

    /// Get total size in bytes.
    pub fn total_size(&self) -> (n: u64)
        ensures
            n == self.sized(),
    {
        self.total_size
    }

    /// Flush to disk.
    pub fn flush(&self) -> (flushed: Result<(), StoreError>)
        ensures
            flushed matches Err(e) ==> e is Storage,
    {
        flush_outcome(db_flush(&self.db))
    }

    /// The cache is a lookaside: it is bounded, and what it holds under an
    /// identifier is what the store holds under it.
    pub proof fn law_cache_is_lookaside(&self, i: int)
        requires
            self.wf(),
            0 <= i < self.cached().len(),
        ensures
            self.cached().len() <= self.cache_limit(),
            entry_at(self.chunks(), self.cached()[i].0) == Some(self.cached()[i].1),
    {
        assert(self.cached()[i] == (self.cache@[i].0@, self.cache@[i].1@));
    }

    /// What `cache_find` does not find is not in the cache.
    proof fn lemma_cache_miss(&self, id: Seq<u8>)
        requires
            forall|i: int| 0 <= i < self.cache@.len() ==> self.cache@[i].0@ != id,
        ensures
            !cache_holds(self.cached(), id),
    {
        if cache_holds(self.cached(), id) {
            let i = choose|i: int| 0 <= i < self.cached().len() && (#[trigger] self.cached()[i]).0 == id;
            assert(self.cache@[i].0@ == id);
        }
    }

    /// Where the cache holds the chunk.
    fn cache_find(&self, chunk_id: &ChunkId) -> (at: Option<usize>)
        ensures
            match at {
                Some(i) => i < self.cache@.len() && self.cache@[i as int].0@ == chunk_id@,
                None => forall|i: int| 0 <= i < self.cache@.len() ==> self.cache@[i].0@ != chunk_id@,
            },
    {
        let mut i: usize = 0;
        while i < self.cache.len()
            invariant
                i <= self.cache@.len(),
                forall|k: int| 0 <= k < i ==> self.cache@[k].0@ != chunk_id@,
            decreases self.cache@.len() - i,
        {
            if id_eq(&self.cache[i].0, chunk_id) {
                return Some(i);
            }
            i += 1;
        }
        None
    }

    /// Takes the chunk out of the cache.
    fn cache_remove(&mut self, chunk_id: &ChunkId)
        requires
            old(self).cache_max_size >= 2,
            old(self).cache@.len() <= old(self).cache_max_size,
            forall|i: int|
                0 <= i < old(self).cache@.len() && (#[trigger] old(self).cache@[i]).0@ != chunk_id@
                    ==> entry_at(old(self).chunks(), old(self).cache@[i].0@) == Some(
                    old(self).cache@[i].1@,
                ),
        ensures
            final(self).wf(),
            final(self).tree == old(self).tree,
            final(self).chunk_count == old(self).chunk_count,
            final(self).total_size == old(self).total_size,
    {
        let mut kept: Vec<(ChunkId, Vec<u8>)> = Vec::new();
        let mut i: usize = 0;
        while i < self.cache.len()
            invariant
                i <= self.cache@.len(),
                kept@.len() <= i,
                self.cache@ == old(self).cache@,
                self.tree == old(self).tree,
                self.cache_max_size == old(self).cache_max_size,
                self.chunk_count == old(self).chunk_count,
                self.total_size == old(self).total_size,
                forall|k: int|
                    0 <= k < self.cache@.len() && (#[trigger] self.cache@[k]).0@ != chunk_id@
                        ==> entry_at(self.chunks(), self.cache@[k].0@) == Some(self.cache@[k].1@),
                forall|k: int|
                    0 <= k < kept@.len() ==> entry_at(self.chunks(), (#[trigger] kept@[k]).0@) == Some(
                        kept@[k].1@,
                    ),
            decreases self.cache@.len() - i,
        {
            if !id_eq(&self.cache[i].0, chunk_id) {
                let id: ChunkId = self.cache[i].0;
                let data = to_vec(self.cache[i].1.as_slice());
                kept.push((id, data));
            }
            i += 1;
        }
        self.cache = kept;
    }

    /// Add to cache with simple eviction: when the cache is full, the
    /// older half of it is dropped.
    fn cache_put(&mut self, chunk_id: ChunkId, data: Vec<u8>)
        requires
            old(self).wf(),
            entry_at(old(self).chunks(), chunk_id@) == Some(data@),
        ensures
            final(self).wf(),
            final(self).tree == old(self).tree,
            final(self).chunk_count == old(self).chunk_count,
            final(self).total_size == old(self).total_size,
            final(self).cache_limit() == old(self).cache_limit(),
            final(self).cached() == cache_after(
                old(self).cached(),
                old(self).cache_limit(),
                chunk_id@,
                data@,
            ),
            cache_holds(final(self).cached(), chunk_id@),
    {
        let ghost before = self.cached();
        match self.cache_find(&chunk_id) {
            Some(i) => {
                proof {
                    assert(before[i as int].0 == chunk_id@);
                }
                return ;
            },
            None => {},
        }
        proof {
            assert(!cache_holds(before, chunk_id@)) by {
                if cache_holds(before, chunk_id@) {
                    let i = choose|i: int| 0 <= i < before.len() && (#[trigger] before[i]).0 == chunk_id@;
                    assert(self.cache@[i].0@ == chunk_id@);
                }
            }
        }
        if self.cache.len() >= self.cache_max_size {
            let drop: usize = self.cache_max_size / 2;
            let kept = self.cache.split_off(drop);
            self.cache = kept;
            proof {
                assert(chunk_views(self.cache@) =~= before.skip(drop as int));
            }
        }
        self.cache.push((chunk_id, data));
        proof {
            let after = self.cached();
            assert(after =~= cache_after(before, self.cache_max_size, chunk_id@, data@));
            assert(after[after.len() - 1].0 == chunk_id@);
        }
    }
}

/// The directory of the chunk database under a data directory.
fn chunk_dir(data_dir: &str) -> (path: String)
    ensures
        path@ == data_dir@ + "/chunks"@,
{
    crate::text::join(data_dir, "/chunks")
}

} // verus!

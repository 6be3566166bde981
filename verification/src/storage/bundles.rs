//! Bundle and site metadata storage: published and hosted site records,
//! bundles, manifests, and the index from site names to identifiers.

use vstd::prelude::*;
use vstd::utf8::encode_utf8;
use crate::bytes::array32_at;
use crate::clock::unix_millis;
use crate::codec::{decode, decoded, encode};
use crate::codec::wire::Wire;
use crate::crypto::hash::{base58_bytes, SiteIdExt};
use crate::storage::kv::{entry_at, flush_outcome, is_listing, open_db, open_tree, pair_views, storage_error};
use crate::storage::kv::{tree_entries, tree_flush, tree_get, tree_insert, tree_list, tree_remove};
use crate::storage::kv::StoreError;
use crate::text::copy_text;
use crate::types::{HostedSite, HostedSiteView, PublishedSite, SiteId, SiteManifest};
use crate::types::{WebBundle, WebBundleView};

verus! {

/// The identifier that a text names: the identifier it is the base58 form
/// of, else the identifier that the name index holds for it.
pub open spec fn resolved_id(names: Map<Seq<u8>, Seq<u8>>, id_or_name: Seq<char>) -> Option<Seq<u8>> {
    if base58_bytes(id_or_name) is Some && base58_bytes(id_or_name)->0.len() == 32 {
        base58_bytes(id_or_name)
    } else {
        entry_at(names, encode_utf8(id_or_name))
    }
}

/// The key of the published record that a text names: the identifier it
/// is the base58 form of, where that has a record, else the identifier
/// that the name index holds for it, where that has one.
pub open spec fn published_key(
    published: Map<Seq<u8>, Seq<u8>>,
    names: Map<Seq<u8>, Seq<u8>>,
    id_or_name: Seq<char>,
) -> Option<Seq<u8>> {
    if base58_bytes(id_or_name) is Some && base58_bytes(id_or_name)->0.len() == 32
        && published.contains_key(base58_bytes(id_or_name)->0) {
        base58_bytes(id_or_name)
    } else if names.contains_key(encode_utf8(id_or_name)) && published.contains_key(
        names[encode_utf8(id_or_name)],
    ) {
        Some(names[encode_utf8(id_or_name)])
    } else {
        None
    }
}

/// The hosted record of a bundle first pinned at `now`.
pub open spec fn hosted_record(bundle: WebBundleView, now: u64) -> HostedSiteView {
    HostedSiteView {
        site_id: bundle.site_id,
        name: bundle.name,
        revision: bundle.revision,
        hosted_at: now,
        last_accessed: now,
        access_count: 0,
    }
}

/// A hosted record after one more access at `now`.
pub open spec fn accessed_record(site: HostedSiteView, now: u64) -> HostedSiteView {
    HostedSiteView {
        last_accessed: now,
        access_count: if site.access_count == u64::MAX {
            u64::MAX
        } else {
            (site.access_count + 1) as u64
        },
        ..site
    }
}

/// `records` are the decoded values of a listing, in its order.
pub open spec fn decoded_listing<T: Wire>(list: Seq<(Seq<u8>, Seq<u8>)>, records: Seq<T::Model>) -> bool {
    &&& records.len() == list.len()
    &&& forall|i: int| 0 <= i < list.len() ==> decoded::<T>((#[trigger] list[i]).1) == Some(records[i])
}

/// Every value of `entries` is the binary form of a record.
pub open spec fn all_decode<T: Wire>(entries: Map<Seq<u8>, Seq<u8>>) -> bool {
    forall|key: Seq<u8>| #[trigger] entries.contains_key(key) ==> decoded::<T>(entries[key]) is Some
}

/// The record of a hosted site after an access at `now`: the time of
/// the last access is `now`, and the access count is one more, held at
/// the largest number that can be held.
pub fn accessed(site: HostedSite, now: u64) -> (after: HostedSite)
    ensures
        after@ == accessed_record(site@, now),
{
    HostedSite {
        site_id: site.site_id,
        name: site.name,
        revision: site.revision,
        hosted_at: site.hosted_at,
        last_accessed: now,
        access_count: if site.access_count == u64::MAX {
            u64::MAX
        } else {
            site.access_count + 1
        },
    }
}

/// Site metadata store backed by the embedded database.
pub struct BundleStore {
    /// Published sites (owned by us).
    published: sled::Tree,
    /// Hosted sites (pinned by us).
    hosted: sled::Tree,
    /// Full bundle data.
    bundles: sled::Tree,
    /// Site manifests.
    manifests: sled::Tree,
    /// Site name -> site ID mapping.
    names: sled::Tree,
    /// Database handle.
    db: sled::Db,
}

/// Reads and decodes the record under a key.
fn read_record<T: Wire>(tree: &sled::Tree, key: &[u8]) -> (found: Result<Option<T>, StoreError>)
    ensures
        match found {
            Ok(Some(record)) => entry_at(tree_entries(*tree), key@) matches Some(bytes) && decoded::<T>(
                bytes,
            ) == Some(record.model()),
            Ok(None) => !tree_entries(*tree).contains_key(key@),
            Err(e) => e is Corrupted ==> tree_entries(*tree).contains_key(key@) && decoded::<T>(
                tree_entries(*tree)[key@],
            ) is None,
        },
{
    match tree_get(tree, key) {
        Ok(Some(bytes)) => match decode::<T>(bytes.as_slice()) {
            Some(record) => Ok(Some(record)),
            None => Err(StoreError::Corrupted),
        },
        Ok(None) => Ok(None),
        Err(e) => Err(storage_error(&e)),
    }
}

/// Reads and decodes every record of a tree.
fn read_records<T: Wire>(tree: &sled::Tree) -> (found: Result<Vec<T>, StoreError>)
    ensures
        found matches Ok(records) ==> exists|list: Seq<(Seq<u8>, Seq<u8>)>|
            #![trigger is_listing(list, tree_entries(*tree))]
            is_listing(list, tree_entries(*tree)) && decoded_listing::<T>(
                list,
                crate::codec::containers::models(records@),
            ),
        found matches Err(e) ==> (e is Corrupted ==> !all_decode::<T>(tree_entries(*tree))),
{
    let list = match tree_list(tree) {
        Ok(list) => list,
        Err(e) => {
            return Err(storage_error(&e));
        },
    };
    let ghost listed = pair_views(list@);
    let mut records: Vec<T> = Vec::new();
    let mut i: usize = 0;
    while i < list.len()
        invariant
            i <= list@.len(),
            listed == pair_views(list@),
            is_listing(listed, tree_entries(*tree)),
            records@.len() == i,
            forall|k: int| 0 <= k < i ==> decoded::<T>(listed[k].1) == Some((#[trigger] records@[k]).model()),
        decreases list@.len() - i,
    {
        match decode::<T>(list[i].1.as_slice()) {
            Some(record) => {
                records.push(record);
            },
            None => {
                proof {
                    assert(entry_at(tree_entries(*tree), listed[i as int].0) == Some(listed[i as int].1));
                }
                return Err(StoreError::Corrupted);
            },
        }
        i += 1;
    }
    Ok(records)
}

impl BundleStore {
    /// The published records, in binary form, by site identifier.
    pub closed spec fn published(&self) -> Map<Seq<u8>, Seq<u8>> {
        tree_entries(self.published)
    }

    /// The hosted records, in binary form, by site identifier.
    pub closed spec fn hosted(&self) -> Map<Seq<u8>, Seq<u8>> {
        tree_entries(self.hosted)
    }

    /// The bundles, in binary form, by site identifier.
    pub closed spec fn bundles(&self) -> Map<Seq<u8>, Seq<u8>> {
        tree_entries(self.bundles)
    }

    /// The manifests, in binary form, by site identifier.
    pub closed spec fn manifests(&self) -> Map<Seq<u8>, Seq<u8>> {
        tree_entries(self.manifests)
    }

    /// The site identifiers, by the UTF-8 bytes of the site name.
    pub closed spec fn names(&self) -> Map<Seq<u8>, Seq<u8>> {
        tree_entries(self.names)
    }

    /// Create a new bundle store in the directory `sites.db` under `data_dir`.
    pub fn new(data_dir: &str) -> (opened: Result<Self, StoreError>)
        ensures
            opened matches Err(e) ==> e is Storage,
    {
        let path = sites_dir(data_dir);
        let db = match open_db(path.as_str()) {
            Ok(db) => db,
            Err(e) => {
                return Err(storage_error(&e));
            },
        };
        let published = match open_tree(&db, "published") {
            Ok(tree) => tree,
            Err(e) => {
                return Err(storage_error(&e));
            },
        };
        let hosted = match open_tree(&db, "hosted") {
            Ok(tree) => tree,
            Err(e) => {
                return Err(storage_error(&e));
            },
        };
        let bundles = match open_tree(&db, "bundles") {
            Ok(tree) => tree,
            Err(e) => {
                return Err(storage_error(&e));
            },
        };
        let manifests = match open_tree(&db, "manifests") {
            Ok(tree) => tree,
            Err(e) => {
                return Err(storage_error(&e));
            },
        };
        let names = match open_tree(&db, "names") {
            Ok(tree) => tree,
            Err(e) => {
                return Err(storage_error(&e));
            },
        };
        Ok(BundleStore { published, hosted, bundles, manifests, names, db })
    }

    /// Save a published site under its identifier, and index it by name.
    pub fn save_published_site(&mut self, site: &PublishedSite) -> (saved: Result<(), StoreError>)
        ensures
            final(self).hosted() == old(self).hosted(),
            final(self).bundles() == old(self).bundles(),
            final(self).manifests() == old(self).manifests(),
            saved is Ok ==> {
                &&& final(self).published() == old(self).published().insert(
                    site.site_id@,
                    PublishedSite::wire(site@),
                )
                &&& final(self).names() == old(self).names().insert(encode_utf8(site.name@), site.site_id@)
                &&& PublishedSite::fits(site@)
            },
            saved matches Err(e) ==> e is Storage,
    {
        let value = encode(site);
        match tree_insert(&mut self.published, site.site_id.as_slice(), value.as_slice()) {
            Ok(_) => {},
            Err(e) => {
                return Err(storage_error(&e));
            },
        }
        match tree_insert(&mut self.names, site.name.as_str().as_bytes(), site.site_id.as_slice()) {
            Ok(_) => {},
            Err(e) => {
                return Err(storage_error(&e));
            },
        }
        Ok(())
    }

    /// Get a published site by its identifier.
    pub fn get_published_by_id(&self, site_id: &SiteId) -> (found: Result<
        Option<PublishedSite>,
        StoreError,
    >)
        ensures
            match found {
                Ok(Some(site)) => entry_at(self.published(), site_id@) matches Some(bytes) && decoded::<
                    PublishedSite,
                >(bytes) == Some(site@),
                Ok(None) => !self.published().contains_key(site_id@),
                Err(e) => e is Corrupted ==> self.published().contains_key(site_id@) && decoded::<
                    PublishedSite,
                >(self.published()[site_id@]) is None,
            },
    {
        read_record::<PublishedSite>(&self.published, site_id.as_slice())
    }

    /// Get a published site by ID or name: the text is tried as base58
    /// identifier first, then as site name.
    pub fn get_published_site(&self, id_or_name: &str) -> (found: Result<
        Option<PublishedSite>,
        StoreError,
    >)
        ensures
            match found {
                Ok(Some(site)) => published_key(self.published(), self.names(), id_or_name@) matches Some(
                    key,
                ) && decoded::<PublishedSite>(self.published()[key]) == Some(site@),
                Ok(None) => published_key(self.published(), self.names(), id_or_name@) is None,
                Err(e) => e is Corrupted ==> (published_key(
                    self.published(),
                    self.names(),
                    id_or_name@,
                ) matches Some(key) && decoded::<PublishedSite>(self.published()[key]) is None),
            },
    {
        match SiteId::from_base58(id_or_name) {
            Some(site_id) => {
                match read_record::<PublishedSite>(&self.published, site_id.as_slice()) {
                    Ok(Some(site)) => {
                        return Ok(Some(site));
                    },
                    Ok(None) => {},
                    Err(e) => {
                        return Err(e);
                    },
                }
            },
            None => {},
        }
        match tree_get(&self.names, id_or_name.as_bytes()) {
            Ok(Some(site_id)) => read_record::<PublishedSite>(&self.published, site_id.as_slice()),
            Ok(None) => Ok(None),
            Err(e) => Err(storage_error(&e)),
        }
    }

    /// Get all published sites.
    pub fn get_all_published_sites(&self) -> (found: Result<Vec<PublishedSite>, StoreError>)
        ensures
            found matches Ok(sites) ==> exists|list: Seq<(Seq<u8>, Seq<u8>)>|
                #![trigger is_listing(list, self.published())]
                is_listing(list, self.published()) && decoded_listing::<PublishedSite>(
                    list,
                    sites@.map_values(|s: PublishedSite| s@),
                ),
            found matches Err(e) ==> (e is Corrupted ==> !all_decode::<PublishedSite>(self.published())),
    {
        let found = read_records::<PublishedSite>(&self.published);
        proof {
            if let Ok(sites) = &found {
                let records = crate::codec::containers::models(sites@);
                let list = choose|list: Seq<(Seq<u8>, Seq<u8>)>|
                    #![trigger is_listing(list, self.published())]
                    is_listing(list, self.published()) && decoded_listing::<PublishedSite>(list, records);
                assert(is_listing(list, self.published()));
            }
        }
        found
    }

    /// Delete a published site and its name; says whether there was one.
    pub fn delete_published_site(&mut self, site_id: &SiteId) -> (deleted: Result<bool, StoreError>)
        ensures
            final(self).hosted() == old(self).hosted(),
            final(self).bundles() == old(self).bundles(),
            final(self).manifests() == old(self).manifests(),
            deleted matches Ok(existed) ==> {
                &&& existed == old(self).published().contains_key(site_id@)
                &&& final(self).published() == old(self).published().remove(site_id@)
                &&& if existed {
                    decoded::<PublishedSite>(old(self).published()[site_id@]) matches Some(site)
                        && final(self).names() == old(self).names().remove(encode_utf8(site.name))
                } else {
                    final(self).names() == old(self).names()
                }
            },
            deleted matches Err(e) ==> (e is Corrupted ==> old(self).published().contains_key(site_id@)
                && decoded::<PublishedSite>(old(self).published()[site_id@]) is None),
    {
        match tree_remove(&mut self.published, site_id.as_slice()) {
            Ok(Some(data)) => {
                let site = match decode::<PublishedSite>(data.as_slice()) {
                    Some(site) => site,
                    None => {
                        return Err(StoreError::Corrupted);
                    },
                };
                match tree_remove(&mut self.names, site.name.as_str().as_bytes()) {
                    Ok(_) => Ok(true),
                    Err(e) => Err(storage_error(&e)),
                }
            },
            Ok(None) => {
                Ok(false)
            },
            Err(e) => Err(storage_error(&e)),
        }
    }

    /// Save a hosted site, pinned now, and its bundle.
    pub fn save_hosted_site(&mut self, bundle: &WebBundle) -> (saved: Result<(), StoreError>)
        ensures
            final(self).published() == old(self).published(),
            final(self).names() == old(self).names(),
            saved is Ok ==> {
                &&& exists|now: u64| #[trigger]
                    final(self).hosted() == old(self).hosted().insert(
                        bundle.site_id@,
                        HostedSite::wire(hosted_record(bundle@, now)),
                    )
                &&& final(self).bundles() == old(self).bundles().insert(
                    bundle.site_id@,
                    WebBundle::wire(bundle@),
                )
                &&& final(self).manifests() == old(self).manifests().insert(
                    bundle.site_id@,
                    SiteManifest::wire(bundle@.manifest),
                )
            },
            saved matches Err(e) ==> e is Storage,
    {
        let now = unix_millis();
        self.save_hosted_site_at(bundle, now)
    }

    /// Save a hosted site, pinned at `now`, and its bundle.
    pub fn save_hosted_site_at(&mut self, bundle: &WebBundle, now: u64) -> (saved: Result<
        (),
        StoreError,
    >)
        ensures
            final(self).published() == old(self).published(),
            final(self).names() == old(self).names(),
            saved is Ok ==> {
                &&& final(self).hosted() == old(self).hosted().insert(
                    bundle.site_id@,
                    HostedSite::wire(hosted_record(bundle@, now)),
                )
                &&& final(self).bundles() == old(self).bundles().insert(
                    bundle.site_id@,
                    WebBundle::wire(bundle@),
                )
                &&& final(self).manifests() == old(self).manifests().insert(
                    bundle.site_id@,
                    SiteManifest::wire(bundle@.manifest),
                )
            },
            saved matches Err(e) ==> e is Storage,
    {
        let site = HostedSite {
            site_id: bundle.site_id,
            name: copy_text(bundle.name.as_str()),
            revision: bundle.revision,
            hosted_at: now,
            last_accessed: now,
            access_count: 0,
        };
        let value = encode(&site);
        match tree_insert(&mut self.hosted, bundle.site_id.as_slice(), value.as_slice()) {
            Ok(_) => {},
            Err(e) => {
                return Err(storage_error(&e));
            },
        }
        self.save_bundle(bundle)
    }

    /// Get a hosted site.
    pub fn get_hosted_site(&self, site_id: &SiteId) -> (found: Result<Option<HostedSite>, StoreError>)
        ensures
            match found {
                Ok(Some(site)) => entry_at(self.hosted(), site_id@) matches Some(bytes) && decoded::<
                    HostedSite,
                >(bytes) == Some(site@),
                Ok(None) => !self.hosted().contains_key(site_id@),
                Err(e) => e is Corrupted ==> self.hosted().contains_key(site_id@) && decoded::<
                    HostedSite,
                >(self.hosted()[site_id@]) is None,
            },
    {
        read_record::<HostedSite>(&self.hosted, site_id.as_slice())
    }

    /// Get all hosted sites.
    pub fn get_all_hosted_sites(&self) -> (found: Result<Vec<HostedSite>, StoreError>)
        ensures
            found matches Ok(sites) ==> exists|list: Seq<(Seq<u8>, Seq<u8>)>|
                #![trigger is_listing(list, self.hosted())]
                is_listing(list, self.hosted()) && decoded_listing::<HostedSite>(
                    list,
                    sites@.map_values(|s: HostedSite| s@),
                ),
            found matches Err(e) ==> (e is Corrupted ==> !all_decode::<HostedSite>(self.hosted())),
    {
        let found = read_records::<HostedSite>(&self.hosted);
        proof {
            if let Ok(sites) = &found {
                let records = crate::codec::containers::models(sites@);
                let list = choose|list: Seq<(Seq<u8>, Seq<u8>)>|
                    #![trigger is_listing(list, self.hosted())]
                    is_listing(list, self.hosted()) && decoded_listing::<HostedSite>(list, records);
                assert(is_listing(list, self.hosted()));
            }
        }
        found
    }

    /// Delete a hosted site; says whether there was one.
    pub fn delete_hosted_site(&mut self, site_id: &SiteId) -> (deleted: Result<bool, StoreError>)
        ensures
            final(self).published() == old(self).published(),
            final(self).names() == old(self).names(),
            final(self).bundles() == old(self).bundles(),
            final(self).manifests() == old(self).manifests(),
            deleted matches Ok(existed) ==> {
                &&& existed == old(self).hosted().contains_key(site_id@)
                &&& final(self).hosted() == old(self).hosted().remove(site_id@)
            },
            deleted matches Err(e) ==> e is Storage,
    {
        match tree_remove(&mut self.hosted, site_id.as_slice()) {
            Ok(before) => Ok(before.is_some()),
            Err(e) => Err(storage_error(&e)),
        }
    }

    /// Record an access to a hosted site, now.
    pub fn record_access(&mut self, site_id: &SiteId) -> (recorded: Result<(), StoreError>)
        ensures
            final(self).published() == old(self).published(),
            final(self).names() == old(self).names(),
            final(self).bundles() == old(self).bundles(),
            final(self).manifests() == old(self).manifests(),
            recorded is Ok ==> {
                if old(self).hosted().contains_key(site_id@) {
                    decoded::<HostedSite>(old(self).hosted()[site_id@]) matches Some(site)
                        && exists|now: u64| #[trigger]
                        final(self).hosted() == old(self).hosted().insert(
                            site_id@,
                            HostedSite::wire(accessed_record(site, now)),
                        )
                } else {
                    final(self).hosted() == old(self).hosted()
                }
            },
            recorded matches Err(e) ==> (e is Corrupted ==> old(self).hosted().contains_key(site_id@)
                && decoded::<HostedSite>(old(self).hosted()[site_id@]) is None && final(self).hosted()
                == old(self).hosted()),
    {
        let now = unix_millis();
        self.record_access_at(site_id, now)
    }

    /// Record an access to a hosted site at `now`: the time of the last
    /// access is set and the access count rises by one. A site that is not
    /// hosted is left alone.
    pub fn record_access_at(&mut self, site_id: &SiteId, now: u64) -> (recorded: Result<
        (),
        StoreError,
    >)
        ensures
            final(self).published() == old(self).published(),
            final(self).names() == old(self).names(),
            final(self).bundles() == old(self).bundles(),
            final(self).manifests() == old(self).manifests(),
            recorded is Ok ==> {
                if old(self).hosted().contains_key(site_id@) {
                    decoded::<HostedSite>(old(self).hosted()[site_id@]) matches Some(site)
                        && final(self).hosted() == old(self).hosted().insert(
                        site_id@,
                        HostedSite::wire(accessed_record(site, now)),
                    )
                } else {
                    final(self).hosted() == old(self).hosted()
                }
            },
            recorded matches Err(e) ==> (e is Corrupted ==> old(self).hosted().contains_key(site_id@)
                && decoded::<HostedSite>(old(self).hosted()[site_id@]) is None && final(self).hosted()
                == old(self).hosted()),
    {
        match read_record::<HostedSite>(&self.hosted, site_id.as_slice()) {
            Ok(Some(site)) => {
                let updated = accessed(site, now);
                let value = encode(&updated);
                match tree_insert(&mut self.hosted, site_id.as_slice(), value.as_slice()) {
                    Ok(_) => Ok(()),
                    Err(e) => Err(storage_error(&e)),
                }
            },
            Ok(None) => Ok(()),
            Err(e) => Err(e),
        }
    }

    /// Save a bundle and, beside it, its manifest; then flush to disk.
    pub fn save_bundle(&mut self, bundle: &WebBundle) -> (saved: Result<(), StoreError>)
        ensures
            final(self).published() == old(self).published(),
            final(self).names() == old(self).names(),
            final(self).hosted() == old(self).hosted(),
            saved is Ok ==> {
                &&& final(self).bundles() == old(self).bundles().insert(
                    bundle.site_id@,
                    WebBundle::wire(bundle@),
                )
                &&& final(self).manifests() == old(self).manifests().insert(
                    bundle.site_id@,
                    SiteManifest::wire(bundle@.manifest),
                )
                &&& WebBundle::fits(bundle@)
            },
            saved matches Err(e) ==> e is Storage,
    {
        let value = encode(bundle);
        match tree_insert(&mut self.bundles, bundle.site_id.as_slice(), value.as_slice()) {
            Ok(_) => {},
            Err(e) => {
                return Err(storage_error(&e));
            },
        }
        let manifest = encode(&bundle.manifest);
        match tree_insert(&mut self.manifests, bundle.site_id.as_slice(), manifest.as_slice()) {
            Ok(_) => {},
            Err(e) => {
                return Err(storage_error(&e));
            },
        }
        self.flush()
    }

    /// Get a bundle by site ID.
    pub fn get_bundle(&self, site_id: &SiteId) -> (found: Result<Option<WebBundle>, StoreError>)
        ensures
            match found {
                Ok(Some(bundle)) => entry_at(self.bundles(), site_id@) matches Some(bytes) && decoded::<
                    WebBundle,
                >(bytes) == Some(bundle@),
                Ok(None) => !self.bundles().contains_key(site_id@),
                Err(e) => e is Corrupted ==> self.bundles().contains_key(site_id@) && decoded::<
                    WebBundle,
                >(self.bundles()[site_id@]) is None,
            },
    {
        read_record::<WebBundle>(&self.bundles, site_id.as_slice())
    }

    /// Get just the manifest (faster than full bundle).
    pub fn get_manifest(&self, site_id: &SiteId) -> (found: Result<Option<SiteManifest>, StoreError>)
        ensures
            match found {
                Ok(Some(manifest)) => entry_at(self.manifests(), site_id@) matches Some(bytes)
                    && decoded::<SiteManifest>(bytes) == Some(manifest@),
                Ok(None) => !self.manifests().contains_key(site_id@),
                Err(e) => e is Corrupted ==> self.manifests().contains_key(site_id@) && decoded::<
                    SiteManifest,
                >(self.manifests()[site_id@]) is None,
            },
    {
        read_record::<SiteManifest>(&self.manifests, site_id.as_slice())
    }

    /// Resolve a site ID from name or ID string: the text is tried as
    /// base58 identifier first, then looked up in the name index. A text
    /// that is the base58 form of 32 bytes is resolved without reading the
    /// database, whether or not such a site is stored.
    pub fn resolve_site_id(&self, id_or_name: &str) -> (found: Result<Option<SiteId>, StoreError>)
        ensures
            match found {
                Ok(Some(id)) => resolved_id(self.names(), id_or_name@) == Some(id@),
                Ok(None) => resolved_id(self.names(), id_or_name@) is None,
                Err(e) => e is Corrupted ==> (resolved_id(self.names(), id_or_name@) matches Some(id)
                    && id.len() != 32),
            },
            (base58_bytes(id_or_name@) is Some && base58_bytes(id_or_name@)->0.len() == 32) ==> (found matches Ok(
                Some(id),
            ) && id@ == base58_bytes(id_or_name@)->0),
    {
        match SiteId::from_base58(id_or_name) {
            Some(site_id) => {
                return Ok(Some(site_id));
            },
            None => {},
        }
        match tree_get(&self.names, id_or_name.as_bytes()) {
            Ok(Some(bytes)) => {
                if bytes.len() != 32 {
                    return Err(StoreError::Corrupted);
                }
                let site_id = array32_at(bytes.as_slice(), 0);
                Ok(Some(site_id))
            },
            Ok(None) => Ok(None),
            Err(e) => Err(storage_error(&e)),
        }
    }

    /// Flush all data to disk: table after table, up to the first that fails.
    pub fn flush(&self) -> (flushed: Result<(), StoreError>)
        ensures
            flushed matches Err(e) ==> e is Storage,
    {
        match flush_outcome(tree_flush(&self.published)) {
            Ok(_) => {},
            Err(e) => {
                return Err(e);
            },
        }
        match flush_outcome(tree_flush(&self.hosted)) {
            Ok(_) => {},
            Err(e) => {
                return Err(e);
            },
        }
        match flush_outcome(tree_flush(&self.bundles)) {
            Ok(_) => {},
            Err(e) => {
                return Err(e);
            },
        }
        match flush_outcome(tree_flush(&self.manifests)) {
            Ok(_) => {},
            Err(e) => {
                return Err(e);
            },
        }
        flush_outcome(tree_flush(&self.names))
    }
}

/// The directory of the site database under a data directory.
fn sites_dir(data_dir: &str) -> (path: String)
    ensures
        path@ == data_dir@ + "/sites.db"@,
{
    crate::text::join(data_dir, "/sites.db")
}

} // verus!

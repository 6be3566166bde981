use grabnet::crypto::hash::{hash, SiteIdExt};
use grabnet::crypto::signing::public_key_of;
use grabnet::storage::bundles::accessed;
use grabnet::storage::keys::names_of;
use grabnet::storage::kv::{flush_outcome, StoreError};
use grabnet::storage::{BundleStore, ChunkStore, KeyStore};
use grabnet::types::{HostedSite, PublishedSite, SiteManifest, WebBundle};

fn create_test_bundle() -> WebBundle {
    WebBundle {
        site_id: [1u8; 32],
        name: "test-site".to_string(),
        revision: 1,
        root_hash: [2u8; 32],
        publisher: [3u8; 32],
        signature: [4u8; 64].to_vec(),
        manifest: SiteManifest {
            files: vec![],
            entry: "index.html".to_string(),
            routes: None,
            headers: None,
        },
        created_at: 1234567890,
    }
}

#[test]
fn test_chunk_store() {
    let dir = tempfile::tempdir().unwrap();
    let mut store = ChunkStore::new(dir.path().to_str().unwrap()).unwrap();

    let data = b"hello grabnet";
    let chunk_id = store.put(data).unwrap();

    // Verify content addressing
    assert_eq!(chunk_id, hash(data));

    // Retrieve
    let retrieved = store.get(&chunk_id).unwrap().unwrap();
    assert_eq!(retrieved, data);

    // Contains
    assert!(store.contains(&chunk_id).unwrap());
    assert!(!store.contains(&[0u8; 32]).unwrap());

    // Stats
    assert_eq!(store.count(), 1);
    assert_eq!(store.total_size(), data.len() as u64);
}

#[test]
fn test_deduplication() {
    let dir = tempfile::tempdir().unwrap();
    let mut store = ChunkStore::new(dir.path().to_str().unwrap()).unwrap();

    let data = b"duplicate content";
    let id1 = store.put(data).unwrap();
    let id2 = store.put(data).unwrap();

    // Same content = same ID
    assert_eq!(id1, id2);

    // Only stored once
    assert_eq!(store.count(), 1);
}

#[test]
fn put_then_get_gives_the_bytes_back() {
    let dir = tempfile::tempdir().unwrap();
    let mut store = ChunkStore::new(dir.path().to_str().unwrap()).unwrap();
    let samples: Vec<Vec<u8>> = vec![vec![], vec![0], vec![1, 2, 3], vec![7u8; 5000]];
    for sample in &samples {
        let id = store.put(sample).unwrap();
        assert_eq!(store.get(&id).unwrap(), Some(sample.clone()));
    }
    assert_eq!(store.count(), 4);
    assert_eq!(store.total_size(), 5004);
    assert_eq!(store.get(&[9u8; 32]).unwrap(), None);
}

#[test]
fn put_counted_says_what_is_new() {
    let dir = tempfile::tempdir().unwrap();
    let mut store = ChunkStore::new(dir.path().to_str().unwrap()).unwrap();
    assert_eq!(store.put_counted(b"x").unwrap(), (hash(b"x"), true));
    assert_eq!(store.put_counted(b"x").unwrap(), (hash(b"x"), false));
    assert_eq!(store.put_counted(b"y").unwrap(), (hash(b"y"), true));
    assert_eq!(store.count(), 2);
    assert_eq!(store.total_size(), 2);
}

#[test]
fn get_many_and_get_missing_keep_the_order_asked() {
    let dir = tempfile::tempdir().unwrap();
    let mut store = ChunkStore::new(dir.path().to_str().unwrap()).unwrap();
    let a = store.put(b"a").unwrap();
    let b = store.put(b"b").unwrap();
    let unknown = [5u8; 32];
    let other = [6u8; 32];
    let asked = vec![b, unknown, a, other, b];
    let (found, missing) = store.get_many(&asked).unwrap();
    assert_eq!(found, vec![(b, b"b".to_vec()), (a, b"a".to_vec()), (b, b"b".to_vec())]);
    assert_eq!(missing, vec![unknown, other]);
    assert_eq!(store.get_missing(&asked).unwrap(), vec![unknown, other]);
    assert_eq!(store.get_missing(&[]).unwrap(), Vec::<[u8; 32]>::new());
}

#[test]
fn delete_takes_one_chunk_away() {
    let dir = tempfile::tempdir().unwrap();
    let mut store = ChunkStore::new(dir.path().to_str().unwrap()).unwrap();
    let a = store.put(b"aaaa").unwrap();
    let b = store.put(b"bb").unwrap();
    assert!(store.delete(&a).unwrap());
    assert!(!store.delete(&a).unwrap());
    assert_eq!(store.get(&a).unwrap(), None);
    assert!(!store.contains(&a).unwrap());
    assert_eq!(store.get(&b).unwrap(), Some(b"bb".to_vec()));
    assert_eq!(store.count(), 1);
    assert_eq!(store.total_size(), 2);
}

#[test]
fn counters_are_reconciled_when_the_store_is_opened_again() {
    let dir = tempfile::tempdir().unwrap();
    let path = dir.path().to_str().unwrap().to_string();
    {
        let mut store = ChunkStore::new(&path).unwrap();
        store.put(b"one").unwrap();
        store.put(b"three").unwrap();
        store.flush().unwrap();
    }
    let mut store = ChunkStore::new(&path).unwrap();
    assert_eq!(store.count(), 2);
    assert_eq!(store.total_size(), 8);
    assert_eq!(store.get(&hash(b"one")).unwrap(), Some(b"one".to_vec()));
}

#[test]
fn cache_eviction_does_not_lose_chunks() {
    let dir = tempfile::tempdir().unwrap();
    let mut store = ChunkStore::new(dir.path().to_str().unwrap()).unwrap();
    let mut ids = Vec::new();
    for i in 0..1200u32 {
        ids.push(store.put(&i.to_le_bytes()).unwrap());
    }
    for (i, id) in ids.iter().enumerate() {
        assert_eq!(store.get(id).unwrap(), Some((i as u32).to_le_bytes().to_vec()));
    }
    assert_eq!(store.count(), 1200);
}

#[test]
fn test_key_creation() {
    let dir = tempfile::tempdir().unwrap();
    let mut store = KeyStore::new(dir.path().to_str().unwrap()).unwrap();

    // Get or create
    let (pub1, priv1) = store.get_or_create("default").unwrap();

    // Should return same key
    let (pub2, priv2) = store.get_or_create("default").unwrap();
    assert_eq!(pub1, pub2);
    assert_eq!(priv1, priv2);

    // Different name = different key
    let (pub3, _) = store.get_or_create("other").unwrap();
    assert_ne!(pub1, pub3);
}

#[test]
fn test_key_import_export() {
    let dir = tempfile::tempdir().unwrap();
    let mut store = KeyStore::new(dir.path().to_str().unwrap()).unwrap();

    // Create a key
    let (_, original_private) = store.get_or_create("test").unwrap();

    // Export
    let exported = store.export("test").unwrap().unwrap();

    // Import to different name
    let dir2 = tempfile::tempdir().unwrap();
    let mut store2 = KeyStore::new(dir2.path().to_str().unwrap()).unwrap();

    let mut private_bytes = [0u8; 32];
    private_bytes.copy_from_slice(&bs58::decode(&exported).into_vec().unwrap());

    store2.import("imported", &private_bytes).unwrap();

    // Verify
    let retrieved = store2.get_private_key("imported").unwrap().unwrap();
    assert_eq!(retrieved, original_private);
}

#[test]
fn test_list_keys() {
    let dir = tempfile::tempdir().unwrap();
    let mut store = KeyStore::new(dir.path().to_str().unwrap()).unwrap();

    store.get_or_create("key1").unwrap();
    store.get_or_create("key2").unwrap();
    store.get_or_create("key3").unwrap();

    let keys = store.list_keys().unwrap();
    assert_eq!(keys.len(), 3);
    assert!(keys.contains(&"key1".to_string()));
    assert!(keys.contains(&"key2".to_string()));
    assert!(keys.contains(&"key3".to_string()));
}

#[test]
fn key_store_keeps_pairs_together() {
    let dir = tempfile::tempdir().unwrap();
    let mut store = KeyStore::new(dir.path().to_str().unwrap()).unwrap();
    assert_eq!(store.get_public_key("k").unwrap(), None);
    assert_eq!(store.get_private_key("k").unwrap(), None);
    assert_eq!(store.export("k").unwrap(), None);
    let (public, private) = store.get_or_create("k").unwrap();
    assert_eq!(public, public_key_of(&private));
    assert_eq!(store.get_public_key("k").unwrap(), Some(public));
    assert_eq!(store.get_private_key("k").unwrap(), Some(private));
    let seed = [7u8; 32];
    assert_eq!(store.import("seeded", &seed).unwrap(), public_key_of(&seed));
    assert_eq!(store.get_public_key("seeded").unwrap(), Some(public_key_of(&seed)));
    assert!(store.delete("k").unwrap());
    assert!(!store.delete("k").unwrap());
    assert_eq!(store.get_public_key("k").unwrap(), None);
    assert_eq!(store.list_keys().unwrap(), vec!["seeded".to_string()]);
    store.flush().unwrap();
}

#[test]
fn test_published_sites() {
    let dir = tempfile::tempdir().unwrap();
    let mut store = BundleStore::new(dir.path().to_str().unwrap()).unwrap();

    let site = PublishedSite {
        site_id: [1u8; 32],
        name: "my-site".to_string(),
        revision: 1,
        root_path: "/tmp/site".to_string(),
        created_at: 123,
        updated_at: 456,
    };

    store.save_published_site(&site).unwrap();

    // Get by ID
    let site_id_b58 = site.site_id.to_base58();
    let retrieved = store.get_published_site(&site_id_b58).unwrap().unwrap();
    assert_eq!(retrieved.name, "my-site");

    // Get by name
    let by_name = store.get_published_site("my-site").unwrap().unwrap();
    assert_eq!(by_name.site_id, site.site_id);

    // List all
    let all = store.get_all_published_sites().unwrap();
    assert_eq!(all.len(), 1);
}

#[test]
fn test_hosted_sites() {
    let dir = tempfile::tempdir().unwrap();
    let mut store = BundleStore::new(dir.path().to_str().unwrap()).unwrap();

    let bundle = create_test_bundle();
    store.save_hosted_site(&bundle).unwrap();

    let hosted = store.get_hosted_site(&bundle.site_id).unwrap().unwrap();
    assert_eq!(hosted.name, "test-site");
    assert_eq!(hosted.revision, 1);
}

#[test]
fn bundle_store_resolves_ids_and_names() {
    let dir = tempfile::tempdir().unwrap();
    let mut store = BundleStore::new(dir.path().to_str().unwrap()).unwrap();
    let site = PublishedSite {
        site_id: [9u8; 32],
        name: "docs".to_string(),
        revision: 4,
        root_path: "/srv/docs".to_string(),
        created_at: 1,
        updated_at: 2,
    };
    store.save_published_site(&site).unwrap();
    assert_eq!(store.resolve_site_id("docs").unwrap(), Some([9u8; 32]));
    assert_eq!(store.resolve_site_id(&[5u8; 32].to_base58()).unwrap(), Some([5u8; 32]));
    assert_eq!(store.resolve_site_id("nothing").unwrap(), None);
    assert!(store.get_published_site("nothing").unwrap().is_none());
    assert!(store.get_published_site(&[5u8; 32].to_base58()).unwrap().is_none());
    assert_eq!(store.get_published_by_id(&[9u8; 32]).unwrap().unwrap().revision, 4);
    assert!(store.get_published_by_id(&[8u8; 32]).unwrap().is_none());
    assert!(store.delete_published_site(&[9u8; 32]).unwrap());
    assert!(!store.delete_published_site(&[9u8; 32]).unwrap());
    assert_eq!(store.resolve_site_id("docs").unwrap(), None);
    assert_eq!(store.get_all_published_sites().unwrap().len(), 0);
}

#[test]
fn bundle_store_keeps_bundle_and_manifest() {
    let dir = tempfile::tempdir().unwrap();
    let mut store = BundleStore::new(dir.path().to_str().unwrap()).unwrap();
    let bundle = create_test_bundle();
    assert!(store.get_bundle(&bundle.site_id).unwrap().is_none());
    assert!(store.get_manifest(&bundle.site_id).unwrap().is_none());
    store.save_bundle(&bundle).unwrap();
    let stored = store.get_bundle(&bundle.site_id).unwrap().unwrap();
    assert_eq!(stored.name, "test-site");
    assert_eq!(stored.signature, bundle.signature);
    assert_eq!(stored.created_at, 1234567890);
    let manifest = store.get_manifest(&bundle.site_id).unwrap().unwrap();
    assert_eq!(manifest.entry, "index.html");
    store.flush().unwrap();
}

#[test]
fn hosted_sites_count_their_accesses() {
    let dir = tempfile::tempdir().unwrap();
    let mut store = BundleStore::new(dir.path().to_str().unwrap()).unwrap();
    let bundle = create_test_bundle();
    store.save_hosted_site_at(&bundle, 1000).unwrap();
    let hosted = store.get_hosted_site(&bundle.site_id).unwrap().unwrap();
    assert_eq!((hosted.hosted_at, hosted.last_accessed, hosted.access_count), (1000, 1000, 0));
    assert!(store.get_bundle(&bundle.site_id).unwrap().is_some());
    store.record_access_at(&bundle.site_id, 2000).unwrap();
    store.record_access_at(&bundle.site_id, 3000).unwrap();
    store.record_access_at(&[7u8; 32], 4000).unwrap();
    let hosted = store.get_hosted_site(&bundle.site_id).unwrap().unwrap();
    assert_eq!((hosted.hosted_at, hosted.last_accessed, hosted.access_count), (1000, 3000, 2));
    store.record_access(&bundle.site_id).unwrap();
    let hosted = store.get_hosted_site(&bundle.site_id).unwrap().unwrap();
    assert_eq!(hosted.access_count, 3);
    assert!(hosted.last_accessed > 3000);
    assert_eq!(store.get_all_hosted_sites().unwrap().len(), 1);
    assert!(store.delete_hosted_site(&bundle.site_id).unwrap());
    assert!(!store.delete_hosted_site(&bundle.site_id).unwrap());
    assert!(store.get_hosted_site(&bundle.site_id).unwrap().is_none());
}

#[test]
fn opening_a_store_where_a_file_stands_is_a_storage_error() {
    let dir = tempfile::tempdir().unwrap();
    let file = tempfile::NamedTempFile::new_in(dir.path()).unwrap();
    let opened = ChunkStore::new(file.path().to_str().unwrap());
    match opened {
        Err(StoreError::Storage { message }) => assert!(!message.is_empty()),
        _ => panic!("a store opened below a plain file"),
    }
    assert_eq!(
        StoreError::Corrupted.to_text(),
        "Corrupted store: a record does not decode".to_string()
    );
}

#[test]
fn keys_are_listed_in_order_of_name() {
    let dir = tempfile::tempdir().unwrap();
    let mut store = KeyStore::new(dir.path().to_str().unwrap()).unwrap();
    store.get_or_create("zeta").unwrap();
    store.get_or_create("alpha").unwrap();
    store.get_or_create("mid").unwrap();
    store.get_or_create("alphabet").unwrap();
    assert_eq!(
        store.list_keys().unwrap(),
        vec!["alpha".to_string(), "alphabet".to_string(), "mid".to_string(), "zeta".to_string()]
    );
}

#[test]
fn a_record_that_does_not_decode_is_reported_as_corrupted() {
    let dir = tempfile::tempdir().unwrap();
    {
        let db = sled::open(dir.path().join("sites.db")).unwrap();
        let published = db.open_tree("published").unwrap();
        published.insert([7u8; 32], &[1u8, 2, 3][..]).unwrap();
        let bundles = db.open_tree("bundles").unwrap();
        bundles.insert([7u8; 32], &[0u8; 40][..]).unwrap();
        db.flush().unwrap();
    }
    let store = BundleStore::new(dir.path().to_str().unwrap()).unwrap();
    assert!(matches!(store.get_published_by_id(&[7u8; 32]), Err(StoreError::Corrupted)));
    assert!(matches!(store.get_all_published_sites(), Err(StoreError::Corrupted)));
    assert!(matches!(store.get_bundle(&[7u8; 32]), Err(StoreError::Corrupted)));
    assert!(store.get_published_by_id(&[8u8; 32]).unwrap().is_none());
    assert!(store.get_all_hosted_sites().unwrap().is_empty());
}

#[test]
fn an_access_sets_the_time_and_counts_once() {
    let site = HostedSite {
        site_id: [4u8; 32],
        name: "pinned".to_string(),
        revision: 9,
        hosted_at: 100,
        last_accessed: 150,
        access_count: 41,
    };
    let after = accessed(site.clone(), 777);
    assert_eq!(after.site_id, [4u8; 32]);
    assert_eq!(after.name, "pinned");
    assert_eq!((after.revision, after.hosted_at), (9, 100));
    assert_eq!((after.last_accessed, after.access_count), (777, 42));

    let full = accessed(HostedSite { access_count: u64::MAX, ..site }, 5);
    assert_eq!((full.last_accessed, full.access_count), (5, u64::MAX));
}

#[test]
fn listed_keys_are_named_by_their_bytes() {
    let list = vec![
        (b"alpha".to_vec(), vec![1u8; 32]),
        ("zo\u{eb}".as_bytes().to_vec(), vec![2u8; 32]),
        (vec![0x66, 0xff, 0x67], vec![3u8; 32]),
        (Vec::new(), Vec::new()),
    ];
    assert_eq!(
        names_of(&list),
        vec!["alpha".to_string(), "zo\u{eb}".to_string(), "f\u{fffd}g".to_string(), String::new()]
    );
    assert!(names_of(&Vec::new()).is_empty());
}

#[test]
fn a_flush_reports_what_the_database_answered() {
    assert!(matches!(flush_outcome(Ok(0)), Ok(())));
    assert!(matches!(flush_outcome(Ok(4096)), Ok(())));
    let refused = flush_outcome(Err(sled::Error::Unsupported("read-only".to_string())));
    match refused {
        Err(StoreError::Storage { message }) => assert!(message.contains("read-only")),
        other => panic!("unexpected {:?}", other),
    }

    let dir = tempfile::tempdir().unwrap();
    let path = dir.path().to_str().unwrap();
    let mut chunks = ChunkStore::new(path).unwrap();
    chunks.put(b"kept").unwrap();
    chunks.flush().unwrap();
    KeyStore::new(path).unwrap().flush().unwrap();
    BundleStore::new(path).unwrap().flush().unwrap();
    assert!(dir.path().join("chunks").is_dir());
    assert!(dir.path().join("keys.db").is_dir());
    assert!(dir.path().join("sites.db").is_dir());
}

#[test]
fn cached_chunks_are_read_without_the_database() {
    let dir = tempfile::tempdir().unwrap();
    let mut store = ChunkStore::new(dir.path().to_str().unwrap()).unwrap();
    let ids: Vec<[u8; 32]> =
        (0u32..1200).map(|n| store.put(&n.to_le_bytes()).unwrap()).collect();
    // Whatever the cache has dropped on the way, every chunk is still read.
    for (n, id) in ids.iter().enumerate() {
        assert_eq!(store.get(id).unwrap(), Some((n as u32).to_le_bytes().to_vec()));
        assert!(store.contains(id).unwrap());
    }
    assert_eq!(store.get_missing(&ids).unwrap(), Vec::<[u8; 32]>::new());
    assert_eq!(store.get_missing(&[]).unwrap(), Vec::<[u8; 32]>::new());
    assert_eq!(store.count(), 1200);
}

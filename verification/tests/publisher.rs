use grabnet::crypto::hash::{hash, SiteIdExt};
use grabnet::crypto::merkle::MerkleTree;
use grabnet::crypto::signing::verify_bundle;
use grabnet::gateway::{
    answer_file, etag_of, find_file, read_file, read_payload, FileAnswer, FileError,
};
use grabnet::publisher::bundle::{
    build_routes, detect_entry, find_path, is_intact, site_name, update_options,
};
use grabnet::publisher::files::{
    bundle_file, is_compressible, is_ignored, pick_payload, split_chunks, stored_payload,
};
use grabnet::publisher::order::{insert_entry, path_before, sort_entries};
use grabnet::publisher::{PublishError, PublishOptions, Publisher, SourceFile};
use grabnet::status::{stats_from, storage_stats};
use grabnet::storage::{BundleStore, ChunkStore, KeyStore};
use grabnet::types::{Compression, FileEntry, RouteConfig, SiteId};

fn new_publisher(data_dir: &std::path::Path) -> Publisher {
    let path = data_dir.to_str().unwrap();
    Publisher::new(
        ChunkStore::new(path).unwrap(),
        BundleStore::new(path).unwrap(),
        KeyStore::new(path).unwrap(),
    )
}

fn file(path: &str, content: &[u8]) -> SourceFile {
    SourceFile { path: path.to_string(), content: content.to_vec() }
}

fn entry(path: &str) -> FileEntry {
    FileEntry {
        path: path.to_string(),
        hash: hash(path.as_bytes()),
        size: 0,
        mime_type: "text/plain".to_string(),
        chunks: vec![],
        compression: None,
    }
}

#[test]
fn test_publish() {
    // Create test site
    let files = vec![
        file("index.html", b"<h1>Hello</h1>"),
        file("style.css", b"body { color: red; }"),
    ];

    // Create stores
    let data_dir = tempfile::tempdir().unwrap();
    let mut publisher = new_publisher(data_dir.path());

    let result = publisher
        .publish("/srv/sites/demo", &files, PublishOptions { compress: true, ..Default::default() })
        .unwrap();

    assert_eq!(result.file_count, 2);
    assert_eq!(result.bundle.revision, 1);
    assert_eq!(result.bundle.manifest.entry, "index.html");
}

#[test]
fn single_file_publish_then_republish_then_change() {
    let data_dir = tempfile::tempdir().unwrap();
    let mut publisher = new_publisher(data_dir.path());
    let files = vec![file("index.html", b"<h1>Hi</h1>")];

    // Single-file publish.
    let first = publisher.publish("/home/me/mysite", &files, PublishOptions::default()).unwrap();
    assert_eq!(first.file_count, 1);
    assert_eq!(first.bundle.revision, 1);
    assert_eq!(first.bundle.name, "mysite");
    assert_eq!(first.bundle.manifest.entry, "index.html");
    assert_eq!(first.bundle.manifest.files[0].chunks, vec![hash(b"<h1>Hi</h1>")]);
    assert_eq!(first.bundle.manifest.files[0].hash, hash(b"<h1>Hi</h1>"));
    assert_eq!(first.chunk_count, 1);
    assert_eq!(first.new_chunks, 1);
    assert_eq!(first.total_size, 11);
    assert_eq!(first.compressed_size, 11);
    let default_key = publisher.key_store.get_public_key("default").unwrap().unwrap();
    assert_eq!(first.bundle.publisher, default_key);
    assert_eq!(first.bundle.site_id, SiteId::generate(&default_key, "mysite"));
    assert!(verify_bundle(
        &first.bundle.site_id,
        first.bundle.revision,
        &first.bundle.root_hash,
        &first.bundle.signature,
        &first.bundle.publisher
    ));
    assert_eq!(first.bundle.root_hash, MerkleTree::new(vec![hash(b"<h1>Hi</h1>")]).root());
    assert!(first.bundle.manifest.routes.is_none());
    assert!(first.bundle.manifest.headers.is_none());

    // Idempotent republish.
    let second = publisher.publish("/home/me/mysite", &files, PublishOptions::default()).unwrap();
    assert_eq!(second.file_count, 1);
    assert_eq!(second.bundle.revision, 2);
    assert_eq!(second.bundle.root_hash, first.bundle.root_hash);
    assert_eq!(second.bundle.site_id, first.bundle.site_id);
    assert_eq!(second.new_chunks, 0);
    assert!(verify_bundle(
        &second.bundle.site_id,
        2,
        &second.bundle.root_hash,
        &second.bundle.signature,
        &second.bundle.publisher
    ));

    // One file changed, one added.
    let changed = vec![file("style.css", b"body{}"), file("index.html", b"<h1>Hello</h1>")];
    let third = publisher.publish("/home/me/mysite", &changed, PublishOptions::default()).unwrap();
    assert_eq!(third.bundle.revision, 3);
    assert_eq!(third.file_count, 2);
    assert_eq!(third.new_chunks, 2);
    assert_ne!(third.bundle.root_hash, second.bundle.root_hash);
    let paths: Vec<&str> = third.bundle.manifest.files.iter().map(|f| f.path.as_str()).collect();
    assert_eq!(paths, vec!["index.html", "style.css"]);
    assert_eq!(
        third.bundle.root_hash,
        MerkleTree::new(vec![hash(b"<h1>Hello</h1>"), hash(b"body{}")]).root()
    );

    // The stores hold the last revision; the first publish time is kept.
    let stored = publisher.bundle_store.get_bundle(&first.bundle.site_id).unwrap().unwrap();
    assert_eq!(stored.revision, 3);
    let record = publisher.bundle_store.get_published_site("mysite").unwrap().unwrap();
    assert_eq!(record.revision, 3);
    assert_eq!(record.root_path, "/home/me/mysite");
    assert_eq!(record.created_at, first.bundle.created_at);
    assert_eq!(record.updated_at, third.bundle.created_at);
}

#[test]
fn publish_at_fixes_the_times() {
    let data_dir = tempfile::tempdir().unwrap();
    let mut publisher = new_publisher(data_dir.path());
    let files = vec![file("main.html", b"x")];
    let first = publisher
        .publish_at("/p", &Some("given".to_string()), &files, PublishOptions::default(), 111)
        .unwrap();
    assert_eq!(first.bundle.created_at, 111);
    assert_eq!(first.bundle.name, "given");
    assert_eq!(first.bundle.manifest.entry, "main.html");
    let second = publisher.publish_at("/p", &Some("given".to_string()), &files, PublishOptions::default(), 222).unwrap();
    assert_eq!(second.bundle.revision, 2);
    let record = publisher.bundle_store.get_published_by_id(&first.bundle.site_id).unwrap().unwrap();
    assert_eq!((record.created_at, record.updated_at), (111, 222));
    let unnamed = publisher.publish_at("/", &None, &files, PublishOptions::default(), 5).unwrap();
    assert_eq!(unnamed.bundle.name, "unnamed");
    assert_eq!(unnamed.bundle.revision, 1);
}

#[test]
fn compression_is_kept_only_where_it_is_smaller() {
    let data_dir = tempfile::tempdir().unwrap();
    let mut publisher = new_publisher(data_dir.path());
    let text = vec![b'a'; 10 * 1024];
    let random: [u8; 8] = [0x9f, 0x3c, 0x51, 0xe7, 0x08, 0xb2, 0x6d, 0xfa];
    let files = vec![file("a.txt", &text), file("b.bin", &random), file("c.txt", b"hi")];
    let result = publisher
        .publish("/srv/mixed", &files, PublishOptions { compress: true, ..Default::default() })
        .unwrap();
    let a = &result.bundle.manifest.files[0];
    let b = &result.bundle.manifest.files[1];
    let c = &result.bundle.manifest.files[2];
    assert_eq!((a.path.as_str(), a.compression), ("a.txt", Some(Compression::Gzip)));
    assert_eq!(a.mime_type, "text/plain");
    assert_eq!(a.size, 10240);
    assert_eq!(a.hash, hash(&text));
    assert_eq!((b.path.as_str(), b.compression), ("b.bin", None));
    assert_eq!(b.mime_type, "application/octet-stream");
    // Text that gzip makes longer stays as it is.
    assert_eq!((c.path.as_str(), c.compression), ("c.txt", None));
    assert_eq!(c.chunks, vec![hash(b"hi")]);
    assert_eq!(result.total_size, 10240 + 8 + 2);
    assert!(result.compressed_size < 10240);
    let stored = read_payload(&mut publisher.chunk_store, a).unwrap();
    assert!(stored.len() < 10240);
    assert_eq!(&stored[..2], &[0x1f, 0x8b]);
    assert_eq!(read_file(&mut publisher.chunk_store, a).unwrap(), text);
    assert_eq!(read_file(&mut publisher.chunk_store, b).unwrap(), random.to_vec());

    // Without compression the text is stored as it is.
    let plain = publisher
        .publish("/srv/mixed", &files, PublishOptions { compress: false, ..Default::default() })
        .unwrap();
    assert_eq!(plain.bundle.manifest.files[0].compression, None);
    assert_eq!(plain.compressed_size, plain.total_size);
    assert_eq!(plain.bundle.root_hash, result.bundle.root_hash);
}

#[test]
fn files_are_chunked_by_the_size_asked() {
    let data_dir = tempfile::tempdir().unwrap();
    let mut publisher = new_publisher(data_dir.path());
    let content: Vec<u8> = (0..10u8).collect();
    let files = vec![file("data.bin", &content), file("same.bin", &content)];
    let options = PublishOptions { chunk_size: Some(4), ..Default::default() };
    let result = publisher.publish("/srv/chunks", &files, options).unwrap();
    let expected = vec![hash(&content[0..4]), hash(&content[4..8]), hash(&content[8..10])];
    assert_eq!(result.bundle.manifest.files[0].chunks, expected);
    assert_eq!(result.bundle.manifest.files[1].chunks, expected);
    assert_eq!(result.chunk_count, 6);
    assert_eq!(result.new_chunks, 3);
    assert_eq!(publisher.chunk_store.count(), 3);
    assert_eq!(read_file(&mut publisher.chunk_store, &result.bundle.manifest.files[0]).unwrap(), content);

    let zero = PublishOptions { chunk_size: Some(0), ..Default::default() };
    assert!(matches!(
        publisher.publish("/srv/chunks", &files, zero),
        Err(PublishError::InvalidChunkSize)
    ));
}

#[test]
fn hidden_and_build_paths_are_left_out() {
    let data_dir = tempfile::tempdir().unwrap();
    let mut publisher = new_publisher(data_dir.path());
    let files = vec![
        file("z.html", b"z"),
        file(".env", b"secret"),
        file("a/.hidden/x.txt", b"x"),
        file("node_modules/p/index.js", b"m"),
        file("target/debug/app", b"t"),
        file("a/b.txt", b"b"),
        file("targets.txt", b"kept"),
    ];
    let result = publisher.publish("/srv/x", &files, PublishOptions::default()).unwrap();
    let paths: Vec<&str> = result.bundle.manifest.files.iter().map(|f| f.path.as_str()).collect();
    assert_eq!(paths, vec!["a/b.txt", "targets.txt", "z.html"]);
    assert_eq!(result.file_count, 3);
    assert_eq!(result.total_size, 6);
    // No entry file is there: the entry is recorded all the same.
    assert_eq!(result.bundle.manifest.entry, "index.html");
    assert!(is_ignored(".git/config"));
    assert!(is_ignored("docs/.DS_Store"));
    assert!(is_ignored("node_modules/x"));
    assert!(is_ignored("target/x"));
    assert!(!is_ignored("node_modules"));
    assert!(!is_ignored("src/target/x"));
    assert!(!is_ignored("a.b/c"));
}

#[test]
fn options_set_name_key_entry_and_routes() {
    let data_dir = tempfile::tempdir().unwrap();
    let mut publisher = new_publisher(data_dir.path());
    let files = vec![file("app.html", b"app"), file("index.htm", b"i")];
    let options = PublishOptions {
        name: Some("named".to_string()),
        entry: Some("app.html".to_string()),
        key_name: Some("release".to_string()),
        spa_fallback: Some("app.html".to_string()),
        clean_urls: true,
        ..Default::default()
    };
    let result = publisher.publish("/srv/dir", &files, options).unwrap();
    assert_eq!(result.bundle.name, "named");
    assert_eq!(result.bundle.manifest.entry, "app.html");
    let key = publisher.key_store.get_public_key("release").unwrap().unwrap();
    assert_eq!(result.bundle.publisher, key);
    assert_eq!(result.bundle.site_id, SiteId::generate(&key, "named"));
    assert!(publisher.key_store.get_public_key("default").unwrap().is_none());
    let routes = result.bundle.manifest.routes.unwrap();
    assert!(routes.clean_urls);
    assert_eq!(routes.fallback, Some("app.html".to_string()));
    assert!(routes.redirects.is_empty() && routes.rewrites.is_empty());

    let auto = publisher.publish("/srv/dir", &files, PublishOptions::default()).unwrap();
    assert_eq!(auto.bundle.manifest.entry, "index.htm");
    assert_eq!(auto.bundle.name, "dir");
    assert_eq!(auto.bundle.revision, 1);
}

#[test]
fn entry_detection_and_names() {
    let entries = vec![entry("main.html"), entry("index.htm"), entry("about.html")];
    assert_eq!(detect_entry(&None, &entries), "index.htm");
    assert_eq!(detect_entry(&Some("x.html".to_string()), &entries), "x.html");
    assert_eq!(detect_entry(&None, &entries[..1].to_vec()), "main.html");
    assert_eq!(detect_entry(&None, &vec![entry("a.css")]), "index.html");
    assert_eq!(detect_entry(&None, &vec![entry("index.html"), entry("index.htm")]), "index.html");
    assert_eq!(find_path(&entries, "index.htm"), Some(1));
    assert_eq!(find_path(&entries, "index"), None);
    assert_eq!(site_name(&Some("a".to_string()), &Some("b".to_string())), "a");
    assert_eq!(site_name(&None, &Some("b".to_string())), "b");
    assert_eq!(site_name(&None, &None), "unnamed");
    assert!(build_routes(&None, false).is_none());
    let routes = build_routes(&None, true).unwrap();
    assert!(routes.clean_urls && routes.fallback.is_none());
    let routes = build_routes(&Some("f.html".to_string()), false).unwrap();
    assert!(!routes.clean_urls);
    assert_eq!(routes.fallback, Some("f.html".to_string()));
}

#[test]
fn entries_are_sorted_by_the_bytes_of_their_paths() {
    let mut first = entry("b");
    first.size = 1;
    let mut second = entry("b");
    second.size = 2;
    let sorted = sort_entries(vec![entry("b/c"), first, entry("a"), entry("B"), second, entry("ä"), entry("")]);
    let order: Vec<(&str, u64)> = sorted.iter().map(|e| (e.path.as_str(), e.size)).collect();
    assert_eq!(order, vec![("", 0), ("B", 0), ("a", 0), ("b", 1), ("b", 2), ("b/c", 0), ("ä", 0)]);
    assert!(path_before("a", "b"));
    assert!(path_before("a", "aa"));
    assert!(!path_before("a", "a"));
    assert!(!path_before("b", "a"));
    assert!(path_before("Z", "a"));
    let mut list = vec![entry("a"), entry("c")];
    insert_entry(&mut list, entry("b"));
    insert_entry(&mut list, entry(""));
    insert_entry(&mut list, entry("d"));
    let order: Vec<&str> = list.iter().map(|e| e.path.as_str()).collect();
    assert_eq!(order, vec!["", "a", "b", "c", "d"]);
}

#[test]
fn chunks_and_payloads() {
    assert_eq!(split_chunks(&[], 4), Vec::<Vec<u8>>::new());
    assert_eq!(split_chunks(&[1, 2, 3], 4), vec![vec![1, 2, 3]]);
    assert_eq!(split_chunks(&[1, 2, 3, 4], 4), vec![vec![1, 2, 3, 4]]);
    assert_eq!(split_chunks(&[1, 2, 3, 4, 5], 2), vec![vec![1, 2], vec![3, 4], vec![5]]);
    assert_eq!(pick_payload(vec![1, 2, 3], vec![9, 9]), (vec![9, 9], Some(Compression::Gzip)));
    assert_eq!(pick_payload(vec![1, 2, 3], vec![9, 9, 9]), (vec![1, 2, 3], None));
    assert_eq!(pick_payload(vec![], vec![]), (vec![], None));
    let zeros = vec![0u8; 4096];
    let (packed, how) = stored_payload(&zeros, "text/css", true).unwrap();
    assert_eq!(how, Some(Compression::Gzip));
    assert!(packed.len() < 4096 && packed != zeros);
    assert_eq!(stored_payload(&zeros, "text/css", false).unwrap(), (zeros.clone(), None));
    assert_eq!(stored_payload(&zeros, "image/png", true).unwrap(), (zeros.clone(), None));
    assert!(is_compressible("text/html"));
    assert!(is_compressible("application/javascript"));
    assert!(is_compressible("application/json"));
    assert!(is_compressible("application/xml"));
    assert!(is_compressible("image/svg+xml"));
    assert!(is_compressible("application/wasm"));
    assert!(!is_compressible("application/wasm2"));
    assert!(!is_compressible("image/png"));
    assert!(!is_compressible("application/octet-stream"));
}

#[test]
fn bundle_file_stores_the_pieces() {
    let dir = tempfile::tempdir().unwrap();
    let mut store = ChunkStore::new(dir.path().to_str().unwrap()).unwrap();
    let source = file("pics/logo.svg", b"<svg></svg>");
    let (made, fresh, stored) = bundle_file(&mut store, &source, 4, false).unwrap();
    assert_eq!(made.path, "pics/logo.svg");
    assert_eq!(made.mime_type, "image/svg+xml");
    assert_eq!(made.size, 11);
    assert_eq!(made.hash, hash(b"<svg></svg>"));
    assert_eq!(made.chunks, vec![hash(b"<svg"), hash(b"></s"), hash(b"vg>")]);
    assert_eq!((fresh, stored), (3, 11));
    let (_, fresh, _) = bundle_file(&mut store, &source, 4, false).unwrap();
    assert_eq!(fresh, 0);
}

#[test]
fn read_file_checks_what_it_hands_out() {
    let dir = tempfile::tempdir().unwrap();
    let mut store = ChunkStore::new(dir.path().to_str().unwrap()).unwrap();
    let (made, _, _) = bundle_file(&mut store, &file("a.txt", b"hello there"), 5, false).unwrap();
    assert_eq!(read_file(&mut store, &made).unwrap(), b"hello there".to_vec());
    let mut wrong_hash = made.clone();
    wrong_hash.hash = [0u8; 32];
    assert!(matches!(read_file(&mut store, &wrong_hash), Err(FileError::HashMismatch)));
    let mut missing = made.clone();
    missing.chunks.push([3u8; 32]);
    match read_file(&mut store, &missing) {
        Err(FileError::MissingChunk { chunk_id }) => assert_eq!(chunk_id, [3u8; 32]),
        _ => panic!("a missing chunk went unnoticed"),
    }
    let mut not_gzip = made.clone();
    not_gzip.compression = Some(Compression::Gzip);
    assert!(matches!(read_file(&mut store, &not_gzip), Err(FileError::Unpacking)));
    let mut brotli = made.clone();
    brotli.compression = Some(Compression::Brotli);
    assert!(matches!(read_file(&mut store, &brotli), Err(FileError::UnsupportedCompression)));
    let mut stored_plain = made;
    stored_plain.compression = Some(Compression::Uncompressed);
    assert_eq!(read_file(&mut store, &stored_plain).unwrap(), b"hello there".to_vec());
}

#[test]
fn find_file_follows_the_routes() {
    let files = vec![
        entry("index.html"),
        entry("about.html"),
        entry("docs/index.html"),
        entry("app.html"),
        entry("about"),
    ];
    let plain: Option<&RouteConfig> = None;
    assert_eq!(find_file(&files, "index.html", plain).unwrap().path, "index.html");
    assert_eq!(find_file(&files, "about", plain).unwrap().path, "about");
    assert_eq!(find_file(&files, "docs", plain).unwrap().path, "docs/index.html");
    assert_eq!(find_file(&files, "docs//", plain).unwrap().path, "docs/index.html");
    assert!(find_file(&files, "app", plain).is_none());
    assert!(find_file(&files, "nothing", plain).is_none());
    let clean = RouteConfig { clean_urls: true, fallback: None, redirects: vec![], rewrites: vec![] };
    assert_eq!(find_file(&files, "app", Some(&clean)).unwrap().path, "app.html");
    assert_eq!(find_file(&files, "about", Some(&clean)).unwrap().path, "about");
    assert!(find_file(&files, "nothing", Some(&clean)).is_none());
    let spa = RouteConfig {
        clean_urls: false,
        fallback: Some("app.html".to_string()),
        redirects: vec![],
        rewrites: vec![],
    };
    assert_eq!(find_file(&files, "nothing/at/all", Some(&spa)).unwrap().path, "app.html");
    assert!(find_file(&files, "app", Some(&spa)).unwrap().path == "app.html");
    let lost = RouteConfig {
        clean_urls: false,
        fallback: Some("gone.html".to_string()),
        redirects: vec![],
        rewrites: vec![],
    };
    assert!(find_file(&files, "nothing", Some(&lost)).is_none());
}

#[test]
fn published_bundles_are_intact() {
    let data_dir = tempfile::tempdir().unwrap();
    let mut publisher = new_publisher(data_dir.path());
    let files = vec![file("index.html", b"one"), file("about.html", b"two")];
    let result = publisher.publish("/srv/whole", &files, PublishOptions::default()).unwrap();
    assert!(is_intact(&result.bundle));
    let mut renamed = result.bundle.clone();
    renamed.name = "other".to_string();
    assert!(!is_intact(&renamed));
    let mut edited = result.bundle.clone();
    edited.manifest.files[0].hash = [1u8; 32];
    assert!(!is_intact(&edited));
    let mut bumped = result.bundle.clone();
    bumped.revision += 1;
    assert!(!is_intact(&bumped));
    let mut moved = result.bundle.clone();
    moved.manifest.files.swap(0, 1);
    assert!(!is_intact(&moved));
    // What the signature does not cover may change.
    let mut later = result.bundle;
    later.created_at += 1;
    later.manifest.entry = "about.html".to_string();
    assert!(is_intact(&later));
}

#[test]
fn update_publishes_again_under_the_same_name() {
    let data_dir = tempfile::tempdir().unwrap();
    let mut publisher = new_publisher(data_dir.path());
    let files = vec![file("index.html", b"<h1>one</h1>")];
    let options = PublishOptions {
        name: Some("blog".to_string()),
        compress: true,
        clean_urls: true,
        ..Default::default()
    };
    let first = publisher.publish("/srv/sites/folder", &files, options).unwrap();
    assert_eq!(first.bundle.name, "blog");
    assert_eq!(first.bundle.revision, 1);

    let site = publisher.bundle_store.get_published_site("blog").unwrap().unwrap();
    let again = update_options(&site);
    assert_eq!(again.name, Some("blog".to_string()));
    assert!(again.entry.is_none() && again.key_name.is_none() && again.chunk_size.is_none());
    assert!(!again.compress && !again.clean_urls);
    assert!(again.spa_fallback.is_none() && again.pre_hook.is_none() && again.post_hook.is_none());

    let changed = vec![file("index.html", b"<h1>two</h1>"), file("about.html", b"about")];
    let second = publisher.update(&site, &changed).unwrap();
    assert_eq!(second.bundle.name, "blog");
    assert_eq!(second.bundle.site_id, first.bundle.site_id);
    assert_eq!(second.bundle.revision, 2);
    assert_eq!(second.file_count, 2);
    assert!(second.bundle.manifest.routes.is_none());
    assert!(verify_bundle(
        &second.bundle.site_id,
        2,
        &second.bundle.root_hash,
        &second.bundle.signature,
        &second.bundle.publisher
    ));

    let record = publisher.bundle_store.get_published_site("blog").unwrap().unwrap();
    assert_eq!(record.revision, 2);
    assert_eq!(record.root_path, "/srv/sites/folder");
    assert_eq!(record.created_at, site.created_at);
    assert_eq!(publisher.bundle_store.get_all_published_sites().unwrap().len(), 1);
}

#[test]
fn storage_stats_count_what_the_stores_hold() {
    let data_dir = tempfile::tempdir().unwrap();
    let mut publisher = new_publisher(data_dir.path());
    let empty = storage_stats(&publisher.chunk_store, &publisher.bundle_store);
    assert_eq!(
        (empty.chunks, empty.total_size, empty.published_sites, empty.hosted_sites),
        (0, 0, 0, 0)
    );

    let files = vec![file("index.html", b"0123456789"), file("a.txt", b"abc")];
    let options = PublishOptions { chunk_size: Some(4), ..Default::default() };
    let one = publisher.publish("/srv/sites/one", &files, options).unwrap();
    publisher.publish("/srv/sites/two", &files, PublishOptions::default()).unwrap();
    publisher.bundle_store.save_hosted_site(&one.bundle).unwrap();

    let stats = storage_stats(&publisher.chunk_store, &publisher.bundle_store);
    assert_eq!(stats.chunks, 5);
    assert_eq!(stats.total_size, 4 + 4 + 2 + 3 + 10);
    assert_eq!(stats.published_sites, 2);
    assert_eq!(stats.hosted_sites, 1);
}

#[test]
fn files_are_answered_by_tag_and_encoding() {
    let data_dir = tempfile::tempdir().unwrap();
    let mut publisher = new_publisher(data_dir.path());
    let text = vec![b'a'; 4096];
    let files = vec![file("a.txt", &text), file("b.bin", &[1, 2, 3])];
    let result = publisher
        .publish("/srv/answers", &files, PublishOptions { compress: true, ..Default::default() })
        .unwrap();
    let a = &result.bundle.manifest.files[0];
    let b = &result.bundle.manifest.files[1];
    let tag = etag_of(a);

    // The client's copy is current.
    let answer = answer_file(&mut publisher.chunk_store, a, Some(tag.as_bytes()), "gzip");
    assert!(matches!(answer, FileAnswer::NotModified));

    // Another tag, a client that takes gzip: the stored stream goes out.
    let stream = read_payload(&mut publisher.chunk_store, a).unwrap();
    match answer_file(&mut publisher.chunk_store, a, Some(b"\"other\""), "deflate, gzip") {
        FileAnswer::Body { body, gzip, etag } => {
            assert!(gzip);
            assert_eq!(body, stream);
            assert_eq!(etag, tag);
        }
        other => panic!("unexpected {:?}", other),
    }

    // A client that takes no gzip gets the content.
    match answer_file(&mut publisher.chunk_store, a, None, "identity") {
        FileAnswer::Body { body, gzip, etag } => {
            assert!(!gzip);
            assert_eq!(body, text);
            assert_eq!(etag, tag);
        }
        other => panic!("unexpected {:?}", other),
    }

    // A file stored as it is goes out as it is, whatever the client takes.
    match answer_file(&mut publisher.chunk_store, b, None, "gzip") {
        FileAnswer::Body { body, gzip, etag } => {
            assert!(!gzip);
            assert_eq!(body, vec![1, 2, 3]);
            assert_eq!(etag, etag_of(b));
        }
        other => panic!("unexpected {:?}", other),
    }

    // A chunk that is gone.
    publisher.chunk_store.delete(&b.chunks[0]).unwrap();
    assert!(matches!(
        answer_file(&mut publisher.chunk_store, b, None, ""),
        FileAnswer::Failed { error: FileError::MissingChunk { chunk_id } } if chunk_id == b.chunks[0]
    ));
}

#[test]
fn publish_gives_up_at_the_last_revision() {
    let data_dir = tempfile::tempdir().unwrap();
    let mut publisher = new_publisher(data_dir.path());
    let (public, _) = publisher.key_store.get_or_create("default").unwrap();
    let site_id = SiteId::generate(&public, "full");
    let record = grabnet::types::PublishedSite {
        site_id,
        name: "full".to_string(),
        revision: u64::MAX,
        root_path: "/srv/full".to_string(),
        created_at: 1,
        updated_at: 2,
    };
    publisher.bundle_store.save_published_site(&record).unwrap();

    let files = vec![file("index.html", b"<h1>Hi</h1>")];
    let outcome = publisher.publish("/srv/full", &files, PublishOptions::default());
    assert!(matches!(outcome, Err(PublishError::RevisionExhausted)));
    assert_eq!(publisher.chunk_store.count(), 0);
    assert!(publisher.bundle_store.get_bundle(&site_id).unwrap().is_none());
    let kept = publisher.bundle_store.get_published_by_id(&site_id).unwrap().unwrap();
    assert_eq!((kept.revision, kept.created_at, kept.updated_at), (u64::MAX, 1, 2));
}

#[test]
fn publish_reports_a_store_that_fails() {
    let data_dir = tempfile::tempdir().unwrap();
    let public = {
        let mut keys = KeyStore::new(data_dir.path().to_str().unwrap()).unwrap();
        keys.get_or_create("default").unwrap().0
    };
    let site_id = SiteId::generate(&public, "broken");
    {
        let db = sled::open(data_dir.path().join("sites.db")).unwrap();
        db.open_tree("published").unwrap().insert(site_id, &[9u8][..]).unwrap();
        db.flush().unwrap();
    }
    let mut publisher = new_publisher(data_dir.path());
    let files = vec![file("index.html", b"<h1>Hi</h1>")];
    let outcome = publisher.publish("/srv/broken", &files, PublishOptions::default());
    assert!(matches!(
        outcome,
        Err(PublishError::Store { error: grabnet::storage::kv::StoreError::Corrupted })
    ));
    assert_eq!(publisher.chunk_store.count(), 0);
}

#[test]
fn files_without_bytes_are_bundled_without_the_store() {
    let data_dir = tempfile::tempdir().unwrap();
    let mut store = ChunkStore::new(data_dir.path().to_str().unwrap()).unwrap();
    let (entries, stats) = grabnet::publisher::bundle::bundle_files(&mut store, &vec![], 4, true).unwrap();
    assert!(entries.is_empty());
    assert_eq!((stats.total_size, stats.compressed_size, stats.chunk_count, stats.new_chunks), (0, 0, 0, 0));

    let hidden = vec![file(".git/config", b"x"), file("node_modules/a.js", b"y")];
    let (entries, _) = grabnet::publisher::bundle::bundle_files(&mut store, &hidden, 4, true).unwrap();
    assert!(entries.is_empty());

    let blank = vec![file("empty.bin", b""), file("also.bin", b"")];
    let (entries, stats) = grabnet::publisher::bundle::bundle_files(&mut store, &blank, 4, true).unwrap();
    assert_eq!(entries.len(), 2);
    assert_eq!(entries[0].path, "also.bin");
    assert!(entries[0].chunks.is_empty() && entries[1].chunks.is_empty());
    assert_eq!(entries[0].hash, hash(b""));
    assert_eq!(stats.chunk_count, 0);
    assert_eq!((store.count(), store.total_size()), (0, 0));
}

#[test]
fn a_republish_stores_nothing_anew() {
    let data_dir = tempfile::tempdir().unwrap();
    let mut publisher = new_publisher(data_dir.path());
    let files = vec![file("index.html", b"<h1>Hi</h1>")];
    let one = publisher.publish("/srv/sites/again", &files, PublishOptions::default()).unwrap();
    assert_eq!((publisher.chunk_store.count(), publisher.chunk_store.total_size()), (1, 11));
    let two = publisher.publish("/srv/sites/again", &files, PublishOptions::default()).unwrap();
    assert_eq!(two.new_chunks, 0);
    assert_eq!(two.file_count, 1);
    assert_eq!(two.bundle.revision, 2);
    assert_eq!(two.bundle.root_hash, one.bundle.root_hash);
    assert_eq!((publisher.chunk_store.count(), publisher.chunk_store.total_size()), (1, 11));
    assert!(publisher.chunk_store.contains(&hash(b"<h1>Hi</h1>")).unwrap());
}

#[test]
fn a_refused_publish_writes_no_record() {
    let data_dir = tempfile::tempdir().unwrap();
    let mut publisher = new_publisher(data_dir.path());
    let files = vec![file("index.html", b"<h1>Hi</h1>")];
    let options = PublishOptions { chunk_size: Some(0), ..Default::default() };
    assert!(matches!(
        publisher.publish("/srv/sites/none", &files, options),
        Err(PublishError::InvalidChunkSize)
    ));
    assert!(publisher.bundle_store.get_all_published_sites().unwrap().is_empty());
    assert_eq!(publisher.bundle_store.resolve_site_id("none").unwrap(), None);
    assert!(publisher.key_store.list_keys().unwrap().is_empty());
    assert_eq!(publisher.chunk_store.count(), 0);
}

#[test]
fn statistics_count_an_unreadable_list_as_empty() {
    let site = grabnet::types::PublishedSite {
        site_id: [1u8; 32],
        name: "one".to_string(),
        revision: 1,
        root_path: "/srv/one".to_string(),
        created_at: 1,
        updated_at: 1,
    };
    let stats = stats_from(7, 4096, &Ok(vec![site.clone(), site]), &Ok(vec![]));
    assert_eq!(
        (stats.chunks, stats.total_size, stats.published_sites, stats.hosted_sites),
        (7, 4096, 2, 0)
    );
    let failed = stats_from(
        7,
        4096,
        &Err(grabnet::storage::kv::StoreError::Corrupted),
        &Err(grabnet::storage::kv::StoreError::Storage { message: "disk".to_string() }),
    );
    assert_eq!(
        (failed.chunks, failed.total_size, failed.published_sites, failed.hosted_sites),
        (7, 4096, 0, 0)
    );
}

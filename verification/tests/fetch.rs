use grabnet::crypto::signing::verify_bundle;
use grabnet::gateway::{find_file, read_file};
use grabnet::network::health::HealthMonitor;
use grabnet::network::lifecycle::{next_host_state, HostEvent, HostState};
use grabnet::network::node::{
    accept_chunks, accept_manifest, chunks_to_fetch, store_fetched_chunks,
};
use grabnet::network::replication::ReplicationManager;
use grabnet::network::swarm::{SwarmAction, SwarmInput, SwarmState};
use grabnet::publisher::{PublishOptions, Publisher, SourceFile};
use grabnet::storage::{BundleStore, ChunkStore, KeyStore};
use grabnet::types::{Compression, GrabRequest, GrabResponse};

fn publisher_in(data_dir: &std::path::Path) -> Publisher {
    let path = data_dir.to_str().unwrap();
    Publisher::new(
        ChunkStore::new(path).unwrap(),
        BundleStore::new(path).unwrap(),
        KeyStore::new(path).unwrap(),
    )
}

#[test]
fn a_site_is_fetched_from_the_peer_that_published_it() {
    // The publishing peer.
    let dir_a = tempfile::tempdir().unwrap();
    let mut a = publisher_in(dir_a.path());
    let files = vec![
        SourceFile { path: "index.html".to_string(), content: b"<h1>Shared</h1>".to_vec() },
        SourceFile { path: "app.js".to_string(), content: vec![b'x'; 5000] },
        SourceFile { path: "logo.bin".to_string(), content: (0u8..200).collect() },
    ];
    let options = PublishOptions { compress: true, chunk_size: Some(64), ..Default::default() };
    let published = a.publish("/srv/sites/shared", &files, options).unwrap();
    let site_id = published.bundle.site_id;
    let mut swarm_a = SwarmState::new("peer-a".to_string(), vec![]);
    let mut replication_a = ReplicationManager::new();
    let actions =
        swarm_a.step(SwarmInput::Announce { site_id, revision: published.bundle.revision });
    assert!(actions
        .iter()
        .any(|action| matches!(action, SwarmAction::StartProviding { site_id: s } if *s == site_id)));

    // The hosting peer starts with nothing.
    let dir_b = tempfile::tempdir().unwrap();
    let path_b = dir_b.path().to_str().unwrap();
    let mut chunks_b = ChunkStore::new(path_b).unwrap();
    let mut bundles_b = BundleStore::new(path_b).unwrap();
    let mut monitor_b = HealthMonitor::new();
    assert!(bundles_b.get_bundle(&site_id).unwrap().is_none());
    let mut state = next_host_state(HostState::Unknown, HostEvent::FetchRequested);
    assert_eq!(state, HostState::Locating);

    let response = swarm_a.serve_request(
        GrabRequest::FindSite { site_id },
        "peer-b",
        &mut a.chunk_store,
        &mut a.bundle_store,
        &mut replication_a,
    );
    match response {
        GrabResponse::SiteHosts { hosts } => {
            assert_eq!(hosts.len(), 1);
            assert_eq!(hosts[0].peer_id, "peer-a");
            assert_eq!(hosts[0].revision, 1);
        }
        other => panic!("unexpected {:?}", other),
    }
    state = next_host_state(state, HostEvent::ProvidersFound);
    assert_eq!(state, HostState::FetchingManifest);

    let response = swarm_a.serve_request(
        GrabRequest::GetManifest { site_id },
        "peer-b",
        &mut a.chunk_store,
        &mut a.bundle_store,
        &mut replication_a,
    );
    let bundle = accept_manifest(&site_id, response).unwrap();
    state = next_host_state(state, HostEvent::ManifestAccepted);
    assert_eq!(state, HostState::FetchingChunks);

    let wanted = chunks_to_fetch(&chunks_b, &bundle.manifest).unwrap();
    assert_eq!(wanted.len(), published.chunk_count);
    let response = swarm_a.serve_request(
        GrabRequest::GetChunks { chunk_ids: wanted.clone() },
        "peer-b",
        &mut a.chunk_store,
        &mut a.bundle_store,
        &mut replication_a,
    );
    let received = accept_chunks(response).unwrap();
    store_fetched_chunks(&mut chunks_b, &mut monitor_b, "peer-a", &wanted, &received).unwrap();
    assert!(chunks_to_fetch(&chunks_b, &bundle.manifest).unwrap().is_empty());
    state = next_host_state(state, HostEvent::ChunksComplete);
    assert_eq!(state, HostState::Ready);
    bundles_b.save_hosted_site(&bundle).unwrap();

    // What the hosting peer holds now.
    let kept = bundles_b.get_bundle(&site_id).unwrap().unwrap();
    assert_eq!(kept.root_hash, published.bundle.root_hash);
    assert_eq!(kept.publisher, published.bundle.publisher);
    assert!(verify_bundle(
        &kept.site_id,
        kept.revision,
        &kept.root_hash,
        &kept.signature,
        &published.bundle.publisher
    ));
    let hosted = bundles_b.get_hosted_site(&site_id).unwrap().unwrap();
    assert_eq!((hosted.name.as_str(), hosted.revision, hosted.access_count), ("shared", 1, 0));
    assert!(bundles_b.get_published_by_id(&site_id).unwrap().is_none());
    assert_eq!(chunks_b.count(), a.chunk_store.count());
    assert_eq!(chunks_b.total_size(), a.chunk_store.total_size());

    // Every file reads back bit for bit.
    let manifest = bundles_b.get_manifest(&site_id).unwrap().unwrap();
    for file in &files {
        let entry = find_file(&manifest.files, &file.path, None).unwrap();
        assert_eq!(read_file(&mut chunks_b, entry).unwrap(), file.content);
    }
    let script = find_file(&manifest.files, "app.js", None).unwrap();
    assert_eq!(script.compression, Some(Compression::Gzip));
    assert_eq!(find_file(&manifest.files, "logo.bin", None).unwrap().compression, None);
}

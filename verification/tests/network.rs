use grabnet::codec::encode;
use grabnet::collections::IdMap;
use grabnet::content::{
    admit_upload, is_type_allowed, ModerationMode, UploadError, UploadPolicy, UploadRejection,
    UploadStatus, UserContentManager,
};
use grabnet::crypto::hash::hash;
use grabnet::crypto::signing::{generate_keypair, sign_bundle};
use grabnet::network::bootstrap::{dial_target, BootstrapConfig};
use grabnet::network::health::{
    mean_with, network_condition, ConnectionHealth, HealthMonitor, NetworkCondition, PeerScore,
};
use grabnet::network::lifecycle::{next_host_state, HostEvent, HostState};
use grabnet::network::node::{
    accept_chunks, accept_manifest, add_served, chunk_ids_of, chunks_to_fetch,
    default_bootstrap_peers,
    handle_request, is_ack,
    manifest_response, store_fetched_chunks, FetchError, COMMAND_MAILBOX_SIZE, IDENTIFY_PROTOCOL,
    IDLE_CONNECTION_TIMEOUT_SECS, PROVIDER_QUERY_TIMEOUT_SECS, REQUEST_TIMEOUT_SECS, SITES_TOPIC,
    UPDATES_TOPIC,
};
use grabnet::network::replication::{
    classify_health, HealthStatus, ReplicationManager, ReplicationPolicy, SiteHealth,
};
use grabnet::network::swarm::{NetworkEvent, SwarmAction, SwarmInput, SwarmState, Topic};
use grabnet::status::{NetworkStatus, StorageStats};
use grabnet::storage::kv::StoreError;
use grabnet::storage::{BundleStore, ChunkStore};
use grabnet::types::{
    default_cache_size, default_chunk_size, default_gateway_host, default_gateway_port,
    default_listen_addresses, default_max_connections, default_network_port,
    default_redirect_status, default_true, Config, FileEntry, GrabRequest, GrabResponse,
    SiteManifest, WebBundle,
};

#[test]
fn test_default_config() {
    let config = BootstrapConfig::default();
    assert!(!config.official.is_empty());
    assert!(config.mdns_enabled);
}

#[test]
fn test_add_remove_custom() {
    let mut config = BootstrapConfig::default();
    config.add_custom("test-node".to_string(), vec!["/ip4/1.2.3.4/tcp/4001".to_string()]);
    assert_eq!(config.custom.len(), 1);

    config.remove_custom("test-node");
    assert_eq!(config.custom.len(), 0);
}

#[test]
fn bootstrap_lists_enabled_nodes_in_order() {
    let mut config = BootstrapConfig::default();
    assert_eq!(config.min_peers, 3);
    assert_eq!(config.max_attempts, 10);
    assert_eq!(config.official[0].name, "grabnet-us-east");
    assert_eq!(config.official[1].region, Some("eu-west".to_string()));
    assert_eq!(config.enabled_count(), 2);
    config.add_custom("mine".to_string(), vec!["/a".to_string(), "/b".to_string()]);
    config.add_custom("off".to_string(), vec!["/c".to_string()]);
    config.add_custom("mine".to_string(), vec![]);
    config.custom[1].enabled = false;
    config.official[0].enabled = false;
    assert_eq!(
        config.get_enabled_addresses(),
        vec!["/dns4/bootstrap-eu.grabnet.io/tcp/4001".to_string(), "/a".to_string(), "/b".to_string()]
    );
    assert_eq!(config.enabled_count(), 3);
    let names: Vec<&str> = config.list_all().iter().map(|n| n.name.as_str()).collect();
    assert_eq!(names, vec!["grabnet-us-east", "grabnet-eu-west", "mine", "off", "mine"]);
    assert!(!config.remove_custom("absent"));
    assert!(config.remove_custom("mine"));
    assert_eq!(config.custom.len(), 1);
    assert_eq!(config.custom[0].name, "off");
    assert_eq!(config.custom[0].peer_id, None);
}

#[test]
fn test_peer_score() {
    let mut score = PeerScore::new("test-peer".to_string());

    // Initial score
    assert_eq!(score.score, 50);

    // Record successes
    score.record_success(50, 1000);
    score.record_success(60, 2000);
    score.record_success(70, 1500);

    // Score should improve
    assert!(score.score > 50);
    assert_eq!(score.successful_responses, 3);

    // Record failure
    score.record_failure();

    // Score should drop slightly
    assert!(score.score < 100);
    assert_eq!(score.failed_requests, 1);
}

#[test]
fn peer_score_formula() {
    let mut score = PeerScore::new("p".to_string());
    score.record_success_at(50, 1000, 77);
    // 60 for success, 30 for speed, 0 for a single request.
    assert_eq!(score.score, 90);
    assert_eq!((score.last_seen, score.bytes_received, score.avg_response_time_ms), (77, 1000, 50));
    score.record_success_at(60, 2000, 78);
    score.record_success_at(70, 1500, 79);
    // (50 + 60) / 2 = 55, then (55 * 2 + 70) / 3 = 60.
    assert_eq!(score.avg_response_time_ms, 60);
    assert_eq!(score.bytes_received, 4500);
    score.record_failure();
    // 3 of 4 succeeded: 45; still fast: 30; 4 requests: 0.
    assert_eq!(score.score, 75);
    assert_eq!((score.total_requests, score.successful_responses, score.failed_requests), (4, 3, 1));
    assert_eq!(score.last_seen, 79);

    let mut slow = PeerScore::new("slow".to_string());
    slow.record_success_at(2550, 0, 1);
    // (5000 - 2550) * 30 / 4900 = 15.
    assert_eq!(slow.score, 75);
    slow.avg_response_time_ms = 5000;
    slow.recalculate_score();
    assert_eq!(slow.score, 60);
    slow.avg_response_time_ms = 5001;
    slow.recalculate_score();
    assert_eq!(slow.score, 60);
    slow.avg_response_time_ms = 100;
    slow.recalculate_score();
    assert_eq!(slow.score, 90);
    slow.avg_response_time_ms = 99;
    slow.total_requests = 100;
    slow.successful_responses = 100;
    slow.recalculate_score();
    assert_eq!(slow.score, 100);
    slow.total_requests = 101;
    slow.successful_responses = 101;
    slow.recalculate_score();
    assert_eq!(slow.score, 100);
    slow.total_requests = 57;
    slow.successful_responses = 0;
    slow.recalculate_score();
    assert_eq!(slow.score, 35);

    let mut bad = PeerScore::new("bad".to_string());
    bad.record_failure();
    assert_eq!(bad.score, 30);
    assert_eq!(mean_with(10, 0, 5), 10);
    assert_eq!(mean_with(10, 1, 5), 5);
    assert_eq!(mean_with(u64::MAX, u64::MAX, u64::MAX), u64::MAX);
    assert_eq!(mean_with(10, 4, 11), 10);
}

#[test]
fn test_health_monitor() {
    let mut monitor = HealthMonitor::new();

    // Connect peers
    monitor.peer_connected("peer1");
    monitor.peer_connected("peer2");

    let metrics = monitor.get_metrics();
    assert_eq!(metrics.connected_peers, 2);
    assert_eq!(metrics.total_peers_seen, 2);

    // Record requests
    monitor.record_request_success("peer1", 100, 1000);
    monitor.record_request_success("peer1", 50, 500);
    monitor.record_request_failure("peer2");

    let metrics = monitor.get_metrics();
    assert_eq!(metrics.total_requests, 3);
    assert_eq!(metrics.successful_requests, 2);

    // Check peer scores
    let score1 = monitor.get_peer_score("peer1").unwrap();
    assert!(score1.score > 50);

    let score2 = monitor.get_peer_score("peer2").unwrap();
    assert!(score2.score < 50);
}

#[test]
fn test_top_peers() {
    let mut monitor = HealthMonitor::new();

    monitor.peer_connected("good-peer");
    monitor.record_request_success("good-peer", 50, 1000);
    monitor.record_request_success("good-peer", 60, 1000);

    monitor.peer_connected("bad-peer");
    monitor.record_request_failure("bad-peer");
    monitor.record_request_failure("bad-peer");

    let top = monitor.get_top_peers(5);
    assert_eq!(top.len(), 2);
    assert_eq!(top[0].peer_id, "good-peer");
}

#[test]
fn monitor_ranks_and_sums_up() {
    let mut monitor = HealthMonitor::new_at(10_000);
    monitor.record_request_failure("c");
    monitor.record_request_success_at("a", 50, 10, 11_000);
    monitor.peer_connected("b");
    monitor.peer_connected("d");
    monitor.record_request_success_at("e", 50, 30, 12_000);
    monitor.peer_disconnected("b");
    let order: Vec<(String, u8)> =
        monitor.get_top_peers(10).into_iter().map(|s| (s.peer_id, s.score)).collect();
    assert_eq!(
        order,
        vec![
            ("a".to_string(), 90),
            ("e".to_string(), 90),
            ("b".to_string(), 50),
            ("d".to_string(), 50),
            ("c".to_string(), 30)
        ]
    );
    assert_eq!(monitor.get_top_peers(2).len(), 2);
    assert_eq!(monitor.get_top_peers(0).len(), 0);
    let all: Vec<String> = monitor.get_all_scores().into_iter().map(|s| s.peer_id).collect();
    assert_eq!(all, vec!["c", "a", "b", "d", "e"]);
    assert!(monitor.get_peer_score("zz").is_none());
    let metrics = monitor.get_metrics_at(75_999);
    assert_eq!(metrics.uptime_secs, 65);
    assert_eq!(metrics.last_updated, 75_999);
    assert_eq!(metrics.connected_peers, 1);
    assert_eq!(metrics.total_peers_seen, 2);
    assert_eq!(metrics.total_bytes_transferred, 40);
    assert_eq!(metrics.avg_latency_ms, 33);
    assert_eq!(monitor.get_metrics_at(5).uptime_secs, 0);
    let summary = monitor.get_health_summary_at(70_000);
    assert_eq!(summary.status, "degraded");
    assert_eq!(summary.peer_count, 5);
    assert_eq!(summary.peer_score_total, 90 + 90 + 50 + 50 + 30);
    assert_eq!((summary.successful_requests, summary.total_requests), (2, 3));
    assert_eq!(summary.uptime_secs, 60);
    monitor.peer_disconnected("b");
    monitor.peer_disconnected("b");
    assert_eq!(monitor.get_metrics_at(0).connected_peers, 0);
    monitor.update_health(ConnectionHealth {
        peer_id: "a".to_string(),
        latency_ms: Some(5),
        reachable: true,
        last_check: 9,
    });
    monitor.update_health(ConnectionHealth {
        peer_id: "a".to_string(),
        latency_ms: None,
        reachable: false,
        last_check: 10,
    });
    assert_eq!(monitor.get_all_health().len(), 1);
    assert_eq!(monitor.get_health("a").unwrap().last_check, 10);
    assert!(monitor.get_health("b").is_none());
    assert!(monitor.get_health_summary().uptime_secs > 0);
}

#[test]
fn network_condition_thresholds() {
    assert_eq!(network_condition(0, 0), NetworkCondition::Degraded);
    assert_eq!(network_condition(95, 100), NetworkCondition::Healthy);
    assert_eq!(network_condition(94, 100), NetworkCondition::Good);
    assert_eq!(network_condition(80, 100), NetworkCondition::Good);
    assert_eq!(network_condition(79, 100), NetworkCondition::Degraded);
    assert_eq!(network_condition(u64::MAX, u64::MAX), NetworkCondition::Healthy);
    assert_eq!(NetworkCondition::Good.label(), "good");
    assert_eq!(NetworkCondition::Healthy.label(), "healthy");
    assert_eq!(NetworkCondition::Degraded.label(), "degraded");
}

#[test]
fn test_replication_policy() {
    let mut manager = ReplicationManager::new();
    let site_id = [0u8; 32];

    // Default policy
    let policy = manager.get_policy(&site_id);
    assert_eq!(policy.min_replicas, 3);

    // Custom policy
    manager.set_policy(
        site_id,
        ReplicationPolicy { min_replicas: 5, max_replicas: 20, ..Default::default() },
    );

    let policy = manager.get_policy(&site_id);
    assert_eq!(policy.min_replicas, 5);
}

#[test]
fn test_host_tracking() {
    let mut manager = ReplicationManager::new();
    let site_id = [1u8; 32];

    manager.add_host(site_id, "peer1".to_string());
    manager.add_host(site_id, "peer2".to_string());

    let hosts = manager.get_hosts(&site_id);
    assert_eq!(hosts.len(), 2);

    manager.remove_host(&site_id, "peer1");
    let hosts = manager.get_hosts(&site_id);
    assert_eq!(hosts.len(), 1);
}

#[test]
fn test_needs_replication() {
    let mut manager = ReplicationManager::new();
    let site_id = [2u8; 32];

    manager.set_policy(
        site_id,
        ReplicationPolicy { min_replicas: 3, auto_replicate: true, ..Default::default() },
    );

    // No hosts - needs replication
    assert!(manager.needs_replication(&site_id));

    // Add hosts
    manager.add_host(site_id, "peer1".to_string());
    manager.add_host(site_id, "peer2".to_string());
    assert!(manager.needs_replication(&site_id)); // Still need 1 more

    manager.add_host(site_id, "peer3".to_string());
    assert!(!manager.needs_replication(&site_id)); // Met minimum
}

#[test]
fn replication_defaults_and_announce_timing() {
    let policy = ReplicationPolicy::default();
    assert_eq!((policy.min_replicas, policy.max_replicas, policy.priority), (3, 10, 5));
    assert_eq!(policy.announce_interval_secs, 3600);
    assert!(policy.auto_replicate);
    let mut manager = ReplicationManager::default();
    let site = [4u8; 32];
    assert!(manager.should_announce(&site));
    assert!(manager.should_announce_at(&site, 0));
    manager.record_announce_at(site, 1_000_000);
    assert!(!manager.should_announce_at(&site, 1_000_000));
    assert!(!manager.should_announce_at(&site, 1_000_000 + 3_600_000));
    assert!(manager.should_announce_at(&site, 1_000_000 + 3_600_001));
    assert!(!manager.should_announce_at(&site, 999_999));
    manager.set_policy(site, ReplicationPolicy { announce_interval_secs: u64::MAX, ..policy });
    assert!(!manager.should_announce_at(&site, u64::MAX));
    manager.record_announce(site);
    assert!(!manager.should_announce(&site));
    manager.set_policy(site, ReplicationPolicy { auto_replicate: false, ..policy });
    assert!(!manager.needs_replication(&site));
    manager.add_host(site, "p".to_string());
    manager.add_host(site, "p".to_string());
    assert_eq!(manager.get_hosts(&site), vec!["p".to_string()]);
    manager.remove_host(&site, "q");
    manager.remove_host(&[5u8; 32], "p");
    assert_eq!(manager.get_hosts(&site), vec!["p".to_string()]);
    assert!(manager.get_hosts(&[5u8; 32]).is_empty());
}

fn health(site: u8, status: HealthStatus) -> SiteHealth {
    SiteHealth {
        site_id: [site; 32],
        known_hosts: 1,
        verified_hosts: 1,
        last_check: 5,
        status,
        missing_chunks: vec![[site; 32]],
    }
}

#[test]
fn sites_needing_attention_and_stats() {
    let mut manager = ReplicationManager::new();
    manager.update_health(health(1, HealthStatus::Healthy));
    manager.update_health(health(2, HealthStatus::Critical));
    manager.update_health(health(3, HealthStatus::Unknown));
    manager.update_health(health(4, HealthStatus::Degraded));
    manager.update_health(health(3, HealthStatus::Degraded));
    let policy = ReplicationPolicy { min_replicas: 2, ..Default::default() };
    manager.set_policy([1u8; 32], policy);
    manager.set_policy([2u8; 32], policy);
    manager.set_policy([5u8; 32], policy);
    manager.set_policy([6u8; 32], policy);
    manager.add_host([1u8; 32], "a".to_string());
    manager.add_host([6u8; 32], "a".to_string());
    manager.add_host([6u8; 32], "b".to_string());
    let attention = manager.get_sites_needing_attention();
    let seen: Vec<(u8, HealthStatus, usize)> =
        attention.iter().map(|(id, h)| (id[0], h.status, h.known_hosts)).collect();
    assert_eq!(
        seen,
        vec![
            (2, HealthStatus::Critical, 1),
            (3, HealthStatus::Degraded, 1),
            (4, HealthStatus::Degraded, 1),
            (1, HealthStatus::Degraded, 1),
            (5, HealthStatus::Degraded, 0)
        ]
    );
    assert_eq!(attention[3].1.missing_chunks.len(), 0);
    assert_eq!(attention[3].1.verified_hosts, 0);
    assert_eq!(manager.get_health(&[2u8; 32]).unwrap().missing_chunks, vec![[2u8; 32]]);
    assert!(manager.get_health(&[9u8; 32]).is_none());
    let stats = manager.get_stats();
    assert_eq!(stats.total_sites, 4);
    assert_eq!((stats.healthy_sites, stats.degraded_sites, stats.critical_sites), (1, 0, 1));
    assert_eq!(stats.total_replicas, 3);
    let p = ReplicationPolicy::default();
    assert_eq!(classify_health(3, 0, &p, 10), HealthStatus::Healthy);
    assert_eq!(classify_health(2, 0, &p, 10), HealthStatus::Degraded);
    assert_eq!(classify_health(3, 1, &p, 10), HealthStatus::Degraded);
    assert_eq!(classify_health(3, 10, &p, 10), HealthStatus::Degraded);
    assert_eq!(classify_health(3, 11, &p, 10), HealthStatus::Critical);
    assert_eq!(classify_health(0, 0, &p, 10), HealthStatus::Critical);
}

fn signed_bundle(private: &[u8; 32], public: [u8; 32], revision: u64) -> WebBundle {
    let site_id = [1u8; 32];
    let root_hash = [2u8; 32];
    WebBundle {
        site_id,
        name: "test-site".to_string(),
        revision,
        root_hash,
        publisher: public,
        signature: sign_bundle(&site_id, revision, &root_hash, private),
        manifest: SiteManifest {
            files: vec![],
            entry: "index.html".to_string(),
            routes: None,
            headers: None,
        },
        created_at: 1,
    }
}

#[test]
fn requests_are_answered() {
    let dir = tempfile::tempdir().unwrap();
    let path = dir.path().to_str().unwrap();
    let mut chunks = ChunkStore::new(path).unwrap();
    let mut bundles = BundleStore::new(path).unwrap();
    let mut replication = ReplicationManager::new();
    let mut announced: IdMap<u64> = IdMap::new();
    announced.set([1u8; 32], 7);
    let (public, private) = generate_keypair();

    // FindSite: ourselves for a site we announce, nobody else.
    let response = handle_request(
        GrabRequest::FindSite { site_id: [1u8; 32] },
        "peer-a",
        &mut chunks,
        &mut bundles,
        &mut replication,
        &announced,
        "local-peer",
    );
    match response {
        GrabResponse::SiteHosts { hosts } => {
            assert_eq!(hosts.len(), 1);
            assert_eq!(hosts[0].peer_id, "local-peer");
            assert!(hosts[0].addresses.is_empty());
            assert_eq!(hosts[0].revision, 7);
        }
        other => panic!("unexpected {:?}", other),
    }
    let response = handle_request(
        GrabRequest::FindSite { site_id: [9u8; 32] },
        "peer-a",
        &mut chunks,
        &mut bundles,
        &mut replication,
        &announced,
        "local-peer",
    );
    assert!(matches!(response, GrabResponse::SiteHosts { hosts } if hosts.is_empty()));

    // GetManifest: not found, then found.
    let response = handle_request(
        GrabRequest::GetManifest { site_id: [1u8; 32] },
        "peer-a",
        &mut chunks,
        &mut bundles,
        &mut replication,
        &announced,
        "local-peer",
    );
    assert!(matches!(response, GrabResponse::Error { message } if message == "Site not found"));

    // PushUpdate: a good signature is stored, a bad one and a stale one are not.
    let good = signed_bundle(&private, public, 5);
    let response = handle_request(
        GrabRequest::PushUpdate { bundle: Box::new(good.clone()) },
        "peer-a",
        &mut chunks,
        &mut bundles,
        &mut replication,
        &announced,
        "local-peer",
    );
    assert!(matches!(response, GrabResponse::Ack));
    assert_eq!(bundles.get_bundle(&[1u8; 32]).unwrap().unwrap().revision, 5);
    assert_eq!(bundles.get_manifest(&[1u8; 32]).unwrap().unwrap().entry, "index.html");
    let mut forged = signed_bundle(&private, public, 6);
    forged.revision = 9;
    let response = handle_request(
        GrabRequest::PushUpdate { bundle: Box::new(forged) },
        "peer-a",
        &mut chunks,
        &mut bundles,
        &mut replication,
        &announced,
        "local-peer",
    );
    assert!(matches!(response, GrabResponse::Error { message } if message == "invalid signature"));
    assert_eq!(bundles.get_bundle(&[1u8; 32]).unwrap().unwrap().revision, 5);
    let response = handle_request(
        GrabRequest::PushUpdate { bundle: Box::new(signed_bundle(&private, public, 4)) },
        "peer-a",
        &mut chunks,
        &mut bundles,
        &mut replication,
        &announced,
        "local-peer",
    );
    assert!(matches!(response, GrabResponse::Error { .. }));
    assert_eq!(bundles.get_bundle(&[1u8; 32]).unwrap().unwrap().revision, 5);
    let response = handle_request(
        GrabRequest::PushUpdate { bundle: Box::new(signed_bundle(&private, public, 5)) },
        "peer-a",
        &mut chunks,
        &mut bundles,
        &mut replication,
        &announced,
        "local-peer",
    );
    assert!(matches!(response, GrabResponse::Ack));
    let response = handle_request(
        GrabRequest::GetManifest { site_id: [1u8; 32] },
        "peer-a",
        &mut chunks,
        &mut bundles,
        &mut replication,
        &announced,
        "local-peer",
    );
    match response {
        GrabResponse::Manifest { bundle } => assert_eq!(encode(&*bundle), encode(&good)),
        other => panic!("unexpected {:?}", other),
    }

    // GetChunks: what we have, in the order asked; the rest is left out.
    let a = chunks.put(b"a").unwrap();
    let b = chunks.put(b"b").unwrap();
    let response = handle_request(
        GrabRequest::GetChunks { chunk_ids: vec![b, [0u8; 32], a] },
        "peer-a",
        &mut chunks,
        &mut bundles,
        &mut replication,
        &announced,
        "local-peer",
    );
    match response {
        GrabResponse::Chunks { chunks } => {
            assert_eq!(chunks, vec![(b, b"b".to_vec()), (a, b"a".to_vec())])
        }
        other => panic!("unexpected {:?}", other),
    }

    // Announce: acknowledged, and the peer is a known host from then on.
    let response = handle_request(
        GrabRequest::Announce { site_id: [3u8; 32], revision: 2 },
        "peer-a",
        &mut chunks,
        &mut bundles,
        &mut replication,
        &announced,
        "local-peer",
    );
    assert!(matches!(response, GrabResponse::Ack));
    assert_eq!(replication.get_hosts(&[3u8; 32]), vec!["peer-a".to_string()]);
}

#[test]
fn responses_are_weighed() {
    let (public, private) = generate_keypair();
    let good = signed_bundle(&private, public, 3);
    let accepted =
        accept_manifest(&[1u8; 32], GrabResponse::Manifest { bundle: Box::new(good.clone()) });
    assert_eq!(accepted.unwrap().revision, 3);
    assert!(accept_manifest(&[2u8; 32], GrabResponse::Manifest { bundle: Box::new(good.clone()) })
        .is_none());
    let mut forged = good.clone();
    forged.root_hash = [9u8; 32];
    assert!(accept_manifest(&[1u8; 32], GrabResponse::Manifest { bundle: Box::new(forged) })
        .is_none());
    assert!(accept_manifest(&[1u8; 32], GrabResponse::Ack).is_none());
    assert!(is_ack(&GrabResponse::Ack));
    assert!(!is_ack(&GrabResponse::Error { message: "no".to_string() }));
    assert_eq!(
        accept_chunks(GrabResponse::Chunks { chunks: vec![([1u8; 32], vec![1])] }).unwrap(),
        vec![([1u8; 32], vec![1])]
    );
    assert!(matches!(
        accept_chunks(GrabResponse::Error { message: "gone".to_string() }),
        Err(FetchError::Remote { message }) if message == "gone"
    ));
    assert!(matches!(accept_chunks(GrabResponse::Ack), Err(FetchError::UnexpectedResponse)));
    assert!(matches!(
        manifest_response(Ok(None)),
        GrabResponse::Error { message } if message == "Site not found"
    ));
    assert!(matches!(
        manifest_response(Err(StoreError::Storage { message: "disk".to_string() })),
        GrabResponse::Error { message } if message == "disk"
    ));
    assert!(matches!(manifest_response(Ok(Some(good))), GrabResponse::Manifest { .. }));
}

#[test]
fn tampered_chunk_is_rejected() {
    let dir = tempfile::tempdir().unwrap();
    let mut store = ChunkStore::new(dir.path().to_str().unwrap()).unwrap();
    let mut monitor = HealthMonitor::new();
    let wanted = vec![hash(b"good"), hash(b"other")];
    let tampered = vec![(hash(b"good"), b"good".to_vec()), (hash(b"other"), b"evil".to_vec())];
    let outcome = store_fetched_chunks(&mut store, &mut monitor, "peer-a", &wanted, &tampered);
    assert!(matches!(outcome, Err(FetchError::Tampered)));
    assert_eq!(store.count(), 0);
    assert!(!store.contains(&hash(b"good")).unwrap());
    assert!(!store.contains(&hash(b"evil")).unwrap());
    let score = monitor.get_peer_score("peer-a").unwrap();
    assert_eq!((score.failed_requests, score.total_requests), (1, 1));

    // A genuine chunk that nobody asked for is refused as well.
    let unasked = vec![(hash(b"extra"), b"extra".to_vec())];
    let outcome = store_fetched_chunks(&mut store, &mut monitor, "peer-a", &wanted, &unasked);
    assert!(matches!(outcome, Err(FetchError::Tampered)));
    assert_eq!(monitor.get_peer_score("peer-a").unwrap().failed_requests, 2);

    let genuine = vec![(hash(b"other"), b"other".to_vec()), (hash(b"good"), b"good".to_vec())];
    store_fetched_chunks(&mut store, &mut monitor, "peer-b", &wanted, &genuine).unwrap();
    assert_eq!(store.get(&hash(b"good")).unwrap(), Some(b"good".to_vec()));
    assert_eq!(store.count(), 2);
    assert!(monitor.get_peer_score("peer-b").is_none());
}

#[test]
fn swarm_commands_become_actions() {
    let mut state =
        SwarmState::new("local".to_string(), vec!["/ip4/1.1.1.1/tcp/1".to_string(), "/x".to_string()]);
    assert!(state.running);
    let actions = state.step(SwarmInput::Dial { address: "/ip4/9.9.9.9/tcp/4001".to_string() });
    assert!(matches!(&actions[..], [SwarmAction::Dial { address }] if address == "/ip4/9.9.9.9/tcp/4001"));

    let actions = state.step(SwarmInput::Bootstrap);
    assert_eq!(actions.len(), 3);
    assert!(matches!(&actions[0], SwarmAction::Dial { address } if address == "/ip4/1.1.1.1/tcp/1"));
    assert!(matches!(&actions[1], SwarmAction::Dial { address } if address == "/x"));
    assert!(matches!(&actions[2], SwarmAction::BootstrapDht));

    let actions = state.step(SwarmInput::Announce { site_id: [7u8; 32], revision: 3 });
    assert_eq!(actions.len(), 3);
    assert!(matches!(&actions[0], SwarmAction::StartProviding { site_id } if *site_id == [7u8; 32]));
    let mut record = vec![5, 0, 0, 0, 0, 0, 0, 0];
    record.extend_from_slice(b"local");
    record.extend_from_slice(&3u64.to_le_bytes());
    assert!(matches!(&actions[1], SwarmAction::PutRecord { key, value } if *key == [7u8; 32] && *value == record));
    let mut told = vec![7u8; 32];
    told.extend_from_slice(&3u64.to_le_bytes());
    assert!(matches!(&actions[2], SwarmAction::Publish { topic: Topic::Sites, data } if *data == told));
    assert_eq!(state.announced.get(&[7u8; 32]), Some(&3));
    state.step(SwarmInput::Announce { site_id: [7u8; 32], revision: 4 });
    assert_eq!(state.announced.get(&[7u8; 32]), Some(&4));
    assert_eq!(state.announced.len(), 1);

    let actions = state.step(SwarmInput::SendRequest {
        peer: "peer-a".to_string(),
        request: GrabRequest::GetManifest { site_id: [1u8; 32] },
        reply: 11,
    });
    assert!(matches!(
        &actions[..],
        [SwarmAction::SendRequest { peer, request: GrabRequest::GetManifest { site_id }, reply: 11 }]
            if peer == "peer-a" && *site_id == [1u8; 32]
    ));
    assert!(state.step(SwarmInput::RequestSent { request_id: 100, reply: 11 }).is_empty());
    assert!(state.step(SwarmInput::RequestSent { request_id: 101, reply: 12 }).is_empty());
    assert!(state.step(SwarmInput::RequestSent { request_id: 102, reply: 13 }).is_empty());
    let actions =
        state.step(SwarmInput::ResponseReceived { request_id: 101, response: GrabResponse::Ack });
    assert!(matches!(&actions[..], [SwarmAction::ReplyResponse { reply: 12, response: GrabResponse::Ack }]));
    let actions =
        state.step(SwarmInput::ResponseReceived { request_id: 101, response: GrabResponse::Ack });
    assert!(actions.is_empty());
    let actions =
        state.step(SwarmInput::OutboundFailure { request_id: 100, error: "Timeout".to_string() });
    assert!(matches!(
        &actions[..],
        [SwarmAction::ReplyFailure { reply: 11, message }] if message == "Request failed: Timeout"
    ));
    assert!(state
        .step(SwarmInput::OutboundFailure { request_id: 5, error: "x".to_string() })
        .is_empty());

    let actions = state.step(SwarmInput::Shutdown);
    assert!(matches!(
        &actions[..],
        [SwarmAction::ReplyFailure { reply: 13, message }, SwarmAction::Stop] if message == "shutdown"
    ));
    assert!(!state.running);
    assert_eq!(state.requests.len(), 0);
}

#[test]
fn swarm_events_are_followed() {
    let mut state = SwarmState::new("local".to_string(), default_bootstrap_peers());
    let actions = state.step(SwarmInput::Bootstrap);
    assert!(matches!(&actions[..], [SwarmAction::BootstrapDht]));

    // Connections.
    let actions = state.step(SwarmInput::ConnectionEstablished { peer: "a".to_string() });
    assert!(matches!(
        &actions[..],
        [SwarmAction::Emit { event: NetworkEvent::PeerConnected(peer) }] if peer == "a"
    ));
    state.step(SwarmInput::ConnectionEstablished { peer: "b".to_string() });
    state.step(SwarmInput::ConnectionEstablished { peer: "a".to_string() });
    assert_eq!(state.connected_peers(), 2);
    let actions = state.step(SwarmInput::GetPeers { reply: 1 });
    assert!(matches!(
        &actions[..],
        [SwarmAction::ReplyPeers { reply: 1, peers }] if *peers == vec!["a".to_string(), "b".to_string()]
    ));
    let actions = state.step(SwarmInput::BootstrapFinished);
    assert!(matches!(
        &actions[..],
        [SwarmAction::Emit { event: NetworkEvent::BootstrapComplete { peers: 2 } }]
    ));
    let actions = state.step(SwarmInput::ConnectionClosed { peer: "a".to_string() });
    assert!(matches!(
        &actions[..],
        [SwarmAction::Emit { event: NetworkEvent::PeerDisconnected(peer) }] if peer == "a"
    ));
    assert_eq!(state.connected, vec!["b".to_string()]);

    // Listen addresses.
    state.step(SwarmInput::NewListenAddr { address: "/ip4/0.0.0.0/tcp/4001".to_string() });
    state.step(SwarmInput::NewListenAddr { address: "/ip4/0.0.0.0/tcp/4001".to_string() });
    let actions = state.step(SwarmInput::GetAddresses { reply: 2 });
    assert!(matches!(
        &actions[..],
        [SwarmAction::ReplyAddresses { reply: 2, addresses }]
            if *addresses == vec!["/ip4/0.0.0.0/tcp/4001".to_string()]
    ));

    // Provider queries.
    let actions = state.step(SwarmInput::FindSite { site_id: [3u8; 32], reply: 30 });
    assert!(matches!(
        &actions[..],
        [SwarmAction::GetProviders { site_id, reply: 30 }] if *site_id == [3u8; 32]
    ));
    state.step(SwarmInput::QueryStarted { query_id: 8, site_id: [3u8; 32], reply: 30 });
    state.step(SwarmInput::ProvidersFound { query_id: 8, providers: vec!["x".to_string()] });
    state.step(SwarmInput::ProvidersFound { query_id: 9, providers: vec!["lost".to_string()] });
    state.step(SwarmInput::ProvidersFound {
        query_id: 8,
        providers: vec!["y".to_string(), "x".to_string()],
    });
    assert!(state.step(SwarmInput::ProvidersFinished { query_id: 9 }).is_empty());
    let actions = state.step(SwarmInput::ProvidersFinished { query_id: 8 });
    match &actions[..] {
        [SwarmAction::ReplyHosts { reply: 30, hosts }] => {
            let ids: Vec<&str> = hosts.iter().map(|h| h.peer_id.as_str()).collect();
            assert_eq!(ids, vec!["x", "y", "x"]);
            assert!(hosts.iter().all(|h| h.addresses.is_empty() && h.revision == 0));
        }
        other => panic!("unexpected {:?}", other),
    }
    assert!(state.step(SwarmInput::ProvidersFinished { query_id: 8 }).is_empty());
    state.step(SwarmInput::QueryStarted { query_id: 10, site_id: [3u8; 32], reply: 31 });
    let actions = state.step(SwarmInput::ProvidersFinished { query_id: 10 });
    assert!(matches!(&actions[..], [SwarmAction::ReplyHosts { reply: 31, hosts }] if hosts.is_empty()));

    // Gossip.
    let told = encode(&([4u8; 32], 6u64));
    let actions = state.step(SwarmInput::GossipMessage {
        topic: Topic::Sites,
        source: "b".to_string(),
        data: told.clone(),
    });
    assert!(matches!(
        &actions[..],
        [SwarmAction::Emit { event: NetworkEvent::SiteAnnounced { site_id, peer_id, revision: 6 } }]
            if *site_id == [4u8; 32] && peer_id == "b"
    ));
    let actions = state.step(SwarmInput::GossipMessage {
        topic: Topic::Updates,
        source: "b".to_string(),
        data: told.clone(),
    });
    assert!(matches!(
        &actions[..],
        [SwarmAction::Emit { event: NetworkEvent::SiteUpdated { site_id, revision: 6 } }]
            if *site_id == [4u8; 32]
    ));
    assert!(state
        .step(SwarmInput::GossipMessage { topic: Topic::Other, source: "b".to_string(), data: told })
        .is_empty());
    assert!(state
        .step(SwarmInput::GossipMessage { topic: Topic::Sites, source: "b".to_string(), data: vec![1, 2] })
        .is_empty());

    // Discovery and identification feed the routing table.
    let actions = state.step(SwarmInput::PeersDiscovered {
        peers: vec![("p".to_string(), "/a".to_string()), ("q".to_string(), "/b".to_string())],
    });
    assert!(matches!(
        &actions[..],
        [SwarmAction::AddAddress { peer: p, address: a }, SwarmAction::AddAddress { peer: q, address: b }]
            if p == "p" && a == "/a" && q == "q" && b == "/b"
    ));
    let actions = state.step(SwarmInput::Identified {
        peer: "r".to_string(),
        listen_addrs: vec!["/c".to_string()],
    });
    assert!(matches!(
        &actions[..],
        [SwarmAction::AddAddress { peer, address }] if peer == "r" && address == "/c"
    ));
}

#[test]
fn swarm_serves_requests_with_what_it_announces() {
    let dir = tempfile::tempdir().unwrap();
    let path = dir.path().to_str().unwrap();
    let mut chunks = ChunkStore::new(path).unwrap();
    let mut bundles = BundleStore::new(path).unwrap();
    let mut replication = ReplicationManager::new();
    let mut state = SwarmState::new("me".to_string(), vec![]);
    state.step(SwarmInput::Announce { site_id: [7u8; 32], revision: 2 });
    let response = state.serve_request(
        GrabRequest::FindSite { site_id: [7u8; 32] },
        "them",
        &mut chunks,
        &mut bundles,
        &mut replication,
    );
    assert!(matches!(
        response,
        GrabResponse::SiteHosts { hosts } if hosts.len() == 1 && hosts[0].peer_id == "me" && hosts[0].revision == 2
    ));
}

#[test]
fn protocol_constants() {
    assert_eq!(SITES_TOPIC, "grabnet/sites/1.0.0");
    assert_eq!(UPDATES_TOPIC, "grabnet/updates/1.0.0");
    assert_eq!(IDENTIFY_PROTOCOL, "/grabnet/id/1.0.0");
    assert_eq!(REQUEST_TIMEOUT_SECS, 60);
    assert_eq!(PROVIDER_QUERY_TIMEOUT_SECS, 30);
    assert_eq!(IDLE_CONNECTION_TIMEOUT_SECS, 120);
    assert_eq!(COMMAND_MAILBOX_SIZE, 256);
}

#[test]
fn configuration_defaults() {
    let config = Config::default();
    assert_eq!(config.network.port, 4001);
    assert_eq!(
        config.network.listen_addresses,
        vec!["/ip4/0.0.0.0/tcp/4001".to_string(), "/ip6/::/tcp/4001".to_string()]
    );
    assert!(config.network.bootstrap_peers.is_empty());
    assert_eq!(config.network.max_connections, 100);
    assert_eq!(config.gateway.port, 8080);
    assert_eq!(config.gateway.host, "127.0.0.1");
    assert!(config.gateway.cors);
    assert_eq!(config.storage.cache_size_mb, 256);
    assert_eq!(config.storage.max_storage_gb, 0);
    assert_eq!(config.publisher.chunk_size, 262144);
    assert!(config.publisher.compress);
    assert_eq!(default_network_port(), 4001);
    assert_eq!(default_listen_addresses().len(), 2);
    assert_eq!(default_max_connections(), 100);
    assert_eq!(default_gateway_port(), 8080);
    assert_eq!(default_gateway_host(), "127.0.0.1");
    assert!(default_true());
    assert_eq!(default_cache_size(), 256);
    assert_eq!(default_chunk_size(), 256 * 1024);
    assert_eq!(default_redirect_status(), 301);
    let status = NetworkStatus::default();
    assert!(!status.running && status.peer_id.is_none() && status.peers == 0);
    assert!(status.addresses.is_empty());
    let stats = StorageStats::default();
    assert_eq!((stats.chunks, stats.total_size, stats.published_sites, stats.hosted_sites), (0, 0, 0, 0));
}

#[test]
fn upload_policy_decides() {
    let policy = UploadPolicy::default();
    assert_eq!(policy.max_file_size, 10 * 1024 * 1024);
    assert_eq!(policy.max_storage_per_user, 100 * 1024 * 1024);
    assert_eq!(policy.rate_limit, 60);
    assert_eq!(admit_upload(&policy, false, 11, "text/plain", 0, 0), Ok(UploadStatus::Approved));
    let strict = UploadPolicy {
        max_file_size: 100,
        max_storage_per_user: 150,
        allowed_types: vec!["image/*".to_string(), "text/plain".to_string()],
        require_auth: true,
        moderation: ModerationMode::Pre,
        rate_limit: 2,
    };
    assert_eq!(
        admit_upload(&strict, false, 1000, "video/mp4", 9, 999),
        Err(UploadRejection::AuthenticationRequired)
    );
    assert_eq!(admit_upload(&strict, true, 101, "video/mp4", 9, 999), Err(UploadRejection::FileTooLarge));
    assert_eq!(admit_upload(&strict, true, 100, "video/mp4", 9, 999), Err(UploadRejection::TypeNotAllowed));
    assert_eq!(admit_upload(&strict, true, 100, "image/png", 2, 999), Err(UploadRejection::RateLimitExceeded));
    assert_eq!(admit_upload(&strict, true, 100, "image/png", 1, 51), Err(UploadRejection::QuotaExceeded));
    assert_eq!(admit_upload(&strict, true, 100, "image/png", 1, usize::MAX), Err(UploadRejection::QuotaExceeded));
    assert_eq!(admit_upload(&strict, true, 100, "image/png", 1, 50), Ok(UploadStatus::Pending));
    assert_eq!(admit_upload(&strict, true, 0, "text/plain", 0, 150), Ok(UploadStatus::Pending));
    let post = UploadPolicy { moderation: ModerationMode::Post, ..UploadPolicy::default() };
    assert_eq!(admit_upload(&post, false, 1, "a/b", 0, 0), Ok(UploadStatus::Approved));
    assert!(is_type_allowed("anything", &vec![]));
    assert!(is_type_allowed("text/plain; charset=utf-8", &vec!["text/plain".to_string()]));
    assert!(!is_type_allowed("text", &vec!["text/plain".to_string()]));
    assert!(is_type_allowed("x", &vec!["*".to_string()]));
}

#[test]
fn host_lifecycle() {
    let mut state = HostState::Unknown;
    for (event, expected) in [
        (HostEvent::ProvidersFound, HostState::Unknown),
        (HostEvent::FetchRequested, HostState::Locating),
        (HostEvent::LocateTimedOut, HostState::Unknown),
        (HostEvent::FetchRequested, HostState::Locating),
        (HostEvent::ChunksComplete, HostState::Locating),
        (HostEvent::ProvidersFound, HostState::FetchingManifest),
        (HostEvent::PeersExhausted, HostState::Unknown),
        (HostEvent::FetchRequested, HostState::Locating),
        (HostEvent::ProvidersFound, HostState::FetchingManifest),
        (HostEvent::ManifestAccepted, HostState::FetchingChunks),
        (HostEvent::PeersExhausted, HostState::Unknown),
        (HostEvent::FetchRequested, HostState::Locating),
        (HostEvent::ProvidersFound, HostState::FetchingManifest),
        (HostEvent::ManifestAccepted, HostState::FetchingChunks),
        (HostEvent::SiteUpdated, HostState::FetchingChunks),
        (HostEvent::ChunksComplete, HostState::Ready),
        (HostEvent::FetchRequested, HostState::Ready),
        (HostEvent::SiteUpdated, HostState::Stale),
        (HostEvent::SiteUpdated, HostState::Stale),
        (HostEvent::FetchRequested, HostState::FetchingManifest),
        (HostEvent::ManifestAccepted, HostState::FetchingChunks),
        (HostEvent::ChunksComplete, HostState::Ready),
    ] {
        state = next_host_state(state, event);
        assert_eq!(state, expected);
    }
}

#[test]
fn missing_chunks_of_a_manifest() {
    let dir = tempfile::tempdir().unwrap();
    let mut store = ChunkStore::new(dir.path().to_str().unwrap()).unwrap();
    let a = store.put(b"a").unwrap();
    let b = hash(b"b");
    let c = hash(b"c");
    let file = |path: &str, chunks: Vec<[u8; 32]>| FileEntry {
        path: path.to_string(),
        hash: [0u8; 32],
        size: 0,
        mime_type: "text/plain".to_string(),
        chunks,
        compression: None,
    };
    let manifest = SiteManifest {
        files: vec![file("x", vec![b, a]), file("y", vec![]), file("z", vec![c, b])],
        entry: "x".to_string(),
        routes: None,
        headers: None,
    };
    assert_eq!(chunk_ids_of(&manifest), vec![b, a, c, b]);
    assert_eq!(chunks_to_fetch(&store, &manifest).unwrap(), vec![b, c, b]);
    store.put(b"b").unwrap();
    store.put(b"c").unwrap();
    assert_eq!(chunks_to_fetch(&store, &manifest).unwrap(), Vec::<[u8; 32]>::new());
}

#[test]
fn test_upload() {
    let dir = tempfile::tempdir().unwrap();
    let mut chunk_store = ChunkStore::new(dir.path().to_str().unwrap()).unwrap();
    let mut manager = UserContentManager::new();

    let site_id = [1u8; 32];
    manager.set_policy(&site_id, UploadPolicy::default());

    let upload = manager
        .upload(&mut chunk_store, &site_id, "test.txt", "text/plain", b"hello world", Some("user1"))
        .unwrap()
        .unwrap();

    assert_eq!(upload.filename, "test.txt");
    assert_eq!(upload.status, UploadStatus::Approved);

    // Retrieve content
    let content = manager.get_upload_content(&mut chunk_store, &upload.id).unwrap();
    assert_eq!(content, b"hello world");
}

#[test]
fn test_moderation() {
    let dir = tempfile::tempdir().unwrap();
    let mut chunk_store = ChunkStore::new(dir.path().to_str().unwrap()).unwrap();
    let mut manager = UserContentManager::new();

    let site_id = [1u8; 32];
    manager.set_policy(
        &site_id,
        UploadPolicy { moderation: ModerationMode::Pre, ..Default::default() },
    );

    let upload = manager
        .upload(&mut chunk_store, &site_id, "test.txt", "text/plain", b"needs review", None)
        .unwrap()
        .unwrap();

    assert_eq!(upload.status, UploadStatus::Pending);

    // Content not accessible while pending
    assert!(manager.get_upload_content(&mut chunk_store, &upload.id).is_none());

    // Approve
    manager.approve(&upload.id);
    let upload = manager.get_upload(&upload.id).unwrap();
    assert_eq!(upload.status, UploadStatus::Approved);

    // Now content is accessible
    assert!(manager.get_upload_content(&mut chunk_store, &upload.id).is_some());
}

#[test]
fn uploads_are_kept_and_counted() {
    let dir = tempfile::tempdir().unwrap();
    let mut store = ChunkStore::new(dir.path().to_str().unwrap()).unwrap();
    let mut manager = UserContentManager::new();
    let site = [1u8; 32];
    let other = [2u8; 32];

    // No policy: uploads are disabled.
    let none = manager.upload(&mut store, &site, "a", "text/plain", b"x", Some("u")).unwrap();
    assert!(none.is_none());
    assert!(manager.get_policy(&site).is_none());

    let policy = UploadPolicy {
        max_file_size: 10,
        max_storage_per_user: 12,
        rate_limit: 3,
        ..Default::default()
    };
    manager.set_policy(&site, policy.clone());
    manager.set_policy(&other, policy);
    assert_eq!(manager.get_policy(&site).unwrap().rate_limit, 3);

    let hour = 3_600_000u64;
    let first = manager
        .upload_with(&mut store, &site, "a", "text/plain", b"12345", Some("u"), &[1; 8], &[1; 16], hour)
        .unwrap()
        .unwrap();
    assert_eq!(first.size, 5);
    assert_eq!(first.uploader, "u");
    assert_eq!(first.uploaded_at, hour);
    assert_eq!(first.chunks, vec![hash(b"12345")]);
    assert_eq!(first.content_hash, grabnet::crypto::hash::encode_base58(&hash(b"12345")));
    assert_eq!(first.id, grabnet::crypto::hash::encode_base58(&hash(&[1u8; 16])[..12]));
    assert_eq!(store.get(&hash(b"12345")).unwrap(), Some(b"12345".to_vec()));

    // Too large, then over the quota.
    let big = manager.upload_with(&mut store, &site, "b", "a/b", &[0u8; 11], Some("u"), &[2; 8], &[2; 16], hour);
    assert!(matches!(big, Err(UploadError::Rejected { reason: UploadRejection::FileTooLarge })));
    let over = manager.upload_with(&mut store, &site, "b", "a/b", &[0u8; 8], Some("u"), &[2; 8], &[2; 16], hour);
    assert!(matches!(over, Err(UploadError::Rejected { reason: UploadRejection::QuotaExceeded })));
    assert!(!store.contains(&hash(&[0u8; 8])).unwrap());

    let second = manager
        .upload_with(&mut store, &other, "c", "a/b", b"67", Some("u"), &[3; 8], &[3; 16], hour + 1)
        .unwrap()
        .unwrap();
    let third = manager
        .upload_with(&mut store, &site, "d", "a/b", b"", Some("u"), &[4; 8], &[4; 16], hour + 2)
        .unwrap()
        .unwrap();
    assert!(third.chunks.is_empty());

    // Three uploads within the hour: the limit is reached, until the first is an hour old.
    let limited =
        manager.upload_with(&mut store, &site, "e", "a/b", b"", Some("u"), &[5; 8], &[5; 16], 2 * hour - 1);
    assert!(matches!(limited, Err(UploadError::Rejected { reason: UploadRejection::RateLimitExceeded })));
    let fourth = manager
        .upload_with(&mut store, &site, "e", "a/b", b"", Some("u"), &[5; 8], &[5; 16], 2 * hour)
        .unwrap()
        .unwrap();

    // Somebody unknown gets a name made from the seed.
    let anon = manager
        .upload_with(&mut store, &site, "f", "a/b", b"z", None, &[6; 8], &[6; 16], hour)
        .unwrap()
        .unwrap();
    let expected = format!("anon_{}", grabnet::crypto::hash::encode_base58(&hash(&[6u8; 8])[..8]));
    assert_eq!(anon.uploader, expected);

    let listed: Vec<String> = manager.list_site_uploads(&site).into_iter().map(|u| u.filename).collect();
    assert_eq!(listed, vec!["a", "d", "e", "f"]);
    assert_eq!(manager.list_site_uploads(&other).len(), 1);
    assert!(manager.list_site_uploads(&[9u8; 32]).is_empty());

    // Rejecting hides the content; deleting frees the quota.
    assert!(manager.reject(&first.id));
    assert!(!manager.reject("nothing"));
    assert!(!manager.approve("nothing"));
    assert_eq!(manager.get_upload(&first.id).unwrap().status, UploadStatus::Rejected);
    assert!(manager.get_upload_content(&mut store, &first.id).is_none());
    assert!(manager.get_upload_content(&mut store, "nothing").is_none());
    assert_eq!(manager.get_upload_content(&mut store, &second.id).unwrap(), b"67".to_vec());
    assert!(manager.delete(&first.id));
    assert!(!manager.delete(&first.id));
    assert!(manager.get_upload(&first.id).is_none());
    assert!(manager.get_upload(&fourth.id).is_some());
    let listed: Vec<String> = manager.list_site_uploads(&site).into_iter().map(|u| u.filename).collect();
    assert_eq!(listed, vec!["d", "e", "f"]);
    let again = manager
        .upload_with(&mut store, &site, "g", "a/b", &[0u8; 8], Some("u"), &[7; 8], &[7; 16], 9 * hour)
        .unwrap();
    assert!(again.is_some());
}

#[test]
fn pages_of_a_site() {
    let file = |path: &str| FileEntry {
        path: path.to_string(),
        hash: hash(path.as_bytes()),
        size: 0,
        mime_type: "text/html".to_string(),
        chunks: vec![],
        compression: Some(grabnet::types::Compression::Gzip),
    };
    let mut manifest = SiteManifest {
        files: vec![file("home.html"), file("docs/home.html"), file("404.html"), file("a.html")],
        entry: "home.html".to_string(),
        routes: None,
        headers: None,
    };
    let found = |manifest: &SiteManifest, request: &str| match grabnet::gateway::resolve_page(manifest, request) {
        grabnet::gateway::Page::Found(f) => format!("found {}", f.path),
        grabnet::gateway::Page::NotFoundPage(f) => format!("instead {}", f.path),
        grabnet::gateway::Page::Missing => "missing".to_string(),
    };
    assert_eq!(found(&manifest, ""), "found home.html");
    assert_eq!(found(&manifest, "/"), "found home.html");
    assert_eq!(found(&manifest, "//a.html"), "found a.html");
    assert_eq!(found(&manifest, "docs/"), "found docs/home.html");
    assert_eq!(found(&manifest, "a"), "instead 404.html");
    manifest.files.remove(2);
    assert_eq!(found(&manifest, "a"), "missing");
    assert!(grabnet::gateway::is_reserved_path("api/sites"));
    assert!(grabnet::gateway::is_reserved_path("site/x"));
    assert!(grabnet::gateway::is_reserved_path("uploads/x"));
    assert!(grabnet::gateway::is_reserved_path("health"));
    assert!(!grabnet::gateway::is_reserved_path("healthy"));
    assert!(!grabnet::gateway::is_reserved_path("api"));
    let tag = grabnet::gateway::etag_of(&manifest.files[0]);
    let expected =
        format!("\"{}\"", grabnet::crypto::hash::encode_base58(&hash(b"home.html")[..8]));
    assert_eq!(tag, expected);
    assert!(grabnet::gateway::serves_compressed(&manifest.files[0], "br, gzip"));
    assert!(!grabnet::gateway::serves_compressed(&manifest.files[0], "br, deflate"));
    manifest.files[0].compression = None;
    assert!(!grabnet::gateway::serves_compressed(&manifest.files[0], "gzip"));
}

#[test]
fn dial_targets_of_addresses() {
    assert_eq!(
        dial_target("/ip4/127.0.0.1/tcp/4001"),
        Some((b"127.0.0.1".to_vec(), 4001))
    );
    assert_eq!(
        dial_target("/dns4/node.example.org/tcp/+80/p2p/abc"),
        Some((b"node.example.org".to_vec(), 80))
    );
    assert_eq!(dial_target("/ip4/10.0.0.1/tcp/65535"), Some((b"10.0.0.1".to_vec(), 65535)));
    assert_eq!(dial_target("/ip4/10.0.0.1/tcp/0007"), Some((b"10.0.0.1".to_vec(), 7)));
    assert_eq!(dial_target("/ip4/10.0.0.1/tcp/65536"), None);
    assert_eq!(dial_target("/ip4/10.0.0.1/tcp/"), None);
    assert_eq!(dial_target("/ip4/10.0.0.1/tcp/+"), None);
    assert_eq!(dial_target("/ip4/10.0.0.1/tcp/-1"), None);
    assert_eq!(dial_target("/ip4/10.0.0.1/tcp/40a1"), None);
    assert_eq!(dial_target("/ip4/10.0.0.1/tcp"), None);
    assert_eq!(dial_target("ip4/10.0.0.1/tcp/4001"), None);
    assert_eq!(dial_target(""), None);
}

#[test]
fn a_manifest_without_chunks_needs_no_fetch() {
    let dir = tempfile::tempdir().unwrap();
    let store = ChunkStore::new(dir.path().to_str().unwrap()).unwrap();
    let empty = SiteManifest {
        files: vec![],
        entry: "index.html".to_string(),
        routes: None,
        headers: None,
    };
    assert_eq!(chunks_to_fetch(&store, &empty).unwrap(), Vec::<[u8; 32]>::new());
    let blank = SiteManifest {
        files: vec![FileEntry {
            path: "empty.txt".to_string(),
            hash: hash(b""),
            size: 0,
            mime_type: "text/plain".to_string(),
            chunks: vec![],
            compression: None,
        }],
        entry: "empty.txt".to_string(),
        routes: None,
        headers: None,
    };
    assert_eq!(chunks_to_fetch(&store, &blank).unwrap(), Vec::<[u8; 32]>::new());
}

#[test]
fn reads_become_served_chunks() {
    let mut served: Vec<([u8; 32], Vec<u8>)> = Vec::new();
    add_served(&mut served, [1u8; 32], Ok(Some(vec![1, 2])));
    add_served(&mut served, [2u8; 32], Ok(None));
    add_served(&mut served, [3u8; 32], Err(StoreError::Storage { message: "disk".to_string() }));
    add_served(&mut served, [4u8; 32], Err(StoreError::Corrupted));
    add_served(&mut served, [5u8; 32], Ok(Some(vec![])));
    assert_eq!(served, vec![([1u8; 32], vec![1, 2]), ([5u8; 32], vec![])]);
}

#[test]
fn chunks_that_are_held_are_served_in_the_order_asked() {
    let dir = tempfile::tempdir().unwrap();
    let path = dir.path().to_str().unwrap();
    let mut chunks = ChunkStore::new(path).unwrap();
    let mut bundles = BundleStore::new(path).unwrap();
    let mut replication = ReplicationManager::new();
    let announced: IdMap<u64> = IdMap::new();
    let a = chunks.put(b"first").unwrap();
    let b = chunks.put(b"second").unwrap();
    let unknown = hash(b"unknown");
    let response = handle_request(
        GrabRequest::GetChunks { chunk_ids: vec![b, unknown, a, b] },
        "peer-a",
        &mut chunks,
        &mut bundles,
        &mut replication,
        &announced,
        "local-peer",
    );
    match response {
        GrabResponse::Chunks { chunks: served } => assert_eq!(
            served,
            vec![(b, b"second".to_vec()), (a, b"first".to_vec()), (b, b"second".to_vec())]
        ),
        other => panic!("unexpected {:?}", other),
    }
    assert_eq!(chunks.count(), 2);
    assert!(replication.get_hosts(&a).is_empty());
    assert!(bundles.get_manifest(&a).unwrap().is_none());
}

#[test]
fn scores_are_listed_in_the_order_first_seen() {
    let mut monitor = HealthMonitor::new();
    monitor.record_request_failure("late");
    monitor.peer_connected("early");
    monitor.record_request_success_at("late", 10, 5, 99);
    monitor.peer_connected("late");
    monitor.record_request_failure("third");
    let listed: Vec<(String, u64, u64)> = monitor
        .get_all_scores()
        .iter()
        .map(|s| (s.peer_id.clone(), s.total_requests, s.successful_responses))
        .collect();
    assert_eq!(
        listed,
        vec![
            ("late".to_string(), 2, 1),
            ("early".to_string(), 0, 0),
            ("third".to_string(), 1, 0)
        ]
    );
    let top: Vec<String> = monitor.get_top_peers(2).iter().map(|s| s.peer_id.clone()).collect();
    assert_eq!(top.len(), 2);
    assert_eq!(top[1], "early");
}

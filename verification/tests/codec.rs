use grabnet::codec::{decode, encode};
use grabnet::network::protocol::{
    frame, frame_length, unframe, GrabCodec, GrabProtocol, ProtocolError, MAX_MESSAGE_SIZE,
    PROTOCOL_NAME,
};
use grabnet::types::{
    Compression, FileEntry, GrabRequest, GrabResponse, HeaderRule, HostedSite, PeerRecord,
    PublishedSite, RedirectRule, RewriteRule, RouteConfig, SiteManifest, WebBundle,
};

fn sample_manifest() -> SiteManifest {
    SiteManifest {
        files: vec![FileEntry {
            path: "index.html".to_string(),
            hash: [0u8; 32],
            size: 100,
            mime_type: "text/html".to_string(),
            chunks: vec![[1u8; 32]],
            compression: Some(Compression::Gzip),
        }],
        entry: "index.html".to_string(),
        routes: None,
        headers: None,
    }
}

fn sample_bundle() -> WebBundle {
    WebBundle {
        site_id: [1u8; 32],
        name: "test-site".to_string(),
        revision: 7,
        root_hash: [2u8; 32],
        publisher: [3u8; 32],
        signature: [4u8; 64].to_vec(),
        manifest: SiteManifest {
            files: vec![
                FileEntry {
                    path: "a/ü.txt".to_string(),
                    hash: [5u8; 32],
                    size: 3,
                    mime_type: "text/plain".to_string(),
                    chunks: vec![[6u8; 32], [7u8; 32]],
                    compression: None,
                },
                FileEntry {
                    path: "b.bin".to_string(),
                    hash: [8u8; 32],
                    size: u64::MAX,
                    mime_type: "application/octet-stream".to_string(),
                    chunks: vec![],
                    compression: Some(Compression::Brotli),
                },
            ],
            entry: "index.html".to_string(),
            routes: Some(RouteConfig {
                clean_urls: true,
                fallback: Some("200.html".to_string()),
                redirects: vec![RedirectRule {
                    source: "/old".to_string(),
                    destination: "/new".to_string(),
                    status: 301,
                }],
                rewrites: vec![RewriteRule {
                    source: "/api/*".to_string(),
                    destination: "/index.html".to_string(),
                }],
            }),
            headers: Some(vec![HeaderRule {
                source: "/*".to_string(),
                headers: vec![("X-Frame-Options".to_string(), "DENY".to_string())],
            }]),
        },
        created_at: 1234567890,
    }
}

#[test]
fn test_manifest_roundtrip() {
    let manifest = sample_manifest();

    let encoded = encode(&manifest);
    println!("Encoded manifest: {} bytes", encoded.len());
    println!("Raw bytes: {:?}", &encoded[..encoded.len().min(50)]);

    let decoded: SiteManifest = decode(&encoded).unwrap();
    assert_eq!(decoded.entry, manifest.entry);
    assert_eq!(decoded.files.len(), manifest.files.len());
}

#[test]
fn manifest_bytes_are_the_expected_layout() {
    let encoded = encode(&sample_manifest());
    let mut expected: Vec<u8> = Vec::new();
    expected.extend_from_slice(&1u64.to_le_bytes());
    expected.extend_from_slice(&10u64.to_le_bytes());
    expected.extend_from_slice(b"index.html");
    expected.extend_from_slice(&[0u8; 32]);
    expected.extend_from_slice(&100u64.to_le_bytes());
    expected.extend_from_slice(&9u64.to_le_bytes());
    expected.extend_from_slice(b"text/html");
    expected.extend_from_slice(&1u64.to_le_bytes());
    expected.extend_from_slice(&[1u8; 32]);
    expected.push(1);
    expected.extend_from_slice(&1u32.to_le_bytes());
    expected.extend_from_slice(&10u64.to_le_bytes());
    expected.extend_from_slice(b"index.html");
    expected.push(0);
    expected.push(0);
    assert_eq!(encoded, expected);
}

#[test]
fn bundle_layout_starts_as_documented() {
    let bundle = sample_bundle();
    let encoded = encode(&bundle);
    assert_eq!(&encoded[..32], &[1u8; 32]);
    assert_eq!(&encoded[32..40], &9u64.to_le_bytes());
    assert_eq!(&encoded[40..49], b"test-site");
    assert_eq!(&encoded[49..57], &7u64.to_le_bytes());
    assert_eq!(&encoded[57..89], &[2u8; 32]);
    assert_eq!(&encoded[89..121], &[3u8; 32]);
    assert_eq!(&encoded[121..129], &64u64.to_le_bytes());
    assert_eq!(&encoded[129..193], &[4u8; 64]);
    assert_eq!(&encoded[encoded.len() - 8..], &1234567890u64.to_le_bytes());
}

#[test]
fn bundle_roundtrip_is_bitwise() {
    let bundle = sample_bundle();
    let encoded = encode(&bundle);
    let decoded: WebBundle = decode(&encoded).unwrap();
    assert_eq!(encode(&decoded), encoded);
    assert_eq!(decoded.name, "test-site");
    assert_eq!(decoded.revision, 7);
    assert_eq!(decoded.signature, [4u8; 64].to_vec());
    assert_eq!(decoded.manifest.files[0].path, "a/ü.txt");
    assert_eq!(decoded.manifest.files[0].chunks, vec![[6u8; 32], [7u8; 32]]);
    assert_eq!(decoded.manifest.files[0].compression, None);
    assert_eq!(decoded.manifest.files[1].size, u64::MAX);
    assert_eq!(decoded.manifest.files[1].compression, Some(Compression::Brotli));
    let routes = decoded.manifest.routes.unwrap();
    assert!(routes.clean_urls);
    assert_eq!(routes.fallback, Some("200.html".to_string()));
    assert_eq!(routes.redirects[0].status, 301);
    assert_eq!(routes.rewrites[0].destination, "/index.html");
    let headers = decoded.manifest.headers.unwrap();
    assert_eq!(headers[0].headers[0], ("X-Frame-Options".to_string(), "DENY".to_string()));
}

#[test]
fn decode_rejects_what_is_no_encoding() {
    let encoded = encode(&sample_bundle());
    // Bytes left over.
    let mut longer = encoded.clone();
    longer.push(0);
    assert!(decode::<WebBundle>(&longer).is_none());
    // Bytes missing.
    assert!(decode::<WebBundle>(&encoded[..encoded.len() - 1]).is_none());
    assert!(decode::<WebBundle>(&[]).is_none());
    // A name that is no UTF-8.
    let mut broken = encoded.clone();
    broken[40] = 0xff;
    assert!(decode::<WebBundle>(&broken).is_none());
    // A flag that is neither 0 nor 1, an option tag that is neither, a variant that is none.
    assert!(decode::<bool>(&[2]).is_none());
    assert_eq!(decode::<bool>(&[1]), Some(true));
    assert_eq!(decode::<bool>(&[0]), Some(false));
    assert!(decode::<Option<u64>>(&[2, 0, 0, 0, 0, 0, 0, 0, 0]).is_none());
    assert_eq!(decode::<Option<u64>>(&[0]), Some(None));
    assert!(decode::<Compression>(&[3, 0, 0, 0]).is_none());
    assert_eq!(decode::<Compression>(&[0, 0, 0, 0]), Some(Compression::Uncompressed));
    // A list that announces more than it holds.
    assert!(decode::<Vec<u64>>(&[2, 0, 0, 0, 0, 0, 0, 0, 1, 0, 0, 0, 0, 0, 0, 0]).is_none());
}

#[test]
fn integers_are_little_endian() {
    assert_eq!(encode(&0x0102030405060708u64), vec![8, 7, 6, 5, 4, 3, 2, 1]);
    assert_eq!(encode(&0x0102u16), vec![2, 1]);
    assert_eq!(decode::<u64>(&[8, 7, 6, 5, 4, 3, 2, 1]), Some(0x0102030405060708u64));
    assert_eq!(decode::<u16>(&[0xff, 0xff]), Some(u16::MAX));
    assert_eq!(encode(&"hé".to_string()), vec![3, 0, 0, 0, 0, 0, 0, 0, b'h', 0xc3, 0xa9]);
    assert_eq!(encode(&Some(true)), vec![1, 1]);
    assert_eq!(encode(&vec![1u8, 2, 3]), vec![3, 0, 0, 0, 0, 0, 0, 0, 1, 2, 3]);
}

#[test]
fn records_roundtrip() {
    let published = PublishedSite {
        site_id: [1u8; 32],
        name: "my-site".to_string(),
        revision: 3,
        root_path: "/tmp/site".to_string(),
        created_at: 123,
        updated_at: 456,
    };
    let back: PublishedSite = decode(&encode(&published)).unwrap();
    assert_eq!(back.site_id, published.site_id);
    assert_eq!(back.name, published.name);
    assert_eq!(back.revision, 3);
    assert_eq!(back.root_path, "/tmp/site");
    assert_eq!((back.created_at, back.updated_at), (123, 456));
    let hosted = HostedSite {
        site_id: [2u8; 32],
        name: "h".to_string(),
        revision: 9,
        hosted_at: 1,
        last_accessed: 2,
        access_count: 3,
    };
    let back: HostedSite = decode(&encode(&hosted)).unwrap();
    assert_eq!(back.name, "h");
    assert_eq!((back.revision, back.hosted_at, back.last_accessed, back.access_count), (9, 1, 2, 3));
}

#[test]
fn announce_request_frame_is_exact() {
    let codec = GrabCodec;
    let request = GrabRequest::Announce { site_id: [7u8; 32], revision: 5 };
    let framed = codec.write_request(&request).unwrap();
    let mut expected: Vec<u8> = vec![0, 0, 0, 44];
    expected.extend_from_slice(&[3, 0, 0, 0]);
    expected.extend_from_slice(&[7u8; 32]);
    expected.extend_from_slice(&[5, 0, 0, 0, 0, 0, 0, 0]);
    assert_eq!(framed, expected);
    match codec.read_request(&framed).unwrap() {
        GrabRequest::Announce { site_id, revision } => {
            assert_eq!(site_id, [7u8; 32]);
            assert_eq!(revision, 5);
        }
        other => panic!("unexpected request {:?}", other),
    }
}

#[test]
fn every_request_roundtrips() {
    let codec = GrabCodec;
    let requests = vec![
        GrabRequest::FindSite { site_id: [1u8; 32] },
        GrabRequest::GetManifest { site_id: [2u8; 32] },
        GrabRequest::GetChunks { chunk_ids: vec![[3u8; 32], [4u8; 32]] },
        GrabRequest::GetChunks { chunk_ids: vec![] },
        GrabRequest::Announce { site_id: [5u8; 32], revision: u64::MAX },
        GrabRequest::PushUpdate { bundle: Box::new(sample_bundle()) },
    ];
    for request in &requests {
        let framed = codec.write_request(request).unwrap();
        let back = codec.read_request(&framed).unwrap();
        assert_eq!(codec.write_request(&back).unwrap(), framed);
        assert_eq!(format!("{:?}", back), format!("{:?}", request));
    }
}

#[test]
fn every_response_roundtrips() {
    let codec = GrabCodec;
    let responses = vec![
        GrabResponse::SiteHosts {
            hosts: vec![PeerRecord {
                peer_id: "12D3KooW".to_string(),
                addresses: vec!["/ip4/1.2.3.4/tcp/4001".to_string()],
                revision: 4,
            }],
        },
        GrabResponse::Manifest { bundle: Box::new(sample_bundle()) },
        GrabResponse::Chunks { chunks: vec![([9u8; 32], vec![1, 2, 3]), ([8u8; 32], vec![])] },
        GrabResponse::Ack,
        GrabResponse::Error { message: "Site not found".to_string() },
    ];
    for response in &responses {
        let framed = codec.write_response(response).unwrap();
        let back = codec.read_response(&framed).unwrap();
        assert_eq!(codec.write_response(&back).unwrap(), framed);
        assert_eq!(format!("{:?}", back), format!("{:?}", response));
    }
    assert_eq!(codec.write_response(&GrabResponse::Ack).unwrap(), vec![0, 0, 0, 4, 3, 0, 0, 0]);
}

#[test]
fn frames_are_length_prefixed_big_endian() {
    assert_eq!(frame(&[]).unwrap(), vec![0, 0, 0, 0]);
    assert_eq!(frame(&[9, 8]).unwrap(), vec![0, 0, 0, 2, 9, 8]);
    let long = vec![1u8; 0x01_02_03];
    let framed = frame(&long).unwrap();
    assert_eq!(&framed[..4], &[0, 1, 2, 3]);
    assert_eq!(unframe(&framed).unwrap(), (long, 4 + 0x01_02_03));
    let mut stream = frame(&[5, 6, 7]).unwrap();
    stream.extend_from_slice(&[0, 0]);
    assert_eq!(unframe(&stream).unwrap(), (vec![5, 6, 7], 7));
}

#[test]
fn oversized_and_broken_frames_are_refused() {
    assert_eq!(MAX_MESSAGE_SIZE, 100 * 1024 * 1024);
    assert_eq!(frame_length(&[0x06, 0x40, 0x00, 0x00]), Ok(MAX_MESSAGE_SIZE));
    assert_eq!(frame_length(&[0x06, 0x40, 0x00, 0x01]), Err(ProtocolError::MessageTooLarge));
    assert_eq!(frame_length(&[0, 0, 1, 0]), Ok(256));
    assert_eq!(unframe(&[0x06, 0x40, 0x00, 0x01, 0]), Err(ProtocolError::MessageTooLarge));
    assert_eq!(unframe(&[0, 0, 0]), Err(ProtocolError::Truncated));
    assert_eq!(unframe(&[0, 0, 0, 2, 1]), Err(ProtocolError::Truncated));
    let big = vec![0u8; MAX_MESSAGE_SIZE + 1];
    assert_eq!(frame(&big), Err(ProtocolError::MessageTooLarge));
    assert!(frame(&big[..MAX_MESSAGE_SIZE]).is_ok());
    let codec = GrabCodec;
    // A frame whose payload is no request, and one with bytes behind the frame.
    assert!(matches!(codec.read_request(&[0, 0, 0, 4, 9, 0, 0, 0]), Err(ProtocolError::Malformed)));
    assert!(matches!(
        codec.read_response(&[0, 0, 0, 4, 3, 0, 0, 0, 0]),
        Err(ProtocolError::Malformed)
    ));
    assert!(matches!(codec.read_response(&[0, 0, 0, 5, 3, 0, 0, 0]), Err(ProtocolError::Truncated)));
}

#[test]
fn protocol_name() {
    assert_eq!(PROTOCOL_NAME, "/grabnet/1.0.0");
    assert_eq!(GrabProtocol.name(), "/grabnet/1.0.0");
}

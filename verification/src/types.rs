//! Core data model: identifiers, bundles, manifests and protocol messages,
//! each with the mathematical value that contracts speak of.

use vstd::prelude::*;

verus! {

/// 32-byte site identifier: the digest of the publisher key followed by the site name.
pub type SiteId = [u8; 32];

/// 32-byte chunk identifier: the digest of the chunk's bytes.
pub type ChunkId = [u8; 32];

/// Ed25519 public key.
pub type PublicKey = [u8; 32];

/// Ed25519 signature: 64 bytes when well formed.
pub type Signature = Vec<u8>;

/// The byte strings of a run of 32-byte identifiers.
pub open spec fn id_views(ids: Seq<[u8; 32]>) -> Seq<Seq<u8>> {
    ids.map_values(|id: [u8; 32]| id@)
}

/// The texts of a run of strings.
pub open spec fn text_views(texts: Seq<String>) -> Seq<Seq<char>> {
    texts.map_values(|t: String| t@)
}

/// Compression method.
#[derive(Debug, Clone, Copy, PartialEq, Eq, Structural)]
pub enum Compression {
    Uncompressed,
    Gzip,
    Brotli,
}

/// A single file in the site.
#[derive(Debug, Clone)]
pub struct FileEntry {
    /// Relative path from site root, with forward slashes.
    pub path: String,
    /// Digest of the file's bytes before compression.
    pub hash: ChunkId,
    /// Original file size.
    pub size: u64,
    /// MIME type.
    pub mime_type: String,
    /// Chunk IDs that make up the stored payload, in order.
    pub chunks: Vec<ChunkId>,
    /// Compression applied to the payload.
    pub compression: Option<Compression>,
}

/// The mathematical view of a `FileEntry`.
pub struct FileEntryView {
    pub path: Seq<char>,
    pub hash: Seq<u8>,
    pub size: u64,
    pub mime_type: Seq<char>,
    pub chunks: Seq<Seq<u8>>,
    pub compression: Option<Compression>,
}

impl View for FileEntry {
    type V = FileEntryView;

    open spec fn view(&self) -> FileEntryView {
        FileEntryView {
            path: self.path@,
            hash: self.hash@,
            size: self.size,
            mime_type: self.mime_type@,
            chunks: id_views(self.chunks@),
            compression: self.compression,
        }
    }
}

/// HTTP redirect rule.
#[derive(Debug, Clone)]
pub struct RedirectRule {
    pub source: String,
    pub destination: String,
    pub status: u16,
}

/// The mathematical view of a `RedirectRule`.
pub struct RedirectRuleView {
    pub source: Seq<char>,
    pub destination: Seq<char>,
    pub status: u16,
}

impl View for RedirectRule {
    type V = RedirectRuleView;

    open spec fn view(&self) -> RedirectRuleView {
        RedirectRuleView { source: self.source@, destination: self.destination@, status: self.status }
    }
}

/// The status of a redirect rule that names none.
pub fn default_redirect_status() -> (status: u16)
    ensures
        status == 301,
{
    301
}

/// URL rewrite rule.
#[derive(Debug, Clone)]
pub struct RewriteRule {
    pub source: String,
    pub destination: String,
}

/// The mathematical view of a `RewriteRule`.
pub struct RewriteRuleView {
    pub source: Seq<char>,
    pub destination: Seq<char>,
}

impl View for RewriteRule {
    type V = RewriteRuleView;

    open spec fn view(&self) -> RewriteRuleView {
        RewriteRuleView { source: self.source@, destination: self.destination@ }
    }
}

/// Custom header rule.
#[derive(Debug, Clone)]
pub struct HeaderRule {
    pub source: String,
    pub headers: Vec<(String, String)>,
}

/// The mathematical view of a `HeaderRule`.
pub struct HeaderRuleView {
    pub source: Seq<char>,
    pub headers: Seq<(Seq<char>, Seq<char>)>,
}

impl View for HeaderRule {
    type V = HeaderRuleView;

    open spec fn view(&self) -> HeaderRuleView {
        HeaderRuleView {
            source: self.source@,
            headers: self.headers@.map_values(|h: (String, String)| (h.0@, h.1@)),
        }
    }
}

/// Routing configuration for SPAs and clean URLs.
#[derive(Debug, Clone)]
pub struct RouteConfig {
    /// Enable clean URLs (serve /about as /about.html).
    pub clean_urls: bool,
    /// SPA fallback path.
    pub fallback: Option<String>,
    /// Redirect rules.
    pub redirects: Vec<RedirectRule>,
    /// Rewrite rules.
    pub rewrites: Vec<RewriteRule>,
}

/// The mathematical view of a `RouteConfig`.
pub struct RouteConfigView {
    pub clean_urls: bool,
    pub fallback: Option<Seq<char>>,
    pub redirects: Seq<RedirectRuleView>,
    pub rewrites: Seq<RewriteRuleView>,
}

impl View for RouteConfig {
    type V = RouteConfigView;

    open spec fn view(&self) -> RouteConfigView {
        RouteConfigView {
            clean_urls: self.clean_urls,
            fallback: match self.fallback {
                Some(f) => Some(f@),
                None => None,
            },
            redirects: self.redirects@.map_values(|r: RedirectRule| r@),
            rewrites: self.rewrites@.map_values(|r: RewriteRule| r@),
        }
    }
}

/// Site manifest containing file structure and routing.
#[derive(Debug, Clone)]
pub struct SiteManifest {
    /// All files in the site, sorted by path.
    pub files: Vec<FileEntry>,
    /// Entry point (usually "index.html").
    pub entry: String,
    /// Routing configuration.
    pub routes: Option<RouteConfig>,
    /// Custom headers.
    pub headers: Option<Vec<HeaderRule>>,
}

/// The mathematical view of a `SiteManifest`.
pub struct SiteManifestView {
    pub files: Seq<FileEntryView>,
    pub entry: Seq<char>,
    pub routes: Option<RouteConfigView>,
    pub headers: Option<Seq<HeaderRuleView>>,
}

impl View for SiteManifest {
    type V = SiteManifestView;

    open spec fn view(&self) -> SiteManifestView {
        SiteManifestView {
            files: self.files@.map_values(|f: FileEntry| f@),
            entry: self.entry@,
            routes: match self.routes {
                Some(r) => Some(r@),
                None => None,
            },
            headers: match self.headers {
                Some(h) => Some(h@.map_values(|r: HeaderRule| r@)),
                None => None,
            },
        }
    }
}

/// A website packaged for decentralized hosting.
#[derive(Debug, Clone)]
pub struct WebBundle {
    /// Stable site identifier.
    pub site_id: SiteId,
    /// Human-readable name.
    pub name: String,
    /// Revision number, rising with each publish.
    pub revision: u64,
    /// Merkle root of the files' content hashes.
    pub root_hash: [u8; 32],
    /// Publisher's public key.
    pub publisher: PublicKey,
    /// Signature over site identifier, revision and root hash.
    pub signature: Signature,
    /// Site manifest with file listings.
    pub manifest: SiteManifest,
    /// Creation timestamp (unix ms).
    pub created_at: u64,
}

/// The mathematical view of a `WebBundle`.
pub struct WebBundleView {
    pub site_id: Seq<u8>,
    pub name: Seq<char>,
    pub revision: u64,
    pub root_hash: Seq<u8>,
    pub publisher: Seq<u8>,
    pub signature: Seq<u8>,
    pub manifest: SiteManifestView,
    pub created_at: u64,
}

impl View for WebBundle {
    type V = WebBundleView;

    open spec fn view(&self) -> WebBundleView {
        WebBundleView {
            site_id: self.site_id@,
            name: self.name@,
            revision: self.revision,
            root_hash: self.root_hash@,
            publisher: self.publisher@,
            signature: self.signature@,
            manifest: self.manifest@,
            created_at: self.created_at,
        }
    }
}

/// A published site (owned by this node).
#[derive(Debug, Clone)]
pub struct PublishedSite {
    pub site_id: SiteId,
    pub name: String,
    pub revision: u64,
    /// The local directory the site is published from.
    pub root_path: String,
    pub created_at: u64,
    pub updated_at: u64,
}

/// The mathematical view of a `PublishedSite`.
pub struct PublishedSiteView {
    pub site_id: Seq<u8>,
    pub name: Seq<char>,
    pub revision: u64,
    pub root_path: Seq<char>,
    pub created_at: u64,
    pub updated_at: u64,
}

impl View for PublishedSite {
    type V = PublishedSiteView;

    open spec fn view(&self) -> PublishedSiteView {
        PublishedSiteView {
            site_id: self.site_id@,
            name: self.name@,
            revision: self.revision,
            root_path: self.root_path@,
            created_at: self.created_at,
            updated_at: self.updated_at,
        }
    }
}

/// A hosted site (pinned by this node).
#[derive(Debug, Clone)]
pub struct HostedSite {
    pub site_id: SiteId,
    pub name: String,
    pub revision: u64,
    pub hosted_at: u64,
    pub last_accessed: u64,
    pub access_count: u64,
}

/// The mathematical view of a `HostedSite`.
pub struct HostedSiteView {
    pub site_id: Seq<u8>,
    pub name: Seq<char>,
    pub revision: u64,
    pub hosted_at: u64,
    pub last_accessed: u64,
    pub access_count: u64,
}

impl View for HostedSite {
    type V = HostedSiteView;

    open spec fn view(&self) -> HostedSiteView {
        HostedSiteView {
            site_id: self.site_id@,
            name: self.name@,
            revision: self.revision,
            hosted_at: self.hosted_at,
            last_accessed: self.last_accessed,
            access_count: self.access_count,
        }
    }
}

/// Information about a peer hosting a site.
#[derive(Debug, Clone)]
pub struct PeerRecord {
    pub peer_id: String,
    pub addresses: Vec<String>,
    pub revision: u64,
}

/// The mathematical view of a `PeerRecord`.
pub struct PeerRecordView {
    pub peer_id: Seq<char>,
    pub addresses: Seq<Seq<char>>,
    pub revision: u64,
}

impl View for PeerRecord {
    type V = PeerRecordView;

    open spec fn view(&self) -> PeerRecordView {
        PeerRecordView {
            peer_id: self.peer_id@,
            addresses: text_views(self.addresses@),
            revision: self.revision,
        }
    }
}

/// Protocol requests for P2P communication.
#[derive(Debug, Clone)]
pub enum GrabRequest {
    /// Find nodes hosting a site.
    FindSite { site_id: SiteId },
    /// Get the bundle of a site.
    GetManifest { site_id: SiteId },
    /// Get chunks by ID.
    GetChunks { chunk_ids: Vec<ChunkId> },
    /// Announce we're hosting a site.
    Announce { site_id: SiteId, revision: u64 },
    /// Push an update to hosts.
    PushUpdate { bundle: Box<WebBundle> },
}

/// The mathematical view of a `GrabRequest`.
pub enum GrabRequestView {
    FindSite { site_id: Seq<u8> },
    GetManifest { site_id: Seq<u8> },
    GetChunks { chunk_ids: Seq<Seq<u8>> },
    Announce { site_id: Seq<u8>, revision: u64 },
    PushUpdate { bundle: WebBundleView },
}

impl View for GrabRequest {
    type V = GrabRequestView;

    open spec fn view(&self) -> GrabRequestView {
        match self {
            GrabRequest::FindSite { site_id } => GrabRequestView::FindSite { site_id: site_id@ },
            GrabRequest::GetManifest { site_id } => GrabRequestView::GetManifest { site_id: site_id@ },
            GrabRequest::GetChunks { chunk_ids } => GrabRequestView::GetChunks {
                chunk_ids: id_views(chunk_ids@),
            },
            GrabRequest::Announce { site_id, revision } => GrabRequestView::Announce {
                site_id: site_id@,
                revision: *revision,
            },
            GrabRequest::PushUpdate { bundle } => GrabRequestView::PushUpdate { bundle: (**bundle)@ },
        }
    }
}

/// Protocol responses for P2P communication.
#[derive(Debug, Clone)]
pub enum GrabResponse {
    /// List of peers hosting a site.
    SiteHosts { hosts: Vec<PeerRecord> },
    /// The bundle of a site.
    Manifest { bundle: Box<WebBundle> },
    /// Requested chunks.
    Chunks { chunks: Vec<(ChunkId, Vec<u8>)> },
    /// Acknowledgment.
    Ack,
    /// Error.
    Error { message: String },
}

/// The mathematical view of a `GrabResponse`.
pub enum GrabResponseView {
    SiteHosts { hosts: Seq<PeerRecordView> },
    Manifest { bundle: WebBundleView },
    Chunks { chunks: Seq<(Seq<u8>, Seq<u8>)> },
    Ack,
    Error { message: Seq<char> },
}

impl View for GrabResponse {
    type V = GrabResponseView;

    open spec fn view(&self) -> GrabResponseView {
        match self {
            GrabResponse::SiteHosts { hosts } => GrabResponseView::SiteHosts {
                hosts: hosts@.map_values(|h: PeerRecord| h@),
            },
            GrabResponse::Manifest { bundle } => GrabResponseView::Manifest { bundle: (**bundle)@ },
            GrabResponse::Chunks { chunks } => GrabResponseView::Chunks {
                chunks: chunks@.map_values(|c: (ChunkId, Vec<u8>)| (c.0@, c.1@)),
            },
            GrabResponse::Ack => GrabResponseView::Ack,
            GrabResponse::Error { message } => GrabResponseView::Error { message: message@ },
        }
    }
}

/// Merkle proof for content verification.
#[derive(Debug, Clone)]
pub struct MerkleProof {
    pub leaf_index: usize,
    pub leaf_hash: [u8; 32],
    pub siblings: Vec<[u8; 32]>,
    pub root: [u8; 32],
}

/// Network settings of a node.
#[derive(Debug, Clone)]
pub struct NetworkConfig {
    /// TCP listen port.
    pub port: u16,
    /// Listen addresses.
    pub listen_addresses: Vec<String>,
    /// Bootstrap peers.
    pub bootstrap_peers: Vec<String>,
    /// Maximum connections.
    pub max_connections: usize,
}

/// HTTP gateway settings of a node.
#[derive(Debug, Clone)]
pub struct GatewayConfig {
    /// HTTP port.
    pub port: u16,
    /// Bind address.
    pub host: String,
    /// Enable CORS.
    pub cors: bool,
}

/// Storage settings of a node.
#[derive(Debug, Clone)]
pub struct StorageConfig {
    /// Chunk cache size in MB.
    pub cache_size_mb: usize,
    /// Maximum storage in GB (0 = unlimited).
    pub max_storage_gb: usize,
}

/// Publisher settings of a node.
#[derive(Debug, Clone)]
pub struct PublisherConfig {
    /// Default chunk size in bytes.
    pub chunk_size: usize,
    /// Enable compression.
    pub compress: bool,
}

/// Node configuration.
#[derive(Debug, Clone)]
pub struct Config {
    pub network: NetworkConfig,
    pub gateway: GatewayConfig,
    pub storage: StorageConfig,
    pub publisher: PublisherConfig,
}

/// The port that the network listens on unless told otherwise.
pub fn default_network_port() -> (port: u16)
    ensures
        port == 4001,
{
    4001
}

/// The addresses that the network listens on unless told otherwise.
pub fn default_listen_addresses() -> (addresses: Vec<String>)
    ensures
        text_views(addresses@) == seq!["/ip4/0.0.0.0/tcp/4001"@, "/ip6/::/tcp/4001"@],
{
    let mut addresses: Vec<String> = Vec::new();
    addresses.push("/ip4/0.0.0.0/tcp/4001".to_owned());
    addresses.push("/ip6/::/tcp/4001".to_owned());
    addresses
}

/// The number of connections kept at most unless told otherwise.
pub fn default_max_connections() -> (limit: usize)
    ensures
        limit == 100,
{
    100
}

/// The port of the gateway unless told otherwise.
pub fn default_gateway_port() -> (port: u16)
    ensures
        port == 8080,
{
    8080
}

/// The host of the gateway unless told otherwise.
pub fn default_gateway_host() -> (host: String)
    ensures
        host@ == "127.0.0.1"@,
{
    "127.0.0.1".to_owned()
}

/// The default of a setting that is on unless switched off.
pub fn default_true() -> (flag: bool)
    ensures
        flag,
{
    true
}

/// The size of the cache in megabytes unless told otherwise.
pub fn default_cache_size() -> (megabytes: usize)
    ensures
        megabytes == 256,
{
    256
}

/// The size of a chunk in bytes unless told otherwise: 256 KiB.
pub fn default_chunk_size() -> (bytes: usize)
    ensures
        bytes == 262144,
{
    262144
}

impl Default for Config {
    fn default() -> (config: Self)
        ensures
            config.network.port == 4001,
            text_views(config.network.listen_addresses@) == seq![
                "/ip4/0.0.0.0/tcp/4001"@,
                "/ip6/::/tcp/4001"@,
            ],
            config.network.bootstrap_peers@.len() == 0,
            config.network.max_connections == 100,
            config.gateway.port == 8080,
            config.gateway.host@ == "127.0.0.1"@,
            config.gateway.cors,
            config.storage.cache_size_mb == 256,
            config.storage.max_storage_gb == 0,
            config.publisher.chunk_size == 262144,
            config.publisher.compress,
    {
        Config {
            network: NetworkConfig {
                port: default_network_port(),
                listen_addresses: default_listen_addresses(),
                bootstrap_peers: Vec::new(),
                max_connections: default_max_connections(),
            },
            gateway: GatewayConfig {
                port: default_gateway_port(),
                host: default_gateway_host(),
                cors: true,
            },
            storage: StorageConfig { cache_size_mb: default_cache_size(), max_storage_gb: 0 },
            publisher: PublisherConfig { chunk_size: default_chunk_size(), compress: true },
        }
    }
}

} // verus!

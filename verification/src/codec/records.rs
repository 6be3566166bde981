//! The binary form of the records of the data model. A record is written
//! as its fields, one after the other, in the order of their declaration.

use vstd::prelude::*;
use crate::bytes::{le_bytes, lemma_pow256_values, push_le};
use crate::codec::containers::models;
use crate::codec::wire::{lemma_parse_uint_sound, lemma_parse_uint_wire, parse_uint, read_uint, Wire};
use crate::types::{id_views, text_views, ChunkId, Compression, FileEntry, FileEntryView};
use crate::types::{HeaderRule, HeaderRuleView, HostedSite, HostedSiteView, PeerRecord, PeerRecordView};
use crate::types::{PublicKey, PublishedSite, PublishedSiteView, RedirectRule, RedirectRuleView};
use crate::types::{RewriteRule, RewriteRuleView, RouteConfig, RouteConfigView, SiteId, SiteManifest};
use crate::types::{SiteManifestView, WebBundle, WebBundleView};

verus! {

/// The models of identifiers are their views.
pub proof fn lemma_models_ids(ids: Seq<[u8; 32]>)
    ensures
        models::<[u8; 32]>(ids) == id_views(ids),
{
}

/// The models of texts are their views.
pub proof fn lemma_models_texts(texts: Seq<String>)
    ensures
        models::<String>(texts) == text_views(texts),
{
}

/// The number that stands for a compression method.
pub open spec fn compression_tag(c: Compression) -> nat {
    match c {
        Compression::Uncompressed => 0,
        Compression::Gzip => 1,
        Compression::Brotli => 2,
    }
}

/// A compression method: its number as 4 bytes.
impl Wire for Compression {
    type Model = Compression;

    open spec fn model(&self) -> Compression {
        *self
    }

    open spec fn fits(m: Compression) -> bool {
        true
    }

    open spec fn wire(m: Compression) -> Seq<u8> {
        le_bytes(compression_tag(m), 4)
    }

    open spec fn parse(bytes: Seq<u8>) -> Option<(Compression, nat)> {
        match parse_uint(bytes, 4) {
            Some((tag, used)) => if tag == 0 {
                Some((Compression::Uncompressed, used))
            } else if tag == 1 {
                Some((Compression::Gzip, used))
            } else if tag == 2 {
                Some((Compression::Brotli, used))
            } else {
                None
            },
            None => None,
        }
    }

    proof fn lemma_parse_wire(m: Compression, rest: Seq<u8>) {
        lemma_pow256_values();
        lemma_parse_uint_wire(compression_tag(m), 4, rest);
    }

    proof fn lemma_wire_parse(bytes: Seq<u8>) {
        lemma_parse_uint_sound(bytes, 4);
    }

    fn write(&self, out: &mut Vec<u8>) {
        let tag: u64 = match self {
            Compression::Uncompressed => 0,
            Compression::Gzip => 1,
            Compression::Brotli => 2,
        };
        push_le(out, tag, 4);
    }

    fn read(bytes: &[u8], pos: usize) -> (found: Option<(Self, usize)>) {
        match read_uint(bytes, pos, 4) {
            Some(tag) => if tag == 0 {
                Some((Compression::Uncompressed, pos + 4))
            } else if tag == 1 {
                Some((Compression::Gzip, pos + 4))
            } else if tag == 2 {
                Some((Compression::Brotli, pos + 4))
            } else {
                None
            },
            None => None,
        }
    }
}

pub type FileEntryFields = (String, (ChunkId, (u64, (String, (Vec<ChunkId>, Option<Compression>)))));

pub type FileEntryTuple = (
    Seq<char>,
    (Seq<u8>, (u64, (Seq<char>, (Seq<Seq<u8>>, Option<Compression>)))),
);

impl FileEntryView {
    /// The view as the tuple of its fields, in the order in which they are
    /// written.
    pub open spec fn fields(self) -> FileEntryTuple {
        (self.path, (self.hash, (self.size, (self.mime_type, (self.chunks, self.compression)))))
    }

    /// The view whose fields, in the order in which they are written, make
    /// the tuple.
    pub open spec fn of(t: FileEntryTuple) -> FileEntryView {
        FileEntryView {
            path: t.0,
            hash: t.1.0,
            size: t.1.1.0,
            mime_type: t.1.1.1.0,
            chunks: t.1.1.1.1.0,
            compression: t.1.1.1.1.1,
        }
    }
}

impl Wire for FileEntry {
    type Model = FileEntryView;

    open spec fn model(&self) -> FileEntryView {
        self@
    }

    open spec fn fits(m: FileEntryView) -> bool {
        FileEntryFields::fits(m.fields())
    }

    open spec fn wire(m: FileEntryView) -> Seq<u8> {
        FileEntryFields::wire(m.fields())
    }

    open spec fn parse(bytes: Seq<u8>) -> Option<(FileEntryView, nat)> {
        match FileEntryFields::parse(bytes) {
            Some((t, used)) => Some((FileEntryView::of(t), used)),
            None => None,
        }
    }

    proof fn lemma_parse_wire(m: FileEntryView, rest: Seq<u8>) {
        FileEntryFields::lemma_parse_wire(m.fields(), rest);
    }

    proof fn lemma_wire_parse(bytes: Seq<u8>) {
        FileEntryFields::lemma_wire_parse(bytes);
    }

    fn write(&self, out: &mut Vec<u8>) {
        self.path.write(out);
        self.hash.write(out);
        self.size.write(out);
        self.mime_type.write(out);
        self.chunks.write(out);
        self.compression.write(out);
        proof {
            lemma_models_ids(self.chunks@);
        }
    }

    fn read(bytes: &[u8], pos: usize) -> (found: Option<(Self, usize)>) {
        match FileEntryFields::read(bytes, pos) {
            Some(((path, (hash, (size, (mime_type, (chunks, compression))))), next)) => {
                proof {
                    lemma_models_ids(chunks@);
                }
                Some((FileEntry { path, hash, size, mime_type, chunks, compression }, next))
            },
            None => None,
        }
    }
}

/// The models of header pairs are their views.
pub proof fn lemma_models_headers(pairs: Seq<(String, String)>)
    ensures
        models::<(String, String)>(pairs) == pairs.map_values(|h: (String, String)| (h.0@, h.1@)),
{
}

/// The models of redirect rules are their views.
pub proof fn lemma_models_redirects(rules: Seq<RedirectRule>)
    ensures
        models::<RedirectRule>(rules) == rules.map_values(|r: RedirectRule| r@),
{
}

/// The models of rewrite rules are their views.
pub proof fn lemma_models_rewrites(rules: Seq<RewriteRule>)
    ensures
        models::<RewriteRule>(rules) == rules.map_values(|r: RewriteRule| r@),
{
}

/// The models of header rules are their views.
pub proof fn lemma_models_header_rules(rules: Seq<HeaderRule>)
    ensures
        models::<HeaderRule>(rules) == rules.map_values(|r: HeaderRule| r@),
{
}

/// The models of file entries are their views.
pub proof fn lemma_models_files(files: Seq<FileEntry>)
    ensures
        models::<FileEntry>(files) == files.map_values(|f: FileEntry| f@),
{
}

/// The models of peer records are their views.
pub proof fn lemma_models_peers(peers: Seq<PeerRecord>)
    ensures
        models::<PeerRecord>(peers) == peers.map_values(|p: PeerRecord| p@),
{
}

pub type RedirectRuleFields = (String, (String, u16));

pub type RedirectRuleTuple = (Seq<char>, (Seq<char>, u16));

impl RedirectRuleView {
    /// The view as the tuple of its fields, in the order in which they are
    /// written.
    pub open spec fn fields(self) -> RedirectRuleTuple {
        (self.source, (self.destination, self.status))
    }

    /// The view whose fields, in the order in which they are written, make
    /// the tuple.
    pub open spec fn of(t: RedirectRuleTuple) -> RedirectRuleView {
        RedirectRuleView {
            source: t.0,
            destination: t.1.0,
            status: t.1.1,
        }
    }
}

impl Wire for RedirectRule {
    type Model = RedirectRuleView;

    open spec fn model(&self) -> RedirectRuleView {
        self@
    }

    open spec fn fits(m: RedirectRuleView) -> bool {
        RedirectRuleFields::fits(m.fields())
    }

    open spec fn wire(m: RedirectRuleView) -> Seq<u8> {
        RedirectRuleFields::wire(m.fields())
    }

    open spec fn parse(bytes: Seq<u8>) -> Option<(RedirectRuleView, nat)> {
        match RedirectRuleFields::parse(bytes) {
            Some((t, used)) => Some((RedirectRuleView::of(t), used)),
            None => None,
        }
    }

    proof fn lemma_parse_wire(m: RedirectRuleView, rest: Seq<u8>) {
        RedirectRuleFields::lemma_parse_wire(m.fields(), rest);
    }

    proof fn lemma_wire_parse(bytes: Seq<u8>) {
        RedirectRuleFields::lemma_wire_parse(bytes);
    }

    fn write(&self, out: &mut Vec<u8>) {
        self.source.write(out);
        self.destination.write(out);
        self.status.write(out);
    }

    fn read(bytes: &[u8], pos: usize) -> (found: Option<(Self, usize)>) {
        match RedirectRuleFields::read(bytes, pos) {
            Some(((source, (destination, status)), next)) => {
                Some((RedirectRule { source, destination, status }, next))
            },
            None => None,
        }
    }
}

pub type RewriteRuleFields = (String, String);

pub type RewriteRuleTuple = (Seq<char>, Seq<char>);

impl RewriteRuleView {
    /// The view as the tuple of its fields, in the order in which they are
    /// written.
    pub open spec fn fields(self) -> RewriteRuleTuple {
        (self.source, self.destination)
    }

    /// The view whose fields, in the order in which they are written, make
    /// the tuple.
    pub open spec fn of(t: RewriteRuleTuple) -> RewriteRuleView {
        RewriteRuleView {
            source: t.0,
            destination: t.1,
        }
    }
}

impl Wire for RewriteRule {
    type Model = RewriteRuleView;

    open spec fn model(&self) -> RewriteRuleView {
        self@
    }

    open spec fn fits(m: RewriteRuleView) -> bool {
        RewriteRuleFields::fits(m.fields())
    }

    open spec fn wire(m: RewriteRuleView) -> Seq<u8> {
        RewriteRuleFields::wire(m.fields())
    }

    open spec fn parse(bytes: Seq<u8>) -> Option<(RewriteRuleView, nat)> {
        match RewriteRuleFields::parse(bytes) {
            Some((t, used)) => Some((RewriteRuleView::of(t), used)),
            None => None,
        }
    }

    proof fn lemma_parse_wire(m: RewriteRuleView, rest: Seq<u8>) {
        RewriteRuleFields::lemma_parse_wire(m.fields(), rest);
    }

    proof fn lemma_wire_parse(bytes: Seq<u8>) {
        RewriteRuleFields::lemma_wire_parse(bytes);
    }

    fn write(&self, out: &mut Vec<u8>) {
        self.source.write(out);
        self.destination.write(out);
    }

    fn read(bytes: &[u8], pos: usize) -> (found: Option<(Self, usize)>) {
        match RewriteRuleFields::read(bytes, pos) {
            Some(((source, destination), next)) => {
                Some((RewriteRule { source, destination }, next))
            },
            None => None,
        }
    }
}

pub type HeaderRuleFields = (String, Vec<(String, String)>);

pub type HeaderRuleTuple = (Seq<char>, Seq<(Seq<char>, Seq<char>)>);

impl HeaderRuleView {
    /// The view as the tuple of its fields, in the order in which they are
    /// written.
    pub open spec fn fields(self) -> HeaderRuleTuple {
        (self.source, self.headers)
    }

    /// The view whose fields, in the order in which they are written, make
    /// the tuple.
    pub open spec fn of(t: HeaderRuleTuple) -> HeaderRuleView {
        HeaderRuleView {
            source: t.0,
            headers: t.1,
        }
    }
}

impl Wire for HeaderRule {
    type Model = HeaderRuleView;

    open spec fn model(&self) -> HeaderRuleView {
        self@
    }

    open spec fn fits(m: HeaderRuleView) -> bool {
        HeaderRuleFields::fits(m.fields())
    }

    open spec fn wire(m: HeaderRuleView) -> Seq<u8> {
        HeaderRuleFields::wire(m.fields())
    }

    open spec fn parse(bytes: Seq<u8>) -> Option<(HeaderRuleView, nat)> {
        match HeaderRuleFields::parse(bytes) {
            Some((t, used)) => Some((HeaderRuleView::of(t), used)),
            None => None,
        }
    }

    proof fn lemma_parse_wire(m: HeaderRuleView, rest: Seq<u8>) {
        HeaderRuleFields::lemma_parse_wire(m.fields(), rest);
    }

    proof fn lemma_wire_parse(bytes: Seq<u8>) {
        HeaderRuleFields::lemma_wire_parse(bytes);
    }

    fn write(&self, out: &mut Vec<u8>) {
        self.source.write(out);
        self.headers.write(out);
        proof {
            lemma_models_headers(self.headers@);
        }
    }

    fn read(bytes: &[u8], pos: usize) -> (found: Option<(Self, usize)>) {
        match HeaderRuleFields::read(bytes, pos) {
            Some(((source, headers), next)) => {
                proof {
                    lemma_models_headers(headers@);
                }
                Some((HeaderRule { source, headers }, next))
            },
            None => None,
        }
    }
}

pub type RouteConfigFields = (bool, (Option<String>, (Vec<RedirectRule>, Vec<RewriteRule>)));

pub type RouteConfigTuple = (bool, (Option<Seq<char>>, (Seq<RedirectRuleView>, Seq<RewriteRuleView>)));

impl RouteConfigView {
    /// The view as the tuple of its fields, in the order in which they are
    /// written.
    pub open spec fn fields(self) -> RouteConfigTuple {
        (self.clean_urls, (self.fallback, (self.redirects, self.rewrites)))
    }

    /// The view whose fields, in the order in which they are written, make
    /// the tuple.
    pub open spec fn of(t: RouteConfigTuple) -> RouteConfigView {
        RouteConfigView {
            clean_urls: t.0,
            fallback: t.1.0,
            redirects: t.1.1.0,
            rewrites: t.1.1.1,
        }
    }
}

impl Wire for RouteConfig {
    type Model = RouteConfigView;

    open spec fn model(&self) -> RouteConfigView {
        self@
    }

    open spec fn fits(m: RouteConfigView) -> bool {
        RouteConfigFields::fits(m.fields())
    }

    open spec fn wire(m: RouteConfigView) -> Seq<u8> {
        RouteConfigFields::wire(m.fields())
    }

    open spec fn parse(bytes: Seq<u8>) -> Option<(RouteConfigView, nat)> {
        match RouteConfigFields::parse(bytes) {
            Some((t, used)) => Some((RouteConfigView::of(t), used)),
            None => None,
        }
    }

    proof fn lemma_parse_wire(m: RouteConfigView, rest: Seq<u8>) {
        RouteConfigFields::lemma_parse_wire(m.fields(), rest);
    }

    proof fn lemma_wire_parse(bytes: Seq<u8>) {
        RouteConfigFields::lemma_wire_parse(bytes);
    }

    fn write(&self, out: &mut Vec<u8>) {
        self.clean_urls.write(out);
        self.fallback.write(out);
        self.redirects.write(out);
        self.rewrites.write(out);
        proof {
            lemma_models_redirects(self.redirects@);
            lemma_models_rewrites(self.rewrites@);
        }
    }

    fn read(bytes: &[u8], pos: usize) -> (found: Option<(Self, usize)>) {
        match RouteConfigFields::read(bytes, pos) {
            Some(((clean_urls, (fallback, (redirects, rewrites))), next)) => {
                proof {
                    lemma_models_redirects(redirects@);
                    lemma_models_rewrites(rewrites@);
                }
                Some((RouteConfig { clean_urls, fallback, redirects, rewrites }, next))
            },
            None => None,
        }
    }
}

pub type SiteManifestFields = (Vec<FileEntry>, (String, (Option<RouteConfig>, Option<Vec<HeaderRule>>)));

pub type SiteManifestTuple = (Seq<FileEntryView>, (Seq<char>, (Option<RouteConfigView>, Option<Seq<HeaderRuleView>>)));

impl SiteManifestView {
    /// The view as the tuple of its fields, in the order in which they are
    /// written.
    pub open spec fn fields(self) -> SiteManifestTuple {
        (self.files, (self.entry, (self.routes, self.headers)))
    }

    /// The view whose fields, in the order in which they are written, make
    /// the tuple.
    pub open spec fn of(t: SiteManifestTuple) -> SiteManifestView {
        SiteManifestView {
            files: t.0,
            entry: t.1.0,
            routes: t.1.1.0,
            headers: t.1.1.1,
        }
    }
}

impl Wire for SiteManifest {
    type Model = SiteManifestView;

    open spec fn model(&self) -> SiteManifestView {
        self@
    }

    open spec fn fits(m: SiteManifestView) -> bool {
        SiteManifestFields::fits(m.fields())
    }

    open spec fn wire(m: SiteManifestView) -> Seq<u8> {
        SiteManifestFields::wire(m.fields())
    }

    open spec fn parse(bytes: Seq<u8>) -> Option<(SiteManifestView, nat)> {
        match SiteManifestFields::parse(bytes) {
            Some((t, used)) => Some((SiteManifestView::of(t), used)),
            None => None,
        }
    }

    proof fn lemma_parse_wire(m: SiteManifestView, rest: Seq<u8>) {
        SiteManifestFields::lemma_parse_wire(m.fields(), rest);
    }

    proof fn lemma_wire_parse(bytes: Seq<u8>) {
        SiteManifestFields::lemma_wire_parse(bytes);
    }

    fn write(&self, out: &mut Vec<u8>) {
        self.files.write(out);
        self.entry.write(out);
        self.routes.write(out);
        self.headers.write(out);
        proof {
            lemma_models_files(self.files@);
            if let Some(rules) = &self.headers {
                lemma_models_header_rules(rules@);
            }
        }
    }

    fn read(bytes: &[u8], pos: usize) -> (found: Option<(Self, usize)>) {
        match SiteManifestFields::read(bytes, pos) {
            Some(((files, (entry, (routes, headers))), next)) => {
                proof {
                    lemma_models_files(files@);
                    if let Some(rules) = &headers {
                        lemma_models_header_rules(rules@);
                    }
                }
                Some((SiteManifest { files, entry, routes, headers }, next))
            },
            None => None,
        }
    }
}

pub type WebBundleFields = (SiteId, (String, (u64, ([u8; 32], (PublicKey, (Vec<u8>, (SiteManifest, u64)))))));

pub type WebBundleTuple = (Seq<u8>, (Seq<char>, (u64, (Seq<u8>, (Seq<u8>, (Seq<u8>, (SiteManifestView, u64)))))));

impl WebBundleView {
    /// The view as the tuple of its fields, in the order in which they are
    /// written.
    pub open spec fn fields(self) -> WebBundleTuple {
        (self.site_id, (self.name, (self.revision, (self.root_hash, (self.publisher, (self.signature, (self.manifest, self.created_at)))))))
    }

    /// The view whose fields, in the order in which they are written, make
    /// the tuple.
    pub open spec fn of(t: WebBundleTuple) -> WebBundleView {
        WebBundleView {
            site_id: t.0,
            name: t.1.0,
            revision: t.1.1.0,
            root_hash: t.1.1.1.0,
            publisher: t.1.1.1.1.0,
            signature: t.1.1.1.1.1.0,
            manifest: t.1.1.1.1.1.1.0,
            created_at: t.1.1.1.1.1.1.1,
        }
    }
}

impl Wire for WebBundle {
    type Model = WebBundleView;

    open spec fn model(&self) -> WebBundleView {
        self@
    }

    open spec fn fits(m: WebBundleView) -> bool {
        WebBundleFields::fits(m.fields())
    }

    open spec fn wire(m: WebBundleView) -> Seq<u8> {
        WebBundleFields::wire(m.fields())
    }

    open spec fn parse(bytes: Seq<u8>) -> Option<(WebBundleView, nat)> {
        match WebBundleFields::parse(bytes) {
            Some((t, used)) => Some((WebBundleView::of(t), used)),
            None => None,
        }
    }

    proof fn lemma_parse_wire(m: WebBundleView, rest: Seq<u8>) {
        WebBundleFields::lemma_parse_wire(m.fields(), rest);
    }

    proof fn lemma_wire_parse(bytes: Seq<u8>) {
        WebBundleFields::lemma_wire_parse(bytes);
    }

    fn write(&self, out: &mut Vec<u8>) {
        self.site_id.write(out);
        self.name.write(out);
        self.revision.write(out);
        self.root_hash.write(out);
        self.publisher.write(out);
        self.signature.write(out);
        self.manifest.write(out);
        self.created_at.write(out);
    }

    fn read(bytes: &[u8], pos: usize) -> (found: Option<(Self, usize)>) {
        match WebBundleFields::read(bytes, pos) {
            Some(((site_id, (name, (revision, (root_hash, (publisher, (signature, (manifest, created_at))))))), next)) => {
                Some((WebBundle { site_id, name, revision, root_hash, publisher, signature, manifest, created_at }, next))
            },
            None => None,
        }
    }
}

pub type PublishedSiteFields = (SiteId, (String, (u64, (String, (u64, u64)))));

pub type PublishedSiteTuple = (Seq<u8>, (Seq<char>, (u64, (Seq<char>, (u64, u64)))));

impl PublishedSiteView {
    /// The view as the tuple of its fields, in the order in which they are
    /// written.
    pub open spec fn fields(self) -> PublishedSiteTuple {
        (self.site_id, (self.name, (self.revision, (self.root_path, (self.created_at, self.updated_at)))))
    }

    /// The view whose fields, in the order in which they are written, make
    /// the tuple.
    pub open spec fn of(t: PublishedSiteTuple) -> PublishedSiteView {
        PublishedSiteView {
            site_id: t.0,
            name: t.1.0,
            revision: t.1.1.0,
            root_path: t.1.1.1.0,
            created_at: t.1.1.1.1.0,
            updated_at: t.1.1.1.1.1,
        }
    }
}

impl Wire for PublishedSite {
    type Model = PublishedSiteView;

    open spec fn model(&self) -> PublishedSiteView {
        self@
    }

    open spec fn fits(m: PublishedSiteView) -> bool {
        PublishedSiteFields::fits(m.fields())
    }

    open spec fn wire(m: PublishedSiteView) -> Seq<u8> {
        PublishedSiteFields::wire(m.fields())
    }

    open spec fn parse(bytes: Seq<u8>) -> Option<(PublishedSiteView, nat)> {
        match PublishedSiteFields::parse(bytes) {
            Some((t, used)) => Some((PublishedSiteView::of(t), used)),
            None => None,
        }
    }

    proof fn lemma_parse_wire(m: PublishedSiteView, rest: Seq<u8>) {
        PublishedSiteFields::lemma_parse_wire(m.fields(), rest);
    }

    proof fn lemma_wire_parse(bytes: Seq<u8>) {
        PublishedSiteFields::lemma_wire_parse(bytes);
    }

    fn write(&self, out: &mut Vec<u8>) {
        self.site_id.write(out);
        self.name.write(out);
        self.revision.write(out);
        self.root_path.write(out);
        self.created_at.write(out);
        self.updated_at.write(out);
    }

    fn read(bytes: &[u8], pos: usize) -> (found: Option<(Self, usize)>) {
        match PublishedSiteFields::read(bytes, pos) {
            Some(((site_id, (name, (revision, (root_path, (created_at, updated_at))))), next)) => {
                Some((PublishedSite { site_id, name, revision, root_path, created_at, updated_at }, next))
            },
            None => None,
        }
    }
}

pub type HostedSiteFields = (SiteId, (String, (u64, (u64, (u64, u64)))));

pub type HostedSiteTuple = (Seq<u8>, (Seq<char>, (u64, (u64, (u64, u64)))));

impl HostedSiteView {
    /// The view as the tuple of its fields, in the order in which they are
    /// written.
    pub open spec fn fields(self) -> HostedSiteTuple {
        (self.site_id, (self.name, (self.revision, (self.hosted_at, (self.last_accessed, self.access_count)))))
    }

    /// The view whose fields, in the order in which they are written, make
    /// the tuple.
    pub open spec fn of(t: HostedSiteTuple) -> HostedSiteView {
        HostedSiteView {
            site_id: t.0,
            name: t.1.0,
            revision: t.1.1.0,
            hosted_at: t.1.1.1.0,
            last_accessed: t.1.1.1.1.0,
            access_count: t.1.1.1.1.1,
        }
    }
}

impl Wire for HostedSite {
    type Model = HostedSiteView;

    open spec fn model(&self) -> HostedSiteView {
        self@
    }

    open spec fn fits(m: HostedSiteView) -> bool {
        HostedSiteFields::fits(m.fields())
    }

    open spec fn wire(m: HostedSiteView) -> Seq<u8> {
        HostedSiteFields::wire(m.fields())
    }

    open spec fn parse(bytes: Seq<u8>) -> Option<(HostedSiteView, nat)> {
        match HostedSiteFields::parse(bytes) {
            Some((t, used)) => Some((HostedSiteView::of(t), used)),
            None => None,
        }
    }

    proof fn lemma_parse_wire(m: HostedSiteView, rest: Seq<u8>) {
        HostedSiteFields::lemma_parse_wire(m.fields(), rest);
    }

    proof fn lemma_wire_parse(bytes: Seq<u8>) {
        HostedSiteFields::lemma_wire_parse(bytes);
    }

    fn write(&self, out: &mut Vec<u8>) {
        self.site_id.write(out);
        self.name.write(out);
        self.revision.write(out);
        self.hosted_at.write(out);
        self.last_accessed.write(out);
        self.access_count.write(out);
    }

    fn read(bytes: &[u8], pos: usize) -> (found: Option<(Self, usize)>) {
        match HostedSiteFields::read(bytes, pos) {
            Some(((site_id, (name, (revision, (hosted_at, (last_accessed, access_count))))), next)) => {
                Some((HostedSite { site_id, name, revision, hosted_at, last_accessed, access_count }, next))
            },
            None => None,
        }
    }
}

pub type PeerRecordFields = (String, (Vec<String>, u64));

pub type PeerRecordTuple = (Seq<char>, (Seq<Seq<char>>, u64));

impl PeerRecordView {
    /// The view as the tuple of its fields, in the order in which they are
    /// written.
    pub open spec fn fields(self) -> PeerRecordTuple {
        (self.peer_id, (self.addresses, self.revision))
    }

    /// The view whose fields, in the order in which they are written, make
    /// the tuple.
    pub open spec fn of(t: PeerRecordTuple) -> PeerRecordView {
        PeerRecordView {
            peer_id: t.0,
            addresses: t.1.0,
            revision: t.1.1,
        }
    }
}

impl Wire for PeerRecord {
    type Model = PeerRecordView;

    open spec fn model(&self) -> PeerRecordView {
        self@
    }

    open spec fn fits(m: PeerRecordView) -> bool {
        PeerRecordFields::fits(m.fields())
    }

    open spec fn wire(m: PeerRecordView) -> Seq<u8> {
        PeerRecordFields::wire(m.fields())
    }

    open spec fn parse(bytes: Seq<u8>) -> Option<(PeerRecordView, nat)> {
        match PeerRecordFields::parse(bytes) {
            Some((t, used)) => Some((PeerRecordView::of(t), used)),
            None => None,
        }
    }

    proof fn lemma_parse_wire(m: PeerRecordView, rest: Seq<u8>) {
        PeerRecordFields::lemma_parse_wire(m.fields(), rest);
    }

    proof fn lemma_wire_parse(bytes: Seq<u8>) {
        PeerRecordFields::lemma_wire_parse(bytes);
    }

    fn write(&self, out: &mut Vec<u8>) {
        self.peer_id.write(out);
        self.addresses.write(out);
        self.revision.write(out);
        proof {
            lemma_models_texts(self.addresses@);
        }
    }

    fn read(bytes: &[u8], pos: usize) -> (found: Option<(Self, usize)>) {
        match PeerRecordFields::read(bytes, pos) {
            Some(((peer_id, (addresses, revision)), next)) => {
                proof {
                    lemma_models_texts(addresses@);
                }
                Some((PeerRecord { peer_id, addresses, revision }, next))
            },
            None => None,
        }
    }
}

} // verus!

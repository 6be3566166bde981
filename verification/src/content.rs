//! User uploads: the policy of a site, what it decides of an upload,
//! and the uploads that were taken.

use vstd::prelude::*;
use vstd::utf8::encode_utf8;
use crate::bytes::{bytes_eq, has_prefix, starts_with, to_vec};
use crate::clock::unix_millis;
use crate::collections::{IdMap, TextMap};
use crate::crypto::hash::{base58_text, blake3_digest, concat_parts, encode_base58, hash};
use crate::gateway::{chunk_bodies_of, read_chunks};
use crate::network::replication::{copy_texts, remove_text, without_text};
use crate::publisher::files::{blob_views, chunks_of, digests, split_chunks, store_all};
use crate::storage::ChunkStore;
use crate::storage::chunks::all_cached;
use crate::storage::kv::StoreError;
use crate::text::{copy_text, join};
use crate::types::{id_views, text_views, ChunkId, SiteId};

verus! {

/// Moderation mode.
#[derive(Debug, Clone, Copy, PartialEq, Eq, Structural)]
pub enum ModerationMode {
    /// Auto-approve all uploads.
    Off,
    /// Review after upload.
    Post,
    /// Require approval before visible.
    Pre,
}

/// Upload status.
#[derive(Debug, Clone, Copy, PartialEq, Eq, Structural)]
pub enum UploadStatus {
    Pending,
    Approved,
    Rejected,
}

/// Upload policy for a site.
#[derive(Debug, Clone)]
pub struct UploadPolicy {
    /// Maximum file size in bytes.
    pub max_file_size: usize,
    /// Maximum storage per user in bytes.
    pub max_storage_per_user: usize,
    /// Allowed MIME types (empty = all); a `*` stands for any ending.
    pub allowed_types: Vec<String>,
    /// Require authentication.
    pub require_auth: bool,
    /// Moderation mode.
    pub moderation: ModerationMode,
    /// Rate limit (uploads per hour).
    pub rate_limit: usize,
}

impl Default for UploadPolicy {
    fn default() -> (policy: Self)
        ensures
            policy.max_file_size == 10485760,
            policy.max_storage_per_user == 104857600,
            policy.allowed_types@.len() == 0,
            !policy.require_auth,
            policy.moderation == ModerationMode::Off,
            policy.rate_limit == 60,
    {
        UploadPolicy {
            max_file_size: 10485760,
            max_storage_per_user: 104857600,
            allowed_types: Vec::new(),
            require_auth: false,
            moderation: ModerationMode::Off,
            rate_limit: 60,
        }
    }
}

/// A user upload.
#[derive(Debug, Clone)]
pub struct UserUpload {
    /// Unique upload ID.
    pub id: String,
    /// Site this belongs to.
    pub site_id: SiteId,
    /// Uploader identity.
    pub uploader: String,
    /// Original filename.
    pub filename: String,
    /// MIME type.
    pub mime_type: String,
    /// File size.
    pub size: usize,
    /// Content hash, as base58 text.
    pub content_hash: String,
    /// Chunk IDs.
    pub chunks: Vec<ChunkId>,
    /// Upload timestamp.
    pub uploaded_at: u64,
    /// Status.
    pub status: UploadStatus,
}

/// Why a policy refuses an upload.
#[derive(Debug, Clone, Copy, PartialEq, Eq, Structural)]
pub enum UploadRejection {
    /// The policy asks for an uploader who is known.
    AuthenticationRequired,
    /// The file is larger than the policy allows.
    FileTooLarge,
    /// The MIME type is not among the allowed ones.
    TypeNotAllowed,
    /// The uploader has used up the uploads of this hour.
    RateLimitExceeded,
    /// The uploader's storage would grow over the quota.
    QuotaExceeded,
}

/// A pattern without its stars.
pub open spec fn without_stars(pattern: Seq<u8>) -> Seq<u8>
    decreases pattern.len(),
{
    if pattern.len() == 0 {
        Seq::empty()
    } else if pattern.last() == 0x2a {
        without_stars(pattern.drop_last())
    } else {
        without_stars(pattern.drop_last()).push(pattern.last())
    }
}

/// Whether a MIME type fits an allowed type: it is the type, or begins
/// with the type taken without its stars.
pub open spec fn type_matches(mime: Seq<char>, allowed: Seq<char>) -> bool {
    mime == allowed || has_prefix(encode_utf8(mime), without_stars(encode_utf8(allowed)))
}

/// Whether a MIME type is allowed: no types are named, or it fits one of them.
pub open spec fn type_allowed(mime: Seq<char>, allowed: Seq<String>) -> bool {
    allowed.len() == 0 || exists|i: int| 0 <= i < allowed.len() && type_matches(mime, (#[trigger] allowed[i])@)
}

/// What a policy decides of an upload of `size` bytes by an uploader who
/// made `recent_uploads` uploads in the last hour and stores
/// `used_storage` bytes: the first reason against it, in the order of
/// the checks, or the status it starts with.
pub open spec fn upload_decision(
    policy: UploadPolicy,
    authenticated: bool,
    size: usize,
    mime: Seq<char>,
    recent_uploads: usize,
    used_storage: usize,
) -> Result<UploadStatus, UploadRejection> {
    if policy.require_auth && !authenticated {
        Err(UploadRejection::AuthenticationRequired)
    } else if size > policy.max_file_size {
        Err(UploadRejection::FileTooLarge)
    } else if !type_allowed(mime, policy.allowed_types@) {
        Err(UploadRejection::TypeNotAllowed)
    } else if recent_uploads >= policy.rate_limit {
        Err(UploadRejection::RateLimitExceeded)
    } else if used_storage + size > policy.max_storage_per_user {
        Err(UploadRejection::QuotaExceeded)
    } else if policy.moderation == ModerationMode::Pre {
        Ok(UploadStatus::Pending)
    } else {
        Ok(UploadStatus::Approved)
    }
}

/// A pattern without its stars.
fn strip_stars(pattern: &[u8]) -> (kept: Vec<u8>)
    ensures
        kept@ == without_stars(pattern@),
{
    let mut kept: Vec<u8> = Vec::new();
    let mut i: usize = 0;
    while i < pattern.len()
        invariant
            i <= pattern@.len(),
            kept@ == without_stars(pattern@.take(i as int)),
        decreases pattern@.len() - i,
    {
        proof {
            assert(pattern@.take(i + 1).drop_last() =~= pattern@.take(i as int));
        }
        if pattern[i] != 0x2a {
            kept.push(pattern[i]);
        }
        i += 1;
    }
    assert(pattern@.take(pattern@.len() as int) =~= pattern@);
    kept
}

/// Whether a MIME type is among the allowed types of a policy.
pub fn is_type_allowed(mime: &str, allowed: &Vec<String>) -> (ok: bool)
    ensures
        ok == type_allowed(mime@, allowed@),
{
    if allowed.len() == 0 {
        return true;
    }
    let mut i: usize = 0;
    while i < allowed.len()
        invariant
            i <= allowed@.len(),
            forall|k: int| 0 <= k < i ==> !type_matches(mime@, (#[trigger] allowed@[k])@),
        decreases allowed@.len() - i,
    {
        let pattern = allowed[i].as_str().as_bytes();
        let same = bytes_eq(mime.as_bytes(), pattern);
        proof {
            vstd::utf8::encode_utf8_decode_utf8(mime@);
            vstd::utf8::encode_utf8_decode_utf8(allowed@[i as int]@);
        }
        if same {
            return true;
        }
        let stripped = strip_stars(pattern);
        if starts_with(mime.as_bytes(), stripped.as_slice()) {
            return true;
        }
        i += 1;
    }
    false
}

/// Decides an upload under a policy.
pub fn admit_upload(
    policy: &UploadPolicy,
    authenticated: bool,
    size: usize,
    mime: &str,
    recent_uploads: usize,
    used_storage: usize,
) -> (decision: Result<UploadStatus, UploadRejection>)
    ensures
        decision == upload_decision(*policy, authenticated, size, mime@, recent_uploads, used_storage),
{
    if policy.require_auth && !authenticated {
        return Err(UploadRejection::AuthenticationRequired);
    }
    if size > policy.max_file_size {
        return Err(UploadRejection::FileTooLarge);
    }
    if !is_type_allowed(mime, &policy.allowed_types) {
        return Err(UploadRejection::TypeNotAllowed);
    }
    if recent_uploads >= policy.rate_limit {
        return Err(UploadRejection::RateLimitExceeded);
    }
    if used_storage > policy.max_storage_per_user || policy.max_storage_per_user - used_storage < size {
        return Err(UploadRejection::QuotaExceeded);
    }
    match policy.moderation {
        ModerationMode::Pre => Ok(UploadStatus::Pending),
        _ => Ok(UploadStatus::Approved),
    }
}

/// The mathematical view of a `UploadPolicy`.
pub struct UploadPolicyView {
    pub max_file_size: usize,
    pub max_storage_per_user: usize,
    pub allowed_types: Seq<Seq<char>>,
    pub require_auth: bool,
    pub moderation: ModerationMode,
    pub rate_limit: usize,
}

impl View for UploadPolicy {
    type V = UploadPolicyView;

    open spec fn view(&self) -> UploadPolicyView {
        UploadPolicyView {
            max_file_size: self.max_file_size,
            max_storage_per_user: self.max_storage_per_user,
            allowed_types: text_views(self.allowed_types@),
            require_auth: self.require_auth,
            moderation: self.moderation,
            rate_limit: self.rate_limit,
        }
    }
}

impl UploadPolicy {
    /// A copy of the policy.
    pub fn copy(&self) -> (copy: UploadPolicy)
        ensures
            copy@ == self@,
    {
        UploadPolicy {
            max_file_size: self.max_file_size,
            max_storage_per_user: self.max_storage_per_user,
            allowed_types: copy_texts(&self.allowed_types),
            require_auth: self.require_auth,
            moderation: self.moderation,
            rate_limit: self.rate_limit,
        }
    }
}

/// The mathematical view of a `UserUpload`.
pub struct UserUploadView {
    pub id: Seq<char>,
    pub site_id: Seq<u8>,
    pub uploader: Seq<char>,
    pub filename: Seq<char>,
    pub mime_type: Seq<char>,
    pub size: usize,
    pub content_hash: Seq<char>,
    pub chunks: Seq<Seq<u8>>,
    pub uploaded_at: u64,
    pub status: UploadStatus,
}

impl View for UserUpload {
    type V = UserUploadView;

    open spec fn view(&self) -> UserUploadView {
        UserUploadView {
            id: self.id@,
            site_id: self.site_id@,
            uploader: self.uploader@,
            filename: self.filename@,
            mime_type: self.mime_type@,
            size: self.size,
            content_hash: self.content_hash@,
            chunks: id_views(self.chunks@),
            uploaded_at: self.uploaded_at,
            status: self.status,
        }
    }
}

impl UserUpload {
    /// A copy of the upload record.
    pub fn copy(&self) -> (copy: UserUpload)
        ensures
            copy@ == self@,
    {
        let mut chunks: Vec<ChunkId> = Vec::new();
        let mut i: usize = 0;
        while i < self.chunks.len()
            invariant
                i <= self.chunks@.len(),
                chunks@ == self.chunks@.take(i as int),
            decreases self.chunks@.len() - i,
        {
            chunks.push(self.chunks[i]);
            i += 1;
        }
        assert(chunks@ =~= self.chunks@);
        UserUpload {
            id: copy_text(self.id.as_str()),
            site_id: self.site_id,
            uploader: copy_text(self.uploader.as_str()),
            filename: copy_text(self.filename.as_str()),
            mime_type: copy_text(self.mime_type.as_str()),
            size: self.size,
            content_hash: copy_text(self.content_hash.as_str()),
            chunks,
            uploaded_at: self.uploaded_at,
            status: self.status,
        }
    }
}

/// Why an upload was not taken.
#[derive(Debug, Clone)]
pub enum UploadError {
    /// The policy of the site is against it.
    Rejected { reason: UploadRejection },
    /// The chunk store reported an error.
    Store { error: StoreError },
}

/// The size of the pieces that uploads are stored in: 256 KiB.
pub const UPLOAD_CHUNK_SIZE: usize = 262144;

/// The time an hour before `now`, in milliseconds; 0 in the first hour.
pub open spec fn hour_before(now: u64) -> u64 {
    if now >= 3600000 {
        (now - 3600000) as u64
    } else {
        0
    }
}

/// The times that lie within the hour before `now`, in their order.
pub open spec fn recent_times(times: Seq<u64>, now: u64) -> Seq<u64>
    decreases times.len(),
{
    if times.len() == 0 {
        Seq::empty()
    } else if times.last() > hour_before(now) {
        recent_times(times.drop_last(), now).push(times.last())
    } else {
        recent_times(times.drop_last(), now)
    }
}

/// The name under which an upload of nobody known is kept: `anon_` and
/// the base58 text of the first 8 bytes of the digest of the seed.
pub open spec fn anonymous_name(seed: Seq<u8>) -> Seq<char> {
    "anon_"@ + base58_text(blake3_digest(seed).take(8))
}

/// The identifier of an upload: the base58 text of the first 12 bytes of
/// the digest of the seed.
pub open spec fn upload_id_of(seed: Seq<u8>) -> Seq<char> {
    base58_text(blake3_digest(seed).take(12))
}

/// Calls `rand::random`. Nothing is claimed of the bytes: they are random.
#[verifier::external_body]
fn random_seed8() -> (seed: [u8; 8]) {
    rand::random::<[u8; 8]>()
}

/// Calls `rand::random`. Nothing is claimed of the bytes: they are random.
#[verifier::external_body]
fn random_seed16() -> (seed: [u8; 16]) {
    rand::random::<[u8; 16]>()
}

/// Manages user-uploaded content.
pub struct UserContentManager {
    /// The upload policy of each site that takes uploads.
    policies: IdMap<UploadPolicy>,
    /// The uploads, by identifier.
    uploads: TextMap<UserUpload>,
    /// The identifiers of the uploads of each site, oldest first.
    uploads_by_site: IdMap<Vec<String>>,
    /// The identifiers of the uploads of each uploader, oldest first.
    uploads_by_user: TextMap<Vec<String>>,
    /// The times of the uploads of each uploader within the last hour.
    rate_limits: TextMap<Vec<u64>>,
}

impl UserContentManager {
    /// Every table of the manager holds each of its keys once.
    pub closed spec fn wf(&self) -> bool {
        &&& self.policies.wf()
        &&& self.uploads.wf()
        &&& self.uploads_by_site.wf()
        &&& self.uploads_by_user.wf()
        &&& self.rate_limits.wf()
    }

    /// The policy of a site, if uploads are enabled for it.
    pub closed spec fn policy(&self, site_id: Seq<u8>) -> Option<UploadPolicy> {
        if self.policies.has(site_id) {
            Some(self.policies.value(site_id))
        } else {
            None
        }
    }

    /// The upload of an identifier, if there is one.
    pub closed spec fn upload_of(&self, id: Seq<char>) -> Option<UserUploadView> {
        if self.uploads.has(id) {
            Some(self.uploads.value(id)@)
        } else {
            None
        }
    }

    /// The identifiers of the uploads of a site, oldest first.
    pub closed spec fn site_uploads(&self, site_id: Seq<u8>) -> Seq<Seq<char>> {
        if self.uploads_by_site.has(site_id) {
            text_views(self.uploads_by_site.value(site_id)@)
        } else {
            Seq::empty()
        }
    }

    /// The identifiers of the uploads of an uploader, oldest first.
    pub closed spec fn user_uploads(&self, uploader: Seq<char>) -> Seq<Seq<char>> {
        if self.uploads_by_user.has(uploader) {
            text_views(self.uploads_by_user.value(uploader)@)
        } else {
            Seq::empty()
        }
    }

    /// The upload times counted against an uploader.
    pub closed spec fn upload_times(&self, uploader: Seq<char>) -> Seq<u64> {
        if self.rate_limits.has(uploader) {
            self.rate_limits.value(uploader)@
        } else {
            Seq::empty()
        }
    }

    /// The sizes of the uploads of the identifiers that there are, added up.
    pub open spec fn sizes_of(&self, ids: Seq<Seq<char>>) -> nat
        decreases ids.len(),
    {
        if ids.len() == 0 {
            0
        } else {
            self.sizes_of(ids.drop_last()) + match self.upload_of(ids.last()) {
                Some(upload) => upload.size as nat,
                None => 0nat,
            }
        }
    }

    /// The uploads of the identifiers that there are, in their order.
    pub open spec fn uploads_of(&self, ids: Seq<Seq<char>>) -> Seq<UserUploadView>
        decreases ids.len(),
    {
        if ids.len() == 0 {
            Seq::empty()
        } else {
            match self.upload_of(ids.last()) {
                Some(upload) => self.uploads_of(ids.drop_last()).push(upload),
                None => self.uploads_of(ids.drop_last()),
            }
        }
    }

    /// The bytes that an uploader stores, held at the largest number that can be held.
    pub open spec fn used_storage(&self, uploader: Seq<char>) -> usize {
        if self.sizes_of(self.user_uploads(uploader)) > usize::MAX {
            usize::MAX
        } else {
            self.sizes_of(self.user_uploads(uploader)) as usize
        }
    }

    /// Create a new content manager.
    pub fn new() -> (manager: Self)
        ensures
            manager.wf(),
            forall|site: Seq<u8>| #[trigger] manager.policy(site) is None,
            forall|id: Seq<char>| #[trigger] manager.upload_of(id) is None,
            forall|site: Seq<u8>| #[trigger] manager.site_uploads(site).len() == 0,
            forall|user: Seq<char>| #[trigger] manager.user_uploads(user).len() == 0,
            forall|user: Seq<char>| #[trigger] manager.upload_times(user).len() == 0,
    {
        UserContentManager {
            policies: IdMap::new(),
            uploads: TextMap::new(),
            uploads_by_site: IdMap::new(),
            uploads_by_user: TextMap::new(),
            rate_limits: TextMap::new(),
        }
    }

    /// Set upload policy for a site.
    pub fn set_policy(&mut self, site_id: &SiteId, policy: UploadPolicy)
        requires
            old(self).wf(),
        ensures
            final(self).wf(),
            final(self).policy(site_id@) == Some(policy),
            forall|other: Seq<u8>| other != site_id@ ==> final(self).policy(other) == old(self).policy(other),
            forall|id: Seq<char>| #[trigger] final(self).upload_of(id) == old(self).upload_of(id),
            forall|site: Seq<u8>| #[trigger] final(self).site_uploads(site) == old(self).site_uploads(site),
            forall|user: Seq<char>| #[trigger] final(self).user_uploads(user) == old(self).user_uploads(user),
            forall|user: Seq<char>| #[trigger] final(self).upload_times(user) == old(self).upload_times(user),
    {
        self.policies.set(*site_id, policy);
    }

    /// Get policy for a site.
    pub fn get_policy(&self, site_id: &SiteId) -> (found: Option<UploadPolicy>)
        requires
            self.wf(),
        ensures
            match found {
                Some(policy) => self.policy(site_id@) matches Some(p) && policy@ == p@,
                None => self.policy(site_id@) is None,
            },
    {
        match self.policies.get(site_id) {
            Some(policy) => Some(policy.copy()),
            None => None,
        }
    }

    /// What taking an upload at `now` leaves behind and hands back.
    pub open spec fn taken(
        before: Self,
        after: Self,
        chunks_before: ChunkStore,
        chunks_after: ChunkStore,
        site_id: Seq<u8>,
        filename: Seq<char>,
        mime_type: Seq<char>,
        data: Seq<u8>,
        uploader: Seq<char>,
        id_seed: Seq<u8>,
        now: u64,
        status: UploadStatus,
        upload: UserUploadView,
    ) -> bool {
        &&& upload == (UserUploadView {
            id: upload_id_of(id_seed),
            site_id,
            uploader,
            filename,
            mime_type,
            size: data.len() as usize,
            content_hash: base58_text(blake3_digest(data)),
            chunks: digests(chunks_of(data, UPLOAD_CHUNK_SIZE as nat)),
            uploaded_at: now,
            status,
        })
        &&& chunks_after.chunks() == store_all(
            chunks_before.chunks(),
            chunks_of(data, UPLOAD_CHUNK_SIZE as nat),
        )
        &&& after.upload_of(upload.id) == Some(upload)
        &&& forall|other: Seq<char>| other != upload.id ==> after.upload_of(other) == before.upload_of(other)
        &&& after.site_uploads(site_id) == before.site_uploads(site_id).push(upload.id)
        &&& forall|other: Seq<u8>| other != site_id ==> after.site_uploads(other) == before.site_uploads(other)
        &&& after.user_uploads(uploader) == before.user_uploads(uploader).push(upload.id)
        &&& forall|other: Seq<char>|
            other != uploader ==> after.user_uploads(other) == before.user_uploads(other)
        &&& after.upload_times(uploader) == recent_times(before.upload_times(uploader).push(now), now)
        &&& forall|other: Seq<char>|
            other != uploader ==> after.upload_times(other) == before.upload_times(other)
        &&& forall|site: Seq<u8>| #[trigger] after.policy(site) == before.policy(site)
    }

    /// Upload content, now. An upload of nobody known goes under a
    /// random name; the identifier of every upload is random.
    pub fn upload(
        &mut self,
        chunk_store: &mut ChunkStore,
        site_id: &SiteId,
        filename: &str,
        mime_type: &str,
        data: &[u8],
        uploader_id: Option<&str>,
    ) -> (done: Result<Option<UserUpload>, UploadError>)
        requires
            old(self).wf(),
            old(chunk_store).wf(),
        ensures
            final(self).wf(),
            final(chunk_store).wf(),
            done matches Ok(None) ==> old(self).policy(site_id@) is None && *final(self) == *old(self)
                && final(chunk_store).chunks() == old(chunk_store).chunks(),
            done matches Ok(Some(upload)) ==> old(self).policy(site_id@) is Some && upload@.site_id
                == site_id@ && upload@.filename == filename@ && upload@.mime_type == mime_type@
                && upload@.size == data@.len() && final(self).upload_of(upload@.id) == Some(upload@),
            done matches Err(UploadError::Rejected { reason }) ==> old(self).policy(site_id@) is Some
                && *final(self) == *old(self) && final(chunk_store).chunks() == old(chunk_store).chunks(),
            done matches Err(UploadError::Store { error }) ==> old(self).policy(site_id@) is Some
                && data@.len() > 0,
            old(self).policy(site_id@) is None ==> done matches Ok(None),
    {
        let anon_seed = random_seed8();
        let id_seed = random_seed16();
        let now = unix_millis();
        let size: usize = data.len();
        self.upload_with(
            chunk_store,
            site_id,
            filename,
            mime_type,
            data,
            uploader_id,
            &anon_seed,
            &id_seed,
            now,
        )
    }

    /// Upload content at `now`, with the seeds that the random name and
    /// the identifier are made of. `None` where the site takes no uploads.
    pub fn upload_with(
        &mut self,
        chunk_store: &mut ChunkStore,
        site_id: &SiteId,
        filename: &str,
        mime_type: &str,
        data: &[u8],
        uploader_id: Option<&str>,
        anon_seed: &[u8; 8],
        id_seed: &[u8; 16],
        now: u64,
    ) -> (done: Result<Option<UserUpload>, UploadError>)
        requires
            old(self).wf(),
            old(chunk_store).wf(),
        ensures
            final(self).wf(),
            final(chunk_store).wf(),
            ({
                let uploader = match uploader_id {
                    Some(id) => id@,
                    None => anonymous_name(anon_seed@),
                };
                let before = *old(self);
                match done {
                    Ok(None) => before.policy(site_id@) is None && *final(self) == before && final(chunk_store).chunks() == old(chunk_store).chunks(),
                    Ok(Some(upload)) => before.policy(site_id@) matches Some(policy) && upload_decision(
                        policy,
                        uploader_id is Some,
                        data@.len() as usize,
                        mime_type@,
                        recent_times(before.upload_times(uploader), now).len() as usize,
                        before.used_storage(uploader),
                    ) == Ok::<UploadStatus, UploadRejection>(upload.status) && Self::taken(
                        before,
                        *final(self),
                        *old(chunk_store),
                        *final(chunk_store),
                        site_id@,
                        filename@,
                        mime_type@,
                        data@,
                        uploader,
                        id_seed@,
                        now,
                        upload.status,
                        upload@,
                    ),
                    Err(UploadError::Rejected { reason }) => before.policy(site_id@) matches Some(policy)
                        && upload_decision(
                        policy,
                        uploader_id is Some,
                        data@.len() as usize,
                        mime_type@,
                        recent_times(before.upload_times(uploader), now).len() as usize,
                        before.used_storage(uploader),
                    ) == Err::<UploadStatus, UploadRejection>(reason) && *final(self) == before && final(chunk_store).chunks() == old(chunk_store).chunks(),
                    Err(UploadError::Store { error }) => before.policy(site_id@) matches Some(policy)
                        && upload_decision(
                        policy,
                        uploader_id is Some,
                        data@.len() as usize,
                        mime_type@,
                        recent_times(before.upload_times(uploader), now).len() as usize,
                        before.used_storage(uploader),
                    ) is Ok && data@.len() > 0,
                }
            }),
            old(self).policy(site_id@) is None ==> done matches Ok(None),
    {
        let uploader = match uploader_id {
            Some(id) => copy_text(id),
            None => {
                let digest = hash(anon_seed.as_slice());
                let head = to_vec(&digest.as_slice()[0..8]);
                join("anon_", encode_base58(head.as_slice()).as_str())
            },
        };
        let recent = self.recent_uploads(uploader.as_str(), now);
        let used = self.get_user_storage(uploader.as_str());
        let status = match self.policies.get(site_id) {
            Some(policy) => match admit_upload(
                policy,
                uploader_id.is_some(),
                data.len(),
                mime_type,
                recent,
                used,
            ) {
                Ok(status) => status,
                Err(reason) => {
                    return Err(UploadError::Rejected { reason });
                },
            },
            None => {
                return Ok(None);
            },
        };
        let pieces = split_chunks(data, UPLOAD_CHUNK_SIZE);
        let ghost bodies = blob_views(pieces@);
        let ghost start = chunk_store.chunks();
        let ghost decision = upload_decision(
            old(self).policy(site_id@)->0,
            uploader_id is Some,
            data@.len() as usize,
            mime_type@,
            recent_times(old(self).upload_times(uploader@), now).len() as usize,
            old(self).used_storage(uploader@),
        );
        let mut chunks: Vec<ChunkId> = Vec::new();
        let mut i: usize = 0;
        proof {
            assert(bodies.len() == pieces@.len());
        }
        while i < pieces.len()
            invariant
                i <= pieces@.len(),
                chunk_store.wf(),
                self.wf(),
                *self == *old(self),
                old(self).policy(site_id@) is Some,
                decision is Ok,
                decision == upload_decision(
                    old(self).policy(site_id@)->0,
                    uploader_id is Some,
                    data@.len() as usize,
                    mime_type@,
                    recent_times(old(self).upload_times(uploader@), now).len() as usize,
                    old(self).used_storage(uploader@),
                ),
                uploader@ == (match uploader_id {
                    Some(id) => id@,
                    None => anonymous_name(anon_seed@),
                }),
                pieces@.len() > 0 ==> data@.len() > 0,
                start == old(chunk_store).chunks(),
                bodies == blob_views(pieces@),
                chunk_store.chunks() == store_all(start, bodies.take(i as int)),
                id_views(chunks@) == digests(bodies.take(i as int)),
            decreases pieces@.len() - i,
        {
            proof {
                assert(bodies.take(i + 1).drop_last() =~= bodies.take(i as int));
            }
            match chunk_store.put(pieces[i].as_slice()) {
                Ok(id) => {
                    proof {
                        assert(digests(bodies.take(i + 1)) =~= digests(bodies.take(i as int)).push(
                            blake3_digest(bodies[i as int]),
                        ));
                    }
                    chunks.push(id);
                },
                Err(error) => {
                    return Err(UploadError::Store { error });
                },
            }
            i += 1;
        }
        proof {
            assert(bodies.take(pieces@.len() as int) =~= bodies);
        }
        let id_digest = hash(id_seed.as_slice());
        let id_head = to_vec(&id_digest.as_slice()[0..12]);
        let upload_id = encode_base58(id_head.as_slice());
        let content_digest = hash(data);
        let upload = UserUpload {
            id: copy_text(upload_id.as_str()),
            site_id: *site_id,
            uploader: copy_text(uploader.as_str()),
            filename: copy_text(filename),
            mime_type: copy_text(mime_type),
            size: data.len(),
            content_hash: encode_base58(content_digest.as_slice()),
            chunks,
            uploaded_at: now,
            status,
        };
        self.uploads.set(copy_text(upload_id.as_str()), upload.copy());
        let mut of_site = match self.uploads_by_site.remove(site_id) {
            Some(ids) => ids,
            None => Vec::new(),
        };
        proof {
            assert(text_views(of_site@) =~= old(self).site_uploads(site_id@));
        }
        let site_copy = copy_text(upload_id.as_str());
        proof {
            assert(text_views(of_site@.push(site_copy)) =~= text_views(of_site@).push(upload_id@));
        }
        of_site.push(site_copy);
        self.uploads_by_site.set(*site_id, of_site);
        let mut of_user = match self.uploads_by_user.remove(uploader.as_str()) {
            Some(ids) => ids,
            None => Vec::new(),
        };
        proof {
            assert(text_views(of_user@) =~= old(self).user_uploads(uploader@));
            assert(text_views(of_user@.push(upload_id)) =~= text_views(of_user@).push(upload_id@));
        }
        of_user.push(upload_id);
        self.uploads_by_user.set(copy_text(uploader.as_str()), of_user);
        self.record_upload(uploader.as_str(), now);
        Ok(Some(upload))
    }

    /// Get an upload by ID.
    pub fn get_upload(&self, upload_id: &str) -> (found: Option<UserUpload>)
        requires
            self.wf(),
        ensures
            (match found {
                Some(u) => Some(u@),
                None => None,
            }) == self.upload_of(upload_id@),
    {
        match self.uploads.get(upload_id) {
            Some(upload) => Some(upload.copy()),
            None => None,
        }
    }

    /// Get upload content: the chunks of an approved upload, one after
    /// the other. `None` for an upload that is not there or not approved,
    /// and where a chunk cannot be read. An approved upload whose chunks
    /// are all in the cache of the store is read without fail; so is one
    /// of no bytes, which has no chunks.
    pub fn get_upload_content(&self, chunk_store: &mut ChunkStore, upload_id: &str) -> (content: Option<
        Vec<u8>,
    >)
        requires
            self.wf(),
            old(chunk_store).wf(),
        ensures
            final(chunk_store).wf(),
            final(chunk_store).chunks() == old(chunk_store).chunks(),
            content matches Some(bytes) ==> self.upload_of(upload_id@) matches Some(upload)
                && upload.status == UploadStatus::Approved && bytes@ == concat_parts(
                chunk_bodies_of(old(chunk_store).chunks(), upload.chunks),
            ),
            !(self.upload_of(upload_id@) matches Some(upload) && upload.status == UploadStatus::Approved)
                ==> content is None,
            (self.upload_of(upload_id@) matches Some(upload) && upload.status == UploadStatus::Approved
                && all_cached(old(chunk_store).cached(), upload.chunks)) ==> content is Some,
    {
        match self.uploads.get(upload_id) {
            Some(upload) => match upload.status {
                UploadStatus::Approved => match read_chunks(chunk_store, upload.chunks.as_slice()) {
                    Ok(bytes) => Some(bytes),
                    Err(_) => None,
                },
                _ => None,
            },
            None => None,
        }
    }

    /// List uploads for a site, oldest first.
    pub fn list_site_uploads(&self, site_id: &SiteId) -> (listed: Vec<UserUpload>)
        requires
            self.wf(),
        ensures
            listed@.map_values(|u: UserUpload| u@) == self.uploads_of(self.site_uploads(site_id@)),
    {
        let mut listed: Vec<UserUpload> = Vec::new();
        match self.uploads_by_site.get(site_id) {
            Some(ids) => {
                let ghost all = text_views(ids@);
                let mut i: usize = 0;
                while i < ids.len()
                    invariant
                        i <= ids@.len(),
                        self.wf(),
                        all == text_views(ids@),
                        listed@.map_values(|u: UserUpload| u@) == self.uploads_of(all.take(i as int)),
                    decreases ids@.len() - i,
                {
                    proof {
                        assert(all.take(i + 1).drop_last() =~= all.take(i as int));
                    }
                    match self.uploads.get(ids[i].as_str()) {
                        Some(upload) => {
                            let copy = upload.copy();
                            listed.push(copy);
                        },
                        None => {},
                    }
                    i += 1;
                }
                proof {
                    assert(all.take(ids@.len() as int) =~= all);
                }
            },
            None => {
            },
        }
        listed
    }

    /// Sets the status of an upload; says whether there is such an upload.
    fn set_status(&mut self, upload_id: &str, status: UploadStatus) -> (found: bool)
        requires
            old(self).wf(),
        ensures
            final(self).wf(),
            found == old(self).upload_of(upload_id@) is Some,
            found ==> final(self).upload_of(upload_id@) == Some(
                UserUploadView { status, ..old(self).upload_of(upload_id@)->0 },
            ),
            !found ==> final(self).upload_of(upload_id@) is None,
            forall|other: Seq<char>|
                other != upload_id@ ==> final(self).upload_of(other) == old(self).upload_of(other),
            forall|site: Seq<u8>| #[trigger] final(self).policy(site) == old(self).policy(site),
            forall|site: Seq<u8>| #[trigger] final(self).site_uploads(site) == old(self).site_uploads(site),
            forall|user: Seq<char>| #[trigger] final(self).user_uploads(user) == old(self).user_uploads(user),
            forall|user: Seq<char>| #[trigger] final(self).upload_times(user) == old(self).upload_times(user),
    {
        match self.uploads.remove(upload_id) {
            Some(upload) => {
                let mut changed = upload;
                changed.status = status;
                self.uploads.set(copy_text(upload_id), changed);
                true
            },
            None => false,
        }
    }

    /// Approve an upload; says whether there is such an upload.
    pub fn approve(&mut self, upload_id: &str) -> (found: bool)
        requires
            old(self).wf(),
        ensures
            final(self).wf(),
            found == old(self).upload_of(upload_id@) is Some,
            found ==> final(self).upload_of(upload_id@) == Some(
                UserUploadView {
                    status: UploadStatus::Approved,
                    ..old(self).upload_of(upload_id@)->0
                },
            ),
            forall|other: Seq<char>|
                other != upload_id@ ==> final(self).upload_of(other) == old(self).upload_of(other),
    {
        self.set_status(upload_id, UploadStatus::Approved)
    }

    /// Reject an upload; says whether there is such an upload.
    pub fn reject(&mut self, upload_id: &str) -> (found: bool)
        requires
            old(self).wf(),
        ensures
            final(self).wf(),
            found == old(self).upload_of(upload_id@) is Some,
            found ==> final(self).upload_of(upload_id@) == Some(
                UserUploadView {
                    status: UploadStatus::Rejected,
                    ..old(self).upload_of(upload_id@)->0
                },
            ),
            forall|other: Seq<char>|
                other != upload_id@ ==> final(self).upload_of(other) == old(self).upload_of(other),
    {
        self.set_status(upload_id, UploadStatus::Rejected)
    }

    /// Delete an upload: its record, and its identifier in the lists of
    /// its site and its uploader. Says whether there was such an upload.
    pub fn delete(&mut self, upload_id: &str) -> (found: bool)
        requires
            old(self).wf(),
        ensures
            final(self).wf(),
            found == old(self).upload_of(upload_id@) is Some,
            final(self).upload_of(upload_id@) is None,
            forall|other: Seq<char>|
                other != upload_id@ ==> final(self).upload_of(other) == old(self).upload_of(other),
            found ==> {
                let gone = old(self).upload_of(upload_id@)->0;
                &&& final(self).site_uploads(gone.site_id) == without_text(
                    old(self).site_uploads(gone.site_id),
                    upload_id@,
                )
                &&& final(self).user_uploads(gone.uploader) == without_text(
                    old(self).user_uploads(gone.uploader),
                    upload_id@,
                )
                &&& forall|site: Seq<u8>|
                    site != gone.site_id ==> final(self).site_uploads(site) == old(self).site_uploads(site)
                &&& forall|user: Seq<char>|
                    user != gone.uploader ==> final(self).user_uploads(user) == old(self).user_uploads(
                        user,
                    )
            },
            !found ==> {
                &&& forall|site: Seq<u8>| #[trigger] final(self).site_uploads(site) == old(self).site_uploads(site)
                &&& forall|user: Seq<char>| #[trigger]
                    final(self).user_uploads(user) == old(self).user_uploads(user)
            },
            forall|site: Seq<u8>| #[trigger] final(self).policy(site) == old(self).policy(site),
            forall|user: Seq<char>| #[trigger] final(self).upload_times(user) == old(self).upload_times(user),
    {
        let upload = match self.uploads.remove(upload_id) {
            Some(upload) => upload,
            None => {
                return false;
            },
        };
        match self.uploads_by_site.remove(&upload.site_id) {
            Some(ids) => {
                let kept = remove_text(ids, upload_id);
                self.uploads_by_site.set(upload.site_id, kept);
            },
            None => {
            },
        }
        match self.uploads_by_user.remove(upload.uploader.as_str()) {
            Some(ids) => {
                let kept = remove_text(ids, upload_id);
                self.uploads_by_user.set(copy_text(upload.uploader.as_str()), kept);
            },
            None => {
            },
        }
        true
    }

    /// The number of uploads of an uploader within the hour before `now`.
    fn recent_uploads(&self, uploader: &str, now: u64) -> (count: usize)
        requires
            self.wf(),
        ensures
            count == recent_times(self.upload_times(uploader@), now).len(),
    {
        match self.rate_limits.get(uploader) {
            Some(times) => keep_recent(times, now).len(),
            None => 0,
        }
    }

    /// Counts an upload at `now` against an uploader, and forgets the
    /// uploads that are more than an hour old.
    fn record_upload(&mut self, uploader: &str, now: u64)
        requires
            old(self).wf(),
        ensures
            final(self).wf(),
            final(self).upload_times(uploader@) == recent_times(
                old(self).upload_times(uploader@).push(now),
                now,
            ),
            forall|other: Seq<char>|
                other != uploader@ ==> final(self).upload_times(other) == old(self).upload_times(other),
            final(self).policies == old(self).policies,
            final(self).uploads == old(self).uploads,
            final(self).uploads_by_site == old(self).uploads_by_site,
            final(self).uploads_by_user == old(self).uploads_by_user,
    {
        let mut times = match self.rate_limits.remove(uploader) {
            Some(times) => times,
            None => Vec::new(),
        };
        times.push(now);
        let kept = keep_recent(&times, now);
        self.rate_limits.set(copy_text(uploader), kept);
    }

    /// The bytes that an uploader stores.
    fn get_user_storage(&self, uploader: &str) -> (used: usize)
        requires
            self.wf(),
        ensures
            used == self.used_storage(uploader@),
    {
        match self.uploads_by_user.get(uploader) {
            Some(ids) => {
                let ghost all = text_views(ids@);
                let mut used: usize = 0;
                let mut i: usize = 0;
                while i < ids.len()
                    invariant
                        i <= ids@.len(),
                        self.wf(),
                        all == text_views(ids@),
                        used == (if self.sizes_of(all.take(i as int)) > usize::MAX {
                            usize::MAX as nat
                        } else {
                            self.sizes_of(all.take(i as int))
                        }),
                    decreases ids@.len() - i,
                {
                    proof {
                        assert(all.take(i + 1).drop_last() =~= all.take(i as int));
                    }
                    match self.uploads.get(ids[i].as_str()) {
                        Some(upload) => {
                            used = used.saturating_add(upload.size);
                        },
                        None => {},
                    }
                    i += 1;
                }
                proof {
                    assert(all.take(ids@.len() as int) =~= all);
                }
                used
            },
            None => 0,
        }
    }
}

impl Default for UserContentManager {
    fn default() -> (manager: Self)
        ensures
            manager.wf(),
    {
        UserContentManager::new()
    }
}

/// The times that lie within the hour before `now`, in their order.
fn keep_recent(times: &Vec<u64>, now: u64) -> (kept: Vec<u64>)
    ensures
        kept@ == recent_times(times@, now),
{
    let hour_ago: u64 = if now >= 3600000 { now - 3600000 } else { 0 };
    let mut kept: Vec<u64> = Vec::new();
    let mut i: usize = 0;
    while i < times.len()
        invariant
            i <= times@.len(),
            hour_ago == hour_before(now),
            kept@ == recent_times(times@.take(i as int), now),
        decreases times@.len() - i,
    {
        proof {
            assert(times@.take(i + 1).drop_last() =~= times@.take(i as int));
        }
        if times[i] > hour_ago {
            kept.push(times[i]);
        }
        i += 1;
    }
    proof {
        assert(times@.take(times@.len() as int) =~= times@);
    }
    kept
}

} // verus!

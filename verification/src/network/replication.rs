//! Content replication and redundancy management: per-site policy, known
//! hosts, health records and announce timing.

use vstd::prelude::*;
use crate::clock::unix_millis;
use crate::collections::{distinct_keys, position_of, with_entry, IdMap};
use crate::text::{copy_text, same_text};
use crate::types::{id_views, text_views, ChunkId, SiteId};

verus! {

/// Replication policy for a site.
#[derive(Debug, Clone, Copy)]
pub struct ReplicationPolicy {
    /// Minimum number of peers that should host this site.
    pub min_replicas: usize,
    /// Maximum number of peers to replicate to.
    pub max_replicas: usize,
    /// Priority level (higher = more important).
    pub priority: u8,
    /// Auto-announce interval in seconds.
    pub announce_interval_secs: u64,
    /// Whether to actively seek more replicas if below minimum.
    pub auto_replicate: bool,
}

/// The policy of a site that was given none.
pub open spec fn default_policy() -> ReplicationPolicy {
    ReplicationPolicy {
        min_replicas: 3,
        max_replicas: 10,
        priority: 5,
        announce_interval_secs: 3600,
        auto_replicate: true,
    }
}

impl Default for ReplicationPolicy {
    fn default() -> (policy: Self)
        ensures
            policy == default_policy(),
    {
        ReplicationPolicy {
            min_replicas: 3,
            max_replicas: 10,
            priority: 5,
            announce_interval_secs: 3600,
            auto_replicate: true,
        }
    }
}

/// Health of a site's replication.
#[derive(Debug, Clone, Copy, PartialEq, Eq, Structural)]
pub enum HealthStatus {
    /// All chunks available, sufficient replicas.
    Healthy,
    /// Some chunks missing or below min replicas.
    Degraded,
    /// No replicas or many chunks missing.
    Critical,
    /// Not yet checked.
    Unknown,
}

/// Health status for a site.
#[derive(Debug, Clone)]
pub struct SiteHealth {
    pub site_id: SiteId,
    pub known_hosts: usize,
    pub verified_hosts: usize,
    pub last_check: u64,
    pub status: HealthStatus,
    pub missing_chunks: Vec<ChunkId>,
}

/// The mathematical view of a `SiteHealth`.
pub struct SiteHealthView {
    pub site_id: Seq<u8>,
    pub known_hosts: usize,
    pub verified_hosts: usize,
    pub last_check: u64,
    pub status: HealthStatus,
    pub missing_chunks: Seq<Seq<u8>>,
}

impl View for SiteHealth {
    type V = SiteHealthView;

    open spec fn view(&self) -> SiteHealthView {
        SiteHealthView {
            site_id: self.site_id@,
            known_hosts: self.known_hosts,
            verified_hosts: self.verified_hosts,
            last_check: self.last_check,
            status: self.status,
            missing_chunks: id_views(self.missing_chunks@),
        }
    }
}

impl SiteHealth {
    /// A copy of the record.
    pub fn copy(&self) -> (copy: SiteHealth)
        ensures
            copy@ == self@,
    {
        let mut missing_chunks: Vec<ChunkId> = Vec::new();
        let mut i: usize = 0;
        while i < self.missing_chunks.len()
            invariant
                i <= self.missing_chunks@.len(),
                missing_chunks@ == self.missing_chunks@.take(i as int),
            decreases self.missing_chunks@.len() - i,
        {
            missing_chunks.push(self.missing_chunks[i]);
            i += 1;
        }
        assert(missing_chunks@ =~= self.missing_chunks@);
        SiteHealth {
            site_id: self.site_id,
            known_hosts: self.known_hosts,
            verified_hosts: self.verified_hosts,
            last_check: self.last_check,
            status: self.status,
            missing_chunks,
        }
    }
}

/// Replication statistics. The mean number of replicas per site is
/// `total_replicas` over `total_sites`.
#[derive(Debug, Clone, Copy)]
pub struct ReplicationStats {
    pub total_sites: usize,
    pub healthy_sites: usize,
    pub degraded_sites: usize,
    pub critical_sites: usize,
    pub total_replicas: usize,
}

/// The health of a site with `known_hosts` hosts and `missing_chunks`
/// chunks missing: critical with no host or more than `many_missing`
/// chunks missing, degraded with fewer hosts than the policy's minimum
/// or any chunk missing, else healthy.
pub open spec fn health_of(
    known_hosts: usize,
    missing_chunks: usize,
    min_replicas: usize,
    many_missing: usize,
) -> HealthStatus {
    if known_hosts == 0 || missing_chunks > many_missing {
        HealthStatus::Critical
    } else if known_hosts < min_replicas || missing_chunks > 0 {
        HealthStatus::Degraded
    } else {
        HealthStatus::Healthy
    }
}

/// Classifies the health of a site; `many_missing` is the number of
/// missing chunks above which it is critical.
pub fn classify_health(
    known_hosts: usize,
    missing_chunks: usize,
    policy: &ReplicationPolicy,
    many_missing: usize,
) -> (status: HealthStatus)
    ensures
        status == health_of(known_hosts, missing_chunks, policy.min_replicas, many_missing),
{
    if known_hosts == 0 || missing_chunks > many_missing {
        HealthStatus::Critical
    } else if known_hosts < policy.min_replicas || missing_chunks > 0 {
        HealthStatus::Degraded
    } else {
        HealthStatus::Healthy
    }
}

/// A list of texts without `text`.
pub open spec fn without_text(texts: Seq<Seq<char>>, text: Seq<char>) -> Seq<Seq<char>>
    decreases texts.len(),
{
    if texts.len() == 0 {
        Seq::empty()
    } else if texts.last() == text {
        without_text(texts.drop_last(), text)
    } else {
        without_text(texts.drop_last(), text).push(texts.last())
    }
}

/// Whether more than `interval_secs` seconds lie between `last` and `now`,
/// both in milliseconds.
pub open spec fn interval_passed(last: u64, now: u64, interval_secs: u64) -> bool {
    now >= last && now - last > interval_secs * 1000
}

/// The health record made up for a site with too few hosts.
pub open spec fn short_of_hosts(site_id: Seq<u8>, known_hosts: usize) -> SiteHealthView {
    SiteHealthView {
        site_id,
        known_hosts,
        verified_hosts: 0,
        last_check: 0,
        status: HealthStatus::Degraded,
        missing_chunks: Seq::empty(),
    }
}

/// The views of sites with their health records.
pub open spec fn attention_views(list: Seq<(SiteId, SiteHealth)>) -> Seq<(Seq<u8>, SiteHealthView)> {
    list.map_values(|e: (SiteId, SiteHealth)| (e.0@, e.1@))
}

/// The health records that are not healthy, in their order.
pub open spec fn unhealthy(health: Seq<([u8; 32], SiteHealth)>) -> Seq<(Seq<u8>, SiteHealthView)>
    decreases health.len(),
{
    if health.len() == 0 {
        Seq::empty()
    } else if health.last().1.status == HealthStatus::Healthy {
        unhealthy(health.drop_last())
    } else {
        unhealthy(health.drop_last()).push((health.last().0@, health.last().1@))
    }
}

/// The entry of the attention list comes from the health record at `k`,
/// which is not healthy.
pub open spec fn from_record(health: Seq<([u8; 32], SiteHealth)>, k: int, entry: (Seq<u8>, SiteHealthView)) -> bool {
    &&& 0 <= k < health.len()
    &&& health[k].0@ == entry.0
    &&& health[k].1@ == entry.1
    &&& health[k].1.status != HealthStatus::Healthy
}

/// The entry of the attention list comes from a health record that is not healthy.
pub open spec fn recorded(health: Seq<([u8; 32], SiteHealth)>, entry: (Seq<u8>, SiteHealthView)) -> bool {
    exists|k: int| #[trigger] from_record(health, k, entry)
}

/// What `unhealthy` lists: each record that is not healthy, once, and nothing else.
pub proof fn lemma_unhealthy(health: Seq<([u8; 32], SiteHealth)>)
    requires
        distinct_keys(health),
    ensures
        forall|i: int| 0 <= i < unhealthy(health).len() ==> recorded(health, #[trigger] unhealthy(health)[i]),
        forall|k: int|
            0 <= k < health.len() && (#[trigger] health[k]).1.status != HealthStatus::Healthy ==> exists|
                i: int,
            |
                0 <= i < unhealthy(health).len() && #[trigger] unhealthy(health)[i] == (
                    health[k].0@,
                    health[k].1@,
                ),
        forall|i: int, j: int|
            0 <= i < j < unhealthy(health).len() ==> (#[trigger] unhealthy(health)[i]).0
                != (#[trigger] unhealthy(health)[j]).0,
    decreases health.len(),
{
    let list = unhealthy(health);
    if health.len() > 0 {
        let front = health.drop_last();
        let inner = unhealthy(front);
        let last = health.last();
        assert(distinct_keys(front)) by {
            assert forall|i: int, j: int| 0 <= i < j < front.len() implies (#[trigger] front[i]).0@
                != (#[trigger] front[j]).0@ by {
                assert(front[i] == health[i] && front[j] == health[j]);
            }
        }
        lemma_unhealthy(front);
        assert(health[health.len() - 1] == last);
        assert forall|i: int| 0 <= i < list.len() implies recorded(health, #[trigger] list[i]) by {
            if i < inner.len() {
                let k = choose|k: int| #[trigger] from_record(front, k, inner[i]);
                assert(front[k] == health[k]);
                assert(from_record(health, k, list[i]));
            } else {
                assert(from_record(health, health.len() - 1, list[i]));
            }
        }
        assert forall|k: int|
            0 <= k < health.len() && (#[trigger] health[k]).1.status
                != HealthStatus::Healthy implies exists|i: int|
            0 <= i < list.len() && #[trigger] list[i] == (health[k].0@, health[k].1@) by {
            if k < front.len() {
                assert(front[k] == health[k]);
                let i = choose|i: int|
                    0 <= i < inner.len() && #[trigger] inner[i] == (front[k].0@, front[k].1@);
                assert(list[i] == inner[i]);
            } else {
                assert(list[list.len() - 1] == (health[k].0@, health[k].1@));
            }
        }
        assert forall|i: int, j: int| 0 <= i < j < list.len() implies (#[trigger] list[i]).0
            != (#[trigger] list[j]).0 by {
            if j < inner.len() {
                assert(inner[i] == list[i] && inner[j] == list[j]);
            } else {
                let k = choose|k: int| #[trigger] from_record(front, k, inner[i]);
                assert(list[i] == inner[i]);
                assert(front[k] == health[k]);
                assert(health[k].0@ != health[health.len() - 1].0@);
            }
        }
    }
}

/// Replication manager: tracks site health and manages replication.
pub struct ReplicationManager {
    /// Replication policies by site ID.
    policies: IdMap<ReplicationPolicy>,
    /// Known hosts for each site, none of them twice.
    site_hosts: IdMap<Vec<String>>,
    /// Health records by site ID.
    health_cache: IdMap<SiteHealth>,
    /// Time of the last announcement of each site, in milliseconds.
    last_announce: IdMap<u64>,
}

impl ReplicationManager {
    /// Every table of the manager holds each of its keys once.
    pub closed spec fn wf(&self) -> bool {
        &&& self.policies.wf()
        &&& self.site_hosts.wf()
        &&& self.health_cache.wf()
        &&& self.last_announce.wf()
    }

    /// The policy of a site: the one set for it, else the default.
    pub closed spec fn policy(&self, site_id: Seq<u8>) -> ReplicationPolicy {
        if self.policies.has(site_id) {
            self.policies.value(site_id)
        } else {
            default_policy()
        }
    }

    /// The sites that a policy was set for, each with its policy, in the order of setting.
    pub closed spec fn policies(&self) -> Seq<([u8; 32], ReplicationPolicy)> {
        self.policies@
    }

    /// The known hosts of a site.
    pub closed spec fn hosts(&self, site_id: Seq<u8>) -> Seq<Seq<char>> {
        if self.site_hosts.has(site_id) {
            text_views(self.site_hosts.value(site_id)@)
        } else {
            Seq::empty()
        }
    }

    /// The health record of a site, if it has one.
    pub closed spec fn health(&self, site_id: Seq<u8>) -> Option<SiteHealthView> {
        if self.health_cache.has(site_id) {
            Some(self.health_cache.value(site_id)@)
        } else {
            None
        }
    }

    /// The health records, each under its site, in the order of their first update.
    pub closed spec fn health_records(&self) -> Seq<([u8; 32], SiteHealth)> {
        self.health_cache@
    }

    /// When a site was last announced, in milliseconds, if it was.
    pub closed spec fn announced(&self, site_id: Seq<u8>) -> Option<u64> {
        if self.last_announce.has(site_id) {
            Some(self.last_announce.value(site_id))
        } else {
            None
        }
    }

    /// A manager that knows of no site.
    pub fn new() -> (manager: Self)
        ensures
            manager.wf(),
            manager.policies().len() == 0,
            manager.health_records().len() == 0,
            forall|site: Seq<u8>| #[trigger] manager.policy(site) == default_policy(),
            forall|site: Seq<u8>| #[trigger] manager.hosts(site).len() == 0,
            forall|site: Seq<u8>| #[trigger] manager.health(site) is None,
            forall|site: Seq<u8>| #[trigger] manager.announced(site) is None,
    {
        ReplicationManager {
            policies: IdMap::new(),
            site_hosts: IdMap::new(),
            health_cache: IdMap::new(),
            last_announce: IdMap::new(),
        }
    }

    /// Set replication policy for a site.
    pub fn set_policy(&mut self, site_id: SiteId, policy: ReplicationPolicy)
        requires
            old(self).wf(),
        ensures
            final(self).wf(),
            final(self).policy(site_id@) == policy,
            forall|other: Seq<u8>| other != site_id@ ==> final(self).policy(other) == old(self).policy(other),
            forall|site: Seq<u8>| #[trigger] final(self).hosts(site) == old(self).hosts(site),
            forall|site: Seq<u8>| #[trigger] final(self).health(site) == old(self).health(site),
            forall|site: Seq<u8>| #[trigger] final(self).announced(site) == old(self).announced(site),
            final(self).health_records() == old(self).health_records(),
            final(self).policies() == with_entry(old(self).policies(), site_id, policy),
    {
        self.policies.set(site_id, policy);
    }

    /// Get replication policy for a site.
    pub fn get_policy(&self, site_id: &SiteId) -> (policy: ReplicationPolicy)
        requires
            self.wf(),
        ensures
            policy == self.policy(site_id@),
    {
        match self.policies.get(site_id) {
            Some(policy) => *policy,
            None => ReplicationPolicy::default(),
        }
    }

    /// Record a host for a site; a host that is known already is not recorded twice.
    pub fn add_host(&mut self, site_id: SiteId, peer_id: String)
        requires
            old(self).wf(),
        ensures
            final(self).wf(),
            final(self).hosts(site_id@) == (if old(self).hosts(site_id@).contains(peer_id@) {
                old(self).hosts(site_id@)
            } else {
                old(self).hosts(site_id@).push(peer_id@)
            }),
            forall|other: Seq<u8>| other != site_id@ ==> final(self).hosts(other) == old(self).hosts(other),
            forall|site: Seq<u8>| #[trigger] final(self).policy(site) == old(self).policy(site),
            forall|site: Seq<u8>| #[trigger] final(self).health(site) == old(self).health(site),
            forall|site: Seq<u8>| #[trigger] final(self).announced(site) == old(self).announced(site),
            final(self).policies() == old(self).policies(),
            final(self).health_records() == old(self).health_records(),
    {
        let mut hosts = match self.site_hosts.remove(&site_id) {
            Some(hosts) => hosts,
            None => Vec::new(),
        };
        if !has_text(&hosts, peer_id.as_str()) {
            hosts.push(peer_id);
        }
        self.site_hosts.set(site_id, hosts);
    }

    /// Remove a host for a site.
    pub fn remove_host(&mut self, site_id: &SiteId, peer_id: &str)
        requires
            old(self).wf(),
        ensures
            final(self).wf(),
            final(self).hosts(site_id@) == without_text(old(self).hosts(site_id@), peer_id@),
            forall|other: Seq<u8>| other != site_id@ ==> final(self).hosts(other) == old(self).hosts(other),
            forall|site: Seq<u8>| #[trigger] final(self).policy(site) == old(self).policy(site),
            forall|site: Seq<u8>| #[trigger] final(self).health(site) == old(self).health(site),
            forall|site: Seq<u8>| #[trigger] final(self).announced(site) == old(self).announced(site),
            final(self).policies() == old(self).policies(),
            final(self).health_records() == old(self).health_records(),
    {
        match self.site_hosts.remove(site_id) {
            Some(hosts) => {
                let kept = remove_text(hosts, peer_id);
                self.site_hosts.set(*site_id, kept);
            },
            None => {
            },
        }
    }

    /// Get known hosts for a site.
    pub fn get_hosts(&self, site_id: &SiteId) -> (hosts: Vec<String>)
        requires
            self.wf(),
        ensures
            text_views(hosts@) == self.hosts(site_id@),
    {
        match self.site_hosts.get(site_id) {
            Some(hosts) => copy_texts(hosts),
            None => {
                let hosts: Vec<String> = Vec::new();
                hosts
            },
        }
    }

    /// Get health status for a site.
    pub fn get_health(&self, site_id: &SiteId) -> (health: Option<SiteHealth>)
        requires
            self.wf(),
        ensures
            (match health {
                Some(h) => Some(h@),
                None => None,
            }) == self.health(site_id@),
    {
        match self.health_cache.get(site_id) {
            Some(health) => Some(health.copy()),
            None => None,
        }
    }

    /// Update health status for a site.
    pub fn update_health(&mut self, health: SiteHealth)
        requires
            old(self).wf(),
        ensures
            final(self).wf(),
            final(self).health(health.site_id@) == Some(health@),
            forall|other: Seq<u8>|
                other != health.site_id@ ==> final(self).health(other) == old(self).health(other),
            forall|site: Seq<u8>| #[trigger] final(self).policy(site) == old(self).policy(site),
            forall|site: Seq<u8>| #[trigger] final(self).hosts(site) == old(self).hosts(site),
            forall|site: Seq<u8>| #[trigger] final(self).announced(site) == old(self).announced(site),
            final(self).policies() == old(self).policies(),
            final(self).health_records() == with_entry(old(self).health_records(), health.site_id, health),
    {
        let site_id: SiteId = health.site_id;
        self.health_cache.set(site_id, health);
    }

    /// Check if a site needs replication: replicas are sought for it and
    /// it has fewer hosts than its policy's minimum.
    pub fn needs_replication(&self, site_id: &SiteId) -> (needed: bool)
        requires
            self.wf(),
        ensures
            needed == (self.policy(site_id@).auto_replicate && self.hosts(site_id@).len() < self.policy(
                site_id@,
            ).min_replicas),
    {
        let policy = self.get_policy(site_id);
        if !policy.auto_replicate {
            return false;
        }
        self.host_count(site_id) < policy.min_replicas
    }

    /// Whether a site is due for an announcement at `now`, in milliseconds.
    pub open spec fn announce_due(&self, site_id: Seq<u8>, now: u64) -> bool {
        match self.announced(site_id) {
            Some(last) => interval_passed(last, now, self.policy(site_id).announce_interval_secs),
            None => true,
        }
    }

    /// Check if a site should be announced, now.
    pub fn should_announce(&self, site_id: &SiteId) -> (due: bool)
        requires
            self.wf(),
        ensures
            self.announced(site_id@) is None ==> due,
            exists|now: u64| due == #[trigger] self.announce_due(site_id@, now),
    {
        let now = unix_millis();
        let due = self.should_announce_at(site_id, now);
        due
    }

    /// Check if a site should be announced at `now`, in milliseconds: it
    /// was never announced, or more than its policy's interval has passed
    /// since it last was.
    pub fn should_announce_at(&self, site_id: &SiteId, now: u64) -> (due: bool)
        requires
            self.wf(),
        ensures
            due == self.announce_due(site_id@, now),
    {
        let policy = self.get_policy(site_id);
        match self.last_announce.get(site_id) {
            Some(last) => {
                if now < *last {
                    false
                } else {
                    let elapsed: u128 = (now - *last) as u128;
                    let interval: u128 = policy.announce_interval_secs as u128 * 1000;
                    elapsed > interval
                }
            },
            None => true,
        }
    }

    /// Record that we announced a site, now.
    pub fn record_announce(&mut self, site_id: SiteId)
        requires
            old(self).wf(),
        ensures
            final(self).wf(),
            final(self).announced(site_id@) is Some,
            forall|other: Seq<u8>|
                other != site_id@ ==> final(self).announced(other) == old(self).announced(other),
            forall|site: Seq<u8>| #[trigger] final(self).policy(site) == old(self).policy(site),
            forall|site: Seq<u8>| #[trigger] final(self).hosts(site) == old(self).hosts(site),
            forall|site: Seq<u8>| #[trigger] final(self).health(site) == old(self).health(site),
            final(self).policies() == old(self).policies(),
            final(self).health_records() == old(self).health_records(),
    {
        let now = unix_millis();
        self.record_announce_at(site_id, now);
    }

    /// Record that we announced a site at `now`, in milliseconds.
    pub fn record_announce_at(&mut self, site_id: SiteId, now: u64)
        requires
            old(self).wf(),
        ensures
            final(self).wf(),
            final(self).announced(site_id@) == Some(now),
            forall|other: Seq<u8>|
                other != site_id@ ==> final(self).announced(other) == old(self).announced(other),
            forall|site: Seq<u8>| #[trigger] final(self).policy(site) == old(self).policy(site),
            forall|site: Seq<u8>| #[trigger] final(self).hosts(site) == old(self).hosts(site),
            forall|site: Seq<u8>| #[trigger] final(self).health(site) == old(self).health(site),
            final(self).policies() == old(self).policies(),
            final(self).health_records() == old(self).health_records(),
    {
        self.last_announce.set(site_id, now);
    }

    /// Whether a policy was set for the site.
    pub open spec fn has_policy(&self, site_id: Seq<u8>) -> bool {
        position_of(self.policies(), site_id) is Some
    }

    /// Whether the site has a health record that is not healthy.
    pub open spec fn is_sick(&self, site_id: Seq<u8>) -> bool {
        self.health(site_id) matches Some(h) && h.status != HealthStatus::Healthy
    }

    /// The lists hold what is said of each site: no site twice, the policy
    /// of a site that has one, and the health record of a site that has one.
    pub proof fn law_lists(&self)
        requires
            self.wf(),
        ensures
            distinct_keys(self.policies()),
            distinct_keys(self.health_records()),
            forall|site: Seq<u8>| #[trigger]
                self.policy(site) == (match position_of(self.policies(), site) {
                    Some(i) => self.policies()[i].1,
                    None => default_policy(),
                }),
            forall|site: Seq<u8>| #[trigger]
                self.health(site) == (match position_of(self.health_records(), site) {
                    Some(i) => Some(self.health_records()[i].1@),
                    None => None,
                }),
            forall|k: int|
                0 <= k < self.policies().len() ==> position_of(
                    self.policies(),
                    (#[trigger] self.policies()[k]).0@,
                ) == Some(k),
            forall|k: int|
                0 <= k < self.health_records().len() ==> position_of(
                    self.health_records(),
                    (#[trigger] self.health_records()[k]).0@,
                ) == Some(k),
    {
        assert forall|k: int| 0 <= k < self.policies().len() implies position_of(
            self.policies(),
            (#[trigger] self.policies()[k]).0@,
        ) == Some(k) by {
            let found = position_of(self.policies(), self.policies()[k].0@)->0;
            assert(self.policies()[found].0@ == self.policies()[k].0@);
        }
        assert forall|k: int| 0 <= k < self.health_records().len() implies position_of(
            self.health_records(),
            (#[trigger] self.health_records()[k]).0@,
        ) == Some(k) by {
            let found = position_of(self.health_records(), self.health_records()[k].0@)->0;
            assert(self.health_records()[found].0@ == self.health_records()[k].0@);
        }
    }

    /// The entry of the attention list comes from the policy at `k`: the
    /// site has fewer hosts than that policy's minimum and no health
    /// record that is not healthy, and the record is made up for it.
    pub open spec fn from_policy(
        &self,
        policies: Seq<([u8; 32], ReplicationPolicy)>,
        k: int,
        entry: (Seq<u8>, SiteHealthView),
    ) -> bool {
        &&& 0 <= k < policies.len()
        &&& policies[k].0@ == entry.0
        &&& self.hosts(entry.0).len() < policies[k].1.min_replicas
        &&& !self.is_sick(entry.0)
        &&& entry.1 == short_of_hosts(entry.0, self.hosts(entry.0).len() as usize)
    }

    /// The entry of the attention list comes from a policy.
    pub open spec fn by_policy(
        &self,
        policies: Seq<([u8; 32], ReplicationPolicy)>,
        entry: (Seq<u8>, SiteHealthView),
    ) -> bool {
        exists|k: int| #[trigger] self.from_policy(policies, k, entry)
    }

    /// What `short_sites` lists: each site with a policy that is short
    /// of hosts and not listed for its health, once, and nothing else.
    pub proof fn lemma_short_sites(&self, policies: Seq<([u8; 32], ReplicationPolicy)>)
        requires
            distinct_keys(policies),
        ensures
            forall|i: int|
                0 <= i < self.short_sites(policies).len() ==> self.by_policy(
                    policies,
                    #[trigger] self.short_sites(policies)[i],
                ),
            forall|k: int|
                0 <= k < policies.len() && self.hosts((#[trigger] policies[k]).0@).len()
                    < policies[k].1.min_replicas && !self.is_sick(policies[k].0@) ==> exists|i: int|
                    0 <= i < self.short_sites(policies).len() && #[trigger] self.short_sites(policies)[i]
                        == (
                        policies[k].0@,
                        short_of_hosts(policies[k].0@, self.hosts(policies[k].0@).len() as usize),
                    ),
            forall|i: int, j: int|
                0 <= i < j < self.short_sites(policies).len() ==> (#[trigger] self.short_sites(
                    policies,
                )[i]).0 != (#[trigger] self.short_sites(policies)[j]).0,
        decreases policies.len(),
    {
        let list = self.short_sites(policies);
        if policies.len() > 0 {
            let front = policies.drop_last();
            let inner = self.short_sites(front);
            assert(distinct_keys(front)) by {
                assert forall|i: int, j: int| 0 <= i < j < front.len() implies (#[trigger] front[i]).0@
                    != (#[trigger] front[j]).0@ by {
                    assert(front[i] == policies[i] && front[j] == policies[j]);
                }
            }
            self.lemma_short_sites(front);
            assert(policies[policies.len() - 1] == policies.last());
            assert forall|i: int| 0 <= i < list.len() implies self.by_policy(policies, #[trigger] list[i]) by {
                if i < inner.len() {
                    let k = choose|k: int| #[trigger] self.from_policy(front, k, inner[i]);
                    assert(front[k] == policies[k]);
                    assert(self.from_policy(policies, k, list[i]));
                } else {
                    assert(self.from_policy(policies, policies.len() - 1, list[i]));
                }
            }
            assert forall|k: int|
                0 <= k < policies.len() && self.hosts((#[trigger] policies[k]).0@).len()
                    < policies[k].1.min_replicas && !self.is_sick(policies[k].0@) implies exists|i: int|
                0 <= i < list.len() && #[trigger] list[i] == (
                    policies[k].0@,
                    short_of_hosts(policies[k].0@, self.hosts(policies[k].0@).len() as usize),
                ) by {
                if k < front.len() {
                    assert(front[k] == policies[k]);
                    let i = choose|i: int|
                        0 <= i < inner.len() && #[trigger] inner[i] == (
                            front[k].0@,
                            short_of_hosts(front[k].0@, self.hosts(front[k].0@).len() as usize),
                        );
                    assert(list[i] == inner[i]);
                } else {
                    assert(list[list.len() - 1].0 == policies[k].0@);
                }
            }
            assert forall|i: int, j: int| 0 <= i < j < list.len() implies (#[trigger] list[i]).0
                != (#[trigger] list[j]).0 by {
                if j < inner.len() {
                    assert(inner[i] == list[i] && inner[j] == list[j]);
                } else {
                    let k = choose|k: int| #[trigger] self.from_policy(front, k, inner[i]);
                    assert(list[i] == inner[i]);
                    assert(front[k] == policies[k]);
                    assert(policies[k].0@ != policies[policies.len() - 1].0@);
                }
            }
        }
    }

    /// The list of the sites that need attention.
    pub open spec fn attention(&self) -> Seq<(Seq<u8>, SiteHealthView)> {
        unhealthy(self.health_records()) + self.short_sites(self.policies())
    }

    /// Whether a policy was set for the site and it has fewer hosts than
    /// that policy's minimum.
    pub open spec fn is_short(&self, site_id: Seq<u8>) -> bool {
        self.has_policy(site_id) && self.hosts(site_id).len() < self.policy(site_id).min_replicas
    }

    /// A site is in the list of those that need attention exactly if its
    /// health record is not healthy, or a policy was set for it and it has
    /// fewer hosts than the policy's minimum. The former come with their
    /// health record, the latter with a record made up for them. No site
    /// is in the list twice.
    pub proof fn law_attention(&self)
        requires
            self.wf(),
        ensures
            forall|site: Seq<u8>|
                (exists|i: int| 0 <= i < self.attention().len() && (#[trigger] self.attention()[i]).0 == site)
                    <==> #[trigger] self.is_sick(site) || self.is_short(site),
            forall|i: int|
                0 <= i < self.attention().len() ==> (#[trigger] self.attention()[i]).1 == (if self.is_sick(
                    self.attention()[i].0,
                ) {
                    self.health(self.attention()[i].0)->0
                } else {
                    short_of_hosts(
                        self.attention()[i].0,
                        self.hosts(self.attention()[i].0).len() as usize,
                    )
                }),
            forall|i: int, j: int|
                0 <= i < j < self.attention().len() ==> (#[trigger] self.attention()[i]).0
                    != (#[trigger] self.attention()[j]).0,
    {
        let health = self.health_records();
        let policies = self.policies();
        let sick = unhealthy(health);
        let short = self.short_sites(policies);
        let list = self.attention();
        self.law_lists();
        lemma_unhealthy(health);
        self.lemma_short_sites(policies);
        // What each entry says of its site.
        assert forall|i: int| 0 <= i < list.len() implies (if i < sick.len() {
            self.is_sick((#[trigger] list[i]).0) && self.health(list[i].0) == Some(list[i].1)
        } else {
            !self.is_sick(list[i].0) && self.is_short(list[i].0) && list[i].1 == short_of_hosts(
                list[i].0,
                self.hosts(list[i].0).len() as usize,
            )
        }) by {
            if i < sick.len() {
                let k = choose|k: int| #[trigger] from_record(health, k, sick[i]);
                assert(list[i] == sick[i]);
                assert(position_of(health, health[k].0@) == Some(k));
            } else {
                let e = short[i - sick.len()];
                let k = choose|k: int| #[trigger] self.from_policy(policies, k, e);
                assert(list[i] == e);
                assert(position_of(policies, policies[k].0@) == Some(k));
            }
        }
        assert forall|site: Seq<u8>|
            (exists|i: int| 0 <= i < list.len() && (#[trigger] list[i]).0 == site) <==> #[trigger] self.is_sick(
                site,
            ) || self.is_short(site) by {
            if self.is_sick(site) {
                let k = position_of(health, site)->0;
                let i = choose|i: int|
                    0 <= i < sick.len() && #[trigger] sick[i] == (health[k].0@, health[k].1@);
                assert(list[i] == sick[i]);
            } else if self.is_short(site) {
                let k = position_of(policies, site)->0;
                let i = choose|i: int|
                    0 <= i < short.len() && #[trigger] short[i] == (
                        policies[k].0@,
                        short_of_hosts(policies[k].0@, self.hosts(policies[k].0@).len() as usize),
                    );
                assert(list[sick.len() + i] == short[i]);
            }
        }
        assert forall|i: int, j: int| 0 <= i < j < list.len() implies (#[trigger] list[i]).0
            != (#[trigger] list[j]).0 by {
            if j < sick.len() {
                assert(list[i] == sick[i] && list[j] == sick[j]);
            } else if i >= sick.len() {
                assert(list[i] == short[i - sick.len()] && list[j] == short[j - sick.len()]);
            }
        }
    }

    /// The sites with a policy whose hosts are fewer than the policy's
    /// minimum and whose health record, if any, is healthy: each with a
    /// record made up for it.
    pub open spec fn short_sites(&self, policies: Seq<([u8; 32], ReplicationPolicy)>) -> Seq<
        (Seq<u8>, SiteHealthView),
    >
        decreases policies.len(),
    {
        if policies.len() == 0 {
            Seq::empty()
        } else {
            let site = policies.last().0@;
            let count = self.hosts(site).len();
            if count < policies.last().1.min_replicas && !self.is_sick(site) {
                self.short_sites(policies.drop_last()).push((site, short_of_hosts(site, count as usize)))
            } else {
                self.short_sites(policies.drop_last())
            }
        }
    }

    /// Get sites that need attention: those whose health record is not
    /// healthy, then those with fewer hosts than their policy's minimum.
    pub fn get_sites_needing_attention(&self) -> (sites: Vec<(SiteId, SiteHealth)>)
        requires
            self.wf(),
        ensures
            attention_views(sites@) == self.attention(),
    {
        let mut result: Vec<(SiteId, SiteHealth)> = Vec::new();
        let mut i: usize = 0;
        while i < self.health_cache.len()
            invariant
                i <= self.health_cache@.len(),
                attention_views(result@) == unhealthy(self.health_cache@.take(i as int)),
            decreases self.health_cache@.len() - i,
        {
            let entry = self.health_cache.entry(i);
            proof {
                let next = self.health_cache@.take(i + 1);
                assert(next.drop_last() =~= self.health_cache@.take(i as int));
            }
            match entry.1.status {
                HealthStatus::Healthy => {},
                _ => {
                    let site_id: SiteId = entry.0;
                    let health = entry.1.copy();
                    result.push((site_id, health));
                },
            }
            i += 1;
        }
        proof {
            assert(self.health_cache@.take(self.health_cache@.len() as int) =~= self.health_cache@);
        }
        let ghost first = attention_views(result@);
        let mut k: usize = 0;
        while k < self.policies.len()
            invariant
                k <= self.policies@.len(),
                self.wf(),
                first == unhealthy(self.health_records()),
                attention_views(result@) == first + self.short_sites(self.policies@.take(k as int)),
            decreases self.policies@.len() - k,
        {
            let entry = self.policies.entry(k);
            let site_id: SiteId = entry.0;
            proof {
                let next = self.policies@.take(k + 1);
                assert(next.drop_last() =~= self.policies@.take(k as int));
            }
            let host_count = self.host_count(&site_id);
            if host_count < entry.1.min_replicas {
                let listed = match self.health_cache.get(&site_id) {
                    Some(health) => match health.status {
                        HealthStatus::Healthy => false,
                        _ => true,
                    },
                    None => false,
                };
                if !listed {
                    let health = SiteHealth {
                        site_id,
                        known_hosts: host_count,
                        verified_hosts: 0,
                        last_check: 0,
                        status: HealthStatus::Degraded,
                        missing_chunks: Vec::new(),
                    };
                    proof {
                        assert(health@.missing_chunks =~= Seq::empty());
                        assert(attention_views(result@.push((site_id, health))) =~= attention_views(
                            result@,
                        ).push((site_id@, health@)));
                    }
                    result.push((site_id, health));
                }
            }
            k += 1;
        }
        proof {
            assert(self.policies@.take(self.policies@.len() as int) =~= self.policies@);
        }
        result
    }

    /// How many of the first sites with a policy have a health record of the status.
    pub open spec fn with_status(
        &self,
        policies: Seq<([u8; 32], ReplicationPolicy)>,
        status: HealthStatus,
    ) -> nat
        decreases policies.len(),
    {
        if policies.len() == 0 {
            0
        } else {
            self.with_status(policies.drop_last(), status) + if self.health(policies.last().0@)
                matches Some(h) && h.status == status {
                1nat
            } else {
                0nat
            }
        }
    }

    /// The hosts of the sites with a policy, counted together.
    pub open spec fn replicas(&self, policies: Seq<([u8; 32], ReplicationPolicy)>) -> nat
        decreases policies.len(),
    {
        if policies.len() == 0 {
            0
        } else {
            self.replicas(policies.drop_last()) + self.hosts(policies.last().0@).len()
        }
    }

    /// Get replication stats over the sites that have a policy. The
    /// replica count stops at the largest number it can hold.
    pub fn get_stats(&self) -> (stats: ReplicationStats)
        requires
            self.wf(),
        ensures
            stats.total_sites == self.policies().len(),
            stats.healthy_sites == self.with_status(self.policies(), HealthStatus::Healthy),
            stats.degraded_sites == self.with_status(self.policies(), HealthStatus::Degraded),
            stats.critical_sites == self.with_status(self.policies(), HealthStatus::Critical),
            stats.total_replicas == (if self.replicas(self.policies()) > usize::MAX {
                usize::MAX as nat
            } else {
                self.replicas(self.policies())
            }),
    {
        let mut healthy: usize = 0;
        let mut degraded: usize = 0;
        let mut critical: usize = 0;
        let mut total_replicas: usize = 0;
        let mut k: usize = 0;
        while k < self.policies.len()
            invariant
                k <= self.policies@.len(),
                self.wf(),
                healthy <= k,
                degraded <= k,
                critical <= k,
                healthy == self.with_status(self.policies@.take(k as int), HealthStatus::Healthy),
                degraded == self.with_status(self.policies@.take(k as int), HealthStatus::Degraded),
                critical == self.with_status(self.policies@.take(k as int), HealthStatus::Critical),
                total_replicas == (if self.replicas(self.policies@.take(k as int)) > usize::MAX {
                    usize::MAX as nat
                } else {
                    self.replicas(self.policies@.take(k as int))
                }),
            decreases self.policies@.len() - k,
        {
            let entry = self.policies.entry(k);
            let site_id: SiteId = entry.0;
            proof {
                let next = self.policies@.take(k + 1);
                assert(next.drop_last() =~= self.policies@.take(k as int));
            }
            total_replicas = total_replicas.saturating_add(self.host_count(&site_id));
            match self.health_cache.get(&site_id) {
                Some(health) => match health.status {
                    HealthStatus::Healthy => {
                        healthy += 1;
                    },
                    HealthStatus::Degraded => {
                        degraded += 1;
                    },
                    HealthStatus::Critical => {
                        critical += 1;
                    },
                    HealthStatus::Unknown => {},
                },
                None => {},
            }
            k += 1;
        }
        proof {
            assert(self.policies@.take(self.policies@.len() as int) =~= self.policies@);
        }
        ReplicationStats {
            total_sites: self.policies.len(),
            healthy_sites: healthy,
            degraded_sites: degraded,
            critical_sites: critical,
            total_replicas,
        }
    }

    /// The number of known hosts of a site.
    fn host_count(&self, site_id: &SiteId) -> (count: usize)
        requires
            self.wf(),
        ensures
            count == self.hosts(site_id@).len(),
    {
        match self.site_hosts.get(site_id) {
            Some(hosts) => hosts.len(),
            None => 0,
        }
    }
}

impl Default for ReplicationManager {
    fn default() -> (manager: Self)
        ensures
            manager.wf(),
    {
        ReplicationManager::new()
    }
}

/// Whether a list of texts holds the text.
pub fn has_text(texts: &Vec<String>, text: &str) -> (found: bool)
    ensures
        found == text_views(texts@).contains(text@),
{
    let mut i: usize = 0;
    while i < texts.len()
        invariant
            i <= texts@.len(),
            forall|k: int| 0 <= k < i ==> texts@[k]@ != text@,
        decreases texts@.len() - i,
    {
        if same_text(texts[i].as_str(), text) {
            assert(text_views(texts@)[i as int] == text@);
            return true;
        }
        i += 1;
    }
    assert forall|k: int| 0 <= k < text_views(texts@).len() implies text_views(texts@)[k] != text@ by {
    }
    false
}

/// A copy of a list of texts.
pub fn copy_texts(texts: &Vec<String>) -> (copy: Vec<String>)
    ensures
        text_views(copy@) == text_views(texts@),
{
    let mut copy: Vec<String> = Vec::new();
    let mut i: usize = 0;
    while i < texts.len()
        invariant
            i <= texts@.len(),
            text_views(copy@) == text_views(texts@).take(i as int),
        decreases texts@.len() - i,
    {
        let text = copy_text(texts[i].as_str());
        assert(text_views(copy@.push(text)) =~= text_views(copy@).push(text@));
        copy.push(text);
        i += 1;
    }
    copy
}

/// A list of texts without the text.
pub fn remove_text(texts: Vec<String>, text: &str) -> (kept: Vec<String>)
    ensures
        text_views(kept@) == without_text(text_views(texts@), text@),
{
    let ghost all = text_views(texts@);
    let mut kept: Vec<String> = Vec::new();
    let mut i: usize = 0;
    while i < texts.len()
        invariant
            i <= texts@.len(),
            all == text_views(texts@),
            text_views(kept@) == without_text(all.take(i as int), text@),
        decreases texts@.len() - i,
    {
        proof {
            assert(all.take(i + 1).drop_last() =~= all.take(i as int));
        }
        if !same_text(texts[i].as_str(), text) {
            let item = copy_text(texts[i].as_str());
            kept.push(item);
        }
        i += 1;
    }
    assert(all.take(texts@.len() as int) =~= all);
    kept
}

} // verus!

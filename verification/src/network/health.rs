//! Network health monitoring and peer scoring.

use vstd::prelude::*;
use crate::clock::unix_millis;
use crate::collections::TextMap;
use crate::text::copy_text;

verus! {

/// Peer score tracking for reputation-based prioritization.
#[derive(Debug, Clone)]
pub struct PeerScore {
    /// Peer ID.
    pub peer_id: String,
    /// Total requests made to this peer.
    pub total_requests: u64,
    /// Successful responses.
    pub successful_responses: u64,
    /// Failed requests.
    pub failed_requests: u64,
    /// Average response time in milliseconds.
    pub avg_response_time_ms: u64,
    /// Last seen timestamp (unix millis).
    pub last_seen: u64,
    /// Bytes received from this peer.
    pub bytes_received: u64,
    /// Bytes sent to this peer.
    pub bytes_sent: u64,
    /// Current score (0-100).
    pub score: u8,
}

/// The mathematical view of a `PeerScore`.
pub struct PeerScoreView {
    pub peer_id: Seq<char>,
    pub total_requests: u64,
    pub successful_responses: u64,
    pub failed_requests: u64,
    pub avg_response_time_ms: u64,
    pub last_seen: u64,
    pub bytes_received: u64,
    pub bytes_sent: u64,
    pub score: u8,
}

impl View for PeerScore {
    type V = PeerScoreView;

    open spec fn view(&self) -> PeerScoreView {
        PeerScoreView {
            peer_id: self.peer_id@,
            total_requests: self.total_requests,
            successful_responses: self.successful_responses,
            failed_requests: self.failed_requests,
            avg_response_time_ms: self.avg_response_time_ms,
            last_seen: self.last_seen,
            bytes_received: self.bytes_received,
            bytes_sent: self.bytes_sent,
            score: self.score,
        }
    }
}

/// A counter one higher, held at the largest number it can hold.
pub open spec fn bumped(count: u64) -> u64 {
    if count == u64::MAX {
        u64::MAX
    } else {
        (count + 1) as u64
    }
}

/// A sum, held at the largest number it can hold.
pub open spec fn summed(a: u64, b: u64) -> u64 {
    if a + b > u64::MAX {
        u64::MAX
    } else {
        (a + b) as u64
    }
}

/// Up to 60 points for the share of requests that succeeded.
pub open spec fn success_points(successful: u64, total: u64) -> int {
    if total == 0 {
        0
    } else if successful >= total {
        60
    } else {
        (successful * 60) / (total as int)
    }
}

/// Up to 30 points for the mean response time: all of them under 100 ms,
/// none over 5000 ms, in between as many as the time is short of 5000 ms.
pub open spec fn latency_points(avg_response_time_ms: u64) -> int {
    if avg_response_time_ms < 100 {
        30
    } else if avg_response_time_ms > 5000 {
        0
    } else {
        ((5000 - avg_response_time_ms) * 30) / 4900
    }
}

/// Up to 10 points for the number of requests: one for every ten, all of
/// them over a hundred.
pub open spec fn longevity_points(total: u64) -> int {
    if total > 100 {
        10
    } else {
        total as int / 10
    }
}

/// The score of a peer: 50 before any request, else the three kinds of points together.
pub open spec fn score_points(successful: u64, total: u64, avg_response_time_ms: u64) -> int {
    if total == 0 {
        50
    } else {
        success_points(successful, total) + latency_points(avg_response_time_ms) + longevity_points(
            total,
        )
    }
}

/// The mean of `count` samples, of which the earlier ones had the mean
/// `mean` and the last one is `sample`.
pub open spec fn rolling_mean(mean: u64, count: u64, sample: u64) -> int {
    if count == 0 {
        mean as int
    } else {
        (mean * (count - 1) + sample) / (count as int)
    }
}

/// A score with no request yet.
pub open spec fn fresh_score(peer_id: Seq<char>) -> PeerScoreView {
    PeerScoreView {
        peer_id,
        total_requests: 0,
        successful_responses: 0,
        failed_requests: 0,
        avg_response_time_ms: 0,
        last_seen: 0,
        bytes_received: 0,
        bytes_sent: 0,
        score: 50,
    }
}

/// The score found for a peer, or a fresh score where none was found.
pub open spec fn score_or_new(found: Option<PeerScoreView>, peer_id: Seq<char>) -> PeerScoreView {
    match found {
        Some(score) => score,
        None => fresh_score(peer_id),
    }
}

/// A score after one more successful response.
pub open spec fn after_success(score: PeerScoreView, response_time_ms: u64, bytes: u64, now: u64) -> PeerScoreView {
    let total = bumped(score.total_requests);
    let successful = bumped(score.successful_responses);
    let mean = rolling_mean(score.avg_response_time_ms, total, response_time_ms) as u64;
    PeerScoreView {
        total_requests: total,
        successful_responses: successful,
        bytes_received: summed(score.bytes_received, bytes),
        avg_response_time_ms: mean,
        last_seen: now,
        score: score_points(successful, total, mean) as u8,
        ..score
    }
}

/// A score after one more failed request.
pub open spec fn after_failure(score: PeerScoreView) -> PeerScoreView {
    let total = bumped(score.total_requests);
    PeerScoreView {
        total_requests: total,
        failed_requests: bumped(score.failed_requests),
        score: score_points(score.successful_responses, total, score.avg_response_time_ms) as u8,
        ..score
    }
}

/// The parts of a score stay within 60, 30 and 10 points, the score within
/// 100.
pub proof fn lemma_score_bounds(successful: u64, total: u64, avg_response_time_ms: u64)
    ensures
        0 <= success_points(successful, total) <= 60,
        0 <= latency_points(avg_response_time_ms) <= 30,
        0 <= longevity_points(total) <= 10,
        0 <= score_points(successful, total, avg_response_time_ms) <= 100,
{
    if total > 0 && successful < total {
        let s = successful as int;
        let t = total as int;
        assert(0 <= (s * 60) / t <= 60) by (nonlinear_arith)
            requires
                0 <= s < t,
        ;
    }
}

/// A rolling mean fits in 64 bits.
pub proof fn lemma_rolling_mean_bound(mean: u64, count: u64, sample: u64)
    ensures
        0 <= rolling_mean(mean, count, sample) <= u64::MAX,
{
    if count > 0 {
        let m = mean as int;
        let c = count as int;
        let s = sample as int;
        let top: int = u64::MAX as int;
        assert(0 <= (m * (c - 1) + s) / c <= top) by (nonlinear_arith)
            requires
                0 <= m <= top,
                0 <= s <= top,
                c >= 1,
        ;
    }
}

/// The mean of `count` samples from the mean of the earlier ones and the last one.
pub fn mean_with(mean: u64, count: u64, sample: u64) -> (updated: u64)
    ensures
        updated == rolling_mean(mean, count, sample),
{
    if count == 0 {
        return mean;
    }
    proof {
        lemma_rolling_mean_bound(mean, count, sample);
        assert(mean * (count - 1) + sample <= u128::MAX) by (nonlinear_arith)
            requires
                0 <= mean <= u64::MAX,
                1 <= count <= u64::MAX,
                0 <= sample <= u64::MAX,
        ;
        assert(0 <= mean * (count - 1)) by (nonlinear_arith)
            requires
                0 <= mean,
                1 <= count,
        ;
    }
    let product: u128 = (mean as u128) * ((count - 1) as u128);
    let total: u128 = product + sample as u128;
    (total / (count as u128)) as u64
}

impl PeerScore {
    /// A score for a peer of which nothing is known yet: 50 points.
    pub fn new(peer_id: String) -> (score: Self)
        ensures
            score@ == fresh_score(peer_id@),
    {
        PeerScore {
            peer_id,
            total_requests: 0,
            successful_responses: 0,
            failed_requests: 0,
            avg_response_time_ms: 0,
            last_seen: 0,
            bytes_received: 0,
            bytes_sent: 0,
            score: 50,
        }
    }

    /// A copy of the score.
    pub fn copy(&self) -> (copy: PeerScore)
        ensures
            copy@ == self@,
    {
        PeerScore {
            peer_id: copy_text(self.peer_id.as_str()),
            total_requests: self.total_requests,
            successful_responses: self.successful_responses,
            failed_requests: self.failed_requests,
            avg_response_time_ms: self.avg_response_time_ms,
            last_seen: self.last_seen,
            bytes_received: self.bytes_received,
            bytes_sent: self.bytes_sent,
            score: self.score,
        }
    }

    /// Record a successful response, seen now.
    pub fn record_success(&mut self, response_time_ms: u64, bytes: u64)
        ensures
            exists|now: u64|
                final(self)@ == #[trigger] after_success(old(self)@, response_time_ms, bytes, now),
    {
        let now = unix_millis();
        self.record_success_at(response_time_ms, bytes, now);
    }

    /// Record a successful response, seen at `now`: the counters rise,
    /// the mean response time takes the new sample in, and the score is
    /// worked out anew.
    pub fn record_success_at(&mut self, response_time_ms: u64, bytes: u64, now: u64)
        ensures
            final(self)@ == after_success(old(self)@, response_time_ms, bytes, now),
    {
        self.total_requests = self.total_requests.saturating_add(1);
        self.successful_responses = self.successful_responses.saturating_add(1);
        self.bytes_received = self.bytes_received.saturating_add(bytes);
        self.avg_response_time_ms = mean_with(
            self.avg_response_time_ms,
            self.total_requests,
            response_time_ms,
        );
        self.last_seen = now;
        self.recalculate_score();
    }

    /// Record a failed request.
    pub fn record_failure(&mut self)
        ensures
            final(self)@ == after_failure(old(self)@),
    {
        self.total_requests = self.total_requests.saturating_add(1);
        self.failed_requests = self.failed_requests.saturating_add(1);
        self.recalculate_score();
    }

    /// Recalculate the peer score from the counters.
    pub fn recalculate_score(&mut self)
        ensures
            final(self).score == score_points(
                old(self).successful_responses,
                old(self).total_requests,
                old(self).avg_response_time_ms,
            ),
            final(self).score <= 100,
            final(self)@ == (PeerScoreView { score: final(self).score, ..old(self)@ }),
    {
        proof {
            lemma_score_bounds(self.successful_responses, self.total_requests, self.avg_response_time_ms);
        }
        if self.total_requests == 0 {
            self.score = 50;
            return ;
        }
        let success_score: u8 = if self.successful_responses >= self.total_requests {
            60
        } else {
            ((self.successful_responses as u128 * 60) / (self.total_requests as u128)) as u8
        };
        let time_score: u8 = if self.avg_response_time_ms < 100 {
            30
        } else if self.avg_response_time_ms > 5000 {
            0
        } else {
            (((5000 - self.avg_response_time_ms) * 30) / 4900) as u8
        };
        let longevity_score: u8 = if self.total_requests > 100 {
            10
        } else {
            (self.total_requests / 10) as u8
        };
        self.score = success_score + time_score + longevity_score;
    }
}

/// Network metrics aggregation.
#[derive(Debug, Clone, Copy)]
pub struct NetworkMetrics {
    /// Total peers ever connected.
    pub total_peers_seen: u64,
    /// Currently connected peers.
    pub connected_peers: usize,
    /// Total bytes transferred.
    pub total_bytes_transferred: u64,
    /// Total requests made.
    pub total_requests: u64,
    /// Total successful requests.
    pub successful_requests: u64,
    /// Average network latency in ms.
    pub avg_latency_ms: u64,
    /// Uptime in seconds.
    pub uptime_secs: u64,
    /// Last updated timestamp.
    pub last_updated: u64,
}

/// The metrics before anything was counted.
pub open spec fn no_metrics() -> NetworkMetrics {
    NetworkMetrics {
        total_peers_seen: 0,
        connected_peers: 0,
        total_bytes_transferred: 0,
        total_requests: 0,
        successful_requests: 0,
        avg_latency_ms: 0,
        uptime_secs: 0,
        last_updated: 0,
    }
}

impl Default for NetworkMetrics {
    fn default() -> (metrics: Self)
        ensures
            metrics == no_metrics(),
    {
        NetworkMetrics {
            total_peers_seen: 0,
            connected_peers: 0,
            total_bytes_transferred: 0,
            total_requests: 0,
            successful_requests: 0,
            avg_latency_ms: 0,
            uptime_secs: 0,
            last_updated: 0,
        }
    }
}

/// Connection health check result.
#[derive(Debug, Clone)]
pub struct ConnectionHealth {
    pub peer_id: String,
    pub latency_ms: Option<u64>,
    pub reachable: bool,
    pub last_check: u64,
}

/// The mathematical view of a `ConnectionHealth`.
pub struct ConnectionHealthView {
    pub peer_id: Seq<char>,
    pub latency_ms: Option<u64>,
    pub reachable: bool,
    pub last_check: u64,
}

impl View for ConnectionHealth {
    type V = ConnectionHealthView;

    open spec fn view(&self) -> ConnectionHealthView {
        ConnectionHealthView {
            peer_id: self.peer_id@,
            latency_ms: self.latency_ms,
            reachable: self.reachable,
            last_check: self.last_check,
        }
    }
}

impl ConnectionHealth {
    /// A copy of the record.
    pub fn copy(&self) -> (copy: ConnectionHealth)
        ensures
            copy@ == self@,
    {
        ConnectionHealth {
            peer_id: copy_text(self.peer_id.as_str()),
            latency_ms: self.latency_ms,
            reachable: self.reachable,
            last_check: self.last_check,
        }
    }
}

/// How the network does, from the share of requests that succeeded.
#[derive(Debug, Clone, Copy, PartialEq, Eq, Structural)]
pub enum NetworkCondition {
    /// At least 95 of 100 requests succeeded.
    Healthy,
    /// At least 80 of 100 requests succeeded.
    Good,
    /// Fewer succeeded, or none was made.
    Degraded,
}

/// The condition of a network in which `successful` of `total` requests succeeded.
pub open spec fn condition_of(successful: u64, total: u64) -> NetworkCondition {
    if total > 0 && successful * 100 >= total * 95 {
        NetworkCondition::Healthy
    } else if total > 0 && successful * 100 >= total * 80 {
        NetworkCondition::Good
    } else {
        NetworkCondition::Degraded
    }
}

/// The condition of a network in which `successful` of `total` requests succeeded.
pub fn network_condition(successful: u64, total: u64) -> (condition: NetworkCondition)
    ensures
        condition == condition_of(successful, total),
{
    if total == 0 {
        return NetworkCondition::Degraded;
    }
    let done: u128 = successful as u128 * 100;
    if done >= total as u128 * 95 {
        NetworkCondition::Healthy
    } else if done >= total as u128 * 80 {
        NetworkCondition::Good
    } else {
        NetworkCondition::Degraded
    }
}

impl NetworkCondition {
    /// The word for the condition: `healthy`, `good` or `degraded`.
    pub fn label(&self) -> (word: String)
        ensures
            word@ == (match self {
                NetworkCondition::Healthy => "healthy"@,
                NetworkCondition::Good => "good"@,
                NetworkCondition::Degraded => "degraded"@,
            }),
    {
        match self {
            NetworkCondition::Healthy => "healthy".to_owned(),
            NetworkCondition::Good => "good".to_owned(),
            NetworkCondition::Degraded => "degraded".to_owned(),
        }
    }
}

/// High-level health summary. The mean peer score is `peer_score_total`
/// over `peer_count`; the reliability is `successful_requests` over
/// `total_requests`.
#[derive(Debug, Clone)]
pub struct HealthSummary {
    pub status: String,
    pub condition: NetworkCondition,
    pub connected_peers: usize,
    pub peer_count: usize,
    pub peer_score_total: u64,
    pub successful_requests: u64,
    pub total_requests: u64,
    pub avg_latency_ms: u64,
    pub uptime_secs: u64,
    pub total_bytes_transferred: u64,
}

/// The views of scores under their peers.
pub open spec fn score_views(scores: Seq<(String, PeerScore)>) -> Seq<PeerScoreView> {
    scores.map_values(|e: (String, PeerScore)| e.1@)
}

/// The views of a list of scores.
pub open spec fn views_of(scores: Seq<PeerScore>) -> Seq<PeerScoreView> {
    scores.map_values(|s: PeerScore| s@)
}

/// The scores that are exactly `score`, in their order.
pub open spec fn with_score(scores: Seq<PeerScoreView>, score: int) -> Seq<PeerScoreView>
    decreases scores.len(),
{
    if scores.len() == 0 {
        Seq::empty()
    } else if scores.last().score == score {
        with_score(scores.drop_last(), score).push(scores.last())
    } else {
        with_score(scores.drop_last(), score)
    }
}

/// The scores that are at least `floor`, the highest first; equal scores in their order.
pub open spec fn ranked_above(scores: Seq<PeerScoreView>, floor: int) -> Seq<PeerScoreView>
    decreases 256 - floor,
{
    if floor > 255 {
        Seq::empty()
    } else {
        ranked_above(scores, floor + 1) + with_score(scores, floor)
    }
}

/// The position of the score of a peer in a list of scores, if it has one there.
pub open spec fn score_position(scores: Seq<PeerScoreView>, peer_id: Seq<char>) -> Option<int> {
    if exists|i: int| 0 <= i < scores.len() && (#[trigger] scores[i]).peer_id == peer_id {
        Some(choose|i: int| 0 <= i < scores.len() && (#[trigger] scores[i]).peer_id == peer_id)
    } else {
        None
    }
}

/// The scores after a peer was given a score: in place where the
/// peer has a score, at the end where it has none.
pub open spec fn scores_with(scores: Seq<PeerScoreView>, score: PeerScoreView) -> Seq<PeerScoreView> {
    match score_position(scores, score.peer_id) {
        Some(i) => scores.update(i, score),
        None => scores.push(score),
    }
}

/// The position of the health record of a peer in a list of records, if it has one there.
pub open spec fn record_position(records: Seq<ConnectionHealthView>, peer_id: Seq<char>) -> Option<int> {
    if exists|i: int| 0 <= i < records.len() && (#[trigger] records[i]).peer_id == peer_id {
        Some(choose|i: int| 0 <= i < records.len() && (#[trigger] records[i]).peer_id == peer_id)
    } else {
        None
    }
}

/// The health records after a peer was given a record: in place where
/// the peer has a record, at the end where it has none.
pub open spec fn records_with(records: Seq<ConnectionHealthView>, record: ConnectionHealthView) -> Seq<
    ConnectionHealthView,
> {
    match record_position(records, record.peer_id) {
        Some(i) => records.update(i, record),
        None => records.push(record),
    }
}

/// The views of health records with their keys.
pub open spec fn record_views(entries: Seq<(String, ConnectionHealth)>) -> Seq<ConnectionHealthView> {
    entries.map_values(|e: (String, ConnectionHealth)| e.1@)
}

/// Each health record lies under the peer that it is the record of.
pub open spec fn records_by_peer(entries: Seq<(String, ConnectionHealth)>) -> bool {
    forall|i: int| 0 <= i < entries.len() ==> (#[trigger] entries[i]).1.peer_id@ == entries[i].0@
}

/// Where each record lies under its peer, a peer's record is found at
/// the place of its entry.
proof fn lemma_record_positions(entries: Seq<(String, ConnectionHealth)>)
    requires
        records_by_peer(entries),
        crate::collections::distinct_texts(entries),
    ensures
        forall|peer: Seq<char>| #[trigger]
            record_position(record_views(entries), peer) == crate::collections::text_position_of(
                entries,
                peer,
            ),
        forall|i: int, j: int|
            0 <= i < j < entries.len() ==> (#[trigger] record_views(entries)[i]).peer_id
                != (#[trigger] record_views(entries)[j]).peer_id,
{
    let views = record_views(entries);
    assert forall|peer: Seq<char>| #[trigger]
        record_position(views, peer) == crate::collections::text_position_of(entries, peer) by {
        if exists|i: int| 0 <= i < entries.len() && (#[trigger] entries[i]).0@ == peer {
            let a = choose|i: int| 0 <= i < entries.len() && (#[trigger] entries[i]).0@ == peer;
            assert(views[a].peer_id == peer);
            let b = choose|i: int| 0 <= i < views.len() && (#[trigger] views[i]).peer_id == peer;
            assert(entries[b].0@ == peer);
            assert(a == b);
        } else {
            if exists|i: int| 0 <= i < views.len() && (#[trigger] views[i]).peer_id == peer {
                let b = choose|i: int| 0 <= i < views.len() && (#[trigger] views[i]).peer_id == peer;
                assert(entries[b].0@ == peer);
            }
        }
    }
    assert forall|i: int, j: int| 0 <= i < j < entries.len() implies (#[trigger] views[i]).peer_id
        != (#[trigger] views[j]).peer_id by {
        assert(entries[i].0@ != entries[j].0@);
    }
}

/// Each score lies under the peer that it is the score of.
pub open spec fn keyed_by_peer(entries: Seq<(String, PeerScore)>) -> bool {
    forall|i: int| 0 <= i < entries.len() ==> (#[trigger] entries[i]).1.peer_id@ == entries[i].0@
}

/// Where each score lies under its peer, a peer's score is found at the
/// place of its entry.
proof fn lemma_score_positions(entries: Seq<(String, PeerScore)>)
    requires
        keyed_by_peer(entries),
        crate::collections::distinct_texts(entries),
    ensures
        forall|peer: Seq<char>| #[trigger]
            score_position(score_views(entries), peer) == crate::collections::text_position_of(entries, peer),
        forall|i: int, j: int|
            0 <= i < j < entries.len() ==> (#[trigger] score_views(entries)[i]).peer_id
                != (#[trigger] score_views(entries)[j]).peer_id,
{
    let views = score_views(entries);
    assert forall|peer: Seq<char>| #[trigger]
        score_position(views, peer) == crate::collections::text_position_of(entries, peer) by {
        if exists|i: int| 0 <= i < entries.len() && (#[trigger] entries[i]).0@ == peer {
            let a = choose|i: int| 0 <= i < entries.len() && (#[trigger] entries[i]).0@ == peer;
            assert(views[a].peer_id == peer);
            let b = choose|i: int| 0 <= i < views.len() && (#[trigger] views[i]).peer_id == peer;
            assert(entries[b].0@ == peer);
            assert(a == b);
        } else {
            if exists|i: int| 0 <= i < views.len() && (#[trigger] views[i]).peer_id == peer {
                let b = choose|i: int| 0 <= i < views.len() && (#[trigger] views[i]).peer_id == peer;
                assert(entries[b].0@ == peer);
            }
        }
    }
    assert forall|i: int, j: int| 0 <= i < j < entries.len() implies (#[trigger] views[i]).peer_id
        != (#[trigger] views[j]).peer_id by {
        assert(entries[i].0@ != entries[j].0@);
    }
}

/// How many of the scores are at least `floor`.
pub open spec fn count_above(scores: Seq<PeerScoreView>, floor: int) -> nat
    decreases scores.len(),
{
    if scores.len() == 0 {
        0
    } else {
        count_above(scores.drop_last(), floor) + if scores.last().score >= floor {
            1nat
        } else {
            0nat
        }
    }
}

/// The scores of one value are scores of the list, each of that value,
/// and every score of that value is among them.
pub proof fn lemma_with_score(scores: Seq<PeerScoreView>, score: int)
    ensures
        forall|i: int|
            0 <= i < with_score(scores, score).len() ==> (#[trigger] with_score(scores, score)[i]).score
                == score && scores.contains(with_score(scores, score)[i]),
        forall|k: int|
            0 <= k < scores.len() && (#[trigger] scores[k]).score == score ==> with_score(
                scores,
                score,
            ).contains(scores[k]),
        count_above(scores, score) == count_above(scores, score + 1) + with_score(scores, score).len(),
    decreases scores.len(),
{
    let picked = with_score(scores, score);
    if scores.len() > 0 {
        let front = scores.drop_last();
        let inner = with_score(front, score);
        lemma_with_score(front, score);
        assert(scores[scores.len() - 1] == scores.last());
        assert forall|i: int| 0 <= i < picked.len() implies (#[trigger] picked[i]).score == score
            && scores.contains(picked[i]) by {
            if i < inner.len() {
                assert(picked[i] == inner[i]);
                let k = choose|k: int| 0 <= k < front.len() && front[k] == inner[i];
                assert(scores[k] == front[k]);
            }
        }
        assert forall|k: int| 0 <= k < scores.len() && (#[trigger] scores[k]).score == score implies picked.contains(
            scores[k],
        ) by {
            if k < front.len() {
                assert(front[k] == scores[k]);
                let i = choose|i: int| 0 <= i < inner.len() && inner[i] == front[k];
                assert(picked[i] == inner[i]);
            } else {
                assert(picked[picked.len() - 1] == scores[k]);
            }
        }
    }
}

/// The ranking holds every score once, the higher before the lower:
/// it is as long as the list, holds what the list holds, and is sorted
/// by falling score.
pub proof fn law_ranking(scores: Seq<PeerScoreView>, floor: int)
    requires
        0 <= floor <= 256,
    ensures
        ranked_above(scores, floor).len() == count_above(scores, floor),
        floor == 0 ==> ranked_above(scores, floor).len() == scores.len(),
        forall|i: int|
            0 <= i < ranked_above(scores, floor).len() ==> (#[trigger] ranked_above(scores, floor)[i]).score
                >= floor && scores.contains(ranked_above(scores, floor)[i]),
        forall|k: int|
            0 <= k < scores.len() && (#[trigger] scores[k]).score >= floor ==> ranked_above(
                scores,
                floor,
            ).contains(scores[k]),
        forall|i: int, j: int|
            0 <= i < j < ranked_above(scores, floor).len() ==> (#[trigger] ranked_above(scores, floor)[i]).score
                >= (#[trigger] ranked_above(scores, floor)[j]).score,
    decreases 256 - floor,
{
    let ranked = ranked_above(scores, floor);
    lemma_count_all(scores, floor);
    if floor <= 255 {
        let higher = ranked_above(scores, floor + 1);
        let here = with_score(scores, floor);
        law_ranking(scores, floor + 1);
        lemma_with_score(scores, floor);
        assert forall|i: int| 0 <= i < ranked.len() implies (#[trigger] ranked[i]).score >= floor
            && scores.contains(ranked[i]) by {
            if i < higher.len() {
                assert(ranked[i] == higher[i]);
            } else {
                assert(ranked[i] == here[i - higher.len()]);
            }
        }
        assert forall|k: int| 0 <= k < scores.len() && (#[trigger] scores[k]).score >= floor implies ranked.contains(
            scores[k],
        ) by {
            if scores[k].score >= floor + 1 {
                let i = choose|i: int| 0 <= i < higher.len() && higher[i] == scores[k];
                assert(ranked[i] == higher[i]);
            } else {
                let i = choose|i: int| 0 <= i < here.len() && here[i] == scores[k];
                assert(ranked[higher.len() + i] == here[i]);
            }
        }
        assert forall|i: int, j: int| 0 <= i < j < ranked.len() implies (#[trigger] ranked[i]).score >= (
        #[trigger] ranked[j]).score by {
            if j < higher.len() {
                assert(ranked[i] == higher[i] && ranked[j] == higher[j]);
            } else {
                assert(ranked[j] == here[j - higher.len()]);
                if i < higher.len() {
                    assert(ranked[i] == higher[i]);
                } else {
                    assert(ranked[i] == here[i - higher.len()]);
                }
            }
        }
    }
}

/// Every score is at least 0, and none is above 255.
proof fn lemma_count_all(scores: Seq<PeerScoreView>, floor: int)
    ensures
        floor <= 0 ==> count_above(scores, floor) == scores.len(),
        floor > 255 ==> count_above(scores, floor) == 0,
    decreases scores.len(),
{
    if scores.len() > 0 {
        lemma_count_all(scores.drop_last(), floor);
    }
}

/// The scores added up, held at the largest number that can be held.
pub open spec fn score_total(scores: Seq<PeerScoreView>) -> nat
    decreases scores.len(),
{
    if scores.len() == 0 {
        0
    } else {
        score_total(scores.drop_last()) + scores.last().score as nat
    }
}

/// The metrics after one more successful request.
pub open spec fn metrics_after_success(metrics: NetworkMetrics, response_time_ms: u64, bytes: u64) -> NetworkMetrics {
    NetworkMetrics {
        total_requests: bumped(metrics.total_requests),
        successful_requests: bumped(metrics.successful_requests),
        total_bytes_transferred: summed(metrics.total_bytes_transferred, bytes),
        avg_latency_ms: rolling_mean(
            metrics.avg_latency_ms,
            bumped(metrics.total_requests),
            response_time_ms,
        ) as u64,
        ..metrics
    }
}

/// Health monitor for the network.
pub struct HealthMonitor {
    /// Peer scores, each under its peer.
    scores: TextMap<PeerScore>,
    /// Network metrics.
    metrics: NetworkMetrics,
    /// Connection health records, each under its peer.
    health_cache: TextMap<ConnectionHealth>,
    /// Start time, in milliseconds.
    start_time: u64,
}

impl HealthMonitor {
    /// Every table of the monitor holds each of its keys once.
    pub closed spec fn wf(&self) -> bool {
        &&& self.scores.wf()
        &&& self.health_cache.wf()
        &&& keyed_by_peer(self.scores@)
        &&& records_by_peer(self.health_cache@)
    }

    /// The list of health records holds what is said of each peer: no
    /// peer twice, and for each peer the record it has.
    pub proof fn law_health_records(&self)
        requires
            self.wf(),
        ensures
            forall|i: int, j: int|
                0 <= i < j < self.health_records().len() ==> (#[trigger] self.health_records()[i]).peer_id
                    != (#[trigger] self.health_records()[j]).peer_id,
            forall|peer: Seq<char>| #[trigger]
                self.health(peer) == (match record_position(self.health_records(), peer) {
                    Some(i) => Some(self.health_records()[i]),
                    None => None,
                }),
    {
        lemma_record_positions(self.health_cache@);
        assert(self.health_records() == record_views(self.health_cache@));
    }

    /// The list of scores holds what is said of each peer: no peer
    /// twice, and for each peer the score it has.
    pub proof fn law_scores(&self)
        requires
            self.wf(),
        ensures
            forall|i: int, j: int|
                0 <= i < j < self.scores().len() ==> (#[trigger] self.scores()[i]).peer_id
                    != (#[trigger] self.scores()[j]).peer_id,
            forall|peer: Seq<char>| #[trigger]
                self.score(peer) == (match score_position(self.scores(), peer) {
                    Some(i) => Some(self.scores()[i]),
                    None => None,
                }),
    {
        lemma_score_positions(self.scores@);
    }

    /// The score of a peer, if it has one.
    pub closed spec fn score(&self, peer_id: Seq<char>) -> Option<PeerScoreView> {
        if self.scores.has(peer_id) {
            Some(self.scores.value(peer_id)@)
        } else {
            None
        }
    }

    /// The scores, in the order in which the peers were first seen.
    pub closed spec fn scores(&self) -> Seq<PeerScoreView> {
        score_views(self.scores@)
    }

    /// The connection health of a peer, if it has a record.
    pub closed spec fn health(&self, peer_id: Seq<char>) -> Option<ConnectionHealthView> {
        if self.health_cache.has(peer_id) {
            Some(self.health_cache.value(peer_id)@)
        } else {
            None
        }
    }

    /// The connection health records, in the order of their first update.
    pub closed spec fn health_records(&self) -> Seq<ConnectionHealthView> {
        self.health_cache@.map_values(|e: (String, ConnectionHealth)| e.1@)
    }

    /// The metrics as counted; uptime and time of update are filled in when they are read.
    pub closed spec fn metrics(&self) -> NetworkMetrics {
        self.metrics
    }

    /// When the monitor was started, in milliseconds.
    pub closed spec fn started(&self) -> u64 {
        self.start_time
    }

    /// A monitor started now.
    pub fn new() -> (monitor: Self)
        ensures
            monitor.wf(),
            monitor.scores().len() == 0,
            monitor.health_records().len() == 0,
            monitor.metrics() == no_metrics(),
            forall|peer: Seq<char>| #[trigger] monitor.score(peer) is None,
            forall|peer: Seq<char>| #[trigger] monitor.health(peer) is None,
    {
        let now = unix_millis();
        Self::new_at(now)
    }

    /// A monitor started at `now`, in milliseconds.
    pub fn new_at(now: u64) -> (monitor: Self)
        ensures
            monitor.wf(),
            monitor.started() == now,
            monitor.scores().len() == 0,
            monitor.health_records().len() == 0,
            monitor.metrics() == no_metrics(),
            forall|peer: Seq<char>| #[trigger] monitor.score(peer) is None,
            forall|peer: Seq<char>| #[trigger] monitor.health(peer) is None,
    {
        HealthMonitor {
            scores: TextMap::new(),
            metrics: NetworkMetrics::default(),
            health_cache: TextMap::new(),
            start_time: now,
        }
    }

    /// Setting the score of a peer under the peer puts it in place or at
    /// the end of the list of scores.
    proof fn lemma_set_score(&self, score: PeerScore)
        requires
            self.wf(),
        ensures
            forall|key: String|
                key@ == score.peer_id@ ==> score_views(
                    #[trigger] crate::collections::text_entries_with(self.scores@, key, score),
                ) == scores_with(self.scores(), score@) && keyed_by_peer(
                    crate::collections::text_entries_with(self.scores@, key, score),
                ),
    {
        lemma_score_positions(self.scores@);
        assert forall|key: String| key@ == score.peer_id@ implies score_views(
            #[trigger] crate::collections::text_entries_with(self.scores@, key, score),
        ) == scores_with(self.scores(), score@) && keyed_by_peer(
            crate::collections::text_entries_with(self.scores@, key, score),
        ) by {
            let after = crate::collections::text_entries_with(self.scores@, key, score);
            assert(score_views(after) =~= scores_with(self.scores(), score@));
        }
    }

    /// The score of a peer to work on: a copy of the stored one, or a fresh one.
    fn score_or_fresh(&self, peer_id: &str) -> (score: PeerScore)
        requires
            self.wf(),
        ensures
            score@ == score_or_new(self.score(peer_id@), peer_id@),
            score.peer_id@ == peer_id@,
    {
        match self.scores.get(peer_id) {
            Some(score) => score.copy(),
            None => PeerScore::new(copy_text(peer_id)),
        }
    }

    /// Record a peer connection: the peer gets a score if it has none,
    /// and both peer counters rise.
    pub fn peer_connected(&mut self, peer_id: &str)
        requires
            old(self).wf(),
        ensures
            final(self).wf(),
            final(self).score(peer_id@) == (match old(self).score(peer_id@) {
                Some(s) => Some(s),
                None => Some(fresh_score(peer_id@)),
            }),
            forall|other: Seq<char>| other != peer_id@ ==> final(self).score(other) == old(self).score(other),
            forall|peer: Seq<char>| #[trigger] final(self).health(peer) == old(self).health(peer),
            final(self).metrics() == (NetworkMetrics {
                connected_peers: if old(self).metrics().connected_peers == usize::MAX {
                    usize::MAX
                } else {
                    (old(self).metrics().connected_peers + 1) as usize
                },
                total_peers_seen: bumped(old(self).metrics().total_peers_seen),
                ..old(self).metrics()
            }),
            final(self).started() == old(self).started(),
            final(self).scores() == scores_with(old(self).scores(), final(self).score(peer_id@)->0),
            final(self).health_records() == old(self).health_records(),
    {
        let score = self.score_or_fresh(peer_id);
        let key = copy_text(peer_id);
        let ghost placed = crate::collections::text_entries_with(self.scores@, key, score);
        proof {
            self.lemma_set_score(score);
        }
        self.scores.set(key, score);
        proof {
            assert(self.scores@ == placed);
        }
        self.metrics.connected_peers = self.metrics.connected_peers.saturating_add(1);
        self.metrics.total_peers_seen = self.metrics.total_peers_seen.saturating_add(1);
    }

    /// Record a peer disconnection: one connected peer fewer, if there was one.
    pub fn peer_disconnected(&mut self, peer_id: &str)
        requires
            old(self).wf(),
        ensures
            final(self).wf(),
            forall|peer: Seq<char>| #[trigger] final(self).score(peer) == old(self).score(peer),
            forall|peer: Seq<char>| #[trigger] final(self).health(peer) == old(self).health(peer),
            final(self).scores() == old(self).scores(),
            final(self).health_records() == old(self).health_records(),
            final(self).metrics() == (NetworkMetrics {
                connected_peers: if old(self).metrics().connected_peers > 0 {
                    (old(self).metrics().connected_peers - 1) as usize
                } else {
                    0
                },
                ..old(self).metrics()
            }),
            final(self).started() == old(self).started(),
    {
        if self.metrics.connected_peers > 0 {
            self.metrics.connected_peers = self.metrics.connected_peers - 1;
        }
    }

    /// Record a successful request to a peer, seen now.
    pub fn record_request_success(&mut self, peer_id: &str, response_time_ms: u64, bytes: u64)
        requires
            old(self).wf(),
        ensures
            final(self).wf(),
            exists|now: u64|
                final(self).score(peer_id@) == Some(
                    #[trigger] after_success(
                        score_or_new(old(self).score(peer_id@), peer_id@),
                        response_time_ms,
                        bytes,
                        now,
                    ),
                ),
            forall|other: Seq<char>| other != peer_id@ ==> final(self).score(other) == old(self).score(other),
            forall|peer: Seq<char>| #[trigger] final(self).health(peer) == old(self).health(peer),
            final(self).metrics() == metrics_after_success(old(self).metrics(), response_time_ms, bytes),
    {
        let now = unix_millis();
        self.record_request_success_at(peer_id, response_time_ms, bytes, now);
    }

    /// Record a successful request to a peer, seen at `now`.
    pub fn record_request_success_at(&mut self, peer_id: &str, response_time_ms: u64, bytes: u64, now: u64)
        requires
            old(self).wf(),
        ensures
            final(self).wf(),
            final(self).score(peer_id@) == Some(
                after_success(
                    score_or_new(old(self).score(peer_id@), peer_id@),
                    response_time_ms,
                    bytes,
                    now,
                ),
            ),
            forall|other: Seq<char>| other != peer_id@ ==> final(self).score(other) == old(self).score(other),
            forall|peer: Seq<char>| #[trigger] final(self).health(peer) == old(self).health(peer),
            final(self).metrics() == metrics_after_success(old(self).metrics(), response_time_ms, bytes),
            final(self).started() == old(self).started(),
            final(self).scores() == scores_with(old(self).scores(), final(self).score(peer_id@)->0),
            final(self).health_records() == old(self).health_records(),
    {
        let mut score = self.score_or_fresh(peer_id);
        score.record_success_at(response_time_ms, bytes, now);
        let key = copy_text(peer_id);
        let ghost placed = crate::collections::text_entries_with(self.scores@, key, score);
        proof {
            self.lemma_set_score(score);
        }
        self.scores.set(key, score);
        proof {
            assert(self.scores@ == placed);
        }
        self.metrics.total_requests = self.metrics.total_requests.saturating_add(1);
        self.metrics.successful_requests = self.metrics.successful_requests.saturating_add(1);
        self.metrics.total_bytes_transferred = self.metrics.total_bytes_transferred.saturating_add(bytes);
        self.metrics.avg_latency_ms = mean_with(
            self.metrics.avg_latency_ms,
            self.metrics.total_requests,
            response_time_ms,
        );
    }

    /// Record a failed request to a peer.
    pub fn record_request_failure(&mut self, peer_id: &str)
        requires
            old(self).wf(),
        ensures
            final(self).wf(),
            final(self).score(peer_id@) == Some(
                after_failure(
                    score_or_new(old(self).score(peer_id@), peer_id@),
                ),
            ),
            forall|other: Seq<char>| other != peer_id@ ==> final(self).score(other) == old(self).score(other),
            forall|peer: Seq<char>| #[trigger] final(self).health(peer) == old(self).health(peer),
            final(self).metrics() == (NetworkMetrics {
                total_requests: bumped(old(self).metrics().total_requests),
                ..old(self).metrics()
            }),
            final(self).started() == old(self).started(),
            final(self).scores() == scores_with(old(self).scores(), final(self).score(peer_id@)->0),
            final(self).health_records() == old(self).health_records(),
    {
        let mut score = self.score_or_fresh(peer_id);
        score.record_failure();
        let key = copy_text(peer_id);
        let ghost placed = crate::collections::text_entries_with(self.scores@, key, score);
        proof {
            self.lemma_set_score(score);
        }
        self.scores.set(key, score);
        proof {
            assert(self.scores@ == placed);
        }
        self.metrics.total_requests = self.metrics.total_requests.saturating_add(1);
    }

    /// Update connection health for a peer.
    pub fn update_health(&mut self, health: ConnectionHealth)
        requires
            old(self).wf(),
        ensures
            final(self).wf(),
            final(self).health(health.peer_id@) == Some(health@),
            forall|other: Seq<char>|
                other != health.peer_id@ ==> final(self).health(other) == old(self).health(other),
            forall|peer: Seq<char>| #[trigger] final(self).score(peer) == old(self).score(peer),
            final(self).scores() == old(self).scores(),
            final(self).metrics() == old(self).metrics(),
            final(self).started() == old(self).started(),
            final(self).health_records() == records_with(old(self).health_records(), health@),
    {
        let peer_id = copy_text(health.peer_id.as_str());
        let ghost placed = crate::collections::text_entries_with(self.health_cache@, peer_id, health);
        proof {
            lemma_record_positions(self.health_cache@);
            assert(record_views(placed) =~= records_with(record_views(self.health_cache@), health@));
            assert(self.health_records() == record_views(self.health_cache@));
        }
        self.health_cache.set(peer_id, health);
        proof {
            assert(self.health_cache@ == placed);
            assert(self.health_records() == record_views(self.health_cache@));
        }
    }

    /// Get peer score.
    pub fn get_peer_score(&self, peer_id: &str) -> (found: Option<PeerScore>)
        requires
            self.wf(),
        ensures
            (match found {
                Some(s) => Some(s@),
                None => None,
            }) == self.score(peer_id@),
    {
        match self.scores.get(peer_id) {
            Some(score) => Some(score.copy()),
            None => None,
        }
    }

    /// Get all peer scores, in the order in which the peers were first seen.
    pub fn get_all_scores(&self) -> (all: Vec<PeerScore>)
        ensures
            views_of(all@) == self.scores(),
    {
        let mut all: Vec<PeerScore> = Vec::new();
        let mut i: usize = 0;
        while i < self.scores.len()
            invariant
                i <= self.scores@.len(),
                views_of(all@) == score_views(self.scores@).take(i as int),
            decreases self.scores@.len() - i,
        {
            let score = self.scores.entry(i).1.copy();
            proof {
                assert(views_of(all@.push(score)) =~= views_of(all@).push(score@));
            }
            all.push(score);
            i += 1;
        }
        all
    }

    /// Get top peers by score: at most `limit` of them, the highest
    /// score first, peers of the same score in the order first seen.
    pub fn get_top_peers(&self, limit: usize) -> (top: Vec<PeerScore>)
        ensures
            views_of(top@) == (if limit <= ranked_above(self.scores(), 0).len() {
                ranked_above(self.scores(), 0).take(limit as int)
            } else {
                ranked_above(self.scores(), 0)
            }),
    {
        let ghost all = score_views(self.scores@);
        let mut top: Vec<PeerScore> = Vec::new();
        let mut floor: usize = 256;
        while floor > 0
            invariant
                floor <= 256,
                all == score_views(self.scores@),
                views_of(top@) == ranked_above(all, floor as int),
            decreases floor,
        {
            floor -= 1;
            let ghost before = views_of(top@);
            let mut i: usize = 0;
            while i < self.scores.len()
                invariant
                    i <= self.scores@.len(),
                    floor < 256,
                    all == score_views(self.scores@),
                    views_of(top@) == before + with_score(all.take(i as int), floor as int),
                decreases self.scores@.len() - i,
            {
                let entry = self.scores.entry(i);
                proof {
                    assert(all.take(i + 1).drop_last() =~= all.take(i as int));
                }
                if entry.1.score as usize == floor {
                    let score = entry.1.copy();
                    proof {
                        assert(views_of(top@.push(score)) =~= views_of(top@).push(score@));
                    }
                    top.push(score);
                }
                i += 1;
            }
            proof {
                assert(all.take(self.scores@.len() as int) =~= all);
            }
        }
        top.truncate(limit);
        top
    }

    /// Get network metrics, with the uptime and the time of reading filled in now.
    pub fn get_metrics(&self) -> (metrics: NetworkMetrics)
        ensures
            exists|now: u64| metrics == #[trigger] self.metrics_at(now),
    {
        let now = unix_millis();
        let metrics = self.get_metrics_at(now);
        metrics
    }

    /// The metrics as read at `now`, in milliseconds.
    pub open spec fn metrics_at(&self, now: u64) -> NetworkMetrics {
        NetworkMetrics {
            uptime_secs: if now >= self.started() {
                ((now - self.started()) / 1000) as u64
            } else {
                0
            },
            last_updated: now,
            ..self.metrics()
        }
    }

    /// Get network metrics, with uptime and time of reading filled in for `now`.
    pub fn get_metrics_at(&self, now: u64) -> (metrics: NetworkMetrics)
        ensures
            metrics == self.metrics_at(now),
    {
        let mut metrics = self.metrics;
        metrics.uptime_secs = if now >= self.start_time {
            (now - self.start_time) / 1000
        } else {
            0
        };
        metrics.last_updated = now;
        metrics
    }

    /// Get connection health for a peer.
    pub fn get_health(&self, peer_id: &str) -> (found: Option<ConnectionHealth>)
        requires
            self.wf(),
        ensures
            (match found {
                Some(h) => Some(h@),
                None => None,
            }) == self.health(peer_id@),
    {
        match self.health_cache.get(peer_id) {
            Some(health) => Some(health.copy()),
            None => None,
        }
    }

    /// Get all connection health entries, in the order of their first update.
    pub fn get_all_health(&self) -> (all: Vec<ConnectionHealth>)
        ensures
            all@.map_values(|h: ConnectionHealth| h@) == self.health_records(),
    {
        let mut all: Vec<ConnectionHealth> = Vec::new();
        let ghost records = self.health_cache@.map_values(|e: (String, ConnectionHealth)| e.1@);
        let mut i: usize = 0;
        while i < self.health_cache.len()
            invariant
                i <= self.health_cache@.len(),
                records == self.health_cache@.map_values(|e: (String, ConnectionHealth)| e.1@),
                all@.map_values(|h: ConnectionHealth| h@) == records.take(i as int),
            decreases self.health_cache@.len() - i,
        {
            let health = self.health_cache.entry(i).1.copy();
            proof {
                assert(all@.push(health).map_values(|h: ConnectionHealth| h@) =~= all@.map_values(
                    |h: ConnectionHealth| h@,
                ).push(health@));
            }
            all.push(health);
            i += 1;
        }
        all
    }

    /// What a summary read at `now`, in milliseconds, holds.
    pub open spec fn summarized(&self, now: u64, summary: HealthSummary) -> bool {
        &&& summary.condition == condition_of(
            self.metrics().successful_requests,
            self.metrics().total_requests,
        )
        &&& summary.status@ == (match summary.condition {
            NetworkCondition::Healthy => "healthy"@,
            NetworkCondition::Good => "good"@,
            NetworkCondition::Degraded => "degraded"@,
        })
        &&& summary.connected_peers == self.metrics().connected_peers
        &&& summary.peer_count == self.scores().len()
        &&& summary.peer_score_total == (if score_total(self.scores()) > u64::MAX {
            u64::MAX as nat
        } else {
            score_total(self.scores())
        })
        &&& summary.successful_requests == self.metrics().successful_requests
        &&& summary.total_requests == self.metrics().total_requests
        &&& summary.avg_latency_ms == self.metrics().avg_latency_ms
        &&& summary.uptime_secs == self.metrics_at(now).uptime_secs
        &&& summary.total_bytes_transferred == self.metrics().total_bytes_transferred
    }

    /// Get summary health status, as read now.
    pub fn get_health_summary(&self) -> (summary: HealthSummary)
        ensures
            exists|now: u64| #[trigger] self.summarized(now, summary),
    {
        let now = unix_millis();
        let summary = self.get_health_summary_at(now);
        summary
    }

    /// Get summary health status, as read at `now`, in milliseconds: the
    /// status word goes by the share of requests that succeeded.
    pub fn get_health_summary_at(&self, now: u64) -> (summary: HealthSummary)
        ensures
            self.summarized(now, summary),
    {
        let metrics = self.get_metrics_at(now);
        let ghost all = score_views(self.scores@);
        let mut total: u64 = 0;
        let mut i: usize = 0;
        while i < self.scores.len()
            invariant
                i <= self.scores@.len(),
                all == score_views(self.scores@),
                total == (if score_total(all.take(i as int)) > u64::MAX {
                    u64::MAX as nat
                } else {
                    score_total(all.take(i as int))
                }),
            decreases self.scores@.len() - i,
        {
            let entry = self.scores.entry(i);
            proof {
                assert(all.take(i + 1).drop_last() =~= all.take(i as int));
            }
            total = total.saturating_add(entry.1.score as u64);
            i += 1;
        }
        proof {
            assert(all.take(self.scores@.len() as int) =~= all);
        }
        let condition = network_condition(metrics.successful_requests, metrics.total_requests);
        HealthSummary {
            status: condition.label(),
            condition,
            connected_peers: metrics.connected_peers,
            peer_count: self.scores.len(),
            peer_score_total: total,
            successful_requests: metrics.successful_requests,
            total_requests: metrics.total_requests,
            avg_latency_ms: metrics.avg_latency_ms,
            uptime_secs: metrics.uptime_secs,
            total_bytes_transferred: metrics.total_bytes_transferred,
        }
    }
}

impl Default for HealthMonitor {
    fn default() -> (monitor: Self)
        ensures
            monitor.wf(),
    {
        HealthMonitor::new()
    }
}

} // verus!

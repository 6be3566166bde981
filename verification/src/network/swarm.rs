//! The state of the node's event loop and how it moves: one step takes a
//! command from the owning task or an event from the network, changes the
//! state, and says what the loop has to do next.

use vstd::prelude::*;
use crate::codec::{decode, decoded, encode};
use crate::codec::wire::Wire;
use crate::collections::{IdMap, NumMap};
use crate::network::node::handle_request;
use crate::network::replication::{copy_texts, has_text, remove_text, without_text, ReplicationManager};
use crate::storage::{BundleStore, ChunkStore};
use crate::text::{copy_text, join};
use crate::types::{text_views, GrabRequest, GrabResponse, PeerRecord, PeerRecordView, SiteId};

verus! {

/// The gossip topic of a message.
#[derive(Debug, Clone, Copy, PartialEq, Eq, Structural)]
pub enum Topic {
    /// Site announcements.
    Sites,
    /// Revision updates.
    Updates,
    /// Any other topic.
    Other,
}

/// Network event published to subscribers.
#[derive(Debug, Clone)]
pub enum NetworkEvent {
    /// A new peer connected.
    PeerConnected(String),
    /// A peer disconnected.
    PeerDisconnected(String),
    /// Received a site announcement.
    SiteAnnounced { site_id: SiteId, peer_id: String, revision: u64 },
    /// Received a site update.
    SiteUpdated { site_id: SiteId, revision: u64 },
    /// Bootstrap complete.
    BootstrapComplete { peers: usize },
}

/// What the event loop takes in: a command of the owning task, the
/// outcome of something it did, or an event of the network. A `reply`
/// names the sink that the caller of a command waits on.
#[derive(Debug)]
pub enum SwarmInput {
    /// Command: connect to an address.
    Dial { address: String },
    /// Command: send a request to a peer.
    SendRequest { peer: String, request: GrabRequest, reply: u64 },
    /// Command: announce that this node hosts a site.
    Announce { site_id: SiteId, revision: u64 },
    /// Command: find the hosts of a site.
    FindSite { site_id: SiteId, reply: u64 },
    /// Command: list the connected peers.
    GetPeers { reply: u64 },
    /// Command: list the addresses listened on.
    GetAddresses { reply: u64 },
    /// Command: connect to the bootstrap peers.
    Bootstrap,
    /// Command: end the loop.
    Shutdown,
    /// Outcome: a request asked for was sent under this identifier.
    RequestSent { request_id: u64, reply: u64 },
    /// Outcome: a provider query asked for runs under this identifier.
    QueryStarted { query_id: u64, site_id: SiteId, reply: u64 },
    /// Event: the node listens on a new address.
    NewListenAddr { address: String },
    /// Event: a connection to a peer stands.
    ConnectionEstablished { peer: String },
    /// Event: a connection to a peer was closed.
    ConnectionClosed { peer: String },
    /// Event: the response to a request came in.
    ResponseReceived { request_id: u64, response: GrabResponse },
    /// Event: a request failed or timed out.
    OutboundFailure { request_id: u64, error: String },
    /// Event: a provider query found providers.
    ProvidersFound { query_id: u64, providers: Vec<String> },
    /// Event: a provider query has no further results, or ran out of time.
    ProvidersFinished { query_id: u64 },
    /// Event: bootstrapping the routing table is done.
    BootstrapFinished,
    /// Event: a gossip message came in.
    GossipMessage { topic: Topic, source: String, data: Vec<u8> },
    /// Event: peers were discovered on the local network, each with an address.
    PeersDiscovered { peers: Vec<(String, String)> },
    /// Event: a peer told the addresses it listens on.
    Identified { peer: String, listen_addrs: Vec<String> },
}

/// What the event loop has to do after a step.
#[derive(Debug)]
pub enum SwarmAction {
    Dial { address: String },
    SendRequest { peer: String, request: GrabRequest, reply: u64 },
    StartProviding { site_id: SiteId },
    PutRecord { key: SiteId, value: Vec<u8> },
    Publish { topic: Topic, data: Vec<u8> },
    GetProviders { site_id: SiteId, reply: u64 },
    BootstrapDht,
    AddAddress { peer: String, address: String },
    ReplyPeers { reply: u64, peers: Vec<String> },
    ReplyAddresses { reply: u64, addresses: Vec<String> },
    ReplyResponse { reply: u64, response: GrabResponse },
    ReplyFailure { reply: u64, message: String },
    ReplyHosts { reply: u64, hosts: Vec<PeerRecord> },
    Emit { event: NetworkEvent },
    Stop,
}

/// The state of the event loop.
pub struct SwarmState {
    /// The identifier of this node.
    pub local_peer_id: String,
    /// The bootstrap peers of the configuration.
    pub bootstrap_peers: Vec<String>,
    /// The reply sink of each request under way, by request identifier.
    pub requests: NumMap<u64>,
    /// The site and reply sink of each provider query under way, by query identifier.
    pub queries: NumMap<(SiteId, u64)>,
    /// The providers found so far for each site that is looked for.
    pub providers: IdMap<Vec<PeerRecord>>,
    /// The peers connected, none of them twice.
    pub connected: Vec<String>,
    /// The revision announced of each site that this node announces.
    pub announced: IdMap<u64>,
    /// The addresses listened on, none of them twice.
    pub listeners: Vec<String>,
    /// Whether the loop goes on.
    pub running: bool,
}

/// The views of peer records.
pub open spec fn record_views(records: Seq<PeerRecord>) -> Seq<PeerRecordView> {
    records.map_values(|r: PeerRecord| r@)
}

/// The record of a provider as the query gives it: no address, no revision.
pub open spec fn provider_record(peer_id: Seq<char>) -> PeerRecordView {
    PeerRecordView { peer_id, addresses: Seq::empty(), revision: 0 }
}

/// The records of a list of providers.
pub open spec fn provider_records(providers: Seq<Seq<char>>) -> Seq<PeerRecordView> {
    providers.map_values(|p: Seq<char>| provider_record(p))
}

/// A list of texts with `text` at its end, unless the list holds it already.
pub open spec fn with_text(texts: Seq<Seq<char>>, text: Seq<char>) -> Seq<Seq<char>> {
    if texts.contains(text) {
        texts
    } else {
        texts.push(text)
    }
}

/// Whether an action dials the address.
pub open spec fn is_dial(action: SwarmAction, address: Seq<char>) -> bool {
    action matches SwarmAction::Dial { address: a } && a@ == address
}

/// Whether an action adds the address of the peer to the routing table.
pub open spec fn is_add_address(action: SwarmAction, peer: Seq<char>, address: Seq<char>) -> bool {
    action matches SwarmAction::AddAddress { peer: p, address: a } && p@ == peer && a@ == address
}

/// Whether an action fails the caller behind `reply` with the message.
pub open spec fn is_failure(action: SwarmAction, reply: u64, message: Seq<char>) -> bool {
    action matches SwarmAction::ReplyFailure { reply: r, message: m } && r == reply && m@ == message
}

impl SwarmState {
    /// Every table of the state holds each of its keys once.
    pub open spec fn wf(&self) -> bool {
        &&& self.requests.wf()
        &&& self.queries.wf()
        &&& self.providers.wf()
        &&& self.announced.wf()
    }

    /// The providers found so far for a site.
    pub open spec fn found(&self, site_id: Seq<u8>) -> Seq<PeerRecordView> {
        if self.providers.has(site_id) {
            record_views(self.providers.value(site_id)@)
        } else {
            Seq::empty()
        }
    }

    /// What two states have in common; a flag set lets the part differ.
    pub open spec fn same_but(
        before: SwarmState,
        after: SwarmState,
        requests: bool,
        queries: bool,
        providers: bool,
        connected: bool,
        announced: bool,
        listeners: bool,
    ) -> bool {
        &&& after.local_peer_id == before.local_peer_id
        &&& after.bootstrap_peers == before.bootstrap_peers
        &&& requests || after.requests == before.requests
        &&& queries || after.queries == before.queries
        &&& providers || after.providers == before.providers
        &&& connected || after.connected == before.connected
        &&& announced || after.announced == before.announced
        &&& listeners || after.listeners == before.listeners
    }

    /// A state with nothing under way.
    pub fn new(local_peer_id: String, bootstrap_peers: Vec<String>) -> (state: Self)
        ensures
            state.wf(),
            state.running,
            state.local_peer_id == local_peer_id,
            state.bootstrap_peers == bootstrap_peers,
            state.requests@.len() == 0,
            state.queries@.len() == 0,
            state.providers@.len() == 0,
            state.connected@.len() == 0,
            state.announced@.len() == 0,
            state.listeners@.len() == 0,
    {
        SwarmState {
            local_peer_id,
            bootstrap_peers,
            requests: NumMap::new(),
            queries: NumMap::new(),
            providers: IdMap::new(),
            connected: Vec::new(),
            announced: IdMap::new(),
            listeners: Vec::new(),
            running: true,
        }
    }

    /// The number of connected peers.
    pub fn connected_peers(&self) -> (count: usize)
        ensures
            count == self.connected@.len(),
    {
        self.connected.len()
    }

    /// Answers a request that came in from `peer`, with the sites that this node announces.
    pub fn serve_request(
        &self,
        request: GrabRequest,
        peer: &str,
        chunk_store: &mut ChunkStore,
        bundle_store: &mut BundleStore,
        replication: &mut ReplicationManager,
    ) -> (response: GrabResponse)
        requires
            self.wf(),
            old(chunk_store).wf(),
            old(replication).wf(),
        ensures
            final(chunk_store).wf(),
            final(replication).wf(),
            crate::network::node::answered(
                request,
                peer@,
                *old(chunk_store),
                *final(chunk_store),
                *old(bundle_store),
                *final(bundle_store),
                *old(replication),
                *final(replication),
                self.announced,
                self.local_peer_id@,
                response,
            ),
    {
        handle_request(
            request,
            peer,
            chunk_store,
            bundle_store,
            replication,
            &self.announced,
            self.local_peer_id.as_str(),
        )
    }

    /// What one step does: the state after it and the actions it asks for.
    pub open spec fn stepped(before: SwarmState, input: SwarmInput, after: SwarmState, actions: Seq<SwarmAction>) -> bool {
        match input {
            SwarmInput::Dial { address } => {
                &&& Self::same_but(before, after, false, false, false, false, false, false)
                &&& after.running == before.running
                &&& actions.len() == 1
                &&& is_dial(actions[0], address@)
            },
            SwarmInput::SendRequest { peer, request, reply } => {
                &&& Self::same_but(before, after, false, false, false, false, false, false)
                &&& after.running == before.running
                &&& actions.len() == 1
                &&& actions[0] matches SwarmAction::SendRequest { peer: p, request: r, reply: y }
                &&& p@ == peer@ && r@ == request@ && y == reply
            },
            SwarmInput::Announce { site_id, revision } => {
                &&& Self::same_but(before, after, false, false, false, false, true, false)
                &&& after.running == before.running
                &&& after.announced.has(site_id@) && after.announced.value(site_id@) == revision
                &&& forall|other: Seq<u8>|
                    other != site_id@ ==> after.announced.has(other) == before.announced.has(other) && (
                    before.announced.has(other) ==> after.announced.value(other) == before.announced.value(
                        other,
                    ))
                &&& actions.len() == 3
                &&& actions[0] matches SwarmAction::StartProviding { site_id: s } && s@ == site_id@
                &&& actions[1] matches SwarmAction::PutRecord { key, value } && key@ == site_id@ && value@
                    == <(String, u64)>::wire((before.local_peer_id@, revision))
                &&& actions[2] matches SwarmAction::Publish { topic, data } && topic == Topic::Sites
                    && data@ == <(SiteId, u64)>::wire((site_id@, revision))
            },
            SwarmInput::FindSite { site_id, reply } => {
                &&& Self::same_but(before, after, false, false, false, false, false, false)
                &&& after.running == before.running
                &&& actions.len() == 1
                &&& actions[0] matches SwarmAction::GetProviders { site_id: s, reply: y } && s@ == site_id@
                    && y == reply
            },
            SwarmInput::GetPeers { reply } => {
                &&& Self::same_but(before, after, false, false, false, false, false, false)
                &&& after.running == before.running
                &&& actions.len() == 1
                &&& actions[0] matches SwarmAction::ReplyPeers { reply: y, peers } && y == reply
                    && text_views(peers@) == text_views(before.connected@)
            },
            SwarmInput::GetAddresses { reply } => {
                &&& Self::same_but(before, after, false, false, false, false, false, false)
                &&& after.running == before.running
                &&& actions.len() == 1
                &&& actions[0] matches SwarmAction::ReplyAddresses { reply: y, addresses } && y == reply
                    && text_views(addresses@) == text_views(before.listeners@)
            },
            SwarmInput::Bootstrap => {
                &&& Self::same_but(before, after, false, false, false, false, false, false)
                &&& after.running == before.running
                &&& actions.len() == before.bootstrap_peers@.len() + 1
                &&& forall|i: int|
                    0 <= i < before.bootstrap_peers@.len() ==> is_dial(
                        #[trigger] actions[i],
                        before.bootstrap_peers@[i]@,
                    )
                &&& actions[actions.len() - 1] is BootstrapDht
            },
            SwarmInput::Shutdown => {
                &&& Self::same_but(before, after, true, false, false, false, false, false)
                &&& !after.running
                &&& after.requests@.len() == 0
                &&& actions.len() == before.requests@.len() + 1
                &&& forall|i: int|
                    0 <= i < before.requests@.len() ==> is_failure(
                        #[trigger] actions[i],
                        before.requests@[i].1,
                        "shutdown"@,
                    )
                &&& actions[actions.len() - 1] is Stop
            },
            SwarmInput::RequestSent { request_id, reply } => {
                &&& Self::same_but(before, after, true, false, false, false, false, false)
                &&& after.running == before.running
                &&& after.requests.has(request_id) && after.requests.value(request_id) == reply
                &&& forall|other: u64|
                    other != request_id ==> after.requests.has(other) == before.requests.has(other) && (
                    before.requests.has(other) ==> after.requests.value(other) == before.requests.value(
                        other,
                    ))
                &&& actions.len() == 0
            },
            SwarmInput::QueryStarted { query_id, site_id, reply } => {
                &&& Self::same_but(before, after, false, true, true, false, false, false)
                &&& after.running == before.running
                &&& after.queries.has(query_id) && after.queries.value(query_id).0@ == site_id@
                    && after.queries.value(query_id).1 == reply
                &&& forall|other: u64|
                    other != query_id ==> after.queries.has(other) == before.queries.has(other) && (
                    before.queries.has(other) ==> after.queries.value(other) == before.queries.value(other))
                &&& after.found(site_id@).len() == 0
                &&& forall|other: Seq<u8>| other != site_id@ ==> after.found(other) == before.found(other)
                &&& actions.len() == 0
            },
            SwarmInput::NewListenAddr { address } => {
                &&& Self::same_but(before, after, false, false, false, false, false, true)
                &&& after.running == before.running
                &&& text_views(after.listeners@) == with_text(text_views(before.listeners@), address@)
                &&& actions.len() == 0
            },
            SwarmInput::ConnectionEstablished { peer } => {
                &&& Self::same_but(before, after, false, false, false, true, false, false)
                &&& after.running == before.running
                &&& text_views(after.connected@) == with_text(text_views(before.connected@), peer@)
                &&& actions.len() == 1
                &&& actions[0] matches SwarmAction::Emit { event: NetworkEvent::PeerConnected(p) } && p@
                    == peer@
            },
            SwarmInput::ConnectionClosed { peer } => {
                &&& Self::same_but(before, after, false, false, false, true, false, false)
                &&& after.running == before.running
                &&& text_views(after.connected@) == without_text(text_views(before.connected@), peer@)
                &&& actions.len() == 1
                &&& actions[0] matches SwarmAction::Emit { event: NetworkEvent::PeerDisconnected(p) }
                    && p@ == peer@
            },
            SwarmInput::ResponseReceived { request_id, response } => {
                &&& Self::same_but(before, after, true, false, false, false, false, false)
                &&& after.running == before.running
                &&& !after.requests.has(request_id)
                &&& forall|other: u64|
                    other != request_id ==> after.requests.has(other) == before.requests.has(other) && (
                    before.requests.has(other) ==> after.requests.value(other) == before.requests.value(
                        other,
                    ))
                &&& if before.requests.has(request_id) {
                    &&& actions.len() == 1
                    &&& actions[0] matches SwarmAction::ReplyResponse { reply, response: r }
                    &&& reply == before.requests.value(request_id) && r@ == response@
                } else {
                    actions.len() == 0
                }
            },
            SwarmInput::OutboundFailure { request_id, error } => {
                &&& Self::same_but(before, after, true, false, false, false, false, false)
                &&& after.running == before.running
                &&& !after.requests.has(request_id)
                &&& forall|other: u64|
                    other != request_id ==> after.requests.has(other) == before.requests.has(other) && (
                    before.requests.has(other) ==> after.requests.value(other) == before.requests.value(
                        other,
                    ))
                &&& if before.requests.has(request_id) {
                    &&& actions.len() == 1
                    &&& is_failure(
                        actions[0],
                        before.requests.value(request_id),
                        "Request failed: "@ + error@,
                    )
                } else {
                    actions.len() == 0
                }
            },
            SwarmInput::ProvidersFound { query_id, providers } => {
                &&& Self::same_but(before, after, false, false, true, false, false, false)
                &&& after.running == before.running
                &&& actions.len() == 0
                &&& if before.queries.has(query_id) {
                    let site = before.queries.value(query_id).0@;
                    &&& after.found(site) == before.found(site) + provider_records(text_views(providers@))
                    &&& forall|other: Seq<u8>| other != site ==> after.found(other) == before.found(other)
                } else {
                    after.providers == before.providers
                }
            },
            SwarmInput::ProvidersFinished { query_id } => {
                &&& Self::same_but(before, after, false, true, true, false, false, false)
                &&& after.running == before.running
                &&& !after.queries.has(query_id)
                &&& forall|other: u64|
                    other != query_id ==> after.queries.has(other) == before.queries.has(other) && (
                    before.queries.has(other) ==> after.queries.value(other) == before.queries.value(other))
                &&& if before.queries.has(query_id) {
                    let site = before.queries.value(query_id).0@;
                    &&& after.found(site).len() == 0
                    &&& forall|other: Seq<u8>| other != site ==> after.found(other) == before.found(other)
                    &&& actions.len() == 1
                    &&& actions[0] matches SwarmAction::ReplyHosts { reply, hosts }
                    &&& reply == before.queries.value(query_id).1
                    &&& record_views(hosts@) == before.found(site)
                } else {
                    &&& after.providers == before.providers
                    &&& actions.len() == 0
                }
            },
            SwarmInput::BootstrapFinished => {
                &&& Self::same_but(before, after, false, false, false, false, false, false)
                &&& after.running == before.running
                &&& actions.len() == 1
                &&& actions[0] matches SwarmAction::Emit { event: NetworkEvent::BootstrapComplete { peers } }
                    && peers == before.connected@.len()
            },
            SwarmInput::GossipMessage { topic, source, data } => {
                &&& Self::same_but(before, after, false, false, false, false, false, false)
                &&& after.running == before.running
                &&& match (topic, decoded::<(SiteId, u64)>(data@)) {
                    (Topic::Sites, Some(told)) => {
                        &&& actions.len() == 1
                        &&& actions[0] matches SwarmAction::Emit {
                            event: NetworkEvent::SiteAnnounced { site_id, peer_id, revision },
                        }
                        &&& site_id@ == told.0 && peer_id@ == source@ && revision == told.1
                    },
                    (Topic::Updates, Some(told)) => {
                        &&& actions.len() == 1
                        &&& actions[0] matches SwarmAction::Emit {
                            event: NetworkEvent::SiteUpdated { site_id, revision },
                        }
                        &&& site_id@ == told.0 && revision == told.1
                    },
                    _ => actions.len() == 0,
                }
            },
            SwarmInput::PeersDiscovered { peers } => {
                &&& Self::same_but(before, after, false, false, false, false, false, false)
                &&& after.running == before.running
                &&& actions.len() == peers@.len()
                &&& forall|i: int|
                    0 <= i < peers@.len() ==> is_add_address(
                        #[trigger] actions[i],
                        peers@[i].0@,
                        peers@[i].1@,
                    )
            },
            SwarmInput::Identified { peer, listen_addrs } => {
                &&& Self::same_but(before, after, false, false, false, false, false, false)
                &&& after.running == before.running
                &&& actions.len() == listen_addrs@.len()
                &&& forall|i: int|
                    0 <= i < listen_addrs@.len() ==> is_add_address(
                        #[trigger] actions[i],
                        peer@,
                        listen_addrs@[i]@,
                    )
            },
        }
    }

    /// Takes one command or event: changes the state and says what the
    /// loop has to do.
    pub fn step(&mut self, input: SwarmInput) -> (actions: Vec<SwarmAction>)
        requires
            old(self).wf(),
        ensures
            final(self).wf(),
            Self::stepped(*old(self), input, *final(self), actions@),
    {
        let mut actions: Vec<SwarmAction> = Vec::new();
        match input {
            SwarmInput::Dial { address } => {
                actions.push(SwarmAction::Dial { address });
            },
            SwarmInput::SendRequest { peer, request, reply } => {
                actions.push(SwarmAction::SendRequest { peer, request, reply });
            },
            SwarmInput::Announce { site_id, revision } => {
                self.announced.set(site_id, revision);
                let record: (String, u64) = (copy_text(self.local_peer_id.as_str()), revision);
                let told: (SiteId, u64) = (site_id, revision);
                actions.push(SwarmAction::StartProviding { site_id });
                actions.push(SwarmAction::PutRecord { key: site_id, value: encode(&record) });
                actions.push(SwarmAction::Publish { topic: Topic::Sites, data: encode(&told) });
            },
            SwarmInput::FindSite { site_id, reply } => {
                actions.push(SwarmAction::GetProviders { site_id, reply });
            },
            SwarmInput::GetPeers { reply } => {
                actions.push(SwarmAction::ReplyPeers { reply, peers: copy_texts(&self.connected) });
            },
            SwarmInput::GetAddresses { reply } => {
                actions.push(
                    SwarmAction::ReplyAddresses { reply, addresses: copy_texts(&self.listeners) },
                );
            },
            SwarmInput::Bootstrap => {
                dial_all(&self.bootstrap_peers, &mut actions);
                actions.push(SwarmAction::BootstrapDht);
            },
            SwarmInput::Shutdown => {
                fail_all(&self.requests, &mut actions);
                self.requests = NumMap::new();
                self.running = false;
                actions.push(SwarmAction::Stop);
            },
            SwarmInput::RequestSent { request_id, reply } => {
                self.requests.set(request_id, reply);
            },
            SwarmInput::QueryStarted { query_id, site_id, reply } => {
                self.queries.set(query_id, (site_id, reply));
                let none: Vec<PeerRecord> = Vec::new();
                self.providers.set(site_id, none);
            },
            SwarmInput::NewListenAddr { address } => {
                if !has_text(&self.listeners, address.as_str()) {
                    proof {
                        assert(text_views(self.listeners@.push(address)) =~= text_views(
                            self.listeners@,
                        ).push(address@));
                    }
                    self.listeners.push(address);
                }
            },
            SwarmInput::ConnectionEstablished { peer } => {
                if !has_text(&self.connected, peer.as_str()) {
                    let copy = copy_text(peer.as_str());
                    proof {
                        assert(text_views(self.connected@.push(copy)) =~= text_views(
                            self.connected@,
                        ).push(peer@));
                    }
                    self.connected.push(copy);
                }
                actions.push(SwarmAction::Emit { event: NetworkEvent::PeerConnected(peer) });
            },
            SwarmInput::ConnectionClosed { peer } => {
                let mut connected: Vec<String> = Vec::new();
                std::mem::swap(&mut connected, &mut self.connected);
                self.connected = remove_text(connected, peer.as_str());
                actions.push(SwarmAction::Emit { event: NetworkEvent::PeerDisconnected(peer) });
            },
            SwarmInput::ResponseReceived { request_id, response } => {
                match self.requests.remove(request_id) {
                    Some(reply) => {
                        actions.push(SwarmAction::ReplyResponse { reply, response });
                    },
                    None => {},
                }
            },
            SwarmInput::OutboundFailure { request_id, error } => {
                match self.requests.remove(request_id) {
                    Some(reply) => {
                        let message = join("Request failed: ", error.as_str());
                        actions.push(SwarmAction::ReplyFailure { reply, message });
                    },
                    None => {},
                }
            },
            SwarmInput::ProvidersFound { query_id, providers } => {
                match self.queries.get(query_id) {
                    Some(query) => {
                        let site_id: SiteId = query.0;
                        let mut found = match self.providers.remove(&site_id) {
                            Some(found) => found,
                            None => Vec::new(),
                        };
                        add_providers(&mut found, &providers);
                        self.providers.set(site_id, found);
                    },
                    None => {},
                }
            },
            SwarmInput::ProvidersFinished { query_id } => {
                match self.queries.remove(query_id) {
                    Some((site_id, reply)) => {
                        let hosts = match self.providers.remove(&site_id) {
                            Some(found) => found,
                            None => Vec::new(),
                        };
                        assert(record_views(hosts@) =~= old(self).found(site_id@));
                        actions.push(SwarmAction::ReplyHosts { reply, hosts });
                    },
                    None => {},
                }
            },
            SwarmInput::BootstrapFinished => {
                actions.push(
                    SwarmAction::Emit {
                        event: NetworkEvent::BootstrapComplete { peers: self.connected.len() },
                    },
                );
            },
            SwarmInput::GossipMessage { topic, source, data } => {
                match decode::<(SiteId, u64)>(data.as_slice()) {
                    Some((site_id, revision)) => match topic {
                        Topic::Sites => {
                            actions.push(
                                SwarmAction::Emit {
                                    event: NetworkEvent::SiteAnnounced {
                                        site_id,
                                        peer_id: source,
                                        revision,
                                    },
                                },
                            );
                        },
                        Topic::Updates => {
                            actions.push(
                                SwarmAction::Emit { event: NetworkEvent::SiteUpdated { site_id, revision } },
                            );
                        },
                        Topic::Other => {},
                    },
                    None => {},
                }
            },
            SwarmInput::PeersDiscovered { peers } => {
                let mut i: usize = 0;
                while i < peers.len()
                    invariant
                        i <= peers@.len(),
                        actions@.len() == i,
                        forall|k: int|
                            0 <= k < i ==> is_add_address(#[trigger] actions@[k], peers@[k].0@, peers@[k].1@),
                    decreases peers@.len() - i,
                {
                    actions.push(
                        SwarmAction::AddAddress {
                            peer: copy_text(peers[i].0.as_str()),
                            address: copy_text(peers[i].1.as_str()),
                        },
                    );
                    i += 1;
                }
            },
            SwarmInput::Identified { peer, listen_addrs } => {
                let mut i: usize = 0;
                while i < listen_addrs.len()
                    invariant
                        i <= listen_addrs@.len(),
                        actions@.len() == i,
                        forall|k: int|
                            0 <= k < i ==> is_add_address(#[trigger] actions@[k], peer@, listen_addrs@[k]@),
                    decreases listen_addrs@.len() - i,
                {
                    actions.push(
                        SwarmAction::AddAddress {
                            peer: copy_text(peer.as_str()),
                            address: copy_text(listen_addrs[i].as_str()),
                        },
                    );
                    i += 1;
                }
            },
        }
        actions
    }
}

/// Appends a dial of each address.
fn dial_all(addresses: &Vec<String>, actions: &mut Vec<SwarmAction>)
    requires
        old(actions)@.len() == 0,
    ensures
        final(actions)@.len() == addresses@.len(),
        forall|i: int| 0 <= i < addresses@.len() ==> is_dial(#[trigger] final(actions)@[i], addresses@[i]@),
{
    let mut i: usize = 0;
    while i < addresses.len()
        invariant
            i <= addresses@.len(),
            actions@.len() == i,
            forall|k: int| 0 <= k < i ==> is_dial(#[trigger] actions@[k], addresses@[k]@),
        decreases addresses@.len() - i,
    {
        actions.push(SwarmAction::Dial { address: copy_text(addresses[i].as_str()) });
        i += 1;
    }
}

/// Appends a failure for the caller of each request under way.
fn fail_all(requests: &NumMap<u64>, actions: &mut Vec<SwarmAction>)
    requires
        old(actions)@.len() == 0,
    ensures
        final(actions)@.len() == requests@.len(),
        forall|i: int|
            0 <= i < requests@.len() ==> is_failure(#[trigger] final(actions)@[i], requests@[i].1, "shutdown"@),
{
    let mut i: usize = 0;
    while i < requests.len()
        invariant
            i <= requests@.len(),
            actions@.len() == i,
            forall|k: int| 0 <= k < i ==> is_failure(#[trigger] actions@[k], requests@[k].1, "shutdown"@),
        decreases requests@.len() - i,
    {
        let reply: u64 = requests.entry(i).1;
        actions.push(SwarmAction::ReplyFailure { reply, message: "shutdown".to_owned() });
        i += 1;
    }
}

/// Appends the record of each provider.
fn add_providers(found: &mut Vec<PeerRecord>, providers: &Vec<String>)
    ensures
        record_views(final(found)@) == record_views(old(found)@) + provider_records(text_views(providers@)),
{
    let ghost start = record_views(found@);
    let ghost all = provider_records(text_views(providers@));
    let mut i: usize = 0;
    while i < providers.len()
        invariant
            i <= providers@.len(),
            start == record_views(old(found)@),
            all == provider_records(text_views(providers@)),
            record_views(found@) == start + all.take(i as int),
        decreases providers@.len() - i,
    {
        let record = PeerRecord {
            peer_id: copy_text(providers[i].as_str()),
            addresses: Vec::new(),
            revision: 0,
        };
        proof {
            assert(text_views(record.addresses@) =~= Seq::<Seq<char>>::empty());
            assert(record_views(found@.push(record)) =~= record_views(found@).push(record@));
        }
        found.push(record);
        i += 1;
    }
}

} // verus!

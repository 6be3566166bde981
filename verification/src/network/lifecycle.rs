//! The life of a site on a node that hosts it: from unknown, through
//! locating and fetching, to ready, and stale when an update is heard of.

use vstd::prelude::*;

verus! {

/// Where a host stands with a site.
#[derive(Debug, Clone, Copy, PartialEq, Eq, Structural)]
pub enum HostState {
    /// Nothing is known of the site here.
    Unknown,
    /// The providers of the site are looked for.
    Locating,
    /// The bundle is asked for, provider by provider.
    FetchingManifest,
    /// The chunks that are missing are asked for.
    FetchingChunks,
    /// The bundle and all its chunks are here.
    Ready,
    /// A newer revision was heard of.
    Stale,
}

/// What happens to a site on a host.
#[derive(Debug, Clone, Copy, PartialEq, Eq, Structural)]
pub enum HostEvent {
    /// Hosting the site was asked for, or fetching it again.
    FetchRequested,
    /// The provider query gave providers.
    ProvidersFound,
    /// The provider query gave none in its time.
    LocateTimedOut,
    /// A provider gave a bundle whose signature verifies.
    ManifestAccepted,
    /// Every missing chunk was fetched and checked.
    ChunksComplete,
    /// Every provider was tried without success.
    PeersExhausted,
    /// An update of the site was announced.
    SiteUpdated,
}

/// The state after an event; an event that has no meaning in a state leaves it.
pub open spec fn host_next(state: HostState, event: HostEvent) -> HostState {
    match (state, event) {
        (HostState::Unknown, HostEvent::FetchRequested) => HostState::Locating,
        (HostState::Locating, HostEvent::ProvidersFound) => HostState::FetchingManifest,
        (HostState::Locating, HostEvent::LocateTimedOut) => HostState::Unknown,
        (HostState::FetchingManifest, HostEvent::ManifestAccepted) => HostState::FetchingChunks,
        (HostState::FetchingManifest, HostEvent::PeersExhausted) => HostState::Unknown,
        (HostState::FetchingChunks, HostEvent::ChunksComplete) => HostState::Ready,
        (HostState::FetchingChunks, HostEvent::PeersExhausted) => HostState::Unknown,
        (HostState::Ready, HostEvent::SiteUpdated) => HostState::Stale,
        (HostState::Stale, HostEvent::FetchRequested) => HostState::FetchingManifest,
        _ => state,
    }
}

/// The state of a site on a host after an event.
pub fn next_host_state(state: HostState, event: HostEvent) -> (next: HostState)
    ensures
        next == host_next(state, event),
{
    match (state, event) {
        (HostState::Unknown, HostEvent::FetchRequested) => HostState::Locating,
        (HostState::Locating, HostEvent::ProvidersFound) => HostState::FetchingManifest,
        (HostState::Locating, HostEvent::LocateTimedOut) => HostState::Unknown,
        (HostState::FetchingManifest, HostEvent::ManifestAccepted) => HostState::FetchingChunks,
        (HostState::FetchingManifest, HostEvent::PeersExhausted) => HostState::Unknown,
        (HostState::FetchingChunks, HostEvent::ChunksComplete) => HostState::Ready,
        (HostState::FetchingChunks, HostEvent::PeersExhausted) => HostState::Unknown,
        (HostState::Ready, HostEvent::SiteUpdated) => HostState::Stale,
        (HostState::Stale, HostEvent::FetchRequested) => HostState::FetchingManifest,
        _ => state,
    }
}

/// A site gets ready only by its last chunk coming in, and chunks are
/// fetched only after a bundle was accepted.
pub proof fn law_ready_by_fetching(state: HostState, event: HostEvent)
    ensures
        host_next(state, event) == HostState::Ready && state != HostState::Ready ==> state
            == HostState::FetchingChunks && event == HostEvent::ChunksComplete,
        host_next(state, event) == HostState::FetchingChunks && state != HostState::FetchingChunks
            ==> state == HostState::FetchingManifest && event == HostEvent::ManifestAccepted,
{
}

} // verus!

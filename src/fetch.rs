//! Obtaining a package archive: from the cache when it is there, otherwise
//! from the registry, storing it in the cache before use.
//!
//! The decisions form a small state machine; its driver performs each
//! action (a cache read, a request, a write) and reports what happened.

use vstd::prelude::*;
use crate::cache::{cache_key, cache_key_of};
use crate::error::PmError;
use crate::registry::{has_key, first_key_at, package_url, tarball_url, NpmResponse};

verus! {

/// Where a fetch stands.
pub enum FetchPhase {
    /// The cache is being asked for the key.
    LookingUp,
    /// The package's metadata document has been requested.
    AwaitingMetadata,
    /// The tarball has been requested.
    AwaitingTarball,
    /// Nothing more to do.
    Finished,
}

/// What the driver reports.
pub enum FetchEvent {
    /// The cache holds the archive: these bytes.
    CacheHit(Vec<u8>),
    /// The cache does not hold the archive.
    CacheMiss,
    /// The metadata document arrived and was read.
    Metadata(NpmResponse),
    /// The tarball arrived: these bytes.
    Tarball(Vec<u8>),
    /// A request failed, or its answer could not be read.
    NetworkFailed,
}

/// What the driver does next.
pub enum FetchAction {
    /// Read the cache entry with this key.
    ReadCache(String),
    /// Request the metadata document at this address.
    RequestMetadata(String),
    /// Request the tarball at this address.
    RequestTarball(String),
    /// Write these bytes to the cache under this key, then extract them.
    StoreAndExtract(String, Vec<u8>),
    /// Extract these bytes; nothing is requested from the network.
    Extract(Vec<u8>),
    /// Give up on this package.
    Fail(PmError),
    /// The event does not fit the phase: nothing to do.
    Ignore,
}

/// The first step of fetching `name` at `version`: ask the cache.
pub fn fetch_start(name: &str, version: &str) -> (r: (FetchPhase, FetchAction))
    ensures
        r.0 is LookingUp,
        r.1 matches FetchAction::ReadCache(k) && k@ == cache_key_of(name@, version@),
{
    (FetchPhase::LookingUp, FetchAction::ReadCache(cache_key(name, version)))
}

/// The next phase and action of fetching `name` at `version`, given what
/// happened in `phase`.
pub fn fetch_step(phase: FetchPhase, name: &str, version: &str, event: FetchEvent) -> (r: (
    FetchPhase,
    FetchAction,
))
    ensures
        phase is LookingUp ==> match event {
            FetchEvent::CacheHit(b) => r.0 is Finished && r.1 == FetchAction::Extract(b),
            FetchEvent::CacheMiss => r.0 is AwaitingMetadata && (r.1 matches FetchAction::RequestMetadata(u)
                && u@ == "https://registry.npmjs.org/"@ + name@),
            _ => r.0 is LookingUp && r.1 is Ignore,
        },
        phase is AwaitingMetadata ==> match event {
            FetchEvent::Metadata(resp) => if has_key(resp.versions@, version@) {
                r.0 is AwaitingTarball && (r.1 matches FetchAction::RequestTarball(u) && exists|i: int|
                    first_key_at(resp.versions@, version@, i) && u@ == resp.versions@[i].1.dist.tarball@)
            } else {
                r.0 is Finished && r.1 == FetchAction::Fail(PmError::VersionNotFound)
            },
            FetchEvent::NetworkFailed => r.0 is Finished && r.1 == FetchAction::Fail(
                PmError::RegistryUnavailable,
            ),
            _ => r.0 is AwaitingMetadata && r.1 is Ignore,
        },
        phase is AwaitingTarball ==> match event {
            FetchEvent::Tarball(b) => r.0 is Finished && (r.1 matches FetchAction::StoreAndExtract(k, c)
                && k@ == cache_key_of(name@, version@) && c == b),
            FetchEvent::NetworkFailed => r.0 is Finished && r.1 == FetchAction::Fail(
                PmError::RegistryUnavailable,
            ),
            _ => r.0 is AwaitingTarball && r.1 is Ignore,
        },
        phase is Finished ==> r.0 is Finished && r.1 is Ignore,
{
    match phase {
        FetchPhase::LookingUp => match event {
            FetchEvent::CacheHit(b) => (FetchPhase::Finished, FetchAction::Extract(b)),
            FetchEvent::CacheMiss => (
                FetchPhase::AwaitingMetadata,
                FetchAction::RequestMetadata(package_url(name)),
            ),
            _ => (FetchPhase::LookingUp, FetchAction::Ignore),
        },
        FetchPhase::AwaitingMetadata => match event {
            FetchEvent::Metadata(resp) => match tarball_url(&resp, version) {
                Ok(u) => (FetchPhase::AwaitingTarball, FetchAction::RequestTarball(u)),
                Err(e) => (FetchPhase::Finished, FetchAction::Fail(e)),
            },
            FetchEvent::NetworkFailed => (
                FetchPhase::Finished,
                FetchAction::Fail(PmError::RegistryUnavailable),
            ),
            _ => (FetchPhase::AwaitingMetadata, FetchAction::Ignore),
        },
        FetchPhase::AwaitingTarball => match event {
            FetchEvent::Tarball(b) => (
                FetchPhase::Finished,
                FetchAction::StoreAndExtract(cache_key(name, version), b),
            ),
            FetchEvent::NetworkFailed => (
                FetchPhase::Finished,
                FetchAction::Fail(PmError::RegistryUnavailable),
            ),
            _ => (FetchPhase::AwaitingTarball, FetchAction::Ignore),
        },
        FetchPhase::Finished => (FetchPhase::Finished, FetchAction::Ignore),
    }
}

} // verus!

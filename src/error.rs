//! Failures of the acquisition pipeline.

use vstd::prelude::*;

verus! {

/// Why resolving, fetching or installing a package failed.
#[derive(Clone, Copy, Debug, PartialEq, Eq, Structural)]
pub enum PmError {
    /// The requirement is neither `latest` nor a valid version range.
    InvalidRequirement,
    /// The registry could not be reached, or its answer could not be read.
    RegistryUnavailable,
    /// The registry metadata holds no `latest` tag.
    TagNotFound,
    /// No listed version satisfies the requirement.
    NoMatchingVersion,
    /// The requested version is not in the registry's version map.
    VersionNotFound,
    /// The archive could not be decompressed or its entries not iterated.
    CorruptArchive,
    /// The archive is not in the local cache.
    CacheMiss,
    /// This many packages of a batch failed to install.
    AggregateInstallFailure(usize),
}

} // verus!

//! Package acquisition core: version resolution, archive cache bookkeeping,
//! archive fetching and path sanitisation, and bounded-concurrency install
//! scheduling, together with the manifest and lockfile tables they feed.

pub mod text;
pub mod error;
pub mod deps;
pub mod version;
pub mod registry;
pub mod resolver;
pub mod cache;
pub mod fetch;
pub mod archive;
pub mod install;
pub mod lockfile;
pub mod manifest;

//! A disk-backed, expiry- and ETag-aware content cache, verified over an
//! explicit model of the cache directory.
//!
//! The cache sits between a consumer and a remote resource provider. It
//! answers whether a usable local copy of a resource exists and, if not, how
//! to refresh it without discarding revalidation information. The directory
//! holding the cached files is modelled as an explicit value threaded through
//! all calls, so every decision the cache makes is a verified function of
//! that state.

pub mod cache;
pub mod errors;
pub mod expiry;
pub mod models;
pub mod pattern;
pub mod state;
pub mod store;

pub use cache::{CacheFile, CachePolicy, FetchResult, ReadOutcome};
pub use errors::CacheError;
pub use pattern::CachePattern;
pub use expiry::{CacheExpiry, ETag};
pub use models::Batch;
pub use state::UpdatableState;
pub use store::CacheManager;

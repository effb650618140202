//! Scans of directories: the cache of listings, the filters, and the
//! watcher that keeps the cache in step with the file system.

pub mod cache;
pub mod clock;
pub mod parallel;
pub mod store;
pub mod watcher;

//! Client-side asset reconciliation: given a manifest describing the files a
//! game version needs (an asset index, many content-addressed asset objects,
//! a client jar, library archives and platform-native classifiers), decide
//! which local files are missing or stale and produce the download plan that
//! brings local storage in sync. The caller performs the file and network
//! I/O; this crate holds the decision logic, with contracts.

pub mod hash;
pub mod manifest;
pub mod paths;
pub mod plan;
pub mod reconcile;
pub mod report;
pub mod session;

//! Cluster coordination core of a metadata server: leases, distributed
//! locks, leader election, failure detection and a durable procedure
//! executor, each written as a verified state machine, together with the
//! statement that recreates a table and the request types of the catalog
//! and HTTP front.

pub mod catalog;
pub mod election;
pub mod failure_detector;
pub mod file_format;
pub mod http;
pub mod lease;
pub mod lock;
mod manifest;
pub mod procedure;
pub mod registry;
pub mod show;

pub use manifest::{manifest_path, ImmutableMetadata, MetadataVersion, INIT_META_VERSION};

//! Trusted local-first Git vaults: metadata records, trust zones, policies,
//! signed payloads, retention and recovery decisions.
pub mod text;
pub mod error;
pub mod models;
pub mod util;
pub mod kv;
pub mod digest;
pub mod identity;
pub mod layout;
pub mod zones;
pub mod policies;
pub mod signing;
pub mod sorting;
pub mod vault;
pub mod checkpoint;
pub mod retention;
pub mod lineage;
pub mod peering;
pub mod discovery;
pub mod reconciliation;
pub mod recovery;
pub mod trust_graph;
pub mod sync;
pub mod replication;
pub mod sync_run;
pub mod settings;
pub mod tooling;

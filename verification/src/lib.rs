//! Backend process supervisor for a single local worker process.
//!
//! The library contains the verified core of the supervisor: workspace path
//! normalization, the persisted workspace configuration codec, the decision
//! logic of the configuration store, and the supervisor state machine that
//! guarantees at most one live worker.  All process, file and network I/O is
//! performed by the surrounding application, which feeds plain values into
//! these functions and acts on the values they return.

pub mod config;
pub mod errors;
pub mod paths;
pub mod store;
pub mod supervisor;
pub mod urls;

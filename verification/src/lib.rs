//! Workflow-engine plugin dispatcher: executes WebAssembly modules as
//! workflow steps, either in process or on a Wasm-capable cluster node.
//!
//! The executors are verified state machines: an unverified driver performs
//! their I/O actions and feeds the observed outcomes back, and the machines
//! guarantee the ordering, the error taxonomy, and that everything created
//! along the way (cluster resources, the working directory) sees a matching
//! cleanup before a run finishes. The protocol files exchanged with a module
//! are written and read by a JSON codec proved to round-trip.

pub mod artifacts;
pub mod cache;
pub mod config;
pub mod dispatcher;
pub mod distributed;
pub mod image;
pub mod json;
pub mod local;
pub mod model;
pub mod plugin;
pub mod protocol;
pub mod resolver;
pub mod status;

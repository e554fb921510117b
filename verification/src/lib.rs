//! Bootstrap and relay core for a thin network client: streaming-transfer
//! accounting with progress metering, concurrent multi-asset fetch planning
//! with all-or-nothing failure semantics, child-process launch planning, and
//! the state machine of a local multiplexing connection relay.
//!
//! Everything here is pure decision and accounting logic with verified
//! contracts; the surrounding binary performs the actual network, file and
//! process I/O and feeds the results back in as plain values.

pub mod assets;
pub mod config;
pub mod netid;
pub mod paths;
pub mod platform;
pub mod progress;
pub mod relay;
pub mod supervisor;
pub mod text;
pub mod transfer;

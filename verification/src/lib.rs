//! DNeyeS: DNS and HTTP monitoring, the verified core.
//!
//! The library holds the decisions and the data shaping of the monitor:
//! configuration checks, resolver bookkeeping, event construction, query
//! building and the textual forms that the monitor writes.  Network and file
//! work is done by the program around it.

pub mod utils;
pub mod errors;
pub mod http;
pub mod config;
pub mod dns;
pub mod cli;
pub mod telemetry;
pub mod commands;

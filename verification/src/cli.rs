//! What the command line asks for.

use vstd::prelude::*;

verus! {

/// Command line of DNeyeS: the configuration file and the mode to run.
pub struct Cli {
    /// Path to the configuration file (default `config.yaml`, or the
    /// `DNEYES_CONFIG` environment variable).
    pub config: String,
    /// Command to execute.
    pub command: Command,
}

/// Supported operating modes of DNeyeS.
#[derive(Clone, Copy, Debug, PartialEq, Eq, Structural)]
pub enum Command {
    /// Run DNS resolution monitoring.
    Dns,
    /// Run HTTP uptime monitoring.
    Http,
    /// Start the REST API server.
    Api,
}

/// Path of the configuration file when the command line names none.
pub fn default_config_path() -> (r: String)
    ensures
        r@ == "config.yaml"@,
{
    "config.yaml".to_owned()
}

} // verus!

//! Application configuration: the shape of the configuration file, its
//! defaults and the checks a loaded configuration must pass.

use std::collections::HashMap;
use vstd::prelude::*;
use crate::errors::DneyesError;

verus! {

/// Application wide configuration that covers DNS lookups, output sinks and the
/// public API layer.
pub struct AppConfig {
    /// DNS specific configuration block.
    pub dns: DnsConfig,
    /// Output configuration describing where measurement results should be persisted.
    pub output: OutputConfig,
    /// Public API configuration used for the REST layer.
    pub api: ApiConfig,
}

/// DNS module configuration controlling resolver list retrieval and the
/// runtime behaviour.
pub struct DnsConfig {
    /// Public DNS list provider URL.
    pub server_list_url: String,
    /// Mapping of ISO country code to human readable name.
    pub country_list: HashMap<String, String>,
    /// Default list of ISO country codes to query for DNS servers.
    pub default_countries: Vec<String>,
    /// Timeout (in seconds) per DNS request.
    pub timeout_secs: u64,
    /// Maximum number of concurrent DNS resolution tasks.
    pub concurrency: usize,
}

/// Defines how monitoring results should be persisted.
pub struct OutputConfig {
    /// Desired persistence target.
    pub mode: OutputMode,
    /// File based configuration.
    pub file: Option<FileOutputConfig>,
    /// ClickHouse configuration.
    pub clickhouse: Option<ClickhouseConfig>,
}

/// Output persistence modes supported by DNeyeS.
#[derive(Clone, Copy, Debug, PartialEq, Eq, Structural)]
pub enum OutputMode {
    /// Persist events in NDJSON files on disk.
    File,
    /// Persist events directly into ClickHouse tables.
    Clickhouse,
    /// Persist events in both locations at the same time.
    Both,
}

/// Configuration for NDJSON exports.
pub struct FileOutputConfig {
    /// Directory on disk where NDJSON exports are written to.
    pub directory: String,
}

/// Configuration for the ClickHouse backend.
pub struct ClickhouseConfig {
    /// HTTP endpoint of the ClickHouse server, e.g. `http://localhost:8123`.
    pub url: String,
    /// Database name used to store DNeyeS tables.
    pub database: String,
    /// Username for authentication.
    pub username: String,
    /// Password for authentication.
    pub password: String,
    /// Table that stores DNS resolution history.
    pub dns_table: String,
    /// Table that stores HTTP availability data.
    pub http_table: String,
    /// Whether schema checks/creation should be attempted on start.
    pub ensure_schema: bool,
    /// Optional request timeout in seconds.
    pub timeout_secs: u64,
}

impl Clone for ClickhouseConfig {
    fn clone(&self) -> (r: Self)
        ensures
            r == *self,
    {
        ClickhouseConfig {
            url: self.url.clone(),
            database: self.database.clone(),
            username: self.username.clone(),
            password: self.password.clone(),
            dns_table: self.dns_table.clone(),
            http_table: self.http_table.clone(),
            ensure_schema: self.ensure_schema,
            timeout_secs: self.timeout_secs,
        }
    }
}

impl Clone for FileOutputConfig {
    fn clone(&self) -> (r: Self)
        ensures
            r == *self,
    {
        FileOutputConfig { directory: self.directory.clone() }
    }
}

/// REST API configuration.
pub struct ApiConfig {
    /// Bind address used by the API server.
    pub host: String,
    /// Listening port of the API server.
    pub port: u16,
    /// Default page size for API pagination.
    pub page_size: usize,
    /// Cross origin settings for the dashboard frontend.
    pub cors: CorsConfig,
}

/// Cross origin resource sharing configuration block.
pub struct CorsConfig {
    /// List of allowed origins for browser applications.
    pub allow_origins: Vec<String>,
}

impl Default for CorsConfig {
    fn default() -> (r: Self)
        ensures
            r.allow_origins@.len() == 0,
    {
        CorsConfig { allow_origins: Vec::new() }
    }
}

/// Default list of countries: Germany only.
pub fn default_countries() -> (r: Vec<String>)
    ensures
        r@.len() == 1,
        r@[0]@ == "de"@,
{
    vec!["de".to_owned()]
}

/// Default timeout of one DNS request, in seconds.
pub fn default_dns_timeout() -> (r: u64)
    ensures
        r == 5,
{
    5
}

/// Default number of DNS lookups in flight at once.
pub fn default_dns_concurrency() -> (r: usize)
    ensures
        r == 64,
{
    64
}

impl OutputConfig {
    /// Default persistence target: NDJSON files.
    pub fn default_mode() -> (r: OutputMode)
        ensures
            r == OutputMode::File,
    {
        OutputMode::File
    }
}

/// Default directory of NDJSON exports.
pub fn default_export_directory() -> (r: String)
    ensures
        r@ == "export"@,
{
    "export".to_owned()
}

/// Default ClickHouse user.
pub fn default_clickhouse_user() -> (r: String)
    ensures
        r@ == "default"@,
{
    "default".to_owned()
}

/// Default table of DNS resolutions.
pub fn default_dns_table() -> (r: String)
    ensures
        r@ == "dns_resolutions"@,
{
    "dns_resolutions".to_owned()
}

/// Default table of HTTP availability checks.
pub fn default_http_table() -> (r: String)
    ensures
        r@ == "http_availability"@,
{
    "http_availability".to_owned()
}

/// By default the ClickHouse schema is created on start.
pub fn default_clickhouse_schema_creation() -> (r: bool)
    ensures
        r,
{
    true
}

/// Default ClickHouse request timeout, in seconds.
pub fn default_clickhouse_timeout() -> (r: u64)
    ensures
        r == 10,
{
    10
}

/// Default bind address of the API server: every interface.
pub fn default_api_host() -> (r: String)
    ensures
        r@ == "0.0.0.0"@,
{
    "0.0.0.0".to_owned()
}

/// Default port of the API server.
pub fn default_api_port() -> (r: u16)
    ensures
        r == 8080,
{
    8080
}

/// Default page size of the API.
pub fn default_page_size() -> (r: usize)
    ensures
        r == 100,
{
    100
}

/// What is wrong with a configuration, as the message that reports it, or
/// `None` when nothing is: at least one default country is required, and
/// each output mode requires the blocks it writes to.
pub open spec fn config_problem(c: AppConfig) -> Option<Seq<char>> {
    if c.dns.default_countries@.len() == 0 {
        Some("`dns.default_countries` must contain at least one entry"@)
    } else {
        match c.output.mode {
            OutputMode::File => if c.output.file is None {
                Some("`output.file` block is required when mode is `file`"@)
            } else {
                None
            },
            OutputMode::Clickhouse => if c.output.clickhouse is None {
                Some("`output.clickhouse` block is required when mode is `clickhouse`"@)
            } else {
                None
            },
            OutputMode::Both => if c.output.file is None || c.output.clickhouse is None {
                Some(
                    "`output.file` and `output.clickhouse` blocks are required when mode is `both`"@,
                )
            } else {
                None
            },
        }
    }
}

/// The configuration passes every check.
pub open spec fn config_is_valid(c: AppConfig) -> bool {
    config_problem(c) is None
}

/// The outcome of checking a configuration: `Ok` when it is valid, else a
/// configuration error carrying the message of the first problem.
pub open spec fn validation_outcome(c: AppConfig, r: Result<(), DneyesError>) -> bool {
    match config_problem(c) {
        None => r is Ok,
        Some(m) => r matches Err(DneyesError::Config(e)) && e@ == m,
    }
}

/// A configuration names at least one default country, and holds a file
/// block whenever its mode writes files (`file`, `both`) and a ClickHouse
/// block whenever its mode writes to ClickHouse (`clickhouse`, `both`).
/// Blocks that the mode does not write to may be present or absent.
pub open spec fn blocks_present_for_mode(c: AppConfig) -> bool {
    &&& c.dns.default_countries@.len() > 0
    &&& c.output.mode != OutputMode::Clickhouse ==> c.output.file is Some
    &&& c.output.mode != OutputMode::File ==> c.output.clickhouse is Some
}

/// A configuration is valid exactly when it names a default country and holds
/// the output blocks its mode writes to.
pub proof fn lemma_valid_iff_blocks_present(c: AppConfig)
    ensures
        config_is_valid(c) <==> blocks_present_for_mode(c),
{
}

/// Adding output blocks never makes a valid configuration invalid: a
/// configuration with the same countries and mode that holds at least the
/// blocks of a valid one is valid too.
pub proof fn lemma_extra_blocks_keep_valid(c: AppConfig, d: AppConfig)
    requires
        config_is_valid(c),
        d.dns.default_countries@.len() == c.dns.default_countries@.len(),
        d.output.mode == c.output.mode,
        c.output.file is Some ==> d.output.file is Some,
        c.output.clickhouse is Some ==> d.output.clickhouse is Some,
    ensures
        config_is_valid(d),
{
}

/// In mode `file`, a configuration with a default country and a file block is
/// valid, whatever other blocks it holds.
pub proof fn lemma_file_mode_needs_only_file_block(c: AppConfig)
    requires
        c.dns.default_countries@.len() > 0,
        c.output.mode == OutputMode::File,
        c.output.file is Some,
    ensures
        config_is_valid(c),
{
}

impl AppConfig {
    /// Accepts a configuration as the loader produced it: a failure of the
    /// loader (reading the file, or deserialising it) becomes a loader error
    /// with its text; a configuration that was read is checked and returned
    /// when valid.
    pub fn load(loaded: Result<AppConfig, String>) -> (r: Result<AppConfig, DneyesError>)
        ensures
            match loaded {
                Err(m) => r == Err::<AppConfig, DneyesError>(DneyesError::ConfigLoader(m)),
                Ok(c) => match config_problem(c) {
                    None => r == Ok::<AppConfig, DneyesError>(c),
                    Some(m) => r matches Err(DneyesError::Config(e)) && e@ == m,
                },
            },
    {
        match loaded {
            Err(m) => Err(DneyesError::ConfigLoader(m)),
            Ok(c) => {
                match c.validate() {
                    Ok(()) => Ok(c),
                    Err(e) => Err(e),
                }
            },
        }
    }

    /// Checks the configuration: at least one default country, and the output
    /// blocks that the output mode writes to.
    pub fn validate(&self) -> (r: Result<(), DneyesError>)
        ensures
            validation_outcome(*self, r),
            r is Ok <==> blocks_present_for_mode(*self),
    {
        if self.dns.default_countries.len() == 0 {
            return Err(
                DneyesError::Config(
                    "`dns.default_countries` must contain at least one entry".to_owned(),
                ),
            );
        }
        match self.output.mode {
            OutputMode::File => {
                if self.output.file.is_none() {
                    return Err(
                        DneyesError::Config(
                            "`output.file` block is required when mode is `file`".to_owned(),
                        ),
                    );
                }
            },
            OutputMode::Clickhouse => {
                if self.output.clickhouse.is_none() {
                    return Err(
                        DneyesError::Config(
                            "`output.clickhouse` block is required when mode is `clickhouse`".to_owned(),
                        ),
                    );
                }
            },
            OutputMode::Both => {
                if self.output.file.is_none() || self.output.clickhouse.is_none() {
                    return Err(
                        DneyesError::Config(
                            "`output.file` and `output.clickhouse` blocks are required when mode is `both`".to_owned(),
                        ),
                    );
                }
            },
        }
        Ok(())
    }
}

} // verus!

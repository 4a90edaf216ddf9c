use std::collections::HashMap;

use dneyes::cli::{default_config_path, Command};
use dneyes::commands::api::api_clickhouse_config;
use dneyes::config::{
    default_api_host, default_api_port, default_clickhouse_schema_creation,
    default_clickhouse_timeout, default_clickhouse_user, default_countries,
    default_dns_concurrency, default_dns_table, default_dns_timeout, default_export_directory,
    default_http_table, default_page_size, ApiConfig, AppConfig, ClickhouseConfig, CorsConfig,
    DnsConfig, FileOutputConfig, OutputConfig, OutputMode,
};
use dneyes::errors::DneyesError;

fn clickhouse() -> ClickhouseConfig {
    ClickhouseConfig {
        url: "http://localhost:8123".to_string(),
        database: "dneyes".to_string(),
        username: default_clickhouse_user(),
        password: String::new(),
        dns_table: default_dns_table(),
        http_table: default_http_table(),
        ensure_schema: default_clickhouse_schema_creation(),
        timeout_secs: default_clickhouse_timeout(),
    }
}

fn app(countries: Vec<String>, mode: OutputMode, file: bool, ch: bool) -> AppConfig {
    AppConfig {
        dns: DnsConfig {
            server_list_url: "https://public-dns.info/nameserver".to_string(),
            country_list: HashMap::new(),
            default_countries: countries,
            timeout_secs: default_dns_timeout(),
            concurrency: default_dns_concurrency(),
        },
        output: OutputConfig {
            mode,
            file: if file {
                Some(FileOutputConfig { directory: default_export_directory() })
            } else {
                None
            },
            clickhouse: if ch { Some(clickhouse()) } else { None },
        },
        api: ApiConfig {
            host: default_api_host(),
            port: default_api_port(),
            page_size: default_page_size(),
            cors: CorsConfig::default(),
        },
    }
}

fn config_message(r: Result<(), DneyesError>) -> String {
    match r {
        Err(DneyesError::Config(m)) => m,
        other => panic!("expected a configuration error, got {:?}", other),
    }
}

#[test]
fn defaults_are_the_documented_ones() {
    assert_eq!(default_countries(), vec!["de".to_string()]);
    assert_eq!(default_dns_timeout(), 5);
    assert_eq!(default_dns_concurrency(), 64);
    assert_eq!(OutputConfig::default_mode(), OutputMode::File);
    assert_eq!(default_export_directory(), "export");
    assert_eq!(default_clickhouse_user(), "default");
    assert_eq!(default_dns_table(), "dns_resolutions");
    assert_eq!(default_http_table(), "http_availability");
    assert!(default_clickhouse_schema_creation());
    assert_eq!(default_clickhouse_timeout(), 10);
    assert_eq!(default_api_host(), "0.0.0.0");
    assert_eq!(default_api_port(), 8080);
    assert_eq!(default_page_size(), 100);
    assert!(CorsConfig::default().allow_origins.is_empty());
    assert_eq!(default_config_path(), "config.yaml");
}

#[test]
fn valid_configurations_pass() {
    assert!(app(default_countries(), OutputMode::File, true, false).validate().is_ok());
    assert!(app(default_countries(), OutputMode::Clickhouse, false, true).validate().is_ok());
    assert!(app(default_countries(), OutputMode::Both, true, true).validate().is_ok());
}

#[test]
fn empty_country_list_is_refused_first() {
    let m = config_message(app(vec![], OutputMode::Both, false, false).validate());
    assert_eq!(m, "`dns.default_countries` must contain at least one entry");
}

#[test]
fn each_mode_requires_its_blocks() {
    let m = config_message(app(default_countries(), OutputMode::File, false, true).validate());
    assert_eq!(m, "`output.file` block is required when mode is `file`");
    let m = config_message(app(default_countries(), OutputMode::Clickhouse, true, false).validate());
    assert_eq!(m, "`output.clickhouse` block is required when mode is `clickhouse`");
    let m = config_message(app(default_countries(), OutputMode::Both, true, false).validate());
    assert_eq!(
        m,
        "`output.file` and `output.clickhouse` blocks are required when mode is `both`"
    );
    let m = config_message(app(default_countries(), OutputMode::Both, false, true).validate());
    assert_eq!(
        m,
        "`output.file` and `output.clickhouse` blocks are required when mode is `both`"
    );
}

#[test]
fn load_reports_loader_failures_and_checks_the_rest() {
    match AppConfig::load(Err("configuration file \"x.yaml\" not found".to_string())) {
        Err(DneyesError::ConfigLoader(m)) => assert_eq!(m, "configuration file \"x.yaml\" not found"),
        _ => panic!("expected a loader error"),
    }
    match AppConfig::load(Ok(app(vec![], OutputMode::File, true, false))) {
        Err(DneyesError::Config(m)) => {
            assert_eq!(m, "`dns.default_countries` must contain at least one entry")
        }
        _ => panic!("expected a configuration error"),
    }
    let loaded = AppConfig::load(Ok(app(default_countries(), OutputMode::File, true, false)));
    let cfg = loaded.ok().unwrap();
    assert_eq!(cfg.dns.default_countries, vec!["de".to_string()]);
    assert_eq!(cfg.output.mode, OutputMode::File);
}

#[test]
fn api_mode_needs_clickhouse() {
    let with = app(default_countries(), OutputMode::Clickhouse, false, true);
    let c = api_clickhouse_config(&with).ok().unwrap();
    assert_eq!(c.database, "dneyes");
    let without = app(default_countries(), OutputMode::File, true, false);
    match api_clickhouse_config(&without) {
        Err(e) => assert_eq!(
            e,
            DneyesError::Config("ClickHouse configuration is required to run the API server".to_string())
        ),
        Ok(_) => panic!("expected a configuration error"),
    }
}

#[test]
fn error_texts() {
    assert_eq!(DneyesError::Dns("boom".to_string()).to_text(), "dns error: boom");
    assert_eq!(DneyesError::Config("x".to_string()).to_text(), "configuration error: x");
    assert_eq!(DneyesError::ConfigLoader("y".to_string()).to_text(), "configuration error: y");
    assert_eq!(DneyesError::Io("z".to_string()).to_text(), "i/o error: z");
    assert_eq!(DneyesError::Http("h".to_string()).to_text(), "http error: h");
    assert_eq!(
        DneyesError::Serialization("s".to_string()).to_text(),
        "serialization error: s"
    );
    assert_eq!(DneyesError::Clickhouse("c".to_string()).to_text(), "clickhouse error: c");
}

#[test]
fn commands_are_distinct() {
    assert_ne!(Command::Dns, Command::Http);
    assert_ne!(Command::Http, Command::Api);
}

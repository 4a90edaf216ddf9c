use dneyes::commands::api::{
    bind_address, check_timestamp, cors_policy, dns_query_request, health_body,
    parse_status_filter, parse_timestamp, AllowedOrigins, ApiError, DnsQueryParams,
};
use dneyes::commands::http::site_url;
use dneyes::config::{
    ApiConfig, ClickhouseConfig, CorsConfig, FileOutputConfig, OutputConfig, OutputMode,
};
use dneyes::errors::DneyesError;
use dneyes::http::http_site_status::{availability_event, HttpResponseInfo};
use dneyes::telemetry::clickhouse::{dns_query_statement, DnsQueryFilter, QueryParam, SchemaTarget};
use dneyes::telemetry::sink::{
    export_file_name_at, export_file_name_from_stamp, ndjson_record, next_in_turn, plan_sinks,
    Backend,
};
use dneyes::utils::file_utils::{status_file_name, StatusFileType};
use dneyes::utils::ip_addr::IpAddress;
use dneyes::utils::time_utils::{TimeSpan, Timestamp};

fn ch(ensure: bool) -> ClickhouseConfig {
    ClickhouseConfig {
        url: "http://localhost:8123".into(),
        database: "dneyes".into(),
        username: "default".into(),
        password: String::new(),
        dns_table: "dns_resolutions".into(),
        http_table: "http_availability".into(),
        ensure_schema: ensure,
        timeout_secs: 10,
    }
}

const SELECT: &str = "SELECT fqdn, dns_server_ip, dns_server_name, dns_server_country, resolved_ip, success, duration_ms, finished_at, error FROM dns_resolutions";

#[test]
fn query_without_filters() {
    let q = dns_query_statement("dns_resolutions", &DnsQueryFilter::default(), 100);
    assert_eq!(q.sql, format!("{SELECT} ORDER BY finished_at DESC LIMIT ?"));
    assert_eq!(q.params, vec![QueryParam::Count(100)]);
}

#[test]
fn query_with_every_filter() {
    let from = Timestamp { secs: 10, nanos: 0 };
    let to = Timestamp { secs: 20, nanos: 0 };
    let f = DnsQueryFilter {
        domain: Some("example.com".into()),
        country: Some("de".into()),
        success: Some(false),
        from: Some(from),
        to: Some(to),
    };
    let q = dns_query_statement("dns_resolutions", &f, 7);
    assert_eq!(
        q.sql,
        format!("{SELECT} WHERE fqdn = ? AND dns_server_country = ? AND success = ? AND finished_at > ? AND finished_at < ? ORDER BY finished_at DESC LIMIT ?")
    );
    assert_eq!(
        q.params,
        vec![
            QueryParam::Text("example.com".into()),
            QueryParam::Text("de".into()),
            QueryParam::Flag(false),
            QueryParam::Instant(from),
            QueryParam::Instant(to),
            QueryParam::Count(7),
        ]
    );
    assert_eq!(q.sql.matches('?').count(), q.params.len());
}

#[test]
fn query_with_some_filters() {
    let f = DnsQueryFilter { country: Some("fr".into()), success: Some(true), ..DnsQueryFilter::default() };
    let q = dns_query_statement("t", &f, 1);
    assert_eq!(
        q.sql,
        "SELECT fqdn, dns_server_ip, dns_server_name, dns_server_country, resolved_ip, success, duration_ms, finished_at, error FROM t WHERE dns_server_country = ? AND success = ? ORDER BY finished_at DESC LIMIT ?"
    );
    assert_eq!(q.params.len(), 3);
    assert_eq!(q.sql.matches('?').count(), q.params.len());
}

#[test]
fn schema_statements() {
    assert!(ch(false).schema_plan().is_empty());
    let steps = ch(true).schema_plan();
    assert_eq!(steps.len(), 3);
    assert_eq!(steps[0].target, SchemaTarget::Server);
    assert_eq!(steps[0].sql, "CREATE DATABASE IF NOT EXISTS dneyes");
    assert_eq!(steps[1].target, SchemaTarget::Database);
    assert!(steps[1].sql.starts_with("CREATE TABLE IF NOT EXISTS dns_resolutions (\n                    fqdn String,"));
    assert!(steps[1].sql.ends_with("ENGINE = MergeTree()\n                ORDER BY (fqdn, finished_at)"));
    assert_eq!(steps[2].target, SchemaTarget::Database);
    assert!(steps[2].sql.starts_with("CREATE TABLE IF NOT EXISTS http_availability (\n                    base_url String,"));
    assert!(steps[2].sql.contains("status_code UInt16,"));
    assert!(steps[2].sql.ends_with("ORDER BY (base_url, finished_at)"));
}

#[test]
fn backends_files_first_then_clickhouse() {
    let both = OutputConfig {
        mode: OutputMode::Both,
        file: Some(FileOutputConfig { directory: "out".into() }),
        clickhouse: Some(ch(true)),
    };
    let backends = plan_sinks(&both).backends();
    assert_eq!(backends.len(), 2);
    assert!(matches!(&backends[0], Backend::Files(d) if d == "out"));
    assert!(matches!(&backends[1], Backend::Clickhouse(c) if c.database == "dneyes"));
    let none = OutputConfig { mode: OutputMode::File, file: None, clickhouse: Some(ch(true)) };
    assert!(plan_sinks(&none).backends().is_empty());
}

#[test]
fn sink_plans_follow_mode_and_blocks() {
    let file = || Some(FileOutputConfig { directory: "out".into() });
    let both = OutputConfig { mode: OutputMode::Both, file: file(), clickhouse: Some(ch(true)) };
    let p = plan_sinks(&both);
    assert_eq!(p.file_directory, Some("out".to_string()));
    assert!(p.clickhouse.is_some());
    assert_eq!(p.backend_count(), 2);
    assert!(p.needs_fan_out());
    let only_file = OutputConfig { mode: OutputMode::File, file: file(), clickhouse: Some(ch(true)) };
    let p = plan_sinks(&only_file);
    assert_eq!(p.file_directory, Some("out".to_string()));
    assert!(p.clickhouse.is_none());
    assert!(!p.needs_fan_out());
    let only_ch = OutputConfig { mode: OutputMode::Clickhouse, file: file(), clickhouse: Some(ch(false)) };
    let p = plan_sinks(&only_ch);
    assert!(p.file_directory.is_none());
    assert_eq!(p.clickhouse.unwrap().database, "dneyes");
    let none = OutputConfig { mode: OutputMode::Both, file: None, clickhouse: None };
    let p = plan_sinks(&none);
    assert_eq!(p.backend_count(), 0);
    assert!(p.needs_fan_out());
}

#[test]
fn export_and_status_file_names() {
    assert_eq!(export_file_name_from_stamp("dns", "20240523100000"), "dneyes_dns_20240523100000.ndjson");
    let t = Timestamp { secs: 1716458400, nanos: 0 };
    assert_eq!(export_file_name_at("http", t).unwrap(), "dneyes_http_20240523100000.ndjson");
    assert!(export_file_name_at("http", Timestamp { secs: i64::MAX, nanos: 0 }).is_none());
    assert_eq!(StatusFileType::DNS.to_text(), "dns");
    assert_eq!(StatusFileType::HTTP.to_text(), "http");
    assert_eq!(status_file_name(StatusFileType::DNS, 1700000000), "export/dneyes_status_dns_1700000000.ndjson");
    assert_eq!(status_file_name(StatusFileType::HTTP, -5), "export/dneyes_status_http_-5.ndjson");
    assert_eq!(status_file_name(StatusFileType::HTTP, i64::MIN), format!("export/dneyes_status_http_{}.ndjson", i64::MIN));
    assert_eq!(ndjson_record(b"{\"a\":1}".to_vec()), b"{\"a\":1}\n".to_vec());
}

#[test]
fn status_filter_values() {
    assert_eq!(parse_status_filter(None), Ok(None));
    assert_eq!(parse_status_filter(Some("success".into())), Ok(Some(true)));
    assert_eq!(parse_status_filter(Some("failure".into())), Ok(Some(false)));
    assert_eq!(
        parse_status_filter(Some("ok".into())),
        Err(ApiError::BadRequest("Invalid status filter: ok. Use 'success' or 'failure'.".into()))
    );
}

#[test]
fn timestamp_parameters() {
    assert_eq!(parse_timestamp(None), Ok(None));
    assert_eq!(
        parse_timestamp(Some("2024-05-23T10:00:00Z".into())),
        Ok(Some(Timestamp { secs: 1716458400, nanos: 0 }))
    );
    assert_eq!(
        parse_timestamp(Some("2024-05-23".into())),
        Err(ApiError::BadRequest(
            "Invalid timestamp: 2024-05-23. Use RFC3339 format (e.g. 2024-05-23T10:00:00Z).".into()
        ))
    );
    assert_eq!(check_timestamp("x".into(), Some(Timestamp { secs: 1, nanos: 2 })), Ok(Timestamp { secs: 1, nanos: 2 }));
}

#[test]
fn dns_history_request() {
    let params = DnsQueryParams {
        domain: Some("example.com".into()),
        country: None,
        status: Some("success".into()),
        from: Some("2024-05-23T10:00:00Z".into()),
        to: None,
        limit: None,
    };
    let (f, limit) = dns_query_request(params, 100).ok().unwrap();
    assert_eq!(limit, 100);
    assert_eq!(f.domain, Some("example.com".to_string()));
    assert_eq!(f.success, Some(true));
    assert_eq!(f.from, Some(Timestamp { secs: 1716458400, nanos: 0 }));
    assert_eq!(f.to, None);
    let bad = DnsQueryParams {
        domain: None,
        country: None,
        status: Some("maybe".into()),
        from: Some("not a time".into()),
        to: None,
        limit: Some(5),
    };
    match dns_query_request(bad, 100) {
        Err(ApiError::BadRequest(m)) => assert_eq!(m, "Invalid status filter: maybe. Use 'success' or 'failure'."),
        _ => panic!("expected a bad request"),
    }
    let bad_to = DnsQueryParams { domain: None, country: None, status: None, from: None, to: Some("soon".into()), limit: Some(5) };
    match dns_query_request(bad_to, 100) {
        Err(ApiError::BadRequest(m)) => assert!(m.starts_with("Invalid timestamp: soon.")),
        _ => panic!("expected a bad request"),
    }
}

#[test]
fn api_error_answers() {
    assert_eq!(ApiError::BadRequest("nope".into()).response_parts(), (400, "nope".to_string()));
    let internal = ApiError::from_error(DneyesError::Clickhouse("secret detail".into()));
    assert_eq!(internal.response_parts(), (500, "Internal server error".to_string()));
    assert_eq!(health_body(), "ok");
}

#[test]
fn cors_origins() {
    let p = cors_policy(&vec![]);
    assert!(matches!(p.origins, AllowedOrigins::AnyOrigin));
    assert_eq!(p.methods, vec!["GET".to_string()]);
    assert_eq!(p.headers, vec!["content-type".to_string()]);
    let p = cors_policy(&vec!["http://localhost:5173".into(), "bad\u{7f}".into(), "tab\tok".into(), "nl\n".into()]);
    match p.origins {
        AllowedOrigins::Origins(v) => assert_eq!(v, vec!["http://localhost:5173".to_string(), "tab\tok".to_string()]),
        AllowedOrigins::AnyOrigin => panic!("expected listed origins"),
    }
    assert_eq!(p.methods, vec!["GET".to_string()]);
    assert_eq!(p.headers, vec!["content-type".to_string()]);
    match cors_policy(&vec!["\u{1}".into()]).origins {
        AllowedOrigins::Origins(v) => assert!(v.is_empty()),
        AllowedOrigins::AnyOrigin => panic!("expected listed origins"),
    }
}

#[test]
fn api_bind_address() {
    let api = ApiConfig { host: "127.0.0.1".into(), port: 8080, page_size: 100, cors: CorsConfig::default() };
    assert_eq!(bind_address(&api), "127.0.0.1:8080");
    let api = ApiConfig { host: "::".into(), port: 0, page_size: 1, cors: CorsConfig::default() };
    assert_eq!(bind_address(&api), ":::0");
}

#[test]
fn http_checks() {
    assert_eq!(site_url("example.com"), "https://example.com");
    let d = TimeSpan::microseconds(250_900);
    let ok = availability_event(
        "https://example.com".into(),
        Ok(HttpResponseInfo { remote_ip: Some(IpAddress::V4([93, 184, 216, 34])), status_code: 200 }),
        &d,
        Timestamp { secs: 3, nanos: 0 },
    );
    assert_eq!(ok.ip, Some("93.184.216.34".to_string()));
    assert_eq!(ok.status_code, 200);
    assert_eq!(ok.duration_ms, 250);
    assert_eq!(ok.error, None);
    let failed = availability_event("https://down.test".into(), Err("connection refused".into()), &d, Timestamp { secs: 4, nanos: 0 });
    assert_eq!(failed.ip, None);
    assert_eq!(failed.status_code, 0);
    assert_eq!(failed.error, Some("connection refused".to_string()));
    assert_eq!(failed.base_url, "https://down.test");
}

#[test]
fn fan_out_stops_at_first_failure() {
    assert_eq!(next_in_turn(2, 0, true), Some(0));
    assert_eq!(next_in_turn(2, 1, true), Some(1));
    assert_eq!(next_in_turn(2, 2, true), None);
    assert_eq!(next_in_turn(2, 1, false), None);
    assert_eq!(next_in_turn(0, 0, true), None);
}

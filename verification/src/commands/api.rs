//! The REST API: reading query parameters, answering errors, cross origin
//! policy and the address to listen on.

use vstd::prelude::*;
use vstd::utf8::encode_utf8;
use crate::config::{ApiConfig, AppConfig, ClickhouseConfig};
use crate::errors::{concat_str, DneyesError};
use crate::telemetry::clickhouse::DnsQueryFilter;
use crate::utils::text::{decimal_text, push_radix, string_views};
use crate::utils::time_utils::{instant_from_parts, rfc3339_instant, Timestamp};

verus! {

/// Query parameters of `GET /api/v1/dns/resolutions`.
pub struct DnsQueryParams {
    /// Fully qualified domain name to filter for.
    pub domain: Option<String>,
    /// Resolver country code to filter for.
    pub country: Option<String>,
    /// Filter by success state (`success` or `failure`).
    pub status: Option<String>,
    /// Start of the time range in RFC3339 format.
    pub from: Option<String>,
    /// End of the time range in RFC3339 format.
    pub to: Option<String>,
    /// Maximum number of entries to return.
    pub limit: Option<usize>,
}

/// An API failure: a bad request, answered with its message, or an internal
/// error, whose details stay on the server.
#[derive(Debug, PartialEq, Eq)]
pub enum ApiError {
    BadRequest(String),
    Internal(DneyesError),
}

impl ApiError {
    /// An internal failure.
    pub fn from_error(e: DneyesError) -> (r: ApiError)
        ensures
            r == ApiError::Internal(e),
    {
        ApiError::Internal(e)
    }

    /// Status code and body of the answer: 400 and the message for a bad
    /// request; 500 and `Internal server error` for an internal failure.
    pub fn response_parts(&self) -> (r: (u16, String))
        ensures
            match *self {
                ApiError::BadRequest(m) => r.0 == 400 && r.1@ == m@,
                ApiError::Internal(_) => r.0 == 500 && r.1@ == "Internal server error"@,
            },
    {
        match self {
            ApiError::BadRequest(m) => (400, m.clone()),
            ApiError::Internal(_) => (500, "Internal server error".to_owned()),
        }
    }
}

/// `r` is a bad request with message `m`.
pub open spec fn is_bad_request<T>(r: Result<T, ApiError>, m: Seq<char>) -> bool {
    r matches Err(ApiError::BadRequest(e)) && e@ == m
}

/// The message for a status filter that is neither `success` nor `failure`.
pub open spec fn status_filter_message(given: Seq<char>) -> Seq<char> {
    "Invalid status filter: "@ + given + ". Use 'success' or 'failure'."@
}

/// The success filter a status parameter asks for: none without the
/// parameter, successes for `success`, failures for `failure`, and a bad
/// request for anything else.
pub open spec fn status_filter_outcome(status: Option<String>, r: Result<Option<bool>, ApiError>) -> bool {
    match status {
        None => r == Ok::<Option<bool>, ApiError>(None),
        Some(s) => if s@ == "success"@ {
            r == Ok::<Option<bool>, ApiError>(Some(true))
        } else if s@ == "failure"@ {
            r == Ok::<Option<bool>, ApiError>(Some(false))
        } else {
            is_bad_request(r, status_filter_message(s@))
        },
    }
}

/// Reads the status parameter.
pub fn parse_status_filter(status: Option<String>) -> (r: Result<Option<bool>, ApiError>)
    ensures
        status_filter_outcome(status, r),
{
    match status {
        None => Ok(None),
        Some(s) => {
            if s == "success".to_owned() {
                Ok(Some(true))
            } else if s == "failure".to_owned() {
                Ok(Some(false))
            } else {
                let mut m = concat_str("Invalid status filter: ", s.as_str());
                m.append(". Use 'success' or 'failure'.");
                Err(ApiError::BadRequest(m))
            }
        },
    }
}

/// The message for a time bound that is not RFC 3339.
pub open spec fn timestamp_message(given: Seq<char>) -> Seq<char> {
    "Invalid timestamp: "@ + given + ". Use RFC3339 format (e.g. 2024-05-23T10:00:00Z)."@
}

/// A time bound as given and what the RFC 3339 reader made of it: the instant,
/// or a bad request when the text was refused.
pub fn check_timestamp(value: String, parsed: Option<Timestamp>) -> (r: Result<Timestamp, ApiError>)
    ensures
        match parsed {
            Some(t) => r == Ok::<Timestamp, ApiError>(t),
            None => is_bad_request(r, timestamp_message(value@)),
        },
{
    match parsed {
        Some(t) => Ok(t),
        None => {
            let mut m = concat_str("Invalid timestamp: ", value.as_str());
            m.append(". Use RFC3339 format (e.g. 2024-05-23T10:00:00Z).");
            Err(ApiError::BadRequest(m))
        },
    }
}

/// The time bound a parameter asks for: none without the parameter, the
/// instant chrono reads from an RFC 3339 text, or a bad request when chrono
/// refuses it.
pub open spec fn timestamp_outcome(ts: Option<String>, r: Result<Option<Timestamp>, ApiError>) -> bool {
    match ts {
        None => r == Ok::<Option<Timestamp>, ApiError>(None),
        Some(v) => match instant_from_parts(rfc3339_instant(v@)) {
            Some(t) => r == Ok::<Option<Timestamp>, ApiError>(Some(t)),
            None => is_bad_request(r, timestamp_message(v@)),
        },
    }
}

/// Reads a time bound parameter.
pub fn parse_timestamp(ts: Option<String>) -> (r: Result<Option<Timestamp>, ApiError>)
    ensures
        timestamp_outcome(ts, r),
{
    match ts {
        None => Ok(None),
        Some(value) => {
            let parsed = Timestamp::parse_rfc3339(value.as_str());
            match check_timestamp(value, parsed) {
                Ok(t) => Ok(Some(t)),
                Err(e) => Err(e),
            }
        },
    }
}

/// The text of a parameter that was given (empty when it was not).
pub open spec fn given_text(p: Option<String>) -> Seq<char> {
    match p {
        Some(s) => s@,
        None => seq![],
    }
}

/// A status parameter was given and is neither `success` nor `failure`.
pub open spec fn status_refused(p: Option<String>) -> bool {
    match p {
        Some(s) => s@ != "success"@ && s@ != "failure"@,
        None => false,
    }
}

/// A time bound parameter was given and chrono refuses it as RFC 3339.
pub open spec fn timestamp_refused(p: Option<String>) -> bool {
    match p {
        Some(v) => rfc3339_instant(v@) is None,
        None => false,
    }
}

/// What a request for DNS history asks for: the filter and the number of rows
/// (the page size when no limit is given); or the first bad parameter, checked
/// in the order status, from, to.
pub open spec fn dns_query_request_outcome(
    params: DnsQueryParams,
    page_size: usize,
    r: Result<(DnsQueryFilter, usize), ApiError>,
) -> bool {
    let limit = match params.limit {
        Some(l) => l,
        None => page_size,
    };
    if status_refused(params.status) {
        is_bad_request(r, status_filter_message(given_text(params.status)))
    } else if timestamp_refused(params.from) {
        is_bad_request(r, timestamp_message(given_text(params.from)))
    } else if timestamp_refused(params.to) {
        is_bad_request(r, timestamp_message(given_text(params.to)))
    } else {
        r matches Ok((f, l)) && {
            &&& l == limit
            &&& f.domain == params.domain
            &&& f.country == params.country
            &&& status_filter_outcome(params.status, Ok(f.success))
            &&& timestamp_outcome(params.from, Ok(f.from))
            &&& timestamp_outcome(params.to, Ok(f.to))
        }
    }
}

/// The number of rows a request for DNS history asks for is its limit
/// parameter when one is given; the page size only stands in for a missing
/// limit.
pub proof fn lemma_dns_request_limit(
    params: DnsQueryParams,
    page_size: usize,
    r: Result<(DnsQueryFilter, usize), ApiError>,
)
    requires
        dns_query_request_outcome(params, page_size, r),
    ensures
        r matches Ok((_, l)) ==> l == params.limit.unwrap_or(page_size),
        params.limit matches Some(given) ==> (r matches Ok((_, l)) ==> l == given),
        params.limit is None ==> (r matches Ok((_, l)) ==> l == page_size),
{
}

/// Reads the parameters of a request for DNS history.
pub fn dns_query_request(params: DnsQueryParams, page_size: usize) -> (r: Result<
    (DnsQueryFilter, usize),
    ApiError,
>)
    ensures
        dns_query_request_outcome(params, page_size, r),
        r matches Ok((_, l)) ==> l == params.limit.unwrap_or(page_size),
        r matches Ok((f, _)) ==> f.domain == params.domain && f.country == params.country,
        r matches Ok((f, _)) ==> (f.success is None <==> params.status is None),
        r matches Ok((f, _)) ==> (f.from is None <==> params.from is None) && (f.to is None
            <==> params.to is None),
{
    let limit = match params.limit {
        Some(l) => l,
        None => page_size,
    };
    let success = match parse_status_filter(params.status) {
        Ok(s) => s,
        Err(e) => return Err(e),
    };
    let from = match parse_timestamp(params.from) {
        Ok(t) => t,
        Err(e) => return Err(e),
    };
    let to = match parse_timestamp(params.to) {
        Ok(t) => t,
        Err(e) => return Err(e),
    };
    Ok((DnsQueryFilter { domain: params.domain, country: params.country, success, from, to }, limit))
}

/// A byte may stand in an HTTP header value: a horizontal tab, or any byte
/// from space upwards except DEL (bytes of 128 and above included).
pub open spec fn header_value_byte(b: u8) -> bool {
    (b >= 32 && b != 127) || b == 9
}

/// Every byte of the UTF-8 form of the text may stand in a header value.
pub open spec fn valid_header_text(t: Seq<char>) -> bool {
    forall|i: int| 0 <= i < encode_utf8(t).len() ==> header_value_byte(#[trigger] encode_utf8(t)[i])
}

/// Calls `http::HeaderValue::from_str` (through axum) and tells whether it
/// accepted the text.  As the `http` source shows, it accepts exactly the
/// texts whose every byte is a tab or at least a space and not DEL.
#[verifier::external_body]
fn is_header_value(text: &str) -> (r: bool)
    ensures
        r == valid_header_text(text@),
{
    axum::http::HeaderValue::from_str(text).is_ok()
}

/// Which browser origins the API lets read its answers.
pub enum AllowedOrigins {
    /// Every origin.
    AnyOrigin,
    /// Only the listed origins.
    Origins(Vec<String>),
}

/// The cross origin policy of the API: the origins allowed, and the request
/// methods and request headers allowed to them.
pub struct CorsPolicy {
    /// Origins allowed.
    pub origins: AllowedOrigins,
    /// Request methods allowed.
    pub methods: Vec<String>,
    /// Request headers allowed (lower-case header names).
    pub headers: Vec<String>,
}

/// The origins allowed for the configured origins: every origin when none
/// are configured, else the configured origins that are valid header values,
/// in order (the others are dropped; when none is valid, no origin is).
pub open spec fn allowed_origins_of(origins: Seq<String>, r: AllowedOrigins) -> bool {
    if origins.len() == 0 {
        r is AnyOrigin
    } else {
        r matches AllowedOrigins::Origins(v) && string_views(v@) == string_views(origins).filter(
            |o: Seq<char>| valid_header_text(o),
        )
    }
}

/// The cross origin policy for the configured origins: the allowed origins
/// as above, and in every case exactly the method `GET` and exactly the
/// request header `content-type`.
pub open spec fn cors_policy_of(origins: Seq<String>, r: CorsPolicy) -> bool {
    &&& allowed_origins_of(origins, r.origins)
    &&& string_views(r.methods@) == seq!["GET"@]
    &&& string_views(r.headers@) == seq!["content-type"@]
}

fn allowed_origins(origins: &Vec<String>) -> (r: AllowedOrigins)
    ensures
        allowed_origins_of(origins@, r),
{
    if origins.len() == 0 {
        return AllowedOrigins::AnyOrigin;
    }
    let ghost pred = |o: Seq<char>| valid_header_text(o);
    let mut allowed: Vec<String> = Vec::new();
    let n = origins.len();
    let mut i: usize = 0;
    while i < n
        invariant
            n == origins@.len(),
            0 <= i <= n,
            pred == (|o: Seq<char>| valid_header_text(o)),
            string_views(allowed@) == string_views(origins@).take(i as int).filter(pred),
        decreases n - i,
    {
        reveal_with_fuel(Seq::<_>::filter, 1);
        let ghost before = string_views(allowed@);
        if is_header_value(origins[i].as_str()) {
            allowed.push(origins[i].clone());
            assert(string_views(allowed@) =~= before.push(origins@[i as int]@));
        } else {
            assert(string_views(allowed@) =~= before);
        }
        assert(string_views(origins@).take(i + 1).drop_last() =~= string_views(origins@).take(
            i as int,
        ));
        i = i + 1;
    }
    assert(string_views(origins@).take(n as int) =~= string_views(origins@));
    AllowedOrigins::Origins(allowed)
}

/// Decides the cross origin policy for the configured origins.
pub fn cors_policy(origins: &Vec<String>) -> (r: CorsPolicy)
    ensures
        cors_policy_of(origins@, r),
{
    let allowed = allowed_origins(origins);
    let methods = vec!["GET".to_owned()];
    let headers = vec!["content-type".to_owned()];
    assert(string_views(methods@) =~= seq!["GET"@]);
    assert(string_views(headers@) =~= seq!["content-type"@]);
    CorsPolicy { origins: allowed, methods, headers }
}

/// The address the API server listens on: host, a colon and the port.
pub fn bind_address(api: &ApiConfig) -> (r: String)
    ensures
        r@ == api.host@ + ":"@ + decimal_text(api.port as nat),
{
    let mut addr = concat_str(api.host.as_str(), ":");
    push_radix(&mut addr, api.port as u64, 10);
    addr
}

/// The ClickHouse settings the API server needs; a configuration error when
/// the configuration has none.
pub fn api_clickhouse_config(config: &AppConfig) -> (r: Result<ClickhouseConfig, DneyesError>)
    ensures
        match config.output.clickhouse {
            Some(c) => r == Ok::<ClickhouseConfig, DneyesError>(c),
            None => r matches Err(DneyesError::Config(m)) && m@
                == "ClickHouse configuration is required to run the API server"@,
        },
{
    match &config.output.clickhouse {
        Some(c) => Ok(c.clone()),
        None => Err(
            DneyesError::Config(
                "ClickHouse configuration is required to run the API server".to_owned(),
            ),
        ),
    }
}

/// The answer body of a successful health check.
pub fn health_body() -> (r: String)
    ensures
        r@ == "ok"@,
{
    "ok".to_owned()
}

} // verus!

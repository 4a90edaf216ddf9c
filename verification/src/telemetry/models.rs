//! The normalised events that the monitor stores and serves.

use vstd::prelude::*;
use crate::utils::time_utils::Timestamp;

verus! {

/// Normalised DNS resolution event used by the persistence sinks and the REST
/// API layer.
pub struct DnsResolutionEvent {
    /// Fully qualified domain name that has been resolved.
    pub fqdn: String,
    /// IP address of the DNS resolver used for this lookup.
    pub dns_server_ip: String,
    /// Human readable DNS server name when available.
    pub dns_server_name: Option<String>,
    /// ISO country identifier of the DNS server.
    pub dns_server_country: String,
    /// IP address returned by the DNS server.
    pub resolved_ip: Option<String>,
    /// Indicates whether the lookup succeeded.
    pub success: bool,
    /// How long the lookup took in milliseconds.
    pub duration_ms: i64,
    /// Timestamp when the lookup finished.
    pub finished_at: Timestamp,
    /// Optional error message in case of failures.
    pub error: Option<String>,
}

/// A lookup counts as a success when it reported no error and produced an
/// address.
pub open spec fn lookup_succeeded(error: Option<String>, resolved_ip: Option<String>) -> bool {
    error is None && resolved_ip is Some
}

impl DnsResolutionEvent {
    /// Builds an event from its parts; `success` holds exactly when there is
    /// no error and there is a resolved address.
    pub fn from_parts(
        fqdn: String,
        dns_server_ip: String,
        dns_server_name: Option<String>,
        dns_server_country: String,
        resolved_ip: Option<String>,
        duration_ms: i64,
        finished_at: Timestamp,
        error: Option<String>,
    ) -> (r: Self)
        ensures
            r == (DnsResolutionEvent {
                fqdn,
                dns_server_ip,
                dns_server_name,
                dns_server_country,
                resolved_ip,
                success: lookup_succeeded(error, resolved_ip),
                duration_ms,
                finished_at,
                error,
            }),
    {
        let success = error.is_none() && resolved_ip.is_some();
        DnsResolutionEvent {
            fqdn,
            dns_server_ip,
            dns_server_name,
            dns_server_country,
            resolved_ip,
            success,
            duration_ms,
            finished_at,
            error,
        }
    }
}

/// Normalised HTTP availability event.
pub struct HttpAvailabilityEvent {
    /// Base URL of the monitored HTTP endpoint.
    pub base_url: String,
    /// IP address that served the request (if known).
    pub ip: Option<String>,
    /// Request latency in milliseconds.
    pub duration_ms: i64,
    /// Timestamp when the check completed.
    pub finished_at: Timestamp,
    /// HTTP status code returned by the server.
    pub status_code: u16,
    /// Optional error details.
    pub error: Option<String>,
}

} // verus!

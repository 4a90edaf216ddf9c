//! A public DNS resolver, the lookups made against it and their outcomes.

use vstd::prelude::*;
use crate::errors::DneyesError;
use crate::telemetry::models::{lookup_succeeded, DnsResolutionEvent};
use crate::utils::ip_addr::{canonical, ip_text, IpAddress};
use crate::utils::time_utils::{trunc_div, TimeSpan, Timestamp};

verus! {

/// Representation of a DNS resolver as returned from the public DNS catalogue.
pub struct DnsServer {
    /// IP address of the resolver.
    pub ip: IpAddress,
    /// Human readable name if provided by the catalogue.
    pub name: String,
    /// Autonomous system number of the resolver.
    pub as_number: u32,
    /// Organisation of the autonomous system.
    pub as_org: String,
    /// ISO country identifier of the resolver.
    pub country_id: String,
    /// City of the resolver (optional in the public dataset).
    pub city: String,
    /// Software version the catalogue reports.
    pub version: String,
    /// Last error the catalogue saw from the resolver.
    pub error: String,
    /// Whether the resolver validates DNSSEC.
    pub dnssec: bool,
    /// Reported resolver reliability, a 32-bit IEEE 754 number held as its bits.
    pub reliability_bits: u32,
    /// When the catalogue last checked the resolver.
    pub checked_at: Timestamp,
    /// When the catalogue first listed the resolver.
    pub created_at: Timestamp,
}

impl Clone for DnsServer {
    fn clone(&self) -> (r: Self)
        ensures
            r == *self,
    {
        DnsServer {
            ip: self.ip,
            name: self.name.clone(),
            as_number: self.as_number,
            as_org: self.as_org.clone(),
            country_id: self.country_id.clone(),
            city: self.city.clone(),
            version: self.version.clone(),
            error: self.error.clone(),
            dnssec: self.dnssec,
            reliability_bits: self.reliability_bits,
            checked_at: self.checked_at,
            created_at: self.created_at,
        }
    }
}

/// The bits of the 32-bit IEEE 754 number one half.
pub open spec fn one_half_bits() -> u32 {
    0x3f00_0000
}

/// The name a resolver goes by in results: none when the catalogue gave it
/// an empty name.
pub open spec fn display_name(server: DnsServer) -> Option<String> {
    if server.name@.len() == 0 {
        None
    } else {
        Some(server.name)
    }
}

impl DnsServer {
    /// A resolver known only by its address: no name, country `us`,
    /// reliability one half, checked and created at the given instants.
    pub fn from_address(ip: IpAddress, checked_at: Timestamp, created_at: Timestamp) -> (r: Self)
        ensures
            r.ip == ip,
            r.name@ == ""@,
            r.as_number == 0,
            r.as_org@ == ""@,
            r.country_id@ == "us"@,
            r.city@ == ""@,
            r.version@ == ""@,
            r.error@ == ""@,
            !r.dnssec,
            r.reliability_bits == one_half_bits(),
            r.checked_at == checked_at,
            r.created_at == created_at,
    {
        DnsServer {
            ip,
            name: "".to_owned(),
            as_number: 0,
            as_org: "".to_owned(),
            country_id: "us".to_owned(),
            city: "".to_owned(),
            version: "".to_owned(),
            error: "".to_owned(),
            dnssec: false,
            reliability_bits: 0x3f00_0000,
            checked_at,
            created_at,
        }
    }

    /// The name of the resolver for results: `None` when it is empty.
    pub fn result_name(&self) -> (r: Option<String>)
        ensures
            r == display_name(*self),
    {
        if self.name.as_str().is_empty() {
            None
        } else {
            Some(self.name.clone())
        }
    }

    /// Prepares a lookup of `name` against this resolver, with `timeout`
    /// seconds (five when none is given); the name is read by the `domain`
    /// crate, and a name it refuses is a DNS error.
    pub fn prepare_lookup(&self, name: String, timeout: Option<u64>) -> (r: Result<
        LookupPlan,
        DneyesError,
    >)
        ensures
            lookup_plan_outcome(*self, name, domain_name_wire(name@), timeout, r),
    {
        let qname = parse_domain_name(name.as_str());
        plan_lookup(self, name, qname, timeout)
    }
}

/// The wire form (length-prefixed labels ending in the root label) that
/// `domain::base::Name::<Vec<u8>>::from_str` gives for a name in presentation
/// format, or the text of the error it reports.
pub uninterp spec fn domain_name_wire(text: Seq<char>) -> Result<Seq<u8>, Seq<char>>;

/// Calls `domain::base::Name::<Vec<u8>>::from_str` and hands back the octets
/// of the name or the text of the error.  The contract only names the outcome:
/// the presentation format that `domain` accepts is not restated.
#[verifier::external_body]
fn parse_domain_name(text: &str) -> (r: Result<Vec<u8>, String>)
    ensures
        match r {
            Ok(o) => domain_name_wire(text@) == Ok::<Seq<u8>, Seq<char>>(o@),
            Err(e) => domain_name_wire(text@) == Err::<Seq<u8>, Seq<char>>(e@),
        },
{
    match text.parse::<domain::base::Name<Vec<u8>>>() {
        Ok(name) => Ok(name.into_octets()),
        Err(e) => Err(e.to_string()),
    }
}

/// Everything a single lookup needs: the resolver to ask (port 53, UDP with
/// TCP fallback), the timeout, the number of attempts and the name.
pub struct LookupPlan {
    /// Address of the resolver.
    pub server: IpAddress,
    /// Port of the resolver.
    pub port: u16,
    /// Timeout of the lookup, in seconds.
    pub timeout_secs: u64,
    /// Number of attempts.
    pub attempts: u8,
    /// The name to look up, in wire form.
    pub qname: Vec<u8>,
    /// The name to look up, as given.
    pub fqdn: String,
}

/// The outcome of preparing a lookup of `fqdn` against `server`, given what
/// the name parser made of the name: a DNS error with the parser's text, or a
/// plan for port 53, one attempt, the given timeout or five seconds.
pub open spec fn lookup_plan_outcome(
    server: DnsServer,
    fqdn: String,
    qname: Result<Seq<u8>, Seq<char>>,
    timeout: Option<u64>,
    r: Result<LookupPlan, DneyesError>,
) -> bool {
    match qname {
        Err(m) => r matches Err(DneyesError::Dns(e)) && e@ == m,
        Ok(o) => r matches Ok(p) && {
            &&& p.server == server.ip
            &&& p.port == 53
            &&& p.timeout_secs == (match timeout {
                Some(t) => t,
                None => 5,
            })
            &&& p.attempts == 1
            &&& p.qname@ == o
            &&& p.fqdn == fqdn
        },
    }
}

/// The view of a parser outcome.
pub open spec fn parsed_view(q: Result<Vec<u8>, String>) -> Result<Seq<u8>, Seq<char>> {
    match q {
        Ok(o) => Ok(o@),
        Err(e) => Err(e@),
    }
}

/// Builds the lookup of `fqdn` against `server` from what the name parser made
/// of the name.
pub fn plan_lookup(
    server: &DnsServer,
    fqdn: String,
    qname: Result<Vec<u8>, String>,
    timeout: Option<u64>,
) -> (r: Result<LookupPlan, DneyesError>)
    ensures
        lookup_plan_outcome(*server, fqdn, parsed_view(qname), timeout, r),
{
    match qname {
        Err(e) => Err(DneyesError::Dns(e)),
        Ok(octets) => {
            let timeout_secs = match timeout {
                Some(t) => t,
                None => 5,
            };
            Ok(LookupPlan { server: server.ip, port: 53, timeout_secs, attempts: 1, qname: octets, fqdn })
        },
    }
}

/// DNS resolution output of one lookup.
pub struct ResolvedHost {
    /// DNS server IP that answered the query.
    pub dns_server_ip: IpAddress,
    /// Name of the DNS server.
    pub dns_server_name: Option<String>,
    /// Country of the DNS server.
    pub dns_server_country: String,
    /// Requested FQDN.
    pub fqdn: String,
    /// Resolved IP, if any.
    pub ip: Option<IpAddress>,
    /// Duration of the lookup.
    pub duration: TimeSpan,
    /// Timestamp when the lookup finished.
    pub finished_at: Timestamp,
    /// Optional error that occurred.
    pub error: Option<String>,
}

/// The address a successful lookup reports: the canonical form of the last
/// address found, or none when nothing was found.
pub open spec fn reported_address(found: Seq<IpAddress>) -> Option<IpAddress> {
    if found.len() == 0 {
        None
    } else {
        Some(canonical(found.last()))
    }
}

/// The result of a lookup against `server`: the server's address, name and
/// country; on success the reported address and no error, on failure no
/// address and the failure's text.
pub open spec fn resolved_host_of(
    fqdn: String,
    server: DnsServer,
    lookup: Result<Vec<IpAddress>, String>,
    duration: TimeSpan,
    finished_at: Timestamp,
    r: ResolvedHost,
) -> bool {
    &&& r.dns_server_ip == server.ip
    &&& r.dns_server_name == display_name(server)
    &&& r.dns_server_country == server.country_id
    &&& r.fqdn == fqdn
    &&& r.duration == duration
    &&& r.finished_at == finished_at
    &&& match lookup {
        Ok(found) => r.ip == reported_address(found@) && r.error is None,
        Err(e) => r.ip is None && r.error == Some(e),
    }
}

/// The event that stands for a lookup result: the same names, the addresses
/// as text, the duration in whole milliseconds, and success exactly when there
/// is no error and an address.
pub open spec fn event_of(h: ResolvedHost, r: DnsResolutionEvent) -> bool {
    &&& r.fqdn == h.fqdn
    &&& r.dns_server_ip@ == ip_text(h.dns_server_ip)
    &&& r.dns_server_name == h.dns_server_name
    &&& r.dns_server_country == h.dns_server_country
    &&& match h.ip {
        None => r.resolved_ip is None,
        Some(a) => r.resolved_ip matches Some(t) && t@ == ip_text(a),
    }
    &&& r.success == lookup_succeeded(h.error, r.resolved_ip)
    &&& r.duration_ms == trunc_div(h.duration@, 1_000_000)
    &&& r.finished_at == h.finished_at
    &&& r.error == h.error
}

impl ResolvedHost {
    /// Records the outcome of a lookup of `fqdn` against `dns_server`: the
    /// addresses found or the text of the failure, how long it took and when
    /// it finished.
    pub fn create(
        fqdn: String,
        dns_server: &DnsServer,
        lookup: Result<Vec<IpAddress>, String>,
        duration: TimeSpan,
        finished_at: Timestamp,
    ) -> (r: Self)
        ensures
            resolved_host_of(fqdn, *dns_server, lookup, duration, finished_at, r),
    {
        let name = dns_server.result_name();
        match lookup {
            Ok(found) => {
                let ip = if found.len() == 0 {
                    None
                } else {
                    Some(found[found.len() - 1].to_canonical())
                };
                ResolvedHost {
                    dns_server_ip: dns_server.ip,
                    dns_server_name: name,
                    dns_server_country: dns_server.country_id.clone(),
                    fqdn,
                    ip,
                    duration,
                    finished_at,
                    error: None,
                }
            },
            Err(error) => ResolvedHost {
                dns_server_ip: dns_server.ip,
                dns_server_name: name,
                dns_server_country: dns_server.country_id.clone(),
                fqdn,
                ip: None,
                duration,
                finished_at,
                error: Some(error),
            },
        }
    }

    /// Converts this resolution output into the normalised event used by the
    /// persistence sinks.
    pub fn into_event(self) -> (r: DnsResolutionEvent)
        ensures
            event_of(self, r),
    {
        let server_ip = self.dns_server_ip.to_text();
        let resolved = match self.ip {
            Some(a) => Some(a.to_text()),
            None => None,
        };
        let millis = self.duration.num_milliseconds();
        DnsResolutionEvent::from_parts(
            self.fqdn,
            server_ip,
            self.dns_server_name,
            self.dns_server_country,
            resolved,
            millis,
            self.finished_at,
            self.error,
        )
    }
}

/// A lookup result turned into an event counts as a success exactly when the
/// lookup itself succeeded and found at least one address.
pub proof fn lemma_event_success_iff_address_found(
    fqdn: String,
    server: DnsServer,
    lookup: Result<Vec<IpAddress>, String>,
    duration: TimeSpan,
    finished_at: Timestamp,
    host: ResolvedHost,
    event: DnsResolutionEvent,
)
    requires
        resolved_host_of(fqdn, server, lookup, duration, finished_at, host),
        event_of(host, event),
    ensures
        event.success <==> (lookup matches Ok(found) && found@.len() > 0),
{
}

} // verus!

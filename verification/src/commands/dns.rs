//! DNS monitoring: the lookups to make and the event of each finished
//! lookup.

use vstd::prelude::*;
use crate::dns::dns_server::{display_name, event_of, DnsServer, ResolvedHost};
use crate::errors::{error_text, DneyesError};
use crate::telemetry::models::DnsResolutionEvent;
use crate::utils::ip_addr::ip_text;
use crate::utils::time_utils::Timestamp;

verus! {

/// The lookups of a run, as (site, resolver) positions: every site against
/// every resolver, site by site, resolvers in catalogue order.
pub fn resolution_jobs(site_count: usize, server_count: usize) -> (r: Vec<(usize, usize)>)
    requires
        site_count * server_count <= usize::MAX,
    ensures
        r@.len() == site_count * server_count,
        forall|k: int|
            0 <= k < r@.len() ==> #[trigger] r@[k] == ((k / server_count as int) as usize, (k
                % server_count as int) as usize),
{
    let mut jobs: Vec<(usize, usize)> = Vec::new();
    let mut s: usize = 0;
    while s < site_count
        invariant
            0 <= s <= site_count,
            site_count * server_count <= usize::MAX,
            jobs@.len() == s * server_count,
            forall|k: int|
                0 <= k < jobs@.len() ==> #[trigger] jobs@[k] == ((k / server_count as int) as usize,
                    (k % server_count as int) as usize),
        decreases site_count - s,
    {
        let mut d: usize = 0;
        while d < server_count
            invariant
                0 <= s < site_count,
                0 <= d <= server_count,
                site_count * server_count <= usize::MAX,
                jobs@.len() == s * server_count + d,
                forall|k: int|
                    0 <= k < jobs@.len() ==> #[trigger] jobs@[k] == ((k / server_count as int) as usize,
                        (k % server_count as int) as usize),
            decreases server_count - d,
        {
            proof {
                let k = s * server_count + d;
                assert(k / server_count as int == s && k % server_count as int == d) by (nonlinear_arith)
                    requires
                        k == s * server_count + d,
                        0 <= d < server_count,
                        0 <= s,
                ;
                assert(s * server_count + d < site_count * server_count) by (nonlinear_arith)
                    requires
                        0 <= d < server_count,
                        0 <= s < site_count,
                ;
            }
            jobs.push((s, d));
            d = d + 1;
        }
        assert((s + 1) * server_count == s * server_count + server_count) by (nonlinear_arith);
        s = s + 1;
    }
    jobs
}

/// The event of a finished lookup of `domain` against `server`: the event
/// of its result when the lookup could be made, else a failed event with the
/// server's address, name and country, no address, zero duration, the given
/// time and the error's text.
pub open spec fn resolution_event_of(
    domain: String,
    server: DnsServer,
    outcome: Result<ResolvedHost, DneyesError>,
    now: Timestamp,
    r: DnsResolutionEvent,
) -> bool {
    match outcome {
        Ok(h) => event_of(h, r),
        Err(e) => {
            &&& r.fqdn == domain
            &&& r.dns_server_ip@ == ip_text(server.ip)
            &&& r.dns_server_name == display_name(server)
            &&& r.dns_server_country == server.country_id
            &&& r.resolved_ip is None
            &&& !r.success
            &&& r.duration_ms == 0
            &&& r.finished_at == now
            &&& r.error matches Some(t) && t@ == error_text(e)
        },
    }
}

/// Turns the outcome of one lookup task into the event that is stored.
pub fn resolution_event(
    domain: String,
    server: &DnsServer,
    outcome: Result<ResolvedHost, DneyesError>,
    now: Timestamp,
) -> (r: DnsResolutionEvent)
    ensures
        resolution_event_of(domain, *server, outcome, now, r),
{
    match outcome {
        Ok(host) => host.into_event(),
        Err(e) => DnsResolutionEvent::from_parts(
            domain,
            server.ip.to_text(),
            server.result_name(),
            server.country_id.clone(),
            None,
            0,
            now,
            Some(e.to_text()),
        ),
    }
}

} // verus!

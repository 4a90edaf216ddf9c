//! The outcome of one HTTP availability check.

use vstd::prelude::*;
use crate::telemetry::models::HttpAvailabilityEvent;
use crate::utils::ip_addr::{ip_text, IpAddress};
use crate::utils::time_utils::{trunc_div, TimeSpan, Timestamp};

verus! {

/// What a response tells about the server that answered.
#[derive(Clone, Copy, Debug, PartialEq, Eq)]
pub struct HttpResponseInfo {
    /// Address of the peer that served the response, if known.
    pub remote_ip: Option<IpAddress>,
    /// Status code of the response.
    pub status_code: u16,
}

/// The event of a check of `base_url`: on a response its peer address as
/// text, its status code and no error; on a failure no address, status 0 and
/// the failure's text; in both cases the duration in whole milliseconds and
/// the finishing time.
pub open spec fn availability_event_of(
    base_url: String,
    outcome: Result<HttpResponseInfo, String>,
    duration: TimeSpan,
    finished_at: Timestamp,
    r: HttpAvailabilityEvent,
) -> bool {
    &&& r.base_url == base_url
    &&& r.duration_ms == trunc_div(duration@, 1_000_000)
    &&& r.finished_at == finished_at
    &&& match outcome {
        Ok(info) => {
            &&& r.status_code == info.status_code
            &&& r.error is None
            &&& match info.remote_ip {
                Some(a) => r.ip matches Some(t) && t@ == ip_text(a),
                None => r.ip is None,
            }
        },
        Err(e) => r.ip is None && r.status_code == 0 && r.error == Some(e),
    }
}

/// Records the outcome of an HTTP GET of `base_url` that took `duration` and
/// finished at `finished_at`.
pub fn availability_event(
    base_url: String,
    outcome: Result<HttpResponseInfo, String>,
    duration: &TimeSpan,
    finished_at: Timestamp,
) -> (r: HttpAvailabilityEvent)
    ensures
        availability_event_of(base_url, outcome, *duration, finished_at, r),
{
    let duration_ms = duration.num_milliseconds();
    match outcome {
        Ok(info) => {
            let ip = match info.remote_ip {
                Some(a) => Some(a.to_text()),
                None => None,
            };
            HttpAvailabilityEvent {
                base_url,
                ip,
                duration_ms,
                finished_at,
                status_code: info.status_code,
                error: None,
            }
        },
        Err(error) => HttpAvailabilityEvent {
            base_url,
            ip: None,
            duration_ms,
            finished_at,
            status_code: 0,
            error: Some(error),
        },
    }
}

} // verus!

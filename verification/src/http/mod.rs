//! HTTP availability checks.

pub mod http_site_status;

//! The decisions of the three operating modes: DNS monitoring, HTTP
//! monitoring and the REST API.

pub mod api;
pub mod dns;
pub mod http;

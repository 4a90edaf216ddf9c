//! DNS resolvers: the catalogue of public resolvers and single lookups.

pub mod dns_list_client;
pub mod dns_server;

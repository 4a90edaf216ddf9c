//! Shared helpers: text rendering, addresses, time values and file names.

pub mod file_utils;
pub mod ip_addr;
pub mod text;
pub mod time_utils;

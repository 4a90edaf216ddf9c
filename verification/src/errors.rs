//! The error type of DNeyeS.

use vstd::prelude::*;

verus! {

/// Every failure that can occur in DNeyeS.  Failures reported by outside
/// libraries (JSON, files, ClickHouse, the configuration loader) carry the
/// text those libraries gave.
#[derive(Debug, PartialEq, Eq)]
pub enum DneyesError {
    /// Errors that happen while (de-)serialising payloads to and from JSON.
    Serialization(String),
    /// File system or I/O related errors.
    Io(String),
    /// Configuration loading/parsing failures.
    Config(String),
    /// Errors returned from the DNS resolver.
    Dns(String),
    /// Errors happening while performing HTTP checks.
    Http(String),
    /// Errors originating from the ClickHouse client.
    Clickhouse(String),
    /// Errors originating from the configuration loader.
    ConfigLoader(String),
}

/// The prefix that the text of each kind of error starts with.
pub open spec fn error_prefix(e: DneyesError) -> Seq<char> {
    match e {
        DneyesError::Serialization(_) => "serialization error: "@,
        DneyesError::Io(_) => "i/o error: "@,
        DneyesError::Config(_) => "configuration error: "@,
        DneyesError::Dns(_) => "dns error: "@,
        DneyesError::Http(_) => "http error: "@,
        DneyesError::Clickhouse(_) => "clickhouse error: "@,
        DneyesError::ConfigLoader(_) => "configuration error: "@,
    }
}

/// The detail text an error carries.
pub open spec fn error_detail(e: DneyesError) -> Seq<char> {
    match e {
        DneyesError::Serialization(m) => m@,
        DneyesError::Io(m) => m@,
        DneyesError::Config(m) => m@,
        DneyesError::Dns(m) => m@,
        DneyesError::Http(m) => m@,
        DneyesError::Clickhouse(m) => m@,
        DneyesError::ConfigLoader(m) => m@,
    }
}

/// The text of an error: its kind's prefix followed by its detail.
pub open spec fn error_text(e: DneyesError) -> Seq<char> {
    error_prefix(e) + error_detail(e)
}

/// `prefix` followed by `rest`, as a new string.
pub fn concat_str(prefix: &str, rest: &str) -> (r: String)
    ensures
        r@ == prefix@ + rest@,
{
    let mut s = prefix.to_owned();
    s.append(rest);
    s
}

impl DneyesError {
    /// The text of the error, as the program shows it.
    pub fn to_text(&self) -> (r: String)
        ensures
            r@ == error_text(*self),
    {
        match self {
            DneyesError::Serialization(m) => concat_str("serialization error: ", m.as_str()),
            DneyesError::Io(m) => concat_str("i/o error: ", m.as_str()),
            DneyesError::Config(m) => concat_str("configuration error: ", m.as_str()),
            DneyesError::Dns(m) => concat_str("dns error: ", m.as_str()),
            DneyesError::Http(m) => concat_str("http error: ", m.as_str()),
            DneyesError::Clickhouse(m) => concat_str("clickhouse error: ", m.as_str()),
            DneyesError::ConfigLoader(m) => concat_str("configuration error: ", m.as_str()),
        }
    }
}

} // verus!

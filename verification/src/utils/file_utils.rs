//! Status export files.

use vstd::prelude::*;
use crate::errors::concat_str;
use crate::utils::text::{push_signed_decimal, signed_decimal_text};

verus! {

/// The kinds of status export files.
#[derive(Clone, Copy, Debug, PartialEq, Eq, Structural)]
pub enum StatusFileType {
    DNS,
    HTTP,
}

/// Text of a status file kind.
pub open spec fn status_kind_text(kind: StatusFileType) -> Seq<char> {
    match kind {
        StatusFileType::DNS => "dns"@,
        StatusFileType::HTTP => "http"@,
    }
}

impl StatusFileType {
    /// Text of the kind: `dns` or `http`.
    pub fn to_text(&self) -> (r: String)
        ensures
            r@ == status_kind_text(*self),
    {
        match self {
            StatusFileType::DNS => "dns".to_owned(),
            StatusFileType::HTTP => "http".to_owned(),
        }
    }
}

/// Path of a status export file: `export/dneyes_status_`, the kind, `_`, the
/// Unix time in seconds when it is created, and `.ndjson`.
pub open spec fn status_file_path(kind: StatusFileType, created_secs: int) -> Seq<char> {
    "export/dneyes_status_"@ + status_kind_text(kind) + "_"@ + signed_decimal_text(created_secs)
        + ".ndjson"@
}

/// Path of the status export file of `kind` created at `created_secs`.
pub fn status_file_name(kind: StatusFileType, created_secs: i64) -> (r: String)
    ensures
        r@ == status_file_path(kind, created_secs as int),
{
    let kind_text = kind.to_text();
    let mut path = concat_str("export/dneyes_status_", kind_text.as_str());
    path.append("_");
    push_signed_decimal(&mut path, created_secs);
    path.append(".ndjson");
    path
}

} // verus!

//! Which persistence backends receive the events, and how an event is
//! framed in an NDJSON export file.

use vstd::prelude::*;
use crate::config::{ClickhouseConfig, OutputConfig, OutputMode};
use crate::errors::concat_str;
use crate::utils::time_utils::{compact_stamp_pattern, utc_format_text, Timestamp};

verus! {

/// The backends that events are written to: NDJSON files in a directory,
/// ClickHouse, or both.
pub struct SinkPlan {
    /// Directory of the NDJSON exports, when files are written.
    pub file_directory: Option<String>,
    /// ClickHouse settings, when events go to ClickHouse.
    pub clickhouse: Option<ClickhouseConfig>,
}

/// The mode writes NDJSON files.
pub open spec fn mode_writes_files(mode: OutputMode) -> bool {
    mode == OutputMode::File || mode == OutputMode::Both
}

/// The mode writes to ClickHouse.
pub open spec fn mode_writes_clickhouse(mode: OutputMode) -> bool {
    mode == OutputMode::Clickhouse || mode == OutputMode::Both
}

/// Number of backends a plan writes to.
pub open spec fn backend_count(p: SinkPlan) -> nat {
    (if p.file_directory is Some { 1nat } else { 0nat }) + (if p.clickhouse is Some {
        1nat
    } else {
        0nat
    })
}

/// Decides the backends from the output configuration: files when the mode
/// writes files and a file block is present, ClickHouse when the mode writes
/// to ClickHouse and a ClickHouse block is present.
pub fn plan_sinks(config: &OutputConfig) -> (r: SinkPlan)
    ensures
        r.file_directory == (if mode_writes_files(config.mode) {
            match config.file {
                Some(f) => Some(f.directory),
                None => None::<String>,
            }
        } else {
            None::<String>
        }),
        r.clickhouse == (if mode_writes_clickhouse(config.mode) {
            config.clickhouse
        } else {
            None::<ClickhouseConfig>
        }),
{
    let writes_files = match config.mode {
        OutputMode::File | OutputMode::Both => true,
        OutputMode::Clickhouse => false,
    };
    let writes_clickhouse = match config.mode {
        OutputMode::Clickhouse | OutputMode::Both => true,
        OutputMode::File => false,
    };
    let file_directory = if writes_files {
        match &config.file {
            Some(f) => Some(f.directory.clone()),
            None => None,
        }
    } else {
        None
    };
    let clickhouse = if writes_clickhouse {
        match &config.clickhouse {
            Some(c) => Some(c.clone()),
            None => None,
        }
    } else {
        None
    };
    SinkPlan { file_directory, clickhouse }
}

impl SinkPlan {
    /// Number of backends the plan writes to.
    pub fn backend_count(&self) -> (r: usize)
        ensures
            r == backend_count(*self),
    {
        let mut n: usize = 0;
        if self.file_directory.is_some() {
            n = n + 1;
        }
        if self.clickhouse.is_some() {
            n = n + 1;
        }
        n
    }

    /// Whether the backends are wrapped in a fan-out that writes each event to
    /// every one of them in turn: exactly when there is not a single backend
    /// (with none, the fan-out has nothing to write to).
    pub fn needs_fan_out(&self) -> (r: bool)
        ensures
            r == (backend_count(*self) != 1),
    {
        self.backend_count() != 1
    }
}

/// Working through `count` steps in order, one at a time, stopping at the
/// first failure: after `done` steps, the last of which answered `last_ok`,
/// the position of the next step, or none when all are done or one failed
/// (that failure is then the answer).  A fan-out hands an event to its
/// backends this way, and schema creation runs its statements this way.
pub fn next_in_turn(count: usize, done: usize, last_ok: bool) -> (r: Option<usize>)
    ensures
        r == (if !last_ok || done >= count {
            None::<usize>
        } else {
            Some(done)
        }),
{
    if !last_ok || done >= count {
        None
    } else {
        Some(done)
    }
}

/// A backend that events are written to.
pub enum Backend {
    /// NDJSON files in this directory.
    Files(String),
    /// ClickHouse with these settings.
    Clickhouse(ClickhouseConfig),
}

/// The backends of a plan in the order an event is handed to them: files
/// first, then ClickHouse.
pub open spec fn plan_backends(p: SinkPlan) -> Seq<Backend> {
    (match p.file_directory {
        Some(d) => seq![Backend::Files(d)],
        None => seq![],
    }) + (match p.clickhouse {
        Some(c) => seq![Backend::Clickhouse(c)],
        None => seq![],
    })
}

impl SinkPlan {
    /// The backends in the order an event is handed to them: files first,
    /// then ClickHouse.
    pub fn backends(self) -> (r: Vec<Backend>)
        ensures
            r@ == plan_backends(self),
            r@.len() == backend_count(self),
    {
        let mut list: Vec<Backend> = Vec::new();
        match self.file_directory {
            Some(d) => list.push(Backend::Files(d)),
            None => {},
        }
        match self.clickhouse {
            Some(c) => list.push(Backend::Clickhouse(c)),
            None => {},
        }
        assert(list@ =~= plan_backends(self));
        list
    }
}

/// Name of an NDJSON export file: `dneyes_`, the kind of event, `_`, the
/// compact UTC stamp of when it was opened, and `.ndjson`.
pub open spec fn export_file_name(prefix: Seq<char>, stamp: Seq<char>) -> Seq<char> {
    "dneyes_"@ + prefix + "_"@ + stamp + ".ndjson"@
}

/// Name of the NDJSON export file for events of kind `prefix`, given the
/// compact stamp of the moment it is opened.
pub fn export_file_name_from_stamp(prefix: &str, stamp: &str) -> (r: String)
    ensures
        r@ == export_file_name(prefix@, stamp@),
{
    let mut name = concat_str("dneyes_", prefix);
    name.append("_");
    name.append(stamp);
    name.append(".ndjson");
    name
}

/// Name of the NDJSON export file for events of kind `prefix` opened at
/// `opened_at`; `None` when the instant lies outside chrono's calendar.
pub fn export_file_name_at(prefix: &str, opened_at: Timestamp) -> (r: Option<String>)
    ensures
        match utc_format_text(opened_at.secs, opened_at.nanos, compact_stamp_pattern()) {
            Some(stamp) => r matches Some(n) && n@ == export_file_name(prefix@, stamp),
            None => r is None,
        },
{
    match opened_at.compact_stamp() {
        Some(stamp) => Some(export_file_name_from_stamp(prefix, stamp.as_str())),
        None => None,
    }
}

/// One record of an NDJSON file: the serialised event followed by a line
/// break.
pub fn ndjson_record(payload: Vec<u8>) -> (r: Vec<u8>)
    ensures
        r@ == payload@.push(10u8),
{
    let mut record = payload;
    record.push(10u8);
    record
}

} // verus!

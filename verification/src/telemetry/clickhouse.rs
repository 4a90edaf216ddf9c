//! ClickHouse statements: the schema of the two tables and the query that
//! serves DNS resolution history.

use vstd::prelude::*;
use crate::config::ClickhouseConfig;
use crate::errors::concat_str;
use crate::utils::time_utils::Timestamp;

verus! {

/// Query filter used by the REST API to fetch DNS data from ClickHouse.
pub struct DnsQueryFilter {
    /// Domain name to filter for.
    pub domain: Option<String>,
    /// Filter by resolver country.
    pub country: Option<String>,
    /// Filter by success state.
    pub success: Option<bool>,
    /// Fetch records newer than this timestamp.
    pub from: Option<Timestamp>,
    /// Fetch records older than this timestamp.
    pub to: Option<Timestamp>,
}

impl Default for DnsQueryFilter {
    fn default() -> (r: Self)
        ensures
            r.domain is None,
            r.country is None,
            r.success is None,
            r.from is None,
            r.to is None,
    {
        DnsQueryFilter { domain: None, country: None, success: None, from: None, to: None }
    }
}

/// A value bound to a `?` placeholder of a statement.
#[derive(Debug, PartialEq, Eq)]
pub enum QueryParam {
    /// A text value.
    Text(String),
    /// A boolean value.
    Flag(bool),
    /// An instant.
    Instant(Timestamp),
    /// An unsigned count.
    Count(u64),
}

/// A statement with `?` placeholders and the values bound to them, in order.
pub struct Statement {
    /// The SQL text.
    pub sql: String,
    /// The bound values, one per placeholder, in order.
    pub params: Vec<QueryParam>,
}

/// The pieces joined by a separator.
pub open spec fn joined(parts: Seq<Seq<char>>, sep: Seq<char>) -> Seq<char>
    decreases parts.len(),
{
    if parts.len() == 0 {
        seq![]
    } else if parts.len() == 1 {
        parts[0]
    } else {
        joined(parts.drop_last(), sep) + sep + parts.last()
    }
}

/// The start of the DNS history query, up to the table name.
pub open spec fn dns_select_prefix() -> Seq<char> {
    "SELECT fqdn, dns_server_ip, dns_server_name, dns_server_country, resolved_ip, success, duration_ms, finished_at, error FROM "@
}

/// The conditions of the DNS history query, one per filter field that is set,
/// in the order domain, country, success, from, to.
pub open spec fn dns_conditions(f: DnsQueryFilter) -> Seq<Seq<char>> {
    (if f.domain is Some { seq!["fqdn = ?"@] } else { seq![] })
    + (if f.country is Some { seq!["dns_server_country = ?"@] } else { seq![] })
    + (if f.success is Some { seq!["success = ?"@] } else { seq![] })
    + (if f.from is Some { seq!["finished_at > ?"@] } else { seq![] })
    + (if f.to is Some { seq!["finished_at < ?"@] } else { seq![] })
}

/// The SQL text of the DNS history query against `table`: the columns of the
/// event, the conditions joined by `AND` when there are any, newest first,
/// and a bound limit.
pub open spec fn dns_query_sql(table: Seq<char>, f: DnsQueryFilter) -> Seq<char> {
    dns_select_prefix() + table + (if dns_conditions(f).len() > 0 {
        " WHERE "@ + joined(dns_conditions(f), " AND "@)
    } else {
        seq![]
    }) + " ORDER BY finished_at DESC LIMIT ?"@
}

/// The values bound to the DNS history query: the filter values that are
/// set, in the order of the conditions, then the limit.
pub open spec fn dns_query_params(f: DnsQueryFilter, limit: u64) -> Seq<QueryParam> {
    (match f.domain {
        Some(d) => seq![QueryParam::Text(d)],
        None => seq![],
    }) + (match f.country {
        Some(c) => seq![QueryParam::Text(c)],
        None => seq![],
    }) + (match f.success {
        Some(b) => seq![QueryParam::Flag(b)],
        None => seq![],
    }) + (match f.from {
        Some(t) => seq![QueryParam::Instant(t)],
        None => seq![],
    }) + (match f.to {
        Some(t) => seq![QueryParam::Instant(t)],
        None => seq![],
    }) + seq![QueryParam::Count(limit)]
}

/// The texts of a list of string slices.
pub open spec fn texts_of(parts: Seq<&str>) -> Seq<Seq<char>> {
    parts.map_values(|c: &str| c@)
}

fn dns_condition_list(filter: &DnsQueryFilter) -> (r: Vec<&'static str>)
    ensures
        texts_of(r@) == dns_conditions(*filter),
{
    let mut conditions: Vec<&str> = Vec::new();
    if filter.domain.is_some() {
        conditions.push("fqdn = ?");
    }
    let ghost c1 = texts_of(conditions@);
    if filter.country.is_some() {
        conditions.push("dns_server_country = ?");
    }
    let ghost c2 = texts_of(conditions@);
    assert(c2 =~= c1 + (if filter.country is Some { seq!["dns_server_country = ?"@] } else { seq![] }));
    if filter.success.is_some() {
        conditions.push("success = ?");
    }
    let ghost c3 = texts_of(conditions@);
    assert(c3 =~= c2 + (if filter.success is Some { seq!["success = ?"@] } else { seq![] }));
    if filter.from.is_some() {
        conditions.push("finished_at > ?");
    }
    let ghost c4 = texts_of(conditions@);
    assert(c4 =~= c3 + (if filter.from is Some { seq!["finished_at > ?"@] } else { seq![] }));
    if filter.to.is_some() {
        conditions.push("finished_at < ?");
    }
    let ghost c5 = texts_of(conditions@);
    assert(c5 =~= c4 + (if filter.to is Some { seq!["finished_at < ?"@] } else { seq![] }));
    assert(c1 =~= (if filter.domain is Some { seq!["fqdn = ?"@] } else { seq![] }));
    assert(c5 =~= dns_conditions(*filter));
    conditions
}

fn dns_param_list(filter: &DnsQueryFilter, limit: usize) -> (r: Vec<QueryParam>)
    ensures
        r@ == dns_query_params(*filter, limit as u64),
{
    let mut params: Vec<QueryParam> = Vec::new();
    if let Some(domain) = &filter.domain {
        params.push(QueryParam::Text(domain.clone()));
    }
    if let Some(country) = &filter.country {
        params.push(QueryParam::Text(country.clone()));
    }
    if let Some(success) = filter.success {
        params.push(QueryParam::Flag(success));
    }
    if let Some(from) = filter.from {
        params.push(QueryParam::Instant(from));
    }
    if let Some(to) = filter.to {
        params.push(QueryParam::Instant(to));
    }
    params.push(QueryParam::Count(limit as u64));
    assert(params@ =~= dns_query_params(*filter, limit as u64));
    params
}

fn append_joined(sql: &mut String, parts: &Vec<&str>, sep: &str)
    ensures
        final(sql)@ == old(sql)@ + joined(texts_of(parts@), sep@),
{
    let n = parts.len();
    let mut i: usize = 0;
    while i < n
        invariant
            n == parts@.len(),
            0 <= i <= n,
            sql@ == old(sql)@ + joined(texts_of(parts@).take(i as int), sep@),
        decreases n - i,
    {
        if i > 0 {
            sql.append(sep);
        }
        sql.append(parts[i]);
        assert(texts_of(parts@).take(i + 1).drop_last() =~= texts_of(parts@).take(i as int));
        i = i + 1;
    }
    assert(texts_of(parts@).take(n as int) =~= texts_of(parts@));
}

/// Builds the query of DNS resolution history in `table`, filtered by
/// `filter`, newest first, at most `limit` rows.
pub fn dns_query_statement(table: &str, filter: &DnsQueryFilter, limit: usize) -> (r: Statement)
    ensures
        r.sql@ == dns_query_sql(table@, *filter),
        r.params@ == dns_query_params(*filter, limit as u64),
        filter.from is Some ==> text_contains(r.sql@, "finished_at > ?"@),
        filter.to is Some ==> text_contains(r.sql@, "finished_at < ?"@),
{
    let mut sql = concat_str(
        "SELECT fqdn, dns_server_ip, dns_server_name, dns_server_country, resolved_ip, success, duration_ms, finished_at, error FROM ",
        table,
    );
    let conditions = dns_condition_list(filter);
    let params = dns_param_list(filter, limit);
    if conditions.len() > 0 {
        sql.append(" WHERE ");
        append_joined(&mut sql, &conditions, " AND ");
    }
    sql.append(" ORDER BY finished_at DESC LIMIT ?");
    proof {
        assert(sql@ =~= dns_query_sql(table@, *filter));
        lemma_dns_query_time_bounds(*filter, limit as u64);
        if let Some(t) = filter.from {
            let i = choose|i: int|
                0 <= i < dns_conditions(*filter).len() && #[trigger] dns_conditions(*filter)[i]
                    == "finished_at > ?"@ && dns_query_params(*filter, limit as u64)[i]
                    == QueryParam::Instant(t);
            lemma_dns_query_sql_holds_conditions(table@, *filter, i);
        }
        if let Some(t) = filter.to {
            let i = choose|i: int|
                0 <= i < dns_conditions(*filter).len() && #[trigger] dns_conditions(*filter)[i]
                    == "finished_at < ?"@ && dns_query_params(*filter, limit as u64)[i]
                    == QueryParam::Instant(t);
            lemma_dns_query_sql_holds_conditions(table@, *filter, i);
        }
    }
    Statement { sql, params }
}

/// Where a schema statement runs.
#[derive(Clone, Copy, Debug, PartialEq, Eq, Structural)]
pub enum SchemaTarget {
    /// On the server, without a database selected.
    Server,
    /// In the configured database.
    Database,
}

/// One statement of schema creation and where it runs.
pub struct SchemaStep {
    /// Where the statement runs.
    pub target: SchemaTarget,
    /// The SQL text.
    pub sql: String,
}

/// The text after the table name in the statement that creates the table of
/// DNS resolutions.
pub open spec fn dns_table_columns() -> Seq<char> {
    " (\n                    fqdn String,\n                    dns_server_ip String,\n                    dns_server_name Nullable(String),\n                    dns_server_country LowCardinality(String),\n                    resolved_ip Nullable(String),\n                    success Bool,\n                    duration_ms Int64,\n                    finished_at DateTime64(3, 'UTC'),\n                    error Nullable(String)\n                )\n                ENGINE = MergeTree()\n                ORDER BY (fqdn, finished_at)"@
}

/// The text after the table name in the statement that creates the table of
/// HTTP availability checks.
pub open spec fn http_table_columns() -> Seq<char> {
    " (\n                    base_url String,\n                    ip Nullable(String),\n                    duration_ms Int64,\n                    finished_at DateTime64(3, 'UTC'),\n                    status_code UInt16,\n                    error Nullable(String)\n                )\n                ENGINE = MergeTree()\n                ORDER BY (base_url, finished_at)"@
}

/// The fields of a DNS resolution event, which are the columns its table
/// stores and the history query selects, in order.
pub open spec fn dns_event_fields() -> Seq<Seq<char>> {
    seq![
        "fqdn"@,
        "dns_server_ip"@,
        "dns_server_name"@,
        "dns_server_country"@,
        "resolved_ip"@,
        "success"@,
        "duration_ms"@,
        "finished_at"@,
        "error"@,
    ]
}

/// The ClickHouse column type of each field of a DNS resolution event: text,
/// optional text, a boolean, a signed count of milliseconds, and an instant
/// with millisecond precision in UTC.
pub open spec fn dns_event_column_types() -> Seq<Seq<char>> {
    seq![
        "String"@,
        "String"@,
        "Nullable(String)"@,
        "LowCardinality(String)"@,
        "Nullable(String)"@,
        "Bool"@,
        "Int64"@,
        "DateTime64(3, 'UTC')"@,
        "Nullable(String)"@,
    ]
}

/// The column definition of field `i` of a DNS resolution event: its name, a
/// space and its type.
pub open spec fn dns_event_column(i: int) -> Seq<char> {
    dns_event_fields()[i] + " "@ + dns_event_column_types()[i]
}

/// `t` occurs in `s` as a contiguous piece.
pub open spec fn text_contains(s: Seq<char>, t: Seq<char>) -> bool {
    exists|i: int| 0 <= i && i + t.len() <= s.len() && #[trigger] s.subrange(i, i + t.len()) == t
}

/// A piece of the start of a text is a piece of the whole text.
pub proof fn lemma_text_contains_before(a: Seq<char>, b: Seq<char>, t: Seq<char>)
    requires
        text_contains(a, t),
    ensures
        text_contains(a + b, t),
{
    let i = choose|i: int| 0 <= i && i + t.len() <= a.len() && #[trigger] a.subrange(i, i + t.len()) == t;
    assert((a + b).subrange(i, i + t.len()) =~= a.subrange(i, i + t.len()));
}

/// Each piece of a joined list is a piece of the joined text.
pub proof fn lemma_joined_contains(parts: Seq<Seq<char>>, sep: Seq<char>, i: int)
    requires
        0 <= i < parts.len(),
    ensures
        text_contains(joined(parts, sep), parts[i]),
    decreases parts.len(),
{
    let j = joined(parts, sep);
    if parts.len() == 1 {
        let t = parts[0];
        assert(j == t);
        let k: int = 0;
        assert(j.subrange(k, k + t.len()) =~= t);
        assert(0 <= k && k + t.len() <= j.len() && j.subrange(k, k + t.len()) == t);
    } else if i == parts.len() - 1 {
        let head = joined(parts.drop_last(), sep) + sep;
        let t = parts[i];
        let k = head.len() as int;
        assert(j == head + parts.last());
        assert(j.subrange(k, k + t.len()) =~= t);
        assert(0 <= k && k + t.len() <= j.len() && j.subrange(k, k + t.len()) == t);
    } else {
        lemma_joined_contains(parts.drop_last(), sep, i);
        assert(parts.drop_last()[i] == parts[i]);
        lemma_text_contains_before(joined(parts.drop_last(), sep), sep + parts.last(), parts[i]);
        assert(joined(parts.drop_last(), sep) + (sep + parts.last()) =~= j);
    }
}

/// Every condition of the DNS history query stands in its text.
pub proof fn lemma_dns_query_sql_holds_conditions(table: Seq<char>, f: DnsQueryFilter, i: int)
    requires
        0 <= i < dns_conditions(f).len(),
    ensures
        text_contains(dns_query_sql(table, f), dns_conditions(f)[i]),
{
    let conds = dns_conditions(f);
    lemma_joined_contains(conds, " AND "@, i);
    lemma_text_contains_after(dns_select_prefix() + table + " WHERE "@, joined(conds, " AND "@), conds[i]);
    assert(dns_select_prefix() + table + " WHERE "@ + joined(conds, " AND "@) =~= dns_select_prefix()
        + table + (" WHERE "@ + joined(conds, " AND "@)));
    lemma_text_contains_before(
        dns_select_prefix() + table + (" WHERE "@ + joined(conds, " AND "@)),
        " ORDER BY finished_at DESC LIMIT ?"@,
        conds[i],
    );
}

/// A piece of the end of a text is a piece of the whole text.
pub proof fn lemma_text_contains_after(a: Seq<char>, b: Seq<char>, t: Seq<char>)
    requires
        text_contains(b, t),
    ensures
        text_contains(a + b, t),
{
    let i = choose|i: int| 0 <= i && i + t.len() <= b.len() && #[trigger] b.subrange(i, i + t.len()) == t;
    assert((a + b).subrange(a.len() + i, a.len() + i + t.len()) =~= b.subrange(i, i + t.len()));
}

proof fn lemma_columns_at(i: int, at: int)
    requires
        0 <= i < 9,
        0 <= at,
        at + dns_event_column(i).len() <= dns_table_columns().len(),
        dns_table_columns().subrange(at, at + dns_event_column(i).len()) == dns_event_column(i),
    ensures
        text_contains(dns_table_columns(), dns_event_column(i)),
{
}

/// The table of DNS resolutions holds a column, of the fitting type, for
/// every field of a DNS resolution event.
pub proof fn lemma_dns_table_has_event_columns()
    ensures
        dns_event_fields().len() == 9,
        dns_event_column_types().len() == 9,
        forall|i: int|
            0 <= i < dns_event_fields().len() ==> text_contains(
                dns_table_columns(),
                #[trigger] dns_event_column(i),
            ),
{
    reveal_strlit(
        " (\n                    fqdn String,\n                    dns_server_ip String,\n                    dns_server_name Nullable(String),\n                    dns_server_country LowCardinality(String),\n                    resolved_ip Nullable(String),\n                    success Bool,\n                    duration_ms Int64,\n                    finished_at DateTime64(3, 'UTC'),\n                    error Nullable(String)\n                )\n                ENGINE = MergeTree()\n                ORDER BY (fqdn, finished_at)",
    );
    reveal_strlit(" ");
    reveal_strlit("fqdn");
    reveal_strlit("dns_server_ip");
    reveal_strlit("dns_server_name");
    reveal_strlit("dns_server_country");
    reveal_strlit("resolved_ip");
    reveal_strlit("success");
    reveal_strlit("duration_ms");
    reveal_strlit("finished_at");
    reveal_strlit("error");
    reveal_strlit("String");
    reveal_strlit("Nullable(String)");
    reveal_strlit("LowCardinality(String)");
    reveal_strlit("Bool");
    reveal_strlit("Int64");
    reveal_strlit("DateTime64(3, 'UTC')");
    let c = dns_table_columns();
    assert(c.subrange(23, 34) =~= dns_event_column(0));
    lemma_columns_at(0, 23);
    assert(c.subrange(56, 76) =~= dns_event_column(1));
    lemma_columns_at(1, 56);
    assert(c.subrange(98, 130) =~= dns_event_column(2));
    lemma_columns_at(2, 98);
    assert(c.subrange(152, 193) =~= dns_event_column(3));
    lemma_columns_at(3, 152);
    assert(c.subrange(215, 243) =~= dns_event_column(4));
    lemma_columns_at(4, 215);
    assert(c.subrange(265, 277) =~= dns_event_column(5));
    lemma_columns_at(5, 265);
    assert(c.subrange(299, 316) =~= dns_event_column(6));
    lemma_columns_at(6, 299);
    assert(c.subrange(338, 370) =~= dns_event_column(7));
    lemma_columns_at(7, 338);
    assert(c.subrange(392, 414) =~= dns_event_column(8));
    lemma_columns_at(8, 392);
}

/// The fields of an HTTP availability event, which are the columns its table
/// stores, in order.
pub open spec fn http_event_fields() -> Seq<Seq<char>> {
    seq!["base_url"@, "ip"@, "duration_ms"@, "finished_at"@, "status_code"@, "error"@]
}

/// The ClickHouse column type of each field of an HTTP availability event.
pub open spec fn http_event_column_types() -> Seq<Seq<char>> {
    seq![
        "String"@,
        "Nullable(String)"@,
        "Int64"@,
        "DateTime64(3, 'UTC')"@,
        "UInt16"@,
        "Nullable(String)"@,
    ]
}

/// The column definition of field `i` of an HTTP availability event.
pub open spec fn http_event_column(i: int) -> Seq<char> {
    http_event_fields()[i] + " "@ + http_event_column_types()[i]
}

proof fn lemma_http_columns_at(i: int, at: int)
    requires
        0 <= i < 6,
        0 <= at,
        at + http_event_column(i).len() <= http_table_columns().len(),
        http_table_columns().subrange(at, at + http_event_column(i).len()) == http_event_column(i),
    ensures
        text_contains(http_table_columns(), http_event_column(i)),
{
}

/// The table of HTTP availability checks holds a column, of the fitting
/// type, for every field of an HTTP availability event.
pub proof fn lemma_http_table_has_event_columns()
    ensures
        http_event_fields().len() == 6,
        http_event_column_types().len() == 6,
        forall|i: int|
            0 <= i < http_event_fields().len() ==> text_contains(
                http_table_columns(),
                #[trigger] http_event_column(i),
            ),
{
    reveal_strlit(
        " (\n                    base_url String,\n                    ip Nullable(String),\n                    duration_ms Int64,\n                    finished_at DateTime64(3, 'UTC'),\n                    status_code UInt16,\n                    error Nullable(String)\n                )\n                ENGINE = MergeTree()\n                ORDER BY (base_url, finished_at)",
    );
    reveal_strlit(" ");
    reveal_strlit("base_url");
    reveal_strlit("ip");
    reveal_strlit("duration_ms");
    reveal_strlit("finished_at");
    reveal_strlit("status_code");
    reveal_strlit("error");
    reveal_strlit("String");
    reveal_strlit("Nullable(String)");
    reveal_strlit("Int64");
    reveal_strlit("DateTime64(3, 'UTC')");
    reveal_strlit("UInt16");
    let c = http_table_columns();
    assert(c.subrange(23, 38) =~= http_event_column(0));
    lemma_http_columns_at(0, 23);
    assert(c.subrange(60, 79) =~= http_event_column(1));
    lemma_http_columns_at(1, 60);
    assert(c.subrange(101, 118) =~= http_event_column(2));
    lemma_http_columns_at(2, 101);
    assert(c.subrange(140, 172) =~= http_event_column(3));
    lemma_http_columns_at(3, 140);
    assert(c.subrange(194, 212) =~= http_event_column(4));
    lemma_http_columns_at(4, 194);
    assert(c.subrange(234, 256) =~= http_event_column(5));
    lemma_http_columns_at(5, 234);
}

/// The DNS history query selects exactly the fields of a DNS resolution
/// event, in order, each a column of the table of DNS resolutions.
pub proof fn lemma_dns_query_selects_event_fields()
    ensures
        dns_select_prefix() == "SELECT "@ + joined(dns_event_fields(), ", "@) + " FROM "@,
{
    reveal_strlit(
        "SELECT fqdn, dns_server_ip, dns_server_name, dns_server_country, resolved_ip, success, duration_ms, finished_at, error FROM ",
    );
    reveal_strlit("SELECT ");
    reveal_strlit(", ");
    reveal_strlit(" FROM ");
    reveal_strlit("fqdn");
    reveal_strlit("dns_server_ip");
    reveal_strlit("dns_server_name");
    reveal_strlit("dns_server_country");
    reveal_strlit("resolved_ip");
    reveal_strlit("success");
    reveal_strlit("duration_ms");
    reveal_strlit("finished_at");
    reveal_strlit("error");
    reveal_with_fuel(joined, 10);
    assert(dns_select_prefix() =~= "SELECT "@ + joined(dns_event_fields(), ", "@) + " FROM "@);
}

impl ClickhouseConfig {
    /// The statements that create the schema, in the order they run (each
    /// only after the previous one succeeded): the database on the server,
    /// then the table of DNS resolutions and the table of HTTP availability
    /// checks in that database.  None when `ensure_schema` is not set.
    pub fn schema_plan(&self) -> (r: Vec<SchemaStep>)
        ensures
            !self.ensure_schema ==> r@.len() == 0,
            self.ensure_schema ==> {
                &&& r@.len() == 3
                &&& r@[0].target == SchemaTarget::Server
                &&& r@[0].sql@ == "CREATE DATABASE IF NOT EXISTS "@ + self.database@
                &&& r@[1].target == SchemaTarget::Database
                &&& r@[1].sql@ == "CREATE TABLE IF NOT EXISTS "@ + self.dns_table@
                    + dns_table_columns()
                &&& r@[2].target == SchemaTarget::Database
                &&& r@[2].sql@ == "CREATE TABLE IF NOT EXISTS "@ + self.http_table@
                    + http_table_columns()
            },
            self.ensure_schema ==> forall|i: int|
                0 <= i < dns_event_fields().len() ==> text_contains(
                    r@[1].sql@,
                    #[trigger] dns_event_column(i),
                ),
            self.ensure_schema ==> forall|i: int|
                0 <= i < http_event_fields().len() ==> text_contains(
                    r@[2].sql@,
                    #[trigger] http_event_column(i),
                ),
    {
        let mut steps: Vec<SchemaStep> = Vec::new();
        if !self.ensure_schema {
            return steps;
        }
        let create_database = concat_str("CREATE DATABASE IF NOT EXISTS ", self.database.as_str());
        let mut create_dns_table = concat_str("CREATE TABLE IF NOT EXISTS ", self.dns_table.as_str());
        create_dns_table.append(" (\n                    fqdn String,\n                    dns_server_ip String,\n                    dns_server_name Nullable(String),\n                    dns_server_country LowCardinality(String),\n                    resolved_ip Nullable(String),\n                    success Bool,\n                    duration_ms Int64,\n                    finished_at DateTime64(3, 'UTC'),\n                    error Nullable(String)\n                )\n                ENGINE = MergeTree()\n                ORDER BY (fqdn, finished_at)");
        let mut create_http_table = concat_str("CREATE TABLE IF NOT EXISTS ", self.http_table.as_str());
        create_http_table.append(" (\n                    base_url String,\n                    ip Nullable(String),\n                    duration_ms Int64,\n                    finished_at DateTime64(3, 'UTC'),\n                    status_code UInt16,\n                    error Nullable(String)\n                )\n                ENGINE = MergeTree()\n                ORDER BY (base_url, finished_at)");
        steps.push(SchemaStep { target: SchemaTarget::Server, sql: create_database });
        steps.push(SchemaStep { target: SchemaTarget::Database, sql: create_dns_table });
        steps.push(SchemaStep { target: SchemaTarget::Database, sql: create_http_table });
        proof {
            lemma_dns_table_has_event_columns();
            assert forall|i: int| 0 <= i < dns_event_fields().len() implies text_contains(
                steps@[1].sql@,
                #[trigger] dns_event_column(i),
            ) by {
                lemma_text_contains_after(
                    "CREATE TABLE IF NOT EXISTS "@ + self.dns_table@,
                    dns_table_columns(),
                    dns_event_column(i),
                );
            }
            lemma_http_table_has_event_columns();
            assert forall|i: int| 0 <= i < http_event_fields().len() implies text_contains(
                steps@[2].sql@,
                #[trigger] http_event_column(i),
            ) by {
                lemma_text_contains_after(
                    "CREATE TABLE IF NOT EXISTS "@ + self.http_table@,
                    http_table_columns(),
                    http_event_column(i),
                );
            }
        }
        steps
    }
}

} // verus!
verus! {

/// Number of `?` placeholders in `s` from position `lo` on.
pub open spec fn count_from(s: Seq<char>, lo: int) -> nat
    decreases s.len() - lo,
{
    if lo >= s.len() || lo < 0 {
        0
    } else {
        count_from(s, lo + 1) + if s[lo] == '?' {
            1nat
        } else {
            0nat
        }
    }
}

/// Number of `?` placeholders in a statement text.
pub open spec fn placeholders(s: Seq<char>) -> nat {
    count_from(s, 0)
}

proof fn lemma_count_shift(a: Seq<char>, b: Seq<char>, k: int)
    requires
        0 <= k,
    ensures
        count_from(a + b, a.len() + k) == count_from(b, k),
    decreases b.len() - k,
{
    if k < b.len() {
        lemma_count_shift(a, b, k + 1);
        assert((a + b)[a.len() + k] == b[k]);
    }
}

proof fn lemma_count_prefix(a: Seq<char>, b: Seq<char>, lo: int)
    requires
        0 <= lo <= a.len(),
    ensures
        count_from(a + b, lo) == count_from(a, lo) + count_from(b, 0),
    decreases a.len() - lo,
{
    if lo == a.len() {
        lemma_count_shift(a, b, 0);
    } else {
        lemma_count_prefix(a, b, lo + 1);
        assert((a + b)[lo] == a[lo]);
    }
}

/// Placeholders of a concatenation are those of its parts.
pub proof fn lemma_placeholders_concat(a: Seq<char>, b: Seq<char>)
    ensures
        placeholders(a + b) == placeholders(a) + placeholders(b),
{
    lemma_count_prefix(a, b, 0);
}

proof fn lemma_select_prefix_has_none()
    ensures
        placeholders(dns_select_prefix()) == 0,
{
    reveal_strlit(
        "SELECT fqdn, dns_server_ip, dns_server_name, dns_server_country, resolved_ip, success, duration_ms, finished_at, error FROM ",
    );
    assert(dns_select_prefix().len() == 124);
    reveal_with_fuel(count_from, 17);
    assert(count_from(dns_select_prefix(), 124) == 0);
    assert(count_from(dns_select_prefix(), 112) == 0);
    assert(count_from(dns_select_prefix(), 96) == 0);
    assert(count_from(dns_select_prefix(), 80) == 0);
    assert(count_from(dns_select_prefix(), 64) == 0);
    assert(count_from(dns_select_prefix(), 48) == 0);
    assert(count_from(dns_select_prefix(), 32) == 0);
    assert(count_from(dns_select_prefix(), 16) == 0);
    assert(count_from(dns_select_prefix(), 0) == 0);
}

proof fn lemma_condition_placeholders(f: DnsQueryFilter)
    ensures
        forall|i: int|
            0 <= i < dns_conditions(f).len() ==> placeholders(#[trigger] dns_conditions(f)[i]) == 1,
{
    reveal_strlit("fqdn = ?");
    reveal_strlit("dns_server_country = ?");
    reveal_strlit("success = ?");
    reveal_strlit("finished_at > ?");
    reveal_strlit("finished_at < ?");
    reveal_with_fuel(count_from, 23);
    assert(placeholders("fqdn = ?"@) == 1);
    assert(placeholders("dns_server_country = ?"@) == 1);
    assert(placeholders("success = ?"@) == 1);
    assert(placeholders("finished_at > ?"@) == 1);
    assert(placeholders("finished_at < ?"@) == 1);
}

proof fn lemma_joined_placeholders(parts: Seq<Seq<char>>, sep: Seq<char>)
    requires
        placeholders(sep) == 0,
        forall|i: int| 0 <= i < parts.len() ==> placeholders(#[trigger] parts[i]) == 1,
    ensures
        placeholders(joined(parts, sep)) == parts.len(),
    decreases parts.len(),
{
    if parts.len() == 1 {
        assert(placeholders(parts[0]) == 1);
    } else if parts.len() > 1 {
        let rest = parts.drop_last();
        assert forall|i: int| 0 <= i < rest.len() implies placeholders(#[trigger] rest[i]) == 1 by {
            assert(rest[i] == parts[i]);
        }
        lemma_joined_placeholders(rest, sep);
        lemma_placeholders_concat(joined(rest, sep), sep);
        lemma_placeholders_concat(joined(rest, sep) + sep, parts.last());
        assert(placeholders(parts[parts.len() - 1]) == 1);
    }
}

/// Number of filter fields before the time bounds that are set.
spec fn leading_conditions(f: DnsQueryFilter) -> int {
    (if f.domain is Some { 1int } else { 0int }) + (if f.country is Some { 1int } else { 0int })
        + (if f.success is Some { 1int } else { 0int })
}

proof fn lemma_condition_layout(f: DnsQueryFilter, limit: u64)
    ensures
        dns_conditions(f).len() + 1 == dns_query_params(f, limit).len(),
        f.from matches Some(t) ==> dns_conditions(f)[leading_conditions(f)] == "finished_at > ?"@
            && dns_query_params(f, limit)[leading_conditions(f)] == QueryParam::Instant(t),
        f.to matches Some(t) ==> {
            let k = leading_conditions(f) + if f.from is Some { 1int } else { 0int };
            dns_conditions(f)[k] == "finished_at < ?"@ && dns_query_params(f, limit)[k]
                == QueryParam::Instant(t)
        },
        forall|i: int|
            0 <= i < leading_conditions(f) ==> dns_conditions(f)[i] != "finished_at > ?"@
                && dns_conditions(f)[i] != "finished_at < ?"@,
        dns_conditions(f).len() == leading_conditions(f) + (if f.from is Some { 1int } else { 0int })
            + (if f.to is Some { 1int } else { 0int }),
{
    reveal_strlit("fqdn = ?");
    reveal_strlit("dns_server_country = ?");
    reveal_strlit("success = ?");
    reveal_strlit("finished_at > ?");
    reveal_strlit("finished_at < ?");
    let a: Seq<Seq<char>> = if f.domain is Some { seq!["fqdn = ?"@] } else { seq![] };
    let b: Seq<Seq<char>> = if f.country is Some { seq!["dns_server_country = ?"@] } else { seq![] };
    let c: Seq<Seq<char>> = if f.success is Some { seq!["success = ?"@] } else { seq![] };
    let d: Seq<Seq<char>> = if f.from is Some { seq!["finished_at > ?"@] } else { seq![] };
    let e: Seq<Seq<char>> = if f.to is Some { seq!["finished_at < ?"@] } else { seq![] };
    let pa: Seq<QueryParam> = match f.domain { Some(x) => seq![QueryParam::Text(x)], None => seq![] };
    let pb: Seq<QueryParam> = match f.country { Some(x) => seq![QueryParam::Text(x)], None => seq![] };
    let pc: Seq<QueryParam> = match f.success { Some(x) => seq![QueryParam::Flag(x)], None => seq![] };
    let pd: Seq<QueryParam> = match f.from { Some(x) => seq![QueryParam::Instant(x)], None => seq![] };
    let pe: Seq<QueryParam> = match f.to { Some(x) => seq![QueryParam::Instant(x)], None => seq![] };
    let head = a + b + c;
    let phead = pa + pb + pc;
    assert(dns_conditions(f) == head + d + e);
    assert(dns_query_params(f, limit) == phead + pd + pe + seq![QueryParam::Count(limit)]);
    assert(head.len() == leading_conditions(f));
    assert(phead.len() == leading_conditions(f));
    assert("fqdn = ?"@ != "finished_at > ?"@ && "fqdn = ?"@ != "finished_at < ?"@) by {
        assert("fqdn = ?"@.len() != "finished_at > ?"@.len());
    }
    assert("success = ?"@ != "finished_at > ?"@ && "success = ?"@ != "finished_at < ?"@) by {
        assert("success = ?"@.len() != "finished_at > ?"@.len());
    }
    assert("dns_server_country = ?"@ != "finished_at > ?"@ && "dns_server_country = ?"@
        != "finished_at < ?"@) by {
        assert("dns_server_country = ?"@.len() != "finished_at > ?"@.len());
    }
    assert forall|i: int| 0 <= i < head.len() implies head[i] != "finished_at > ?"@ && head[i]
        != "finished_at < ?"@ by {
        assert(head[i] == "fqdn = ?"@ || head[i] == "dns_server_country = ?"@ || head[i]
            == "success = ?"@);
    }
    assert forall|i: int| 0 <= i < leading_conditions(f) implies dns_conditions(f)[i]
        != "finished_at > ?"@ && dns_conditions(f)[i] != "finished_at < ?"@ by {
        assert(dns_conditions(f)[i] == head[i]);
    }
}

/// The time bounds of the DNS history query: when `from` is set, a condition
/// `finished_at > ?` bound to `from` keeps only rows after it; when `to` is
/// set, a condition `finished_at < ?` bound to `to` keeps only rows before
/// it.  Each holds whether or not the other bound is set, and no condition of
/// either shape appears without its bound.
pub proof fn lemma_dns_query_time_bounds(f: DnsQueryFilter, limit: u64)
    ensures
        f.from matches Some(t) ==> exists|i: int|
            0 <= i < dns_conditions(f).len() && #[trigger] dns_conditions(f)[i] == "finished_at > ?"@
                && dns_query_params(f, limit)[i] == QueryParam::Instant(t),
        f.to matches Some(t) ==> exists|i: int|
            0 <= i < dns_conditions(f).len() && #[trigger] dns_conditions(f)[i] == "finished_at < ?"@
                && dns_query_params(f, limit)[i] == QueryParam::Instant(t),
        forall|i: int|
            0 <= i < dns_conditions(f).len() && #[trigger] dns_conditions(f)[i] == "finished_at > ?"@
                ==> (f.from matches Some(t) && dns_query_params(f, limit)[i] == QueryParam::Instant(t)),
        forall|i: int|
            0 <= i < dns_conditions(f).len() && #[trigger] dns_conditions(f)[i] == "finished_at < ?"@
                ==> (f.to matches Some(t) && dns_query_params(f, limit)[i] == QueryParam::Instant(t)),
{
    lemma_condition_layout(f, limit);
    reveal_strlit("finished_at > ?");
    reveal_strlit("finished_at < ?");
    let k = leading_conditions(f);
    assert("finished_at > ?"@ != "finished_at < ?"@) by {
        assert("finished_at > ?"@[12] != "finished_at < ?"@[12]);
    }
    if let Some(t) = f.from {
        assert(dns_conditions(f)[k] == "finished_at > ?"@);
    }
    if let Some(t) = f.to {
        let k2 = k + if f.from is Some { 1int } else { 0int };
        assert(dns_conditions(f)[k2] == "finished_at < ?"@);
    }
}

/// The DNS history query binds exactly one value per placeholder, provided
/// the table name itself holds no `?`.
pub proof fn lemma_dns_query_one_value_per_placeholder(
    table: Seq<char>,
    f: DnsQueryFilter,
    limit: u64,
)
    requires
        placeholders(table) == 0,
    ensures
        placeholders(dns_query_sql(table, f)) == dns_query_params(f, limit).len(),
{
    let conds = dns_conditions(f);
    lemma_select_prefix_has_none();
    lemma_condition_placeholders(f);
    reveal_strlit(" WHERE ");
    reveal_strlit(" AND ");
    reveal_strlit(" ORDER BY finished_at DESC LIMIT ?");
    assert(" ORDER BY finished_at DESC LIMIT ?"@.len() == 34);
    reveal_with_fuel(count_from, 8);
    assert(placeholders(" WHERE "@) == 0);
    assert(placeholders(" AND "@) == 0);
    assert(count_from(" ORDER BY finished_at DESC LIMIT ?"@, 34) == 0);
    assert(count_from(" ORDER BY finished_at DESC LIMIT ?"@, 28) == 1);
    assert(count_from(" ORDER BY finished_at DESC LIMIT ?"@, 21) == 1);
    assert(count_from(" ORDER BY finished_at DESC LIMIT ?"@, 14) == 1);
    assert(count_from(" ORDER BY finished_at DESC LIMIT ?"@, 7) == 1);
    assert(count_from(" ORDER BY finished_at DESC LIMIT ?"@, 0) == 1);
    let where_part: Seq<char> = if conds.len() > 0 {
        " WHERE "@ + joined(conds, " AND "@)
    } else {
        seq![]
    };
    if conds.len() > 0 {
        lemma_joined_placeholders(conds, " AND "@);
        lemma_placeholders_concat(" WHERE "@, joined(conds, " AND "@));
    } else {
        assert(placeholders(where_part) == 0);
    }
    lemma_placeholders_concat(dns_select_prefix(), table);
    lemma_placeholders_concat(dns_select_prefix() + table, where_part);
    lemma_placeholders_concat(
        dns_select_prefix() + table + where_part,
        " ORDER BY finished_at DESC LIMIT ?"@,
    );
    assert(conds.len() + 1 == dns_query_params(f, limit).len());
}

} // verus!

//! SQL text for the DuckDB usage tables: the fact-row insert statement, the
//! compaction copy, and select lists, filters and connection settings that
//! adapt to the columns a table actually has.
use vstd::prelude::*;
use crate::text::{decimal, push_decimal, string_push};

verus! {

/// The names of a table's columns, as character sequences.
pub open spec fn column_views(columns: Seq<String>) -> Seq<Seq<char>> {
    columns.map_values(|c: String| c@)
}

/// Whether a table with columns `columns` has the column `column`.
pub open spec fn has_column(columns: Seq<String>, column: Seq<char>) -> bool {
    exists|j: int| 0 <= j < columns.len() && #[trigger] columns[j]@ == column
}

/// Whether `column` is among `columns`.
pub fn contains_column(columns: &Vec<String>, column: &str) -> (r: bool)
    ensures
        r == has_column(columns@, column@),
{
    let target = column.to_owned();
    let mut i: usize = 0;
    while i < columns.len()
        invariant
            i <= columns.len(),
            target@ == column@,
            forall|j: int| 0 <= j < i ==> columns@[j]@ != column@,
        decreases columns.len() - i,
    {
        if columns[i] == target {
            return true;
        }
        i = i + 1;
    }
    false
}

/// `parts` joined with `sep` between consecutive parts.
pub open spec fn joined(parts: Seq<Seq<char>>, sep: Seq<char>) -> Seq<char>
    decreases parts.len(),
{
    if parts.len() == 0 {
        Seq::empty()
    } else if parts.len() == 1 {
        parts[0]
    } else {
        joined(parts.drop_last(), sep) + sep + parts.last()
    }
}

/// Joins strings with a separator (`[String]::join`).
pub fn join_strings(parts: &Vec<String>, sep: &str) -> (r: String)
    ensures
        r@ == joined(column_views(parts@), sep@),
{
    let mut s = String::new();
    let ghost views = column_views(parts@);
    let mut i: usize = 0;
    while i < parts.len()
        invariant
            i <= parts.len(),
            views == column_views(parts@),
            s@ == joined(views.subrange(0, i as int), sep@),
        decreases parts.len() - i,
    {
        if i > 0 {
            s.append(sep);
        }
        s.append(parts[i].as_str());
        assert(views.subrange(0, i + 1).drop_last() =~= views.subrange(0, i as int));
        i = i + 1;
    }
    assert(views.subrange(0, parts.len() as int) =~= views);
    s
}

/// `sql AS column`.
pub open spec fn aliased(sql: Seq<char>, column: Seq<char>) -> Seq<char> {
    sql + " AS "@ + column
}

/// A selected column that every schema version has: `e.column AS column`.
pub open spec fn required_expr(column: Seq<char>) -> Seq<char> {
    aliased("e."@ + column, column)
}

/// `present` aliased to `column` when the table has it, else `missing`.
pub open spec fn adaptive_expr(
    columns: Seq<String>,
    column: Seq<char>,
    present: Seq<char>,
    missing: Seq<char>,
) -> Seq<char> {
    aliased(if has_column(columns, column) { present } else { missing }, column)
}

/// `e.column` aliased to `column` when the table has it, else `missing`.
pub open spec fn column_expr(columns: Seq<String>, column: Seq<char>, missing: Seq<char>) -> Seq<
    char,
> {
    adaptive_expr(columns, column, "e."@ + column, missing)
}

/// Required column expression of the compaction copy.
pub fn compact_source_required_expr(column: &str) -> (r: String)
    ensures
        r@ == required_expr(column@),
{
    let mut s = String::new();
    s.append("e.");
    s.append(column);
    s.append(" AS ");
    s.append(column);
    s
}

/// Optional column expression of the compaction copy.
pub fn compact_source_column_expr(columns: &Vec<String>, column: &str, missing_sql: &str) -> (r:
    String)
    ensures
        r@ == column_expr(columns@, column@, missing_sql@),
{
    let mut present = String::new();
    present.append("e.");
    present.append(column);
    compact_source_expr(columns, column, present.as_str(), missing_sql)
}

/// Expression of the compaction copy that depends on whether the column exists.
pub fn compact_source_expr(
    columns: &Vec<String>,
    column: &str,
    present_sql: &str,
    missing_sql: &str,
) -> (r: String)
    ensures
        r@ == adaptive_expr(columns@, column@, present_sql@, missing_sql@),
{
    let mut s = if contains_column(columns, column) {
        present_sql.to_owned()
    } else {
        missing_sql.to_owned()
    };
    s.append(" AS ");
    s.append(column);
    s
}

/// Required column expression of the usage event select list.
pub fn usage_event_required_expr(column: &str) -> (r: String)
    ensures
        r@ == required_expr(column@),
{
    compact_source_required_expr(column)
}

/// Optional column expression of the usage event select list.
pub fn usage_event_column_expr(columns: &Vec<String>, column: &str, missing_sql: &str) -> (r:
    String)
    ensures
        r@ == column_expr(columns@, column@, missing_sql@),
{
    let mut present = String::new();
    present.append("e.");
    present.append(column);
    usage_event_expr(columns, column, present.as_str(), missing_sql)
}

/// Select-list expression that depends on whether the column exists.
pub fn usage_event_expr(columns: &Vec<String>, column: &str, present_sql: &str, missing_sql: &str) -> (r:
    String)
    ensures
        r@ == adaptive_expr(columns@, column@, present_sql@, missing_sql@),
{
    compact_source_expr(columns, column, present_sql, missing_sql)
}

/// `alias.column` when the table has the column, else `missing`.
pub open spec fn filter_column_sql(
    columns: Seq<String>,
    table_alias: Seq<char>,
    column: Seq<char>,
    missing: Seq<char>,
) -> Seq<char> {
    if has_column(columns, column) {
        table_alias + "."@ + column
    } else {
        missing
    }
}

/// Column reference used by the usage event filters.
pub fn usage_event_filter_column_sql(
    columns: &Vec<String>,
    table_alias: &str,
    column: &str,
    missing_sql: &str,
) -> (r: String)
    ensures
        r@ == filter_column_sql(columns@, table_alias@, column@, missing_sql@),
{
    if contains_column(columns, column) {
        let mut s = table_alias.to_owned();
        s.append(".");
        s.append(column);
        s
    } else {
        missing_sql.to_owned()
    }
}

/// The WHERE clause shared by the usage event list and totals queries, over
/// the column references it filters on.
pub open spec fn filter_where(
    alias: Seq<char>,
    model: Seq<char>,
    account: Seq<char>,
    endpoint: Seq<char>,
    status: Seq<char>,
) -> Seq<char> {
    "WHERE (?1 IS NULL OR "@ + alias + ".key_id = ?1)\n      AND (?2 IS NULL OR "@ + alias
        + ".provider_type = ?2)\n      AND (?3 IS NULL OR "@ + alias
        + ".created_at_ms >= ?3)\n      AND (?4 IS NULL OR "@ + alias
        + ".created_at_ms < ?4)\n      AND (?5 IS NULL OR "@ + model
        + " = ?5)\n      AND (?6 IS NULL OR "@ + account + " = ?6)\n      AND (?7 IS NULL OR "@
        + endpoint + " = ?7)\n      AND (?8 IS NULL OR "@ + status
        + " = ?8)\n      AND (?9 IS NULL\n           OR (?9 = 'ok' AND "@ + status
        + " = 200)\n           OR (?9 = 'non_ok' AND "@ + status + " <> 200))"@
}

/// The usage event WHERE clause for a table with columns `columns`.
pub open spec fn usage_event_filter_where(columns: Seq<String>, alias: Seq<char>) -> Seq<char> {
    filter_where(
        alias,
        filter_column_sql(columns, alias, "model"@, "CAST(NULL AS VARCHAR)"@),
        filter_column_sql(columns, alias, "account_name"@, "CAST(NULL AS VARCHAR)"@),
        filter_column_sql(columns, alias, "endpoint"@, "CAST(NULL AS VARCHAR)"@),
        filter_column_sql(columns, alias, "status_code"@, "CAST(NULL AS INTEGER)"@),
    )
}

/// WHERE clause of the usage event queries, binding the nine optional filters
/// `?1`..`?9`.
pub fn usage_event_filter_where_sql(columns: &Vec<String>, table_alias: &str) -> (r: String)
    ensures
        r@ == usage_event_filter_where(columns@, table_alias@),
{
    let model_sql = usage_event_filter_column_sql(
        columns,
        table_alias,
        "model",
        "CAST(NULL AS VARCHAR)",
    );
    let account_name_sql = usage_event_filter_column_sql(
        columns,
        table_alias,
        "account_name",
        "CAST(NULL AS VARCHAR)",
    );
    let endpoint_sql = usage_event_filter_column_sql(
        columns,
        table_alias,
        "endpoint",
        "CAST(NULL AS VARCHAR)",
    );
    let status_code_sql = usage_event_filter_column_sql(
        columns,
        table_alias,
        "status_code",
        "CAST(NULL AS INTEGER)",
    );
    let mut s = String::new();
    s.append("WHERE (?1 IS NULL OR ");
    s.append(table_alias);
    s.append(".key_id = ?1)\n      AND (?2 IS NULL OR ");
    s.append(table_alias);
    s.append(".provider_type = ?2)\n      AND (?3 IS NULL OR ");
    s.append(table_alias);
    s.append(".created_at_ms >= ?3)\n      AND (?4 IS NULL OR ");
    s.append(table_alias);
    s.append(".created_at_ms < ?4)\n      AND (?5 IS NULL OR ");
    s.append(model_sql.as_str());
    s.append(" = ?5)\n      AND (?6 IS NULL OR ");
    s.append(account_name_sql.as_str());
    s.append(" = ?6)\n      AND (?7 IS NULL OR ");
    s.append(endpoint_sql.as_str());
    s.append(" = ?7)\n      AND (?8 IS NULL OR ");
    s.append(status_code_sql.as_str());
    s.append(" = ?8)\n      AND (?9 IS NULL\n           OR (?9 = 'ok' AND ");
    s.append(status_code_sql.as_str());
    s.append(" = 200)\n           OR (?9 = 'non_ok' AND ");
    s.append(status_code_sql.as_str());
    s.append(" <> 200))");
    s
}

/// `value` with every single quote doubled.
pub open spec fn escape_quotes(value: Seq<char>) -> Seq<char>
    decreases value.len(),
{
    if value.len() == 0 {
        Seq::empty()
    } else {
        escape_quotes(value.drop_last()) + (if value.last() == '\'' {
            seq!['\'', '\'']
        } else {
            seq![value.last()]
        })
    }
}

/// A DuckDB string literal denoting `value`.
pub open spec fn string_literal(value: Seq<char>) -> Seq<char> {
    seq!['\''] + escape_quotes(value) + seq!['\'']
}

/// Quotes a value as a DuckDB string literal.
pub fn duckdb_string_literal(value: &str) -> (r: String)
    ensures
        r@ == string_literal(value@),
{
    let chars = crate::text::chars_of(value);
    let mut s = String::new();
    string_push(&mut s, '\'');
    let mut i: usize = 0;
    while i < chars.len()
        invariant
            i <= chars.len(),
            s@ == seq!['\''] + escape_quotes(chars@.subrange(0, i as int)),
        decreases chars.len() - i,
    {
        let c = chars[i];
        string_push(&mut s, c);
        if c == '\'' {
            string_push(&mut s, '\'');
        }
        assert(chars@.subrange(0, i + 1).drop_last() =~= chars@.subrange(0, i as int));
        assert(s@ =~= seq!['\''] + escape_quotes(chars@.subrange(0, i + 1)));
        i = i + 1;
    }
    string_push(&mut s, '\'');
    assert(chars@.subrange(0, chars.len() as int) =~= chars@);
    s
}

/// A DuckDB size setting in MiB, at least one: `<n>MB`.
pub open spec fn mib_setting(value_mib: u64) -> Seq<char> {
    decimal((if value_mib < 1 { 1 } else { value_mib }) as nat) + "MB"@
}

/// Renders a MiB size setting.
pub fn duckdb_mib_setting(value_mib: u64) -> (r: String)
    ensures
        r@ == mib_setting(value_mib),
{
    let mut s = String::new();
    push_decimal(&mut s, if value_mib < 1 { 1 } else { value_mib });
    s.append("MB");
    assert(Seq::<char>::empty() + decimal((if value_mib < 1 { 1 } else { value_mib }) as nat)
        =~= decimal((if value_mib < 1 { 1 } else { value_mib }) as nat));
    s
}

} // verus!

verus! {

/// Connection settings of a usage analytics connection.
pub open spec fn usage_connection_sql(
    memory_limit_mib: u64,
    checkpoint_threshold_mib: u64,
    temp_dir: Seq<char>,
) -> Seq<char> {
    "\n        SET memory_limit="@ + string_literal(mib_setting(memory_limit_mib))
        + ";\n        SET checkpoint_threshold="@ + string_literal(
        mib_setting(checkpoint_threshold_mib),
    ) + ";\n        SET threads=1;\n        SET preserve_insertion_order=false;\n        SET temp_directory="@
        + string_literal(temp_dir) + ";\n        SET max_temp_directory_size="@ + string_literal(
        "2GB"@,
    ) + ";\n        "@
}

/// Settings applied to every usage analytics connection: memory limit,
/// checkpoint threshold, one thread, no insertion-order preservation and a
/// bounded temp directory.
pub fn duckdb_usage_connection_sql(
    connection_config: &crate::model::DuckDbUsageConnectionConfig,
    temp_dir_str: &str,
) -> (r: String)
    ensures
        r@ == usage_connection_sql(
            connection_config.memory_limit_mib,
            connection_config.checkpoint_threshold_mib,
            temp_dir_str@,
        ),
{
    let memory = duckdb_mib_setting(connection_config.memory_limit_mib);
    let checkpoint = duckdb_mib_setting(connection_config.checkpoint_threshold_mib);
    let mut s = String::new();
    s.append("\n        SET memory_limit=");
    s.append(duckdb_string_literal(memory.as_str()).as_str());
    s.append(";\n        SET checkpoint_threshold=");
    s.append(duckdb_string_literal(checkpoint.as_str()).as_str());
    s.append(";\n        SET threads=1;\n        SET preserve_insertion_order=false;\n        SET temp_directory=");
    s.append(duckdb_string_literal(temp_dir_str).as_str());
    s.append(";\n        SET max_temp_directory_size=");
    s.append(duckdb_string_literal("2GB").as_str());
    s.append(";\n        ");
    s
}

/// Connection settings of a compaction connection.
pub open spec fn compact_connection_sql(memory_limit_mib: u64, temp_dir: Seq<char>) -> Seq<char> {
    "\n        SET memory_limit="@ + string_literal(mib_setting(memory_limit_mib))
        + ";\n        SET threads=1;\n        SET preserve_insertion_order=false;\n        SET temp_directory="@
        + string_literal(temp_dir) + ";\n        SET max_temp_directory_size="@ + string_literal(
        "8GB"@,
    ) + ";\n        "@
}

/// Settings applied to a segment compaction connection.
pub fn duckdb_compact_connection_sql(
    connection_config: crate::model::DuckDbUsageConnectionConfig,
    temp_dir: &str,
) -> (r: String)
    ensures
        r@ == compact_connection_sql(connection_config.memory_limit_mib, temp_dir@),
{
    let memory = duckdb_mib_setting(connection_config.memory_limit_mib);
    let mut s = String::new();
    s.append("\n        SET memory_limit=");
    s.append(duckdb_string_literal(memory.as_str()).as_str());
    s.append(";\n        SET threads=1;\n        SET preserve_insertion_order=false;\n        SET temp_directory=");
    s.append(duckdb_string_literal(temp_dir).as_str());
    s.append(";\n        SET max_temp_directory_size=");
    s.append(duckdb_string_literal("8GB").as_str());
    s.append(";\n        ");
    s
}

} // verus!

verus! {

/// A detail payload column: read from the detail table, the fact table, or
/// both (detail first), or a default when neither has it.
pub open spec fn detail_payload_expr(
    columns: Seq<String>,
    detail_table_exists: bool,
    column: Seq<char>,
    missing: Seq<char>,
) -> Seq<char> {
    let sql = if detail_table_exists && has_column(columns, column) {
        "COALESCE(d."@ + column + ", e."@ + column + ")"@
    } else if detail_table_exists {
        "d."@ + column
    } else if has_column(columns, column) {
        "e."@ + column
    } else {
        missing
    };
    aliased(sql, column)
}

/// Select-list expression of a detail payload column.
pub fn usage_event_detail_payload_expr(
    event_columns: &Vec<String>,
    detail_table_exists: bool,
    column: &str,
    missing_sql: &str,
) -> (r: String)
    ensures
        r@ == detail_payload_expr(event_columns@, detail_table_exists, column@, missing_sql@),
{
    let has = contains_column(event_columns, column);
    let mut s = String::new();
    if detail_table_exists && has {
        s.append("COALESCE(d.");
        s.append(column);
        s.append(", e.");
        s.append(column);
        s.append(")");
    } else if detail_table_exists {
        s.append("d.");
        s.append(column);
    } else if has {
        s.append("e.");
        s.append(column);
    } else {
        s.append(missing_sql);
    }
    s.append(" AS ");
    s.append(column);
    s
}

/// The select list shared by the usage event summary and detail queries, in
/// the order the row decoder reads it.
pub open spec fn base_select(columns: Seq<String>, include_detail_payload: bool, detail_table_exists: bool) -> Seq<
    Seq<char>,
> {
    let nv = "CAST(NULL AS VARCHAR)"@;
    let ni = "CAST(NULL AS INTEGER)"@;
    let nb = "CAST(NULL AS BOOLEAN)"@;
    let nl = "CAST(NULL AS BIGINT)"@;
    seq![
        required_expr("event_id"@),
        required_expr("created_at_ms"@),
        required_expr("provider_type"@),
        required_expr("protocol_family"@),
        required_expr("key_id"@),
        column_expr(columns, "key_name"@, "e.key_id"@),
        column_expr(columns, "account_name"@, nv),
        column_expr(columns, "account_group_id_at_event"@, nv),
        column_expr(columns, "route_strategy_at_event"@, nv),
        column_expr(columns, "request_method"@, "'POST'"@),
        column_expr(columns, "request_url"@, "''"@),
        required_expr("endpoint"@),
        column_expr(columns, "model"@, nv),
        column_expr(columns, "mapped_model"@, nv),
        required_expr("status_code"@),
        column_expr(columns, "request_body_bytes"@, nl),
        column_expr(columns, "quota_failover_count"@, "CAST(0 AS BIGINT)"@),
        if include_detail_payload {
            detail_payload_expr(columns, detail_table_exists, "routing_diagnostics_json"@, nv)
        } else {
            "CAST(NULL AS VARCHAR) AS routing_diagnostics_json"@
        },
        required_expr("input_uncached_tokens"@),
        required_expr("input_cached_tokens"@),
        required_expr("output_tokens"@),
        required_expr("billable_tokens"@),
        adaptive_expr(columns, "credit_usage"@, "CAST(credit_usage AS VARCHAR)"@, nv),
        column_expr(columns, "usage_missing"@, "false"@),
        column_expr(columns, "credit_usage_missing"@, "true"@),
        column_expr(columns, "latency_ms"@, ni),
        column_expr(columns, "routing_wait_ms"@, ni),
        column_expr(columns, "upstream_headers_ms"@, ni),
        column_expr(columns, "post_headers_body_ms"@, ni),
        column_expr(columns, "request_body_read_ms"@, ni),
        column_expr(columns, "request_json_parse_ms"@, ni),
        column_expr(columns, "pre_handler_ms"@, ni),
        column_expr(columns, "first_sse_write_ms"@, ni),
        column_expr(columns, "stream_finish_ms"@, ni),
        column_expr(columns, "stream_completed_cleanly"@, nb),
        column_expr(columns, "downstream_disconnect"@, nb),
        column_expr(columns, "final_event_type"@, nv),
        column_expr(columns, "bytes_streamed"@, nl),
        column_expr(columns, "client_ip"@, nv),
        column_expr(columns, "ip_region"@, nv),
    ]
}

/// Select-list expressions shared by the summary and detail queries.
#[verifier::rlimit(50)]
pub fn usage_event_base_select_exprs(
    columns: &Vec<String>,
    include_detail_payload: bool,
    detail_table_exists: bool,
) -> (r: Vec<String>)
    ensures
        column_views(r@) == base_select(columns@, include_detail_payload, detail_table_exists),
{
    let routing = if include_detail_payload {
        usage_event_detail_payload_expr(
            columns,
            detail_table_exists,
            "routing_diagnostics_json",
            "CAST(NULL AS VARCHAR)",
        )
    } else {
        "CAST(NULL AS VARCHAR) AS routing_diagnostics_json".to_owned()
    };
    let r = vec![
        usage_event_required_expr("event_id"),
        usage_event_required_expr("created_at_ms"),
        usage_event_required_expr("provider_type"),
        usage_event_required_expr("protocol_family"),
        usage_event_required_expr("key_id"),
        usage_event_column_expr(columns, "key_name", "e.key_id"),
        usage_event_column_expr(columns, "account_name", "CAST(NULL AS VARCHAR)"),
        usage_event_column_expr(columns, "account_group_id_at_event", "CAST(NULL AS VARCHAR)"),
        usage_event_column_expr(columns, "route_strategy_at_event", "CAST(NULL AS VARCHAR)"),
        usage_event_column_expr(columns, "request_method", "'POST'"),
        usage_event_column_expr(columns, "request_url", "''"),
        usage_event_required_expr("endpoint"),
        usage_event_column_expr(columns, "model", "CAST(NULL AS VARCHAR)"),
        usage_event_column_expr(columns, "mapped_model", "CAST(NULL AS VARCHAR)"),
        usage_event_required_expr("status_code"),
        usage_event_column_expr(columns, "request_body_bytes", "CAST(NULL AS BIGINT)"),
        usage_event_column_expr(columns, "quota_failover_count", "CAST(0 AS BIGINT)"),
        routing,
        usage_event_required_expr("input_uncached_tokens"),
        usage_event_required_expr("input_cached_tokens"),
        usage_event_required_expr("output_tokens"),
        usage_event_required_expr("billable_tokens"),
        usage_event_expr(
            columns,
            "credit_usage",
            "CAST(credit_usage AS VARCHAR)",
            "CAST(NULL AS VARCHAR)",
        ),
        usage_event_column_expr(columns, "usage_missing", "false"),
        usage_event_column_expr(columns, "credit_usage_missing", "true"),
        usage_event_column_expr(columns, "latency_ms", "CAST(NULL AS INTEGER)"),
        usage_event_column_expr(columns, "routing_wait_ms", "CAST(NULL AS INTEGER)"),
        usage_event_column_expr(columns, "upstream_headers_ms", "CAST(NULL AS INTEGER)"),
        usage_event_column_expr(columns, "post_headers_body_ms", "CAST(NULL AS INTEGER)"),
        usage_event_column_expr(columns, "request_body_read_ms", "CAST(NULL AS INTEGER)"),
        usage_event_column_expr(columns, "request_json_parse_ms", "CAST(NULL AS INTEGER)"),
        usage_event_column_expr(columns, "pre_handler_ms", "CAST(NULL AS INTEGER)"),
        usage_event_column_expr(columns, "first_sse_write_ms", "CAST(NULL AS INTEGER)"),
        usage_event_column_expr(columns, "stream_finish_ms", "CAST(NULL AS INTEGER)"),
        usage_event_column_expr(columns, "stream_completed_cleanly", "CAST(NULL AS BOOLEAN)"),
        usage_event_column_expr(columns, "downstream_disconnect", "CAST(NULL AS BOOLEAN)"),
        usage_event_column_expr(columns, "final_event_type", "CAST(NULL AS VARCHAR)"),
        usage_event_column_expr(columns, "bytes_streamed", "CAST(NULL AS BIGINT)"),
        usage_event_column_expr(columns, "client_ip", "CAST(NULL AS VARCHAR)"),
        usage_event_column_expr(columns, "ip_region", "CAST(NULL AS VARCHAR)"),
    ];
    assert(column_views(r@) =~= base_select(columns@, include_detail_payload, detail_table_exists));
    r
}

} // verus!

verus! {

/// The summary select list: the shared list without detail payloads, and an
/// empty last-message preview.
pub open spec fn summary_select(columns: Seq<String>) -> Seq<Seq<char>> {
    base_select(columns, false, false).push("CAST(NULL AS VARCHAR) AS last_message_content"@)
}

/// Select-list expressions of the usage event summary query.
pub fn usage_event_summary_select_exprs(columns: &Vec<String>) -> (r: Vec<String>)
    ensures
        column_views(r@) == summary_select(columns@),
{
    let mut exprs = usage_event_base_select_exprs(columns, false, false);
    exprs.push("CAST(NULL AS VARCHAR) AS last_message_content".to_owned());
    assert(column_views(exprs@) =~= summary_select(columns@));
    exprs
}

/// Separator between select-list expressions.
pub open spec fn select_sep() -> Seq<char> {
    ",\n        "@
}

/// The paged usage event summary query for a fact table with `columns`.
pub open spec fn list_summaries_sql(columns: Seq<String>) -> Seq<char> {
    "SELECT "@ + joined(summary_select(columns), select_sep()) + "\n    FROM usage_events e\n    "@
        + usage_event_filter_where(columns, "e"@) + "\n    LIMIT ?10 OFFSET ?11"@
}

/// Paged summary query over the usage events: the nine filters of the shared
/// WHERE clause, then `LIMIT ?10 OFFSET ?11`.
pub fn list_usage_event_summaries_sql(columns: &Vec<String>) -> (r: String)
    ensures
        r@ == list_summaries_sql(columns@),
{
    let exprs = usage_event_summary_select_exprs(columns);
    let select = join_strings(&exprs, ",\n        ");
    let where_sql = usage_event_filter_where_sql(columns, "e");
    let mut s = String::new();
    s.append("SELECT ");
    s.append(select.as_str());
    s.append("\n    FROM usage_events e\n    ");
    s.append(where_sql.as_str());
    s.append("\n    LIMIT ?10 OFFSET ?11");
    s
}

/// The usage event totals query for a fact table with `columns`.
pub open spec fn totals_sql(columns: Seq<String>) -> Seq<char> {
    "SELECT\n            count(*) AS event_count,\n            COALESCE(sum(e.input_uncached_tokens), 0) AS input_uncached_tokens,\n            COALESCE(sum(e.input_cached_tokens), 0) AS input_cached_tokens,\n            COALESCE(sum(e.output_tokens), 0) AS output_tokens,\n            COALESCE(sum(e.billable_tokens), 0) AS billable_tokens\n         FROM usage_events e\n         "@
        + usage_event_filter_where(columns, "e"@)
}

/// Count and token totals of the usage events that match the shared filters.
pub fn usage_event_totals_sql(columns: &Vec<String>) -> (r: String)
    ensures
        r@ == totals_sql(columns@),
{
    let where_sql = usage_event_filter_where_sql(columns, "e");
    let mut s = String::new();
    s.append(
        "SELECT\n            count(*) AS event_count,\n            COALESCE(sum(e.input_uncached_tokens), 0) AS input_uncached_tokens,\n            COALESCE(sum(e.input_cached_tokens), 0) AS input_cached_tokens,\n            COALESCE(sum(e.output_tokens), 0) AS output_tokens,\n            COALESCE(sum(e.billable_tokens), 0) AS billable_tokens\n         FROM usage_events e\n         ",
    );
    s.append(where_sql.as_str());
    s
}

/// The detail select list: the shared list with payloads, then the payload
/// columns and the external detail object reference.
pub open spec fn detail_select(columns: Seq<String>, detail_table_exists: bool) -> Seq<Seq<char>> {
    let nv = "CAST(NULL AS VARCHAR)"@;
    base_select(columns, true, detail_table_exists) + seq![
        detail_payload_expr(columns, detail_table_exists, "last_message_content"@, nv),
        detail_payload_expr(columns, detail_table_exists, "request_headers_json"@, "'{}'"@),
        detail_payload_expr(columns, detail_table_exists, "client_request_body_json"@, nv),
        detail_payload_expr(columns, detail_table_exists, "upstream_request_body_json"@, nv),
        detail_payload_expr(columns, detail_table_exists, "full_request_json"@, nv),
        detail_payload_expr(columns, detail_table_exists, "error_message"@, nv),
        detail_payload_expr(columns, detail_table_exists, "error_body"@, nv),
        column_expr(columns, "detail_object_path"@, nv),
        column_expr(columns, "detail_object_offset"@, "CAST(NULL AS BIGINT)"@),
        column_expr(columns, "detail_object_length"@, "CAST(NULL AS BIGINT)"@),
        column_expr(columns, "detail_object_sha256"@, nv),
    ]
}

/// Select-list expressions of the single usage event detail query.
pub fn usage_event_detail_select_exprs(columns: &Vec<String>, detail_table_exists: bool) -> (r:
    Vec<String>)
    ensures
        column_views(r@) == detail_select(columns@, detail_table_exists),
{
    let mut exprs = usage_event_base_select_exprs(columns, true, detail_table_exists);
    let tail = vec![
        usage_event_detail_payload_expr(
            columns,
            detail_table_exists,
            "last_message_content",
            "CAST(NULL AS VARCHAR)",
        ),
        usage_event_detail_payload_expr(columns, detail_table_exists, "request_headers_json", "'{}'"),
        usage_event_detail_payload_expr(
            columns,
            detail_table_exists,
            "client_request_body_json",
            "CAST(NULL AS VARCHAR)",
        ),
        usage_event_detail_payload_expr(
            columns,
            detail_table_exists,
            "upstream_request_body_json",
            "CAST(NULL AS VARCHAR)",
        ),
        usage_event_detail_payload_expr(
            columns,
            detail_table_exists,
            "full_request_json",
            "CAST(NULL AS VARCHAR)",
        ),
        usage_event_detail_payload_expr(
            columns,
            detail_table_exists,
            "error_message",
            "CAST(NULL AS VARCHAR)",
        ),
        usage_event_detail_payload_expr(
            columns,
            detail_table_exists,
            "error_body",
            "CAST(NULL AS VARCHAR)",
        ),
        usage_event_column_expr(columns, "detail_object_path", "CAST(NULL AS VARCHAR)"),
        usage_event_column_expr(columns, "detail_object_offset", "CAST(NULL AS BIGINT)"),
        usage_event_column_expr(columns, "detail_object_length", "CAST(NULL AS BIGINT)"),
        usage_event_column_expr(columns, "detail_object_sha256", "CAST(NULL AS VARCHAR)"),
    ];
    let mut i: usize = 0;
    let ghost head = exprs@;
    while i < tail.len()
        invariant
            i <= tail.len(),
            exprs@ == head + tail@.subrange(0, i as int),
        decreases tail.len() - i,
    {
        exprs.push(tail[i].clone());
        assert(head + tail@.subrange(0, i + 1) =~= (head + tail@.subrange(0, i as int)).push(
            tail@[i as int],
        ));
        i = i + 1;
    }
    assert(tail@.subrange(0, tail.len() as int) =~= tail@);
    assert(column_views(exprs@) =~= detail_select(columns@, detail_table_exists));
    exprs
}

/// The single usage event detail query.
pub open spec fn detail_sql(columns: Seq<String>, detail_table_exists: bool) -> Seq<char> {
    "SELECT "@ + joined(detail_select(columns, detail_table_exists), select_sep()) + "\n    "@
        + (if detail_table_exists {
        "FROM usage_events e\n    LEFT JOIN usage_event_details d ON d.event_id = e.event_id"@
    } else {
        "FROM usage_events e"@
    }) + "\n    WHERE e.event_id = ?1"@
}

/// Detail query for one event id (`?1`), joining the detail table when it
/// exists.
pub fn get_usage_event_detail_sql(columns: &Vec<String>, detail_table_exists: bool) -> (r: String)
    ensures
        r@ == detail_sql(columns@, detail_table_exists),
{
    let exprs = usage_event_detail_select_exprs(columns, detail_table_exists);
    let select = join_strings(&exprs, ",\n        ");
    let mut s = String::new();
    s.append("SELECT ");
    s.append(select.as_str());
    s.append("\n    ");
    if detail_table_exists {
        s.append(
            "FROM usage_events e\n    LEFT JOIN usage_event_details d ON d.event_id = e.event_id",
        );
    } else {
        s.append("FROM usage_events e");
    }
    s.append("\n    WHERE e.event_id = ?1");
    s
}

/// Insert statement of the detail side table.
pub open spec fn insert_detail_sql() -> Seq<char> {
    "INSERT INTO usage_event_details (\n        event_id, request_headers_json, routing_diagnostics_json,\n        last_message_content, client_request_body_json,\n        upstream_request_body_json, full_request_json, error_message,\n        error_body\n     ) VALUES (\n        ?1, ?2, ?3, ?4, ?5, ?6, ?7, ?8, ?9\n     )\n     ON CONFLICT DO NOTHING"@
}

/// Return the insert statement for the `usage_event_details` side table.
pub fn insert_usage_event_detail_sql() -> (r: &'static str)
    ensures
        r@ == insert_detail_sql(),
{
    "INSERT INTO usage_event_details (\n        event_id, request_headers_json, routing_diagnostics_json,\n        last_message_content, client_request_body_json,\n        upstream_request_body_json, full_request_json, error_message,\n        error_body\n     ) VALUES (\n        ?1, ?2, ?3, ?4, ?5, ?6, ?7, ?8, ?9\n     )\n     ON CONFLICT DO NOTHING"
}

/// The insert statement of the `usage_events` fact table.
pub open spec fn insert_event_sql() -> Seq<char> {
    "INSERT INTO usage_events (\n        source_seq, source_event_id, event_id, created_at_ms, created_at,\n        created_date, created_hour, provider_type, protocol_family, key_id,\n        key_name, key_status_at_event, account_name, account_group_id_at_event,\n        route_strategy_at_event, request_method, request_url, endpoint, model,\n        mapped_model, status_code, latency_ms, routing_wait_ms,\n        upstream_headers_ms, post_headers_body_ms, request_body_read_ms,\n        request_json_parse_ms, pre_handler_ms, first_sse_write_ms,\n        stream_finish_ms, stream_completed_cleanly, downstream_disconnect,\n        final_event_type, bytes_streamed, request_body_bytes,\n        quota_failover_count, input_uncached_tokens, input_cached_tokens,\n        output_tokens, billable_tokens, credit_usage, usage_missing,\n        credit_usage_missing, client_ip, ip_region, request_headers_json,\n        routing_diagnostics_json, last_message_content, detail_object_payload_present,\n        detail_object_path, detail_object_offset, detail_object_length, detail_object_sha256,\n        proxy_source_at_event, proxy_config_id_at_event, proxy_config_name_at_event,\n        proxy_url_at_event\n     ) VALUES (\n        ?1, ?2, ?3, ?4, to_timestamp(?4 / 1000.0),\n        CAST(to_timestamp(?4 / 1000.0) AS DATE),\n        date_trunc('hour', to_timestamp(?4 / 1000.0)),\n        ?5, ?6, ?7, ?8, ?9, ?10, ?11, ?12, ?13, ?14, ?15, ?16, ?17, ?18,\n        ?19, ?20, ?21, ?22, ?23, ?24, ?25, ?26, ?27, ?28, ?29, ?30, ?31,\n        ?32, ?33, ?34, ?35, ?36, ?37, ?38, ?39, ?40, ?41, ?42, ?43, ?44, ?45, ?46,\n        ?47, ?48, ?49, ?50, ?51, ?52, ?53, ?54\n     )\n     ON CONFLICT DO NOTHING"@
}

/// Return the insert statement for the DuckDB `usage_events` fact table.
pub fn insert_usage_event_sql() -> (r: &'static str)
    ensures
        r@ == insert_event_sql(),
{
    "INSERT INTO usage_events (\n        source_seq, source_event_id, event_id, created_at_ms, created_at,\n        created_date, created_hour, provider_type, protocol_family, key_id,\n        key_name, key_status_at_event, account_name, account_group_id_at_event,\n        route_strategy_at_event, request_method, request_url, endpoint, model,\n        mapped_model, status_code, latency_ms, routing_wait_ms,\n        upstream_headers_ms, post_headers_body_ms, request_body_read_ms,\n        request_json_parse_ms, pre_handler_ms, first_sse_write_ms,\n        stream_finish_ms, stream_completed_cleanly, downstream_disconnect,\n        final_event_type, bytes_streamed, request_body_bytes,\n        quota_failover_count, input_uncached_tokens, input_cached_tokens,\n        output_tokens, billable_tokens, credit_usage, usage_missing,\n        credit_usage_missing, client_ip, ip_region, request_headers_json,\n        routing_diagnostics_json, last_message_content, detail_object_payload_present,\n        detail_object_path, detail_object_offset, detail_object_length, detail_object_sha256,\n        proxy_source_at_event, proxy_config_id_at_event, proxy_config_name_at_event,\n        proxy_url_at_event\n     ) VALUES (\n        ?1, ?2, ?3, ?4, to_timestamp(?4 / 1000.0),\n        CAST(to_timestamp(?4 / 1000.0) AS DATE),\n        date_trunc('hour', to_timestamp(?4 / 1000.0)),\n        ?5, ?6, ?7, ?8, ?9, ?10, ?11, ?12, ?13, ?14, ?15, ?16, ?17, ?18,\n        ?19, ?20, ?21, ?22, ?23, ?24, ?25, ?26, ?27, ?28, ?29, ?30, ?31,\n        ?32, ?33, ?34, ?35, ?36, ?37, ?38, ?39, ?40, ?41, ?42, ?43, ?44, ?45, ?46,\n        ?47, ?48, ?49, ?50, ?51, ?52, ?53, ?54\n     )\n     ON CONFLICT DO NOTHING"
}

} // verus!

verus! {

/// Whether one captured payload column holds non-blank text.
pub open spec fn payload_check(column: Seq<char>) -> Seq<char> {
    "length(trim(COALESCE(CAST(e."@ + column + " AS VARCHAR), ''))) > 0"@
}

/// The payload checks for the payload columns that a table has.
pub open spec fn payload_checks(columns: Seq<String>) -> Seq<Seq<char>> {
    (if has_column(columns, "client_request_body_json"@) {
        seq![payload_check("client_request_body_json"@)]
    } else {
        Seq::empty()
    }) + (if has_column(columns, "upstream_request_body_json"@) {
        seq![payload_check("upstream_request_body_json"@)]
    } else {
        Seq::empty()
    }) + (if has_column(columns, "full_request_json"@) {
        seq![payload_check("full_request_json"@)]
    } else {
        Seq::empty()
    })
}

/// How the compaction copy derives `detail_object_payload_present`: the
/// stored flag when the source has it, else whether any payload column holds
/// text, else false.
pub open spec fn payload_present_expr(columns: Seq<String>) -> Seq<char> {
    if has_column(columns, "detail_object_payload_present"@) {
        "COALESCE(e.detail_object_payload_present, false) AS detail_object_payload_present"@
    } else if payload_checks(columns).len() == 0 {
        "CAST(false AS BOOLEAN) AS detail_object_payload_present"@
    } else {
        "("@ + joined(payload_checks(columns), " OR "@) + ") AS detail_object_payload_present"@
    }
}

/// Expression for `detail_object_payload_present` in the compaction copy.
pub fn compact_detail_object_payload_present_expr(columns: &Vec<String>) -> (r: String)
    ensures
        r@ == payload_present_expr(columns@),
{
    if contains_column(columns, "detail_object_payload_present") {
        return "COALESCE(e.detail_object_payload_present, false) AS detail_object_payload_present".to_owned();
    }
    let mut checks: Vec<String> = Vec::new();
    if contains_column(columns, "client_request_body_json") {
        checks.push(payload_check_sql("client_request_body_json"));
    }
    if contains_column(columns, "upstream_request_body_json") {
        checks.push(payload_check_sql("upstream_request_body_json"));
    }
    if contains_column(columns, "full_request_json") {
        checks.push(payload_check_sql("full_request_json"));
    }
    assert(column_views(checks@) =~= payload_checks(columns@));
    if checks.len() == 0 {
        "CAST(false AS BOOLEAN) AS detail_object_payload_present".to_owned()
    } else {
        let mut s = String::new();
        s.append("(");
        s.append(join_strings(&checks, " OR ").as_str());
        s.append(") AS detail_object_payload_present");
        s
    }
}

fn payload_check_sql(column: &str) -> (r: String)
    ensures
        r@ == payload_check(column@),
{
    let mut s = String::new();
    s.append("length(trim(COALESCE(CAST(e.");
    s.append(column);
    s.append(" AS VARCHAR), ''))) > 0");
    s
}

/// The select list of the compaction copy, one expression per fact column.
pub open spec fn compact_select(columns: Seq<String>) -> Seq<Seq<char>> {
    seq![
        required_expr("source_seq"@),
        required_expr("source_event_id"@),
        required_expr("event_id"@),
        required_expr("created_at_ms"@),
        required_expr("created_at"@),
        required_expr("created_date"@),
        required_expr("created_hour"@),
        required_expr("provider_type"@),
        required_expr("protocol_family"@),
        required_expr("key_id"@),
        required_expr("key_name"@),
        required_expr("key_status_at_event"@),
        column_expr(columns, "account_name"@, "CAST(NULL AS VARCHAR)"@),
        column_expr(columns, "account_group_id_at_event"@, "CAST(NULL AS VARCHAR)"@),
        column_expr(columns, "route_strategy_at_event"@, "CAST(NULL AS VARCHAR)"@),
        column_expr(columns, "request_method"@, "'POST'"@),
        column_expr(columns, "request_url"@, "''"@),
        required_expr("endpoint"@),
        column_expr(columns, "model"@, "CAST(NULL AS VARCHAR)"@),
        column_expr(columns, "mapped_model"@, "CAST(NULL AS VARCHAR)"@),
        required_expr("status_code"@),
        column_expr(columns, "latency_ms"@, "CAST(NULL AS INTEGER)"@),
        column_expr(columns, "routing_wait_ms"@, "CAST(NULL AS INTEGER)"@),
        column_expr(columns, "upstream_headers_ms"@, "CAST(NULL AS INTEGER)"@),
        column_expr(columns, "post_headers_body_ms"@, "CAST(NULL AS INTEGER)"@),
        column_expr(columns, "request_body_read_ms"@, "CAST(NULL AS INTEGER)"@),
        column_expr(columns, "request_json_parse_ms"@, "CAST(NULL AS INTEGER)"@),
        column_expr(columns, "pre_handler_ms"@, "CAST(NULL AS INTEGER)"@),
        column_expr(columns, "first_sse_write_ms"@, "CAST(NULL AS INTEGER)"@),
        column_expr(columns, "stream_finish_ms"@, "CAST(NULL AS INTEGER)"@),
        column_expr(columns, "stream_completed_cleanly"@, "CAST(NULL AS BOOLEAN)"@),
        column_expr(columns, "downstream_disconnect"@, "CAST(NULL AS BOOLEAN)"@),
        column_expr(columns, "final_event_type"@, "CAST(NULL AS VARCHAR)"@),
        column_expr(columns, "bytes_streamed"@, "CAST(NULL AS BIGINT)"@),
        column_expr(columns, "request_body_bytes"@, "CAST(NULL AS BIGINT)"@),
        column_expr(columns, "quota_failover_count"@, "CAST(0 AS BIGINT)"@),
        required_expr("input_uncached_tokens"@),
        required_expr("input_cached_tokens"@),
        required_expr("output_tokens"@),
        required_expr("billable_tokens"@),
        adaptive_expr(columns, "credit_usage"@, "CAST(e.credit_usage AS VARCHAR)"@, "CAST(NULL AS VARCHAR)"@),
        column_expr(columns, "usage_missing"@, "false"@),
        column_expr(columns, "credit_usage_missing"@, "true"@),
        column_expr(columns, "client_ip"@, "CAST(NULL AS VARCHAR)"@),
        column_expr(columns, "ip_region"@, "CAST(NULL AS VARCHAR)"@),
        column_expr(columns, "request_headers_json"@, "'{}'"@),
        column_expr(columns, "routing_diagnostics_json"@, "CAST(NULL AS VARCHAR)"@),
        column_expr(columns, "last_message_content"@, "CAST(NULL AS VARCHAR)"@),
        payload_present_expr(columns),
        column_expr(columns, "detail_object_path"@, "CAST(NULL AS VARCHAR)"@),
        column_expr(columns, "detail_object_offset"@, "CAST(NULL AS BIGINT)"@),
        column_expr(columns, "detail_object_length"@, "CAST(NULL AS BIGINT)"@),
        column_expr(columns, "detail_object_sha256"@, "CAST(NULL AS VARCHAR)"@),
        column_expr(columns, "proxy_source_at_event"@, "CAST(NULL AS VARCHAR)"@),
        column_expr(columns, "proxy_config_id_at_event"@, "CAST(NULL AS VARCHAR)"@),
        column_expr(columns, "proxy_config_name_at_event"@, "CAST(NULL AS VARCHAR)"@),
        column_expr(columns, "proxy_url_at_event"@, "CAST(NULL AS VARCHAR)"@),
    ]
}

/// The statement that copies a pending segment's fact rows into a fresh
/// compacted file.
pub open spec fn compact_copy_sql(columns: Seq<String>) -> Seq<char> {
    "INSERT INTO usage_events (\n        source_seq, source_event_id, event_id, created_at_ms, created_at,\n        created_date, created_hour, provider_type, protocol_family, key_id,\n        key_name, key_status_at_event, account_name, account_group_id_at_event,\n        route_strategy_at_event, request_method, request_url, endpoint, model,\n        mapped_model, status_code, latency_ms, routing_wait_ms,\n        upstream_headers_ms, post_headers_body_ms, request_body_read_ms,\n        request_json_parse_ms, pre_handler_ms, first_sse_write_ms,\n        stream_finish_ms, stream_completed_cleanly, downstream_disconnect,\n        final_event_type, bytes_streamed, request_body_bytes,\n        quota_failover_count, input_uncached_tokens, input_cached_tokens,\n        output_tokens, billable_tokens, credit_usage, usage_missing,\n        credit_usage_missing, client_ip, ip_region, request_headers_json,\n        routing_diagnostics_json, last_message_content, detail_object_payload_present,\n        detail_object_path, detail_object_offset, detail_object_length, detail_object_sha256,\n        proxy_source_at_event, proxy_config_id_at_event, proxy_config_name_at_event,\n        proxy_url_at_event\n    )\n    SELECT\n        "@ + joined(compact_select(columns), select_sep()) + "\n    FROM pending_segment.usage_events e;"@
}

/// Copy statement from the attached `pending_segment` into the compacted
/// file, filling columns that the source lacks with their defaults.
#[verifier::rlimit(50)]
pub fn compact_copy_usage_events_sql(columns: &Vec<String>) -> (r: String)
    ensures
        r@ == compact_copy_sql(columns@),
{
    let select = vec![
        compact_source_required_expr("source_seq"),
        compact_source_required_expr("source_event_id"),
        compact_source_required_expr("event_id"),
        compact_source_required_expr("created_at_ms"),
        compact_source_required_expr("created_at"),
        compact_source_required_expr("created_date"),
        compact_source_required_expr("created_hour"),
        compact_source_required_expr("provider_type"),
        compact_source_required_expr("protocol_family"),
        compact_source_required_expr("key_id"),
        compact_source_required_expr("key_name"),
        compact_source_required_expr("key_status_at_event"),
        compact_source_column_expr(columns, "account_name", "CAST(NULL AS VARCHAR)"),
        compact_source_column_expr(columns, "account_group_id_at_event", "CAST(NULL AS VARCHAR)"),
        compact_source_column_expr(columns, "route_strategy_at_event", "CAST(NULL AS VARCHAR)"),
        compact_source_column_expr(columns, "request_method", "'POST'"),
        compact_source_column_expr(columns, "request_url", "''"),
        compact_source_required_expr("endpoint"),
        compact_source_column_expr(columns, "model", "CAST(NULL AS VARCHAR)"),
        compact_source_column_expr(columns, "mapped_model", "CAST(NULL AS VARCHAR)"),
        compact_source_required_expr("status_code"),
        compact_source_column_expr(columns, "latency_ms", "CAST(NULL AS INTEGER)"),
        compact_source_column_expr(columns, "routing_wait_ms", "CAST(NULL AS INTEGER)"),
        compact_source_column_expr(columns, "upstream_headers_ms", "CAST(NULL AS INTEGER)"),
        compact_source_column_expr(columns, "post_headers_body_ms", "CAST(NULL AS INTEGER)"),
        compact_source_column_expr(columns, "request_body_read_ms", "CAST(NULL AS INTEGER)"),
        compact_source_column_expr(columns, "request_json_parse_ms", "CAST(NULL AS INTEGER)"),
        compact_source_column_expr(columns, "pre_handler_ms", "CAST(NULL AS INTEGER)"),
        compact_source_column_expr(columns, "first_sse_write_ms", "CAST(NULL AS INTEGER)"),
        compact_source_column_expr(columns, "stream_finish_ms", "CAST(NULL AS INTEGER)"),
        compact_source_column_expr(columns, "stream_completed_cleanly", "CAST(NULL AS BOOLEAN)"),
        compact_source_column_expr(columns, "downstream_disconnect", "CAST(NULL AS BOOLEAN)"),
        compact_source_column_expr(columns, "final_event_type", "CAST(NULL AS VARCHAR)"),
        compact_source_column_expr(columns, "bytes_streamed", "CAST(NULL AS BIGINT)"),
        compact_source_column_expr(columns, "request_body_bytes", "CAST(NULL AS BIGINT)"),
        compact_source_column_expr(columns, "quota_failover_count", "CAST(0 AS BIGINT)"),
        compact_source_required_expr("input_uncached_tokens"),
        compact_source_required_expr("input_cached_tokens"),
        compact_source_required_expr("output_tokens"),
        compact_source_required_expr("billable_tokens"),
        compact_source_expr(columns, "credit_usage", "CAST(e.credit_usage AS VARCHAR)", "CAST(NULL AS VARCHAR)"),
        compact_source_column_expr(columns, "usage_missing", "false"),
        compact_source_column_expr(columns, "credit_usage_missing", "true"),
        compact_source_column_expr(columns, "client_ip", "CAST(NULL AS VARCHAR)"),
        compact_source_column_expr(columns, "ip_region", "CAST(NULL AS VARCHAR)"),
        compact_source_column_expr(columns, "request_headers_json", "'{}'"),
        compact_source_column_expr(columns, "routing_diagnostics_json", "CAST(NULL AS VARCHAR)"),
        compact_source_column_expr(columns, "last_message_content", "CAST(NULL AS VARCHAR)"),
        compact_detail_object_payload_present_expr(columns),
        compact_source_column_expr(columns, "detail_object_path", "CAST(NULL AS VARCHAR)"),
        compact_source_column_expr(columns, "detail_object_offset", "CAST(NULL AS BIGINT)"),
        compact_source_column_expr(columns, "detail_object_length", "CAST(NULL AS BIGINT)"),
        compact_source_column_expr(columns, "detail_object_sha256", "CAST(NULL AS VARCHAR)"),
        compact_source_column_expr(columns, "proxy_source_at_event", "CAST(NULL AS VARCHAR)"),
        compact_source_column_expr(columns, "proxy_config_id_at_event", "CAST(NULL AS VARCHAR)"),
        compact_source_column_expr(columns, "proxy_config_name_at_event", "CAST(NULL AS VARCHAR)"),
        compact_source_column_expr(columns, "proxy_url_at_event", "CAST(NULL AS VARCHAR)"),
    ];
    assert(column_views(select@) =~= compact_select(columns@));
    let joined_select = join_strings(&select, ",\n        ");
    let mut s = String::new();
    s.append("INSERT INTO usage_events (\n        source_seq, source_event_id, event_id, created_at_ms, created_at,\n        created_date, created_hour, provider_type, protocol_family, key_id,\n        key_name, key_status_at_event, account_name, account_group_id_at_event,\n        route_strategy_at_event, request_method, request_url, endpoint, model,\n        mapped_model, status_code, latency_ms, routing_wait_ms,\n        upstream_headers_ms, post_headers_body_ms, request_body_read_ms,\n        request_json_parse_ms, pre_handler_ms, first_sse_write_ms,\n        stream_finish_ms, stream_completed_cleanly, downstream_disconnect,\n        final_event_type, bytes_streamed, request_body_bytes,\n        quota_failover_count, input_uncached_tokens, input_cached_tokens,\n        output_tokens, billable_tokens, credit_usage, usage_missing,\n        credit_usage_missing, client_ip, ip_region, request_headers_json,\n        routing_diagnostics_json, last_message_content, detail_object_payload_present,\n        detail_object_path, detail_object_offset, detail_object_length, detail_object_sha256,\n        proxy_source_at_event, proxy_config_id_at_event, proxy_config_name_at_event,\n        proxy_url_at_event\n    )\n    SELECT\n        ");
    s.append(joined_select.as_str());
    s.append("\n    FROM pending_segment.usage_events e;");
    s
}

} // verus!

verus! {

/// The select list of the metrics scan.
pub open spec fn metrics_select(columns: Seq<String>) -> Seq<Seq<char>> {
    seq![
        column_expr(columns, "account_name"@, "CAST(NULL AS VARCHAR)"@),
        adaptive_expr(columns, "status_code"@, "CAST(e.status_code AS INTEGER)"@, "CAST(0 AS INTEGER)"@),
        adaptive_expr(columns, "first_sse_write_ms"@, "CAST(e.first_sse_write_ms AS BIGINT)"@, "CAST(NULL AS BIGINT)"@),
        adaptive_expr(columns, "latency_ms"@, "CAST(e.latency_ms AS BIGINT)"@, "CAST(NULL AS BIGINT)"@),
        adaptive_expr(columns, "routing_wait_ms"@, "CAST(e.routing_wait_ms AS BIGINT)"@, "CAST(NULL AS BIGINT)"@),
        adaptive_expr(columns, "quota_failover_count"@, "CAST(e.quota_failover_count AS BIGINT)"@, "CAST(0 AS BIGINT)"@),
        adaptive_expr(columns, "downstream_disconnect"@, "COALESCE(e.downstream_disconnect, FALSE)"@, "FALSE"@),
        adaptive_expr(columns, "usage_missing"@, "COALESCE(e.usage_missing, FALSE)"@, "FALSE"@),
        adaptive_expr(columns, "credit_usage_missing"@, "COALESCE(e.credit_usage_missing, FALSE)"@, "FALSE"@),
        column_expr(columns, "proxy_source_at_event"@, "CAST(NULL AS VARCHAR)"@),
        column_expr(columns, "proxy_config_id_at_event"@, "CAST(NULL AS VARCHAR)"@),
        column_expr(columns, "proxy_config_name_at_event"@, "CAST(NULL AS VARCHAR)"@),
        column_expr(columns, "proxy_url_at_event"@, "CAST(NULL AS VARCHAR)"@),
    ]
}

/// The metrics scan over a time window, optionally restricted to one provider.
pub open spec fn metrics_sql(columns: Seq<String>) -> Seq<char> {
    "SELECT\n            "@ + joined(metrics_select(columns), ",\n            "@) + "\n         FROM usage_events e\n         WHERE (?1 IS NULL OR e.provider_type = ?1)\n           AND e.created_at_ms >= ?2\n           AND e.created_at_ms < ?3"@
}

/// Scan feeding the usage metrics accumulator: `?1` provider filter, `?2`
/// inclusive start and `?3` exclusive end in Unix milliseconds.
pub fn usage_metrics_sql(columns: &Vec<String>) -> (r: String)
    ensures
        r@ == metrics_sql(columns@),
{
    let select = vec![
        usage_event_column_expr(columns, "account_name", "CAST(NULL AS VARCHAR)"),
        usage_event_expr(columns, "status_code", "CAST(e.status_code AS INTEGER)", "CAST(0 AS INTEGER)"),
        usage_event_expr(columns, "first_sse_write_ms", "CAST(e.first_sse_write_ms AS BIGINT)", "CAST(NULL AS BIGINT)"),
        usage_event_expr(columns, "latency_ms", "CAST(e.latency_ms AS BIGINT)", "CAST(NULL AS BIGINT)"),
        usage_event_expr(columns, "routing_wait_ms", "CAST(e.routing_wait_ms AS BIGINT)", "CAST(NULL AS BIGINT)"),
        usage_event_expr(columns, "quota_failover_count", "CAST(e.quota_failover_count AS BIGINT)", "CAST(0 AS BIGINT)"),
        usage_event_expr(columns, "downstream_disconnect", "COALESCE(e.downstream_disconnect, FALSE)", "FALSE"),
        usage_event_expr(columns, "usage_missing", "COALESCE(e.usage_missing, FALSE)", "FALSE"),
        usage_event_expr(columns, "credit_usage_missing", "COALESCE(e.credit_usage_missing, FALSE)", "FALSE"),
        usage_event_column_expr(columns, "proxy_source_at_event", "CAST(NULL AS VARCHAR)"),
        usage_event_column_expr(columns, "proxy_config_id_at_event", "CAST(NULL AS VARCHAR)"),
        usage_event_column_expr(columns, "proxy_config_name_at_event", "CAST(NULL AS VARCHAR)"),
        usage_event_column_expr(columns, "proxy_url_at_event", "CAST(NULL AS VARCHAR)"),
    ];
    assert(column_views(select@) =~= metrics_select(columns@));
    let joined_select = join_strings(&select, ",\n            ");
    let mut s = String::new();
    s.append("SELECT\n            ");
    s.append(joined_select.as_str());
    s.append("\n         FROM usage_events e\n         WHERE (?1 IS NULL OR e.provider_type = ?1)\n           AND e.created_at_ms >= ?2\n           AND e.created_at_ms < ?3");
    s
}

/// Per-value rollup of one field over a whole segment.
pub open spec fn field_rollup_global_sql(value_sql: Seq<char>) -> Seq<char> {
    "SELECT\n            CAST(NULL AS VARCHAR) AS key_id,\n            CAST(NULL AS VARCHAR) AS provider_type,\n            field_value,\n            CAST(count(*) AS BIGINT),\n            CAST(COALESCE(sum(input_uncached_tokens), 0) AS BIGINT),\n            CAST(COALESCE(sum(input_cached_tokens), 0) AS BIGINT),\n            CAST(COALESCE(sum(output_tokens), 0) AS BIGINT),\n            CAST(COALESCE(sum(billable_tokens), 0) AS BIGINT),\n            min(created_at_ms),\n            max(created_at_ms)\n         FROM (\n            SELECT "@ + value_sql + " AS field_value, input_uncached_tokens, input_cached_tokens,\n                   output_tokens, billable_tokens, created_at_ms\n            FROM usage_events\n         ) values_by_field\n         WHERE field_value IS NOT NULL\n           AND length(trim(field_value)) > 0\n         GROUP BY field_value"@
}

/// Per-value rollup of one field scoped by key and provider.
pub open spec fn field_rollup_scoped_sql(value_sql: Seq<char>) -> Seq<char> {
    "SELECT\n            key_id,\n            provider_type,\n            field_value,\n            CAST(count(*) AS BIGINT),\n            CAST(COALESCE(sum(input_uncached_tokens), 0) AS BIGINT),\n            CAST(COALESCE(sum(input_cached_tokens), 0) AS BIGINT),\n            CAST(COALESCE(sum(output_tokens), 0) AS BIGINT),\n            CAST(COALESCE(sum(billable_tokens), 0) AS BIGINT),\n            min(created_at_ms),\n            max(created_at_ms)\n         FROM (\n            SELECT key_id, provider_type, "@ + value_sql + " AS field_value,\n                   input_uncached_tokens, input_cached_tokens, output_tokens,\n                   billable_tokens, created_at_ms\n            FROM usage_events\n         ) values_by_field\n         WHERE field_value IS NOT NULL\n           AND length(trim(field_value)) > 0\n         GROUP BY key_id, provider_type, field_value"@
}

/// The global and the key/provider-scoped field rollup queries for the field
/// value expression `value_sql`.
pub fn segment_field_rollup_sqls(value_sql: &str) -> (r: (String, String))
    ensures
        r.0@ == field_rollup_global_sql(value_sql@),
        r.1@ == field_rollup_scoped_sql(value_sql@),
{
    let mut global = String::new();
    global.append("SELECT\n            CAST(NULL AS VARCHAR) AS key_id,\n            CAST(NULL AS VARCHAR) AS provider_type,\n            field_value,\n            CAST(count(*) AS BIGINT),\n            CAST(COALESCE(sum(input_uncached_tokens), 0) AS BIGINT),\n            CAST(COALESCE(sum(input_cached_tokens), 0) AS BIGINT),\n            CAST(COALESCE(sum(output_tokens), 0) AS BIGINT),\n            CAST(COALESCE(sum(billable_tokens), 0) AS BIGINT),\n            min(created_at_ms),\n            max(created_at_ms)\n         FROM (\n            SELECT ");
    global.append(value_sql);
    global.append(" AS field_value, input_uncached_tokens, input_cached_tokens,\n                   output_tokens, billable_tokens, created_at_ms\n            FROM usage_events\n         ) values_by_field\n         WHERE field_value IS NOT NULL\n           AND length(trim(field_value)) > 0\n         GROUP BY field_value");
    let mut scoped = String::new();
    scoped.append("SELECT\n            key_id,\n            provider_type,\n            field_value,\n            CAST(count(*) AS BIGINT),\n            CAST(COALESCE(sum(input_uncached_tokens), 0) AS BIGINT),\n            CAST(COALESCE(sum(input_cached_tokens), 0) AS BIGINT),\n            CAST(COALESCE(sum(output_tokens), 0) AS BIGINT),\n            CAST(COALESCE(sum(billable_tokens), 0) AS BIGINT),\n            min(created_at_ms),\n            max(created_at_ms)\n         FROM (\n            SELECT key_id, provider_type, ");
    scoped.append(value_sql);
    scoped.append(" AS field_value,\n                   input_uncached_tokens, input_cached_tokens, output_tokens,\n                   billable_tokens, created_at_ms\n            FROM usage_events\n         ) values_by_field\n         WHERE field_value IS NOT NULL\n           AND length(trim(field_value)) > 0\n         GROUP BY key_id, provider_type, field_value");
    (global, scoped)
}

} // verus!

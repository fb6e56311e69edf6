//! The usage event writer: it turns batches of usage rows into write
//! transactions, each an ordered list of parameterised statements for the
//! `usage_events` fact table and its `usage_event_details` side table. The
//! transactions queue in the writer until the caller runs them against the
//! database, one transaction per batch.
use vstd::prelude::*;
use crate::sql::{insert_detail_sql, insert_event_sql, insert_usage_event_detail_sql, insert_usage_event_sql};
use crate::usage_row::{
    SqlValue, UsageEventRow, detail_insert_params, insert_params, usage_event_detail_insert_params,
    usage_event_insert_params,
};

verus! {

/// One statement with its positional parameters.
#[derive(Debug, Clone)]
pub struct SqlStatement {
    pub sql: String,
    pub params: Vec<SqlValue>,
}

/// The statements of one transaction, in the order they run.
#[derive(Debug, Clone)]
pub struct UsageWriteTransaction {
    pub statements: Vec<SqlStatement>,
}

/// What a statement runs.
pub open spec fn statement_view(s: SqlStatement) -> (Seq<char>, Seq<SqlValue>) {
    (s.sql@, s.params@)
}

/// What a transaction runs.
pub open spec fn transaction_view(t: UsageWriteTransaction) -> Seq<(Seq<char>, Seq<SqlValue>)> {
    t.statements@.map_values(|s: SqlStatement| statement_view(s))
}

/// The fact-table insert of a row.
pub open spec fn summary_statement(row: UsageEventRow) -> (Seq<char>, Seq<SqlValue>) {
    (insert_event_sql(), insert_params(row))
}

/// The side-table insert of a row.
pub open spec fn detail_statement(row: UsageEventRow) -> (Seq<char>, Seq<SqlValue>) {
    (insert_detail_sql(), detail_insert_params(row))
}

/// The statements that write rows with their details: for each row in
/// order, its fact-table insert then its side-table insert.
pub open spec fn full_statements(rows: Seq<UsageEventRow>) -> Seq<(Seq<char>, Seq<SqlValue>)>
    decreases rows.len(),
{
    if rows.len() == 0 {
        Seq::empty()
    } else {
        full_statements(rows.drop_last()).push(summary_statement(rows.last())).push(detail_statement(rows.last()))
    }
}

/// The statements that write only the fact rows, in order.
pub open spec fn summary_statements(rows: Seq<UsageEventRow>) -> Seq<(Seq<char>, Seq<SqlValue>)> {
    rows.map_values(|r: UsageEventRow| summary_statement(r))
}

/// A usage event writer with the transactions it has queued.
#[derive(Debug)]
pub struct DuckDbUsageWriter {
    pub pending: Vec<UsageWriteTransaction>,
}

/// The queued transactions.
pub open spec fn pending_views(w: DuckDbUsageWriter) -> Seq<Seq<(Seq<char>, Seq<SqlValue>)>> {
    w.pending@.map_values(|t: UsageWriteTransaction| transaction_view(t))
}

fn summary_of(row: &UsageEventRow) -> (r: SqlStatement)
    ensures
        statement_view(r) == summary_statement(*row),
{
    let sql = insert_usage_event_sql();
    SqlStatement { sql: sql.to_owned(), params: usage_event_insert_params(row) }
}

fn detail_of(row: &UsageEventRow) -> (r: SqlStatement)
    ensures
        statement_view(r) == detail_statement(*row),
{
    let sql = insert_usage_event_detail_sql();
    SqlStatement { sql: sql.to_owned(), params: usage_event_detail_insert_params(row) }
}

impl DuckDbUsageWriter {
    /// A writer with nothing queued.
    pub fn new() -> (r: Self)
        ensures
            r.pending@.len() == 0,
    {
        DuckDbUsageWriter { pending: Vec::new() }
    }

    /// Queues one transaction that writes `rows` and their details; an
    /// empty batch queues nothing.
    pub fn insert_usage_events(&mut self, rows: &[UsageEventRow])
        ensures
            rows@.len() == 0 ==> pending_views(*final(self)) == pending_views(*old(self)),
            rows@.len() > 0 ==> pending_views(*final(self)) == pending_views(*old(self)).push(full_statements(rows@)),
    {
        if rows.len() == 0 {
            return;
        }
        let mut statements: Vec<SqlStatement> = Vec::new();
        let mut i: usize = 0;
        while i < rows.len()
            invariant
                i <= rows@.len(),
                statements@.map_values(|s: SqlStatement| statement_view(s)) == full_statements(rows@.take(i as int)),
            decreases rows.len() - i,
        {
            let ghost before = statements@;
            statements.push(summary_of(&rows[i]));
            statements.push(detail_of(&rows[i]));
            proof {
                assert(rows@.take(i + 1).drop_last() =~= rows@.take(i as int));
                assert(rows@.take(i + 1).last() == rows@[i as int]);
                assert(statements@.map_values(|s: SqlStatement| statement_view(s)) =~= before.map_values(
                    |s: SqlStatement| statement_view(s),
                ).push(summary_statement(rows@[i as int])).push(detail_statement(rows@[i as int])));
            }
            i = i + 1;
        }
        assert(rows@.take(i as int) =~= rows@);
        let ghost before = self.pending@;
        let t = UsageWriteTransaction { statements };
        self.pending.push(t);
        assert(pending_views(*self) =~= before.map_values(|t: UsageWriteTransaction| transaction_view(t)).push(
            full_statements(rows@),
        ));
    }

    /// Queues one transaction that writes `row` and its details.
    pub fn insert_usage_event(&mut self, row: &UsageEventRow)
        ensures
            pending_views(*final(self)) == pending_views(*old(self)).push(full_statements(seq![*row])),
    {
        let rows = [row.duplicate()];
        proof {
            assert(rows@ =~= seq![*row]);
        }
        self.insert_usage_events(&rows);
    }

    /// Queues one transaction that writes only the fact rows of `rows`; an
    /// empty batch queues nothing.
    fn insert_usage_event_summaries(&mut self, rows: &[UsageEventRow])
        ensures
            rows@.len() == 0 ==> pending_views(*final(self)) == pending_views(*old(self)),
            rows@.len() > 0 ==> pending_views(*final(self)) == pending_views(*old(self)).push(summary_statements(rows@)),
    {
        if rows.len() == 0 {
            return;
        }
        let mut statements: Vec<SqlStatement> = Vec::new();
        let mut i: usize = 0;
        while i < rows.len()
            invariant
                i <= rows@.len(),
                statements@.map_values(|s: SqlStatement| statement_view(s)) == summary_statements(rows@.take(i as int)),
            decreases rows.len() - i,
        {
            let ghost before = statements@;
            statements.push(summary_of(&rows[i]));
            proof {
                assert(rows@.take(i + 1) =~= rows@.take(i as int).push(rows@[i as int]));
                assert(summary_statements(rows@.take(i + 1)) =~= summary_statements(rows@.take(i as int)).push(
                    summary_statement(rows@[i as int]),
                ));
                assert(statements@ == before.push(statements@[i as int]));
                assert(statements@.map_values(|s: SqlStatement| statement_view(s)) =~= before.map_values(
                    |s: SqlStatement| statement_view(s),
                ).push(summary_statement(rows@[i as int])));
            }
            i = i + 1;
        }
        assert(rows@.take(i as int) =~= rows@);
        let ghost before = self.pending@;
        let t = UsageWriteTransaction { statements };
        self.pending.push(t);
        assert(pending_views(*self) =~= before.map_values(|t: UsageWriteTransaction| transaction_view(t)).push(
            summary_statements(rows@),
        ));
    }

    /// Queues one transaction that writes only the fact rows of `rows`.
    pub fn insert_usage_event_summaries_only(&mut self, rows: &[UsageEventRow])
        ensures
            rows@.len() == 0 ==> pending_views(*final(self)) == pending_views(*old(self)),
            rows@.len() > 0 ==> pending_views(*final(self)) == pending_views(*old(self)).push(summary_statements(rows@)),
    {
        self.insert_usage_event_summaries(rows);
    }

    /// Hands over the queued transactions, oldest first, and empties the
    /// queue.
    pub fn take_pending(&mut self) -> (r: Vec<UsageWriteTransaction>)
        ensures
            r@ == old(self).pending@,
            final(self).pending@.len() == 0,
    {
        let mut out: Vec<UsageWriteTransaction> = Vec::new();
        std::mem::swap(&mut out, &mut self.pending);
        out
    }
}

/// The statements of a list that write the fact table: all but the
/// side-table inserts, in order.
pub open spec fn fact_statements(statements: Seq<(Seq<char>, Seq<SqlValue>)>) -> Seq<(Seq<char>, Seq<SqlValue>)> {
    statements.filter(|st: (Seq<char>, Seq<SqlValue>)| st.0 != insert_detail_sql())
}

/// Writing only the fact rows touches the fact table exactly as writing
/// the rows with their details does: its statements are those of the full
/// write with the side-table inserts left out, in the same order (and,
/// through the writer's contracts, queued as one transaction, or nothing
/// for an empty batch, in both cases).
pub proof fn lemma_summaries_only_matches_full_write_on_facts(rows: Seq<UsageEventRow>)
    ensures
        summary_statements(rows) == fact_statements(full_statements(rows)),
    decreases rows.len(),
{
    reveal(Seq::filter);
    let pred = |st: (Seq<char>, Seq<SqlValue>)| st.0 != insert_detail_sql();
    if rows.len() == 0 {
        assert(summary_statements(rows) =~= Seq::empty());
    } else {
        let prefix = rows.drop_last();
        let row = rows.last();
        lemma_summaries_only_matches_full_write_on_facts(prefix);
        assert(insert_event_sql() != insert_detail_sql()) by {
            reveal_strlit("INSERT INTO usage_event_details (\n        event_id, request_headers_json, routing_diagnostics_json,\n        last_message_content, client_request_body_json,\n        upstream_request_body_json, full_request_json, error_message,\n        error_body\n     ) VALUES (\n        ?1, ?2, ?3, ?4, ?5, ?6, ?7, ?8, ?9\n     )\n     ON CONFLICT DO NOTHING");
            reveal_strlit("INSERT INTO usage_events (\n        source_seq, source_event_id, event_id, created_at_ms, created_at,\n        created_date, created_hour, provider_type, protocol_family, key_id,\n        key_name, key_status_at_event, account_name, account_group_id_at_event,\n        route_strategy_at_event, request_method, request_url, endpoint, model,\n        mapped_model, status_code, latency_ms, routing_wait_ms,\n        upstream_headers_ms, post_headers_body_ms, request_body_read_ms,\n        request_json_parse_ms, pre_handler_ms, first_sse_write_ms,\n        stream_finish_ms, stream_completed_cleanly, downstream_disconnect,\n        final_event_type, bytes_streamed, request_body_bytes,\n        quota_failover_count, input_uncached_tokens, input_cached_tokens,\n        output_tokens, billable_tokens, credit_usage, usage_missing,\n        credit_usage_missing, client_ip, ip_region, request_headers_json,\n        routing_diagnostics_json, last_message_content, detail_object_payload_present,\n        detail_object_path, detail_object_offset, detail_object_length, detail_object_sha256,\n        proxy_source_at_event, proxy_config_id_at_event, proxy_config_name_at_event,\n        proxy_url_at_event\n     ) VALUES (\n        ?1, ?2, ?3, ?4, to_timestamp(?4 / 1000.0),\n        CAST(to_timestamp(?4 / 1000.0) AS DATE),\n        date_trunc('hour', to_timestamp(?4 / 1000.0)),\n        ?5, ?6, ?7, ?8, ?9, ?10, ?11, ?12, ?13, ?14, ?15, ?16, ?17, ?18,\n        ?19, ?20, ?21, ?22, ?23, ?24, ?25, ?26, ?27, ?28, ?29, ?30, ?31,\n        ?32, ?33, ?34, ?35, ?36, ?37, ?38, ?39, ?40, ?41, ?42, ?43, ?44, ?45, ?46,\n        ?47, ?48, ?49, ?50, ?51, ?52, ?53, ?54\n     )\n     ON CONFLICT DO NOTHING");
            assert(insert_event_sql().len() != insert_detail_sql().len());
        }
        let before = full_statements(prefix);
        let with_fact = before.push(summary_statement(row));
        let full = with_fact.push(detail_statement(row));
        assert(full_statements(rows) == full);
        assert(full.drop_last() == with_fact);
        assert(with_fact.drop_last() == before);
        assert(!pred(full.last()));
        assert(pred(with_fact.last()));
        assert(full.filter(pred) == with_fact.filter(pred));
        assert(with_fact.filter(pred) == before.filter(pred).push(summary_statement(row)));
        assert(summary_statements(rows) =~= summary_statements(prefix).push(summary_statement(row)));
    }
}

} // verus!

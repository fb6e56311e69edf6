//! The wide usage fact row, its detail payload projection, and the
//! positional parameters that bind a row to the insert statements.
use vstd::prelude::*;
use crate::text::trim;
use crate::event_decode::{decodes_to, UsageEvent, UsageEventColumns, UsageStreamColumns, UsageTimingColumns};

verus! {

/// One row for the DuckDB `usage_events` wide fact table.
#[derive(Debug, Clone)]
pub struct UsageEventRow {
    /// Source CDC sequence, or zero for native standalone events.
    pub source_seq: i64,
    /// Source CDC event id, or this event id for native standalone events.
    pub source_event_id: String,
    /// Stable usage event id.
    pub event_id: String,
    /// Event creation timestamp in Unix milliseconds.
    pub created_at_ms: i64,
    /// Provider type at event time.
    pub provider_type: String,
    /// Protocol family at event time.
    pub protocol_family: String,
    /// API key id at event time.
    pub key_id: String,
    /// API key display name at event time.
    pub key_name: String,
    /// Key status captured at event time.
    pub key_status_at_event: String,
    /// Upstream account name at event time.
    pub account_name: Option<String>,
    /// Account group id captured at event time.
    pub account_group_id_at_event: Option<String>,
    /// Route strategy captured at event time.
    pub route_strategy_at_event: Option<String>,
    /// Incoming HTTP method.
    pub request_method: String,
    /// Operator-facing request URL.
    pub request_url: String,
    /// Provider endpoint.
    pub endpoint: String,
    /// Requested model name.
    pub model: Option<String>,
    /// Mapped upstream model name.
    pub mapped_model: Option<String>,
    /// Final HTTP status code.
    pub status_code: i64,
    /// Overall latency in milliseconds.
    pub latency_ms: Option<i64>,
    /// Time waiting for local routing or scheduler.
    pub routing_wait_ms: Option<i64>,
    /// Time until upstream headers.
    pub upstream_headers_ms: Option<i64>,
    /// Time from upstream headers until body completion.
    pub post_headers_body_ms: Option<i64>,
    /// Time spent reading the incoming request body.
    pub request_body_read_ms: Option<i64>,
    /// Time spent parsing request JSON.
    pub request_json_parse_ms: Option<i64>,
    /// Time until provider handler parsed the request.
    pub pre_handler_ms: Option<i64>,
    /// Time until first downstream SSE write.
    pub first_sse_write_ms: Option<i64>,
    /// Time until stream finish.
    pub stream_finish_ms: Option<i64>,
    /// Whether the downstream stream finished cleanly.
    pub stream_completed_cleanly: Option<bool>,
    /// Whether the downstream stream disconnected before completion.
    pub downstream_disconnect: Option<bool>,
    /// Last downstream SSE event type when known.
    pub final_event_type: Option<String>,
    /// Total downstream SSE bytes emitted by the gateway.
    pub bytes_streamed: Option<i64>,
    /// Request body size in bytes.
    pub request_body_bytes: Option<i64>,
    /// Number of route failovers.
    pub quota_failover_count: i64,
    /// Routing diagnostics JSON.
    pub routing_diagnostics_json: Option<String>,
    /// Uncached input tokens.
    pub input_uncached_tokens: i64,
    /// Cached input tokens.
    pub input_cached_tokens: i64,
    /// Output tokens.
    pub output_tokens: i64,
    /// Billable tokens.
    pub billable_tokens: i64,
    /// Credit usage when known.
    pub credit_usage: Option<String>,
    /// Whether token usage was unavailable.
    pub usage_missing: bool,
    /// Whether credit usage was unavailable.
    pub credit_usage_missing: bool,
    /// Client IP captured at event time.
    pub client_ip: Option<String>,
    /// IP region captured at event time.
    pub ip_region: Option<String>,
    /// Request headers JSON.
    pub request_headers_json: String,
    /// Last message content preview.
    pub last_message_content: Option<String>,
    /// Effective proxy source captured at event time.
    pub proxy_source_at_event: Option<String>,
    /// Effective proxy config id captured at event time.
    pub proxy_config_id_at_event: Option<String>,
    /// Effective proxy config name captured at event time.
    pub proxy_config_name_at_event: Option<String>,
    /// Effective proxy URL captured at event time.
    pub proxy_url_at_event: Option<String>,
    /// Client request body JSON when captured.
    pub client_request_body_json: Option<String>,
    /// Upstream request body JSON when captured.
    pub upstream_request_body_json: Option<String>,
    /// Full request JSON when captured.
    pub full_request_json: Option<String>,
    /// Best-effort error message surfaced for failed requests.
    pub error_message: Option<String>,
    /// Raw error response body surfaced for failed requests.
    pub error_body: Option<String>,
    /// Whether heavyweight request payload details were externalized.
    pub detail_object_payload_present: bool,
    /// External detail pack object path relative to the configured detail root.
    pub detail_object_path: Option<String>,
    /// Byte offset inside the external detail pack.
    pub detail_object_offset: Option<i64>,
    /// Byte length inside the external detail pack.
    pub detail_object_length: Option<i64>,
    /// SHA-256 of the compressed detail member.
    pub detail_object_sha256: Option<String>,
}

/// Proxy attribution resolved for one consumed usage event.
#[derive(Debug, Clone)]
pub struct UsageProxyAttribution {
    /// Provider type that owns the account.
    pub provider_type: String,
    /// Account name used by the upstream request.
    pub account_name: String,
    /// Effective proxy source (`fixed`, `binding`, `none`, ...).
    pub proxy_source: String,
    /// Effective proxy config id when known.
    pub proxy_config_id: Option<String>,
    /// Effective proxy config name when known.
    pub proxy_config_name: Option<String>,
    /// Effective proxy URL when known.
    pub proxy_url: Option<String>,
}

/// Copy of an optional string.
pub fn dup_opt_string(value: &Option<String>) -> (r: Option<String>)
    ensures
        r == *value,
{
    match value {
        Some(s) => Some(s.clone()),
        None => None,
    }
}

/// `a + b`, held to the range of `i64`.
pub open spec fn saturated_sum(a: i64, b: i64) -> i64 {
    if a + b > i64::MAX {
        i64::MAX
    } else if a + b < i64::MIN {
        i64::MIN
    } else {
        (a + b) as i64
    }
}

/// The latency recorded for an event: the measured latency, else the stream
/// finish time, else headers plus body time when both are known.
pub open spec fn effective_latency(timing: UsageTimingColumns) -> Option<i64> {
    match timing.latency_ms {
        Some(l) => Some(l),
        None => match timing.stream_finish_ms {
            Some(f) => Some(f),
            None => match (timing.upstream_headers_ms, timing.post_headers_body_ms) {
                (Some(h), Some(b)) => Some(saturated_sum(h, b)),
                _ => None,
            },
        },
    }
}

fn saturating_sum(a: i64, b: i64) -> (r: i64)
    ensures
        r == saturated_sum(a, b),
{
    match a.checked_add(b) {
        Some(v) => v,
        None => if a > 0 { i64::MAX } else { i64::MIN },
    }
}

/// Whether `r` is the fact row built from `event`.
pub open spec fn fact_row_of(event: UsageEvent, r: UsageEventRow) -> bool {
    &&& r.source_seq == 0
    &&& r.source_event_id == event.event_id
    &&& r.event_id == event.event_id
    &&& r.created_at_ms == event.created_at_ms
    &&& r.provider_type == event.provider_type
    &&& r.protocol_family == event.protocol_family
    &&& r.key_id == event.key_id
    &&& r.key_name == event.key_name
    &&& r.key_status_at_event@ == "active"@
    &&& r.account_name == event.account_name
    &&& r.account_group_id_at_event == event.account_group_id_at_event
    &&& r.route_strategy_at_event == event.route_strategy_at_event
    &&& r.request_method == event.request_method
    &&& r.request_url == event.request_url
    &&& r.endpoint == event.endpoint
    &&& r.model == event.model
    &&& r.mapped_model == event.mapped_model
    &&& r.status_code == event.status_code
    &&& r.latency_ms == effective_latency(event.timing)
    &&& r.routing_wait_ms == event.timing.routing_wait_ms
    &&& r.upstream_headers_ms == event.timing.upstream_headers_ms
    &&& r.post_headers_body_ms == event.timing.post_headers_body_ms
    &&& r.request_body_read_ms == event.timing.request_body_read_ms
    &&& r.request_json_parse_ms == event.timing.request_json_parse_ms
    &&& r.pre_handler_ms == event.timing.pre_handler_ms
    &&& r.first_sse_write_ms == event.timing.first_sse_write_ms
    &&& r.stream_finish_ms == event.timing.stream_finish_ms
    &&& r.stream_completed_cleanly == event.stream.stream_completed_cleanly
    &&& r.downstream_disconnect == event.stream.downstream_disconnect
    &&& r.final_event_type == event.stream.final_event_type
    &&& r.bytes_streamed == event.stream.bytes_streamed
    &&& r.request_body_bytes == event.request_body_bytes
    &&& r.quota_failover_count == (if event.quota_failover_count > i64::MAX {
        i64::MAX as int
    } else {
        event.quota_failover_count as int
    })
    &&& r.routing_diagnostics_json == event.routing_diagnostics_json
    &&& r.input_uncached_tokens == event.input_uncached_tokens
    &&& r.input_cached_tokens == event.input_cached_tokens
    &&& r.output_tokens == event.output_tokens
    &&& r.billable_tokens == event.billable_tokens
    &&& r.credit_usage == event.credit_usage
    &&& r.usage_missing == event.usage_missing
    &&& r.credit_usage_missing == event.credit_usage_missing
    &&& r.client_ip == Some(event.client_ip)
    &&& r.ip_region == Some(event.ip_region)
    &&& r.request_headers_json == event.request_headers_json
    &&& r.last_message_content == event.last_message_content
    &&& r.proxy_source_at_event is None
    &&& r.proxy_config_id_at_event is None
    &&& r.proxy_config_name_at_event is None
    &&& r.proxy_url_at_event is None
    &&& r.client_request_body_json == event.client_request_body_json
    &&& r.upstream_request_body_json == event.upstream_request_body_json
    &&& r.full_request_json == event.full_request_json
    &&& r.error_message == event.error_message
    &&& r.error_body == event.error_body
    &&& r.detail_object_payload_present == has_external_payloads_spec(
        event.client_request_body_json,
        event.upstream_request_body_json,
        event.full_request_json,
        event.error_body,
    )
    &&& r.detail_object_path is None
    &&& r.detail_object_offset is None
    &&& r.detail_object_length is None
    &&& r.detail_object_sha256 is None
}

/// The latency a fact row records: the measured latency when there is one;
/// else the stream finish time; else, when both are known, the time to
/// headers plus the body time (held to the `i64` range); else none.
pub proof fn lemma_effective_latency_fallbacks(timing: UsageTimingColumns)
    ensures
        timing.latency_ms is Some ==> effective_latency(timing) == timing.latency_ms,
        timing.latency_ms is None ==> (timing.stream_finish_ms is Some ==> effective_latency(timing)
            == timing.stream_finish_ms),
        timing.latency_ms is None && timing.stream_finish_ms is None ==> (match (
            timing.upstream_headers_ms,
            timing.post_headers_body_ms,
        ) {
            (Some(h), Some(b)) => effective_latency(timing) matches Some(l) && (i64::MIN <= h + b <= i64::MAX ==> l == h + b)
                && (h + b > i64::MAX ==> l == i64::MAX) && (h + b < i64::MIN ==> l == i64::MIN),
            _ => effective_latency(timing) is None,
        }),
{
}

/// The columns the event selects read from a fact row whose payloads are
/// still held in the row.
pub open spec fn stored_columns(row: UsageEventRow) -> UsageEventColumns {
    UsageEventColumns {
        event_id: row.event_id,
        created_at_ms: row.created_at_ms,
        provider_type: row.provider_type,
        protocol_family: row.protocol_family,
        key_id: row.key_id,
        key_name: row.key_name,
        account_name: row.account_name,
        account_group_id_at_event: row.account_group_id_at_event,
        route_strategy_at_event: row.route_strategy_at_event,
        request_method: row.request_method,
        request_url: row.request_url,
        endpoint: row.endpoint,
        model: row.model,
        mapped_model: row.mapped_model,
        status_code: row.status_code,
        request_body_bytes: row.request_body_bytes,
        quota_failover_count: row.quota_failover_count,
        routing_diagnostics_json: row.routing_diagnostics_json,
        input_uncached_tokens: row.input_uncached_tokens,
        input_cached_tokens: row.input_cached_tokens,
        output_tokens: row.output_tokens,
        billable_tokens: row.billable_tokens,
        credit_usage: row.credit_usage,
        usage_missing: row.usage_missing,
        credit_usage_missing: row.credit_usage_missing,
        timing: UsageTimingColumns {
            latency_ms: row.latency_ms,
            routing_wait_ms: row.routing_wait_ms,
            upstream_headers_ms: row.upstream_headers_ms,
            post_headers_body_ms: row.post_headers_body_ms,
            request_body_read_ms: row.request_body_read_ms,
            request_json_parse_ms: row.request_json_parse_ms,
            pre_handler_ms: row.pre_handler_ms,
            first_sse_write_ms: row.first_sse_write_ms,
            stream_finish_ms: row.stream_finish_ms,
        },
        stream: UsageStreamColumns {
            stream_completed_cleanly: row.stream_completed_cleanly,
            downstream_disconnect: row.downstream_disconnect,
            final_event_type: row.final_event_type,
            bytes_streamed: row.bytes_streamed,
        },
        client_ip: row.client_ip,
        ip_region: row.ip_region,
        last_message_content: row.last_message_content,
        request_headers_json: Some(row.request_headers_json),
        client_request_body_json: row.client_request_body_json,
        upstream_request_body_json: row.upstream_request_body_json,
        full_request_json: row.full_request_json,
        error_message: row.error_message,
        error_body: row.error_body,
    }
}

/// A written event reads back: decoding, in the detail view, the columns of
/// the fact row built from an event gives back that event (its client IP,
/// IP region and request headers as the same text), when its failover
/// count fits the stored signed count and its latency was recorded or
/// cannot be derived from its other timings.
pub proof fn lemma_fact_row_reads_back(event: UsageEvent, row: UsageEventRow, decoded: UsageEvent)
    requires
        fact_row_of(event, row),
        decodes_to(stored_columns(row), true, decoded),
        event.quota_failover_count <= i64::MAX,
        effective_latency(event.timing) == event.timing.latency_ms,
    ensures
        decoded == (UsageEvent {
            client_ip: decoded.client_ip,
            ip_region: decoded.ip_region,
            request_headers_json: decoded.request_headers_json,
            ..event
        }),
        decoded.client_ip@ == event.client_ip@,
        decoded.ip_region@ == event.ip_region@,
        decoded.request_headers_json@ == event.request_headers_json@,
{
}

impl UsageEventRow {
    /// A field-for-field copy of the row.
    pub fn duplicate(&self) -> (r: Self)
        ensures
            r == *self,
    {
        UsageEventRow {
            source_seq: self.source_seq,
            source_event_id: self.source_event_id.clone(),
            event_id: self.event_id.clone(),
            created_at_ms: self.created_at_ms,
            provider_type: self.provider_type.clone(),
            protocol_family: self.protocol_family.clone(),
            key_id: self.key_id.clone(),
            key_name: self.key_name.clone(),
            key_status_at_event: self.key_status_at_event.clone(),
            account_name: dup_opt_string(&self.account_name),
            account_group_id_at_event: dup_opt_string(&self.account_group_id_at_event),
            route_strategy_at_event: dup_opt_string(&self.route_strategy_at_event),
            request_method: self.request_method.clone(),
            request_url: self.request_url.clone(),
            endpoint: self.endpoint.clone(),
            model: dup_opt_string(&self.model),
            mapped_model: dup_opt_string(&self.mapped_model),
            status_code: self.status_code,
            latency_ms: self.latency_ms,
            routing_wait_ms: self.routing_wait_ms,
            upstream_headers_ms: self.upstream_headers_ms,
            post_headers_body_ms: self.post_headers_body_ms,
            request_body_read_ms: self.request_body_read_ms,
            request_json_parse_ms: self.request_json_parse_ms,
            pre_handler_ms: self.pre_handler_ms,
            first_sse_write_ms: self.first_sse_write_ms,
            stream_finish_ms: self.stream_finish_ms,
            stream_completed_cleanly: self.stream_completed_cleanly,
            downstream_disconnect: self.downstream_disconnect,
            final_event_type: dup_opt_string(&self.final_event_type),
            bytes_streamed: self.bytes_streamed,
            request_body_bytes: self.request_body_bytes,
            quota_failover_count: self.quota_failover_count,
            routing_diagnostics_json: dup_opt_string(&self.routing_diagnostics_json),
            input_uncached_tokens: self.input_uncached_tokens,
            input_cached_tokens: self.input_cached_tokens,
            output_tokens: self.output_tokens,
            billable_tokens: self.billable_tokens,
            credit_usage: dup_opt_string(&self.credit_usage),
            usage_missing: self.usage_missing,
            credit_usage_missing: self.credit_usage_missing,
            client_ip: dup_opt_string(&self.client_ip),
            ip_region: dup_opt_string(&self.ip_region),
            request_headers_json: self.request_headers_json.clone(),
            last_message_content: dup_opt_string(&self.last_message_content),
            proxy_source_at_event: dup_opt_string(&self.proxy_source_at_event),
            proxy_config_id_at_event: dup_opt_string(&self.proxy_config_id_at_event),
            proxy_config_name_at_event: dup_opt_string(&self.proxy_config_name_at_event),
            proxy_url_at_event: dup_opt_string(&self.proxy_url_at_event),
            client_request_body_json: dup_opt_string(&self.client_request_body_json),
            upstream_request_body_json: dup_opt_string(&self.upstream_request_body_json),
            full_request_json: dup_opt_string(&self.full_request_json),
            error_message: dup_opt_string(&self.error_message),
            error_body: dup_opt_string(&self.error_body),
            detail_object_payload_present: self.detail_object_payload_present,
            detail_object_path: dup_opt_string(&self.detail_object_path),
            detail_object_offset: self.detail_object_offset,
            detail_object_length: self.detail_object_length,
            detail_object_sha256: dup_opt_string(&self.detail_object_sha256),
        }
    }

    /// Build a fact row from a provider-neutral event: a native event (no
    /// source sequence, its own id as source id) of an `active` key, with no
    /// proxy attribution and no pack reference yet. The latency is the
    /// recorded one, else the stream finish time, else headers plus body
    /// time (saturating); the failover count saturates at `i64::MAX`; the
    /// payloads are marked external when one of them holds non-blank text.
    pub fn from_usage_event(event: &UsageEvent) -> (r: Self)
        ensures
            fact_row_of(*event, r),
    {
        let latency_ms = match event.timing.latency_ms {
            Some(l) => Some(l),
            None => match event.timing.stream_finish_ms {
                Some(f) => Some(f),
                None => match (event.timing.upstream_headers_ms, event.timing.post_headers_body_ms) {
                    (Some(headers), Some(body)) => Some(saturating_sum(headers, body)),
                    _ => None,
                },
            },
        };
        let quota_failover_count: i64 = if event.quota_failover_count > 9223372036854775807u64 {
            i64::MAX
        } else {
            event.quota_failover_count as i64
        };
        let detail_object_payload_present = has_external_detail_payloads(
            &event.client_request_body_json,
            &event.upstream_request_body_json,
            &event.full_request_json,
            &event.error_body,
        );
        UsageEventRow {
            source_seq: 0,
            source_event_id: event.event_id.clone(),
            event_id: event.event_id.clone(),
            created_at_ms: event.created_at_ms,
            provider_type: event.provider_type.clone(),
            protocol_family: event.protocol_family.clone(),
            key_id: event.key_id.clone(),
            key_name: event.key_name.clone(),
            key_status_at_event: "active".to_owned(),
            account_name: dup_opt_string(&event.account_name),
            account_group_id_at_event: dup_opt_string(&event.account_group_id_at_event),
            route_strategy_at_event: dup_opt_string(&event.route_strategy_at_event),
            request_method: event.request_method.clone(),
            request_url: event.request_url.clone(),
            endpoint: event.endpoint.clone(),
            model: dup_opt_string(&event.model),
            mapped_model: dup_opt_string(&event.mapped_model),
            status_code: event.status_code,
            latency_ms,
            routing_wait_ms: event.timing.routing_wait_ms,
            upstream_headers_ms: event.timing.upstream_headers_ms,
            post_headers_body_ms: event.timing.post_headers_body_ms,
            request_body_read_ms: event.timing.request_body_read_ms,
            request_json_parse_ms: event.timing.request_json_parse_ms,
            pre_handler_ms: event.timing.pre_handler_ms,
            first_sse_write_ms: event.timing.first_sse_write_ms,
            stream_finish_ms: event.timing.stream_finish_ms,
            stream_completed_cleanly: event.stream.stream_completed_cleanly,
            downstream_disconnect: event.stream.downstream_disconnect,
            final_event_type: dup_opt_string(&event.stream.final_event_type),
            bytes_streamed: event.stream.bytes_streamed,
            request_body_bytes: event.request_body_bytes,
            quota_failover_count,
            routing_diagnostics_json: dup_opt_string(&event.routing_diagnostics_json),
            input_uncached_tokens: event.input_uncached_tokens,
            input_cached_tokens: event.input_cached_tokens,
            output_tokens: event.output_tokens,
            billable_tokens: event.billable_tokens,
            credit_usage: dup_opt_string(&event.credit_usage),
            usage_missing: event.usage_missing,
            credit_usage_missing: event.credit_usage_missing,
            client_ip: Some(event.client_ip.clone()),
            ip_region: Some(event.ip_region.clone()),
            request_headers_json: event.request_headers_json.clone(),
            last_message_content: dup_opt_string(&event.last_message_content),
            proxy_source_at_event: None,
            proxy_config_id_at_event: None,
            proxy_config_name_at_event: None,
            proxy_url_at_event: None,
            client_request_body_json: dup_opt_string(&event.client_request_body_json),
            upstream_request_body_json: dup_opt_string(&event.upstream_request_body_json),
            full_request_json: dup_opt_string(&event.full_request_json),
            error_message: dup_opt_string(&event.error_message),
            error_body: dup_opt_string(&event.error_body),
            detail_object_payload_present,
            detail_object_path: None,
            detail_object_offset: None,
            detail_object_length: None,
            detail_object_sha256: None,
        }
    }

    /// Apply worker-time proxy attribution metadata to one fact row.
    pub fn with_proxy_attribution(self, attribution: Option<&UsageProxyAttribution>) -> (r: Self)
        ensures
            attribution is None ==> r == self,
            attribution matches Some(a) ==> r == (UsageEventRow {
                proxy_source_at_event: Some(a.proxy_source),
                proxy_config_id_at_event: a.proxy_config_id,
                proxy_config_name_at_event: a.proxy_config_name,
                proxy_url_at_event: a.proxy_url,
                ..self
            }),
    {
        let mut row = self;
        if let Some(attribution) = attribution {
            row.proxy_source_at_event = Some(attribution.proxy_source.clone());
            row.proxy_config_id_at_event = dup_opt_string(&attribution.proxy_config_id);
            row.proxy_config_name_at_event = dup_opt_string(&attribution.proxy_config_name);
            row.proxy_url_at_event = dup_opt_string(&attribution.proxy_url);
        }
        row
    }
}

/// Whether an optional payload holds non-blank text.
pub open spec fn is_present_payload(value: Option<String>) -> bool {
    value matches Some(v) && trim(v@).len() > 0
}

/// Whether any heavyweight payload of an event holds non-blank text; such
/// payloads are stored outside the fact table.
pub open spec fn has_external_payloads_spec(
    client_request_body_json: Option<String>,
    upstream_request_body_json: Option<String>,
    full_request_json: Option<String>,
    error_body: Option<String>,
) -> bool {
    is_present_payload(client_request_body_json) || is_present_payload(upstream_request_body_json)
        || is_present_payload(full_request_json) || is_present_payload(error_body)
}

fn payload_present(value: &Option<String>) -> (r: bool)
    ensures
        r == is_present_payload(*value),
{
    match value {
        Some(v) => crate::text::trimmed_chars(v.as_str()).len() > 0,
        None => false,
    }
}

/// Whether any heavyweight payload holds non-blank text.
pub fn has_external_detail_payloads(
    client_request_body_json: &Option<String>,
    upstream_request_body_json: &Option<String>,
    full_request_json: &Option<String>,
    error_body: &Option<String>,
) -> (r: bool)
    ensures
        r == has_external_payloads_spec(
            *client_request_body_json,
            *upstream_request_body_json,
            *full_request_json,
            *error_body,
        ),
{
    payload_present(client_request_body_json) || payload_present(upstream_request_body_json)
        || payload_present(full_request_json) || payload_present(error_body)
}

/// The detail payload projection of one fact row.
#[derive(Debug, Clone)]
pub struct UsageEventDetailRow {
    pub event_id: String,
    pub request_headers_json: String,
    pub routing_diagnostics_json: Option<String>,
    pub last_message_content: Option<String>,
    pub client_request_body_json: Option<String>,
    pub upstream_request_body_json: Option<String>,
    pub full_request_json: Option<String>,
    pub error_message: Option<String>,
    pub error_body: Option<String>,
}

/// The detail payload as stored in an external pack member (without its
/// event id, which the fact row holds).
#[derive(Debug, Clone)]
pub struct UsageEventDetailBlob {
    pub request_headers_json: String,
    pub routing_diagnostics_json: Option<String>,
    pub last_message_content: Option<String>,
    pub client_request_body_json: Option<String>,
    pub upstream_request_body_json: Option<String>,
    pub full_request_json: Option<String>,
    pub error_message: Option<String>,
    pub error_body: Option<String>,
}

impl UsageEventDetailRow {
    /// The detail projection of a fact row.
    pub fn from_usage_event_row(row: &UsageEventRow) -> (r: Self)
        ensures
            r == (UsageEventDetailRow {
                event_id: row.event_id,
                request_headers_json: row.request_headers_json,
                routing_diagnostics_json: row.routing_diagnostics_json,
                last_message_content: row.last_message_content,
                client_request_body_json: row.client_request_body_json,
                upstream_request_body_json: row.upstream_request_body_json,
                full_request_json: row.full_request_json,
                error_message: row.error_message,
                error_body: row.error_body,
            }),
    {
        UsageEventDetailRow {
            event_id: row.event_id.clone(),
            request_headers_json: row.request_headers_json.clone(),
            routing_diagnostics_json: dup_opt_string(&row.routing_diagnostics_json),
            last_message_content: dup_opt_string(&row.last_message_content),
            client_request_body_json: dup_opt_string(&row.client_request_body_json),
            upstream_request_body_json: dup_opt_string(&row.upstream_request_body_json),
            full_request_json: dup_opt_string(&row.full_request_json),
            error_message: dup_opt_string(&row.error_message),
            error_body: dup_opt_string(&row.error_body),
        }
    }

    /// Whether this detail row has payloads that belong in an external pack.
    pub fn has_external_payloads(&self) -> (r: bool)
        ensures
            r == has_external_payloads_spec(
                self.client_request_body_json,
                self.upstream_request_body_json,
                self.full_request_json,
                self.error_body,
            ),
    {
        has_external_detail_payloads(
            &self.client_request_body_json,
            &self.upstream_request_body_json,
            &self.full_request_json,
            &self.error_body,
        )
    }
}

impl UsageEventDetailBlob {
    /// The pack member content of a detail row.
    pub fn from_detail_row(row: &UsageEventDetailRow) -> (r: Self)
        ensures
            r == (UsageEventDetailBlob {
                request_headers_json: row.request_headers_json,
                routing_diagnostics_json: row.routing_diagnostics_json,
                last_message_content: row.last_message_content,
                client_request_body_json: row.client_request_body_json,
                upstream_request_body_json: row.upstream_request_body_json,
                full_request_json: row.full_request_json,
                error_message: row.error_message,
                error_body: row.error_body,
            }),
    {
        UsageEventDetailBlob {
            request_headers_json: row.request_headers_json.clone(),
            routing_diagnostics_json: dup_opt_string(&row.routing_diagnostics_json),
            last_message_content: dup_opt_string(&row.last_message_content),
            client_request_body_json: dup_opt_string(&row.client_request_body_json),
            upstream_request_body_json: dup_opt_string(&row.upstream_request_body_json),
            full_request_json: dup_opt_string(&row.full_request_json),
            error_message: dup_opt_string(&row.error_message),
            error_body: dup_opt_string(&row.error_body),
        }
    }

    /// The detail row of an event id whose pack member this blob is.
    pub fn into_detail_row(self, event_id: String) -> (r: UsageEventDetailRow)
        ensures
            r == (UsageEventDetailRow {
                event_id,
                request_headers_json: self.request_headers_json,
                routing_diagnostics_json: self.routing_diagnostics_json,
                last_message_content: self.last_message_content,
                client_request_body_json: self.client_request_body_json,
                upstream_request_body_json: self.upstream_request_body_json,
                full_request_json: self.full_request_json,
                error_message: self.error_message,
                error_body: self.error_body,
            }),
    {
        UsageEventDetailRow {
            event_id,
            request_headers_json: self.request_headers_json,
            routing_diagnostics_json: self.routing_diagnostics_json,
            last_message_content: self.last_message_content,
            client_request_body_json: self.client_request_body_json,
            upstream_request_body_json: self.upstream_request_body_json,
            full_request_json: self.full_request_json,
            error_message: self.error_message,
            error_body: self.error_body,
        }
    }
}

/// A value bound to a positional statement parameter.
#[derive(Debug, Clone)]
pub enum SqlValue {
    /// SQL `NULL`.
    Null,
    /// A 64-bit integer.
    Integer(i64),
    /// Text.
    Text(String),
    /// A boolean.
    Boolean(bool),
}

/// Text parameter, or `NULL` when absent.
pub open spec fn text_or_null(value: Option<String>) -> SqlValue {
    match value {
        Some(s) => SqlValue::Text(s),
        None => SqlValue::Null,
    }
}

/// Integer parameter, or `NULL` when absent.
pub open spec fn integer_or_null(value: Option<i64>) -> SqlValue {
    match value {
        Some(v) => SqlValue::Integer(v),
        None => SqlValue::Null,
    }
}

/// Boolean parameter, or `NULL` when absent.
pub open spec fn boolean_or_null(value: Option<bool>) -> SqlValue {
    match value {
        Some(v) => SqlValue::Boolean(v),
        None => SqlValue::Null,
    }
}

fn text_param(value: &Option<String>) -> (r: SqlValue)
    ensures
        r == text_or_null(*value),
{
    match value {
        Some(s) => SqlValue::Text(s.clone()),
        None => SqlValue::Null,
    }
}

fn integer_param(value: Option<i64>) -> (r: SqlValue)
    ensures
        r == integer_or_null(value),
{
    match value {
        Some(v) => SqlValue::Integer(v),
        None => SqlValue::Null,
    }
}

fn boolean_param(value: Option<bool>) -> (r: SqlValue)
    ensures
        r == boolean_or_null(value),
{
    match value {
        Some(v) => SqlValue::Boolean(v),
        None => SqlValue::Null,
    }
}

/// The parameters `?1`..`?54` of the fact-row insert statement, in
/// placeholder order.
pub open spec fn insert_params(row: UsageEventRow) -> Seq<SqlValue> {
    seq![
        SqlValue::Integer(row.source_seq),
        SqlValue::Text(row.source_event_id),
        SqlValue::Text(row.event_id),
        SqlValue::Integer(row.created_at_ms),
        SqlValue::Text(row.provider_type),
        SqlValue::Text(row.protocol_family),
        SqlValue::Text(row.key_id),
        SqlValue::Text(row.key_name),
        SqlValue::Text(row.key_status_at_event),
        text_or_null(row.account_name),
        text_or_null(row.account_group_id_at_event),
        text_or_null(row.route_strategy_at_event),
        SqlValue::Text(row.request_method),
        SqlValue::Text(row.request_url),
        SqlValue::Text(row.endpoint),
        text_or_null(row.model),
        text_or_null(row.mapped_model),
        SqlValue::Integer(row.status_code),
        integer_or_null(row.latency_ms),
        integer_or_null(row.routing_wait_ms),
        integer_or_null(row.upstream_headers_ms),
        integer_or_null(row.post_headers_body_ms),
        integer_or_null(row.request_body_read_ms),
        integer_or_null(row.request_json_parse_ms),
        integer_or_null(row.pre_handler_ms),
        integer_or_null(row.first_sse_write_ms),
        integer_or_null(row.stream_finish_ms),
        boolean_or_null(row.stream_completed_cleanly),
        boolean_or_null(row.downstream_disconnect),
        text_or_null(row.final_event_type),
        integer_or_null(row.bytes_streamed),
        integer_or_null(row.request_body_bytes),
        SqlValue::Integer(row.quota_failover_count),
        SqlValue::Integer(row.input_uncached_tokens),
        SqlValue::Integer(row.input_cached_tokens),
        SqlValue::Integer(row.output_tokens),
        SqlValue::Integer(row.billable_tokens),
        text_or_null(row.credit_usage),
        SqlValue::Boolean(row.usage_missing),
        SqlValue::Boolean(row.credit_usage_missing),
        text_or_null(row.client_ip),
        text_or_null(row.ip_region),
        SqlValue::Text(row.request_headers_json),
        text_or_null(row.routing_diagnostics_json),
        text_or_null(row.last_message_content),
        SqlValue::Boolean(row.detail_object_payload_present),
        text_or_null(row.detail_object_path),
        integer_or_null(row.detail_object_offset),
        integer_or_null(row.detail_object_length),
        text_or_null(row.detail_object_sha256),
        text_or_null(row.proxy_source_at_event),
        text_or_null(row.proxy_config_id_at_event),
        text_or_null(row.proxy_config_name_at_event),
        text_or_null(row.proxy_url_at_event),
    ]
}

/// Binds one fact row to the parameters of [`crate::sql::insert_usage_event_sql`].
pub fn usage_event_insert_params(row: &UsageEventRow) -> (r: Vec<SqlValue>)
    ensures
        r@ == insert_params(*row),
        r@.len() == 54,
{
    let r = vec![
        SqlValue::Integer(row.source_seq),
        SqlValue::Text(row.source_event_id.clone()),
        SqlValue::Text(row.event_id.clone()),
        SqlValue::Integer(row.created_at_ms),
        SqlValue::Text(row.provider_type.clone()),
        SqlValue::Text(row.protocol_family.clone()),
        SqlValue::Text(row.key_id.clone()),
        SqlValue::Text(row.key_name.clone()),
        SqlValue::Text(row.key_status_at_event.clone()),
        text_param(&row.account_name),
        text_param(&row.account_group_id_at_event),
        text_param(&row.route_strategy_at_event),
        SqlValue::Text(row.request_method.clone()),
        SqlValue::Text(row.request_url.clone()),
        SqlValue::Text(row.endpoint.clone()),
        text_param(&row.model),
        text_param(&row.mapped_model),
        SqlValue::Integer(row.status_code),
        integer_param(row.latency_ms),
        integer_param(row.routing_wait_ms),
        integer_param(row.upstream_headers_ms),
        integer_param(row.post_headers_body_ms),
        integer_param(row.request_body_read_ms),
        integer_param(row.request_json_parse_ms),
        integer_param(row.pre_handler_ms),
        integer_param(row.first_sse_write_ms),
        integer_param(row.stream_finish_ms),
        boolean_param(row.stream_completed_cleanly),
        boolean_param(row.downstream_disconnect),
        text_param(&row.final_event_type),
        integer_param(row.bytes_streamed),
        integer_param(row.request_body_bytes),
        SqlValue::Integer(row.quota_failover_count),
        SqlValue::Integer(row.input_uncached_tokens),
        SqlValue::Integer(row.input_cached_tokens),
        SqlValue::Integer(row.output_tokens),
        SqlValue::Integer(row.billable_tokens),
        text_param(&row.credit_usage),
        SqlValue::Boolean(row.usage_missing),
        SqlValue::Boolean(row.credit_usage_missing),
        text_param(&row.client_ip),
        text_param(&row.ip_region),
        SqlValue::Text(row.request_headers_json.clone()),
        text_param(&row.routing_diagnostics_json),
        text_param(&row.last_message_content),
        SqlValue::Boolean(row.detail_object_payload_present),
        text_param(&row.detail_object_path),
        integer_param(row.detail_object_offset),
        integer_param(row.detail_object_length),
        text_param(&row.detail_object_sha256),
        text_param(&row.proxy_source_at_event),
        text_param(&row.proxy_config_id_at_event),
        text_param(&row.proxy_config_name_at_event),
        text_param(&row.proxy_url_at_event),
    ];
    assert(r@ =~= insert_params(*row));
    r
}

/// The parameters `?1`..`?9` of the detail insert statement.
pub open spec fn detail_insert_params(row: UsageEventRow) -> Seq<SqlValue> {
    seq![
        SqlValue::Text(row.event_id),
        SqlValue::Text(row.request_headers_json),
        text_or_null(row.routing_diagnostics_json),
        text_or_null(row.last_message_content),
        text_or_null(row.client_request_body_json),
        text_or_null(row.upstream_request_body_json),
        text_or_null(row.full_request_json),
        text_or_null(row.error_message),
        text_or_null(row.error_body),
    ]
}

/// Binds one fact row to the parameters of
/// [`crate::sql::insert_usage_event_detail_sql`].
pub fn usage_event_detail_insert_params(row: &UsageEventRow) -> (r: Vec<SqlValue>)
    ensures
        r@ == detail_insert_params(*row),
        r@.len() == 9,
{
    let r = vec![
        SqlValue::Text(row.event_id.clone()),
        SqlValue::Text(row.request_headers_json.clone()),
        text_param(&row.routing_diagnostics_json),
        text_param(&row.last_message_content),
        text_param(&row.client_request_body_json),
        text_param(&row.upstream_request_body_json),
        text_param(&row.full_request_json),
        text_param(&row.error_message),
        text_param(&row.error_body),
    ];
    assert(r@ =~= detail_insert_params(*row));
    r
}

} // verus!

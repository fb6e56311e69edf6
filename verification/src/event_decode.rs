//! Decoding a `usage_events` row read back from the store into a usage
//! event: the stored names of the provider type, protocol family and route
//! strategy are checked against their vocabularies, absent client fields
//! read as `unknown`, and the heavyweight request payloads are kept only
//! when the caller asked for the detail view.
use vstd::prelude::*;
use crate::text::{concat2, str_equals};

verus! {

/// The columns of one `usage_events` row in the order the event selects
/// read them.
#[derive(Debug, Clone)]
pub struct UsageEventColumns {
    pub event_id: String,
    pub created_at_ms: i64,
    pub provider_type: String,
    pub protocol_family: String,
    pub key_id: String,
    pub key_name: String,
    pub account_name: Option<String>,
    pub account_group_id_at_event: Option<String>,
    pub route_strategy_at_event: Option<String>,
    pub request_method: String,
    pub request_url: String,
    pub endpoint: String,
    pub model: Option<String>,
    pub mapped_model: Option<String>,
    pub status_code: i64,
    pub request_body_bytes: Option<i64>,
    pub quota_failover_count: i64,
    pub routing_diagnostics_json: Option<String>,
    pub input_uncached_tokens: i64,
    pub input_cached_tokens: i64,
    pub output_tokens: i64,
    pub billable_tokens: i64,
    pub credit_usage: Option<String>,
    pub usage_missing: bool,
    pub credit_usage_missing: bool,
    pub timing: UsageTimingColumns,
    pub stream: UsageStreamColumns,
    pub client_ip: Option<String>,
    pub ip_region: Option<String>,
    pub last_message_content: Option<String>,
    pub request_headers_json: Option<String>,
    pub client_request_body_json: Option<String>,
    pub upstream_request_body_json: Option<String>,
    pub full_request_json: Option<String>,
    pub error_message: Option<String>,
    pub error_body: Option<String>,
}

/// How the downstream stream of a usage event went.
#[derive(Debug, Clone, PartialEq, Eq)]
pub struct UsageStreamColumns {
    pub stream_completed_cleanly: Option<bool>,
    pub downstream_disconnect: Option<bool>,
    pub final_event_type: Option<String>,
    pub bytes_streamed: Option<i64>,
}

/// The timing columns of a usage event, in milliseconds.
#[derive(Debug, Clone, Copy, PartialEq, Eq)]
pub struct UsageTimingColumns {
    pub latency_ms: Option<i64>,
    pub routing_wait_ms: Option<i64>,
    pub upstream_headers_ms: Option<i64>,
    pub post_headers_body_ms: Option<i64>,
    pub request_body_read_ms: Option<i64>,
    pub request_json_parse_ms: Option<i64>,
    pub pre_handler_ms: Option<i64>,
    pub first_sse_write_ms: Option<i64>,
    pub stream_finish_ms: Option<i64>,
}

/// The stored names that the provider type, protocol family and route
/// strategy of an event may take.
#[derive(Debug, Clone)]
pub struct StorageVocabulary {
    pub provider_types: Vec<String>,
    pub protocol_families: Vec<String>,
    pub route_strategies: Vec<String>,
}

/// A provider-neutral usage event, as the gateway records it and as it is
/// decoded from its stored row.
#[derive(Debug, Clone)]
pub struct UsageEvent {
    pub event_id: String,
    pub created_at_ms: i64,
    pub provider_type: String,
    pub protocol_family: String,
    pub key_id: String,
    pub key_name: String,
    pub account_name: Option<String>,
    pub account_group_id_at_event: Option<String>,
    pub route_strategy_at_event: Option<String>,
    pub request_method: String,
    pub request_url: String,
    pub endpoint: String,
    pub model: Option<String>,
    pub mapped_model: Option<String>,
    pub status_code: i64,
    pub request_body_bytes: Option<i64>,
    pub quota_failover_count: u64,
    pub routing_diagnostics_json: Option<String>,
    pub input_uncached_tokens: i64,
    pub input_cached_tokens: i64,
    pub output_tokens: i64,
    pub billable_tokens: i64,
    pub credit_usage: Option<String>,
    pub usage_missing: bool,
    pub credit_usage_missing: bool,
    pub client_ip: String,
    pub ip_region: String,
    pub request_headers_json: String,
    pub last_message_content: Option<String>,
    pub client_request_body_json: Option<String>,
    pub upstream_request_body_json: Option<String>,
    pub full_request_json: Option<String>,
    pub error_message: Option<String>,
    pub error_body: Option<String>,
    pub timing: UsageTimingColumns,
    pub stream: UsageStreamColumns,
}

/// Why a stored row does not decode: a stored name outside its vocabulary.
#[derive(Debug, Clone, PartialEq, Eq)]
pub enum UsageDecodeError {
    InvalidProviderType { value: String },
    InvalidProtocolFamily { value: String },
    InvalidRouteStrategy { value: String },
}

impl UsageDecodeError {
    /// The position of the offending column in the select.
    pub fn column(&self) -> (r: u64)
        ensures
            r == match self {
                UsageDecodeError::InvalidProviderType { .. } => 2u64,
                UsageDecodeError::InvalidProtocolFamily { .. } => 3u64,
                UsageDecodeError::InvalidRouteStrategy { .. } => 8u64,
            },
    {
        match self {
            UsageDecodeError::InvalidProviderType { .. } => 2,
            UsageDecodeError::InvalidProtocolFamily { .. } => 3,
            UsageDecodeError::InvalidRouteStrategy { .. } => 8,
        }
    }

    /// The error's message, naming the column and quoting the stored value.
    pub fn message(&self) -> (r: String)
        ensures
            r@ == match self {
                UsageDecodeError::InvalidProviderType { value } => "invalid provider_type `"@ + value@ + "`"@,
                UsageDecodeError::InvalidProtocolFamily { value } => "invalid protocol_family `"@ + value@ + "`"@,
                UsageDecodeError::InvalidRouteStrategy { value } => "invalid route_strategy_at_event `"@ + value@ + "`"@,
            },
    {
        let (prefix, value) = match self {
            UsageDecodeError::InvalidProviderType { value } => ("invalid provider_type `", value),
            UsageDecodeError::InvalidProtocolFamily { value } => ("invalid protocol_family `", value),
            UsageDecodeError::InvalidRouteStrategy { value } => ("invalid route_strategy_at_event `", value),
        };
        let head = concat2(prefix, value.as_str());
        concat2(head.as_str(), "`")
    }
}

/// Whether `name` is one of the stored names in `words`.
pub open spec fn in_vocabulary(words: Seq<String>, name: Seq<char>) -> bool {
    exists|i: int| 0 <= i < words.len() && (#[trigger] words[i])@ == name
}

/// Whether `name` is one of the stored names in `words`.
pub fn vocabulary_contains(words: &Vec<String>, name: &str) -> (r: bool)
    ensures
        r == in_vocabulary(words@, name@),
{
    let mut i: usize = 0;
    while i < words.len()
        invariant
            i <= words@.len(),
            forall|j: int| 0 <= j < i ==> (#[trigger] words@[j])@ != name@,
        decreases words.len() - i,
    {
        if str_equals(words[i].as_str(), name) {
            return true;
        }
        i = i + 1;
    }
    false
}

/// A stored client field, or `unknown` when it is absent.
pub open spec fn or_unknown(value: Option<String>) -> Seq<char> {
    match value {
        Some(s) => s@,
        None => "unknown"@,
    }
}

/// The request headers of a decoded event: the stored JSON (`{}` when
/// absent) in the detail view, `{}` otherwise.
pub open spec fn decoded_headers(value: Option<String>, include_detail_payload: bool) -> Seq<char> {
    match value {
        Some(s) if include_detail_payload => s@,
        _ => "{}"@,
    }
}

/// A stored payload column, kept only in the detail view.
pub open spec fn gated(value: Option<String>, include_detail_payload: bool) -> Option<String> {
    if include_detail_payload { value } else { None }
}

/// A stored failover count, with negative values read as zero.
pub open spec fn failover_count(value: i64) -> u64 {
    (if value < 0 { 0 } else { value }) as u64
}

/// Whether the three stored names of a row are in their vocabularies.
pub open spec fn names_known(columns: UsageEventColumns, vocabulary: StorageVocabulary) -> bool {
    &&& in_vocabulary(vocabulary.provider_types@, columns.provider_type@)
    &&& in_vocabulary(vocabulary.protocol_families@, columns.protocol_family@)
    &&& (columns.route_strategy_at_event matches Some(s) ==> in_vocabulary(vocabulary.route_strategies@, s@))
}

fn or_literal(value: Option<String>, fallback: &str) -> (r: String)
    ensures
        r@ == match value { Some(s) => s@, None => fallback@ },
{
    match value {
        Some(s) => s,
        None => fallback.to_owned(),
    }
}

/// Whether `d` is the event decoded from a row's columns, in the detail
/// view when `detail_view` is set.
pub open spec fn decodes_to(columns: UsageEventColumns, detail_view: bool, d: UsageEvent) -> bool {
    &&& d.event_id == columns.event_id
    &&& d.created_at_ms == columns.created_at_ms
    &&& d.provider_type == columns.provider_type
    &&& d.protocol_family == columns.protocol_family
    &&& d.key_id == columns.key_id
    &&& d.key_name == columns.key_name
    &&& d.account_name == columns.account_name
    &&& d.account_group_id_at_event == columns.account_group_id_at_event
    &&& d.route_strategy_at_event == columns.route_strategy_at_event
    &&& d.request_method == columns.request_method
    &&& d.request_url == columns.request_url
    &&& d.endpoint == columns.endpoint
    &&& d.model == columns.model
    &&& d.mapped_model == columns.mapped_model
    &&& d.status_code == columns.status_code
    &&& d.request_body_bytes == columns.request_body_bytes
    &&& d.quota_failover_count == failover_count(columns.quota_failover_count)
    &&& d.routing_diagnostics_json == columns.routing_diagnostics_json
    &&& d.input_uncached_tokens == columns.input_uncached_tokens
    &&& d.input_cached_tokens == columns.input_cached_tokens
    &&& d.output_tokens == columns.output_tokens
    &&& d.billable_tokens == columns.billable_tokens
    &&& d.credit_usage == columns.credit_usage
    &&& d.usage_missing == columns.usage_missing
    &&& d.credit_usage_missing == columns.credit_usage_missing
    &&& d.client_ip@ == or_unknown(columns.client_ip)
    &&& d.ip_region@ == or_unknown(columns.ip_region)
    &&& d.request_headers_json@ == decoded_headers(columns.request_headers_json, detail_view)
    &&& d.last_message_content == columns.last_message_content
    &&& d.client_request_body_json == gated(columns.client_request_body_json, detail_view)
    &&& d.upstream_request_body_json == gated(columns.upstream_request_body_json, detail_view)
    &&& d.full_request_json == gated(columns.full_request_json, detail_view)
    &&& d.error_message == gated(columns.error_message, detail_view)
    &&& d.error_body == gated(columns.error_body, detail_view)
    &&& d.timing == columns.timing
    &&& d.stream == columns.stream
}

/// Decodes one stored row into a usage event. The provider type is checked
/// first, then the protocol family, then the route strategy when there is
/// one; the first name outside its vocabulary is the error. The request
/// headers, bodies and error details are kept only when
/// `include_detail_payload` is set.
pub fn decode_usage_event_row(
    columns: UsageEventColumns,
    vocabulary: &StorageVocabulary,
    include_detail_payload: bool,
) -> (r: Result<UsageEvent, UsageDecodeError>)
    ensures
        r is Ok <==> names_known(columns, *vocabulary),
        r matches Err(e) ==> {
            if !in_vocabulary(vocabulary.provider_types@, columns.provider_type@) {
                e matches UsageDecodeError::InvalidProviderType { value } && value@ == columns.provider_type@
            } else if !in_vocabulary(vocabulary.protocol_families@, columns.protocol_family@) {
                e matches UsageDecodeError::InvalidProtocolFamily { value } && value@ == columns.protocol_family@
            } else {
                e matches UsageDecodeError::InvalidRouteStrategy { value }
                    && columns.route_strategy_at_event == Some(value)
            }
        },
        r matches Ok(d) ==> decodes_to(columns, include_detail_payload, d),
{
    proof {
        reveal_strlit("unknown");
        reveal_strlit("{}");
    }
    if !vocabulary_contains(&vocabulary.provider_types, columns.provider_type.as_str()) {
        return Err(UsageDecodeError::InvalidProviderType { value: columns.provider_type });
    }
    if !vocabulary_contains(&vocabulary.protocol_families, columns.protocol_family.as_str()) {
        return Err(UsageDecodeError::InvalidProtocolFamily { value: columns.protocol_family });
    }
    if let Some(value) = &columns.route_strategy_at_event {
        if !vocabulary_contains(&vocabulary.route_strategies, value.as_str()) {
            return Err(UsageDecodeError::InvalidRouteStrategy { value: value.clone() });
        }
    }
    let quota_failover_count: u64 = if columns.quota_failover_count < 0 {
        0
    } else {
        columns.quota_failover_count as u64
    };
    let request_headers_json = if include_detail_payload {
        or_literal(columns.request_headers_json, "{}")
    } else {
        "{}".to_owned()
    };
    let (client_request_body_json, upstream_request_body_json, full_request_json) = if include_detail_payload {
        (columns.client_request_body_json, columns.upstream_request_body_json, columns.full_request_json)
    } else {
        (None, None, None)
    };
    let (error_message, error_body) = if include_detail_payload {
        (columns.error_message, columns.error_body)
    } else {
        (None, None)
    };
    Ok(UsageEvent {
        event_id: columns.event_id,
        created_at_ms: columns.created_at_ms,
        provider_type: columns.provider_type,
        protocol_family: columns.protocol_family,
        key_id: columns.key_id,
        key_name: columns.key_name,
        account_name: columns.account_name,
        account_group_id_at_event: columns.account_group_id_at_event,
        route_strategy_at_event: columns.route_strategy_at_event,
        request_method: columns.request_method,
        request_url: columns.request_url,
        endpoint: columns.endpoint,
        model: columns.model,
        mapped_model: columns.mapped_model,
        status_code: columns.status_code,
        request_body_bytes: columns.request_body_bytes,
        quota_failover_count,
        routing_diagnostics_json: columns.routing_diagnostics_json,
        input_uncached_tokens: columns.input_uncached_tokens,
        input_cached_tokens: columns.input_cached_tokens,
        output_tokens: columns.output_tokens,
        billable_tokens: columns.billable_tokens,
        credit_usage: columns.credit_usage,
        usage_missing: columns.usage_missing,
        credit_usage_missing: columns.credit_usage_missing,
        client_ip: or_literal(columns.client_ip, "unknown"),
        ip_region: or_literal(columns.ip_region, "unknown"),
        request_headers_json,
        last_message_content: columns.last_message_content,
        client_request_body_json,
        upstream_request_body_json,
        full_request_json,
        error_message,
        error_body,
        timing: columns.timing,
        stream: columns.stream,
    })
}

/// How decoding fills a field: a negative failover count reads as zero and
/// any other as itself; an absent client field reads as `unknown`; the
/// request headers read as stored in the detail view (`{}` when absent)
/// and as `{}` otherwise; payload columns are kept in the detail view only.
pub proof fn lemma_decoded_field_defaults(count: i64, text: Option<String>, detail_view: bool)
    ensures
        count >= 0 ==> failover_count(count) == count,
        count < 0 ==> failover_count(count) == 0,
        text matches Some(t) ==> or_unknown(text) == t@,
        text is None ==> or_unknown(text) == "unknown"@,
        detail_view ==> (text matches Some(t) ==> decoded_headers(text, detail_view) == t@),
        !(detail_view && text is Some) ==> decoded_headers(text, detail_view) == "{}"@,
        detail_view ==> gated(text, detail_view) == text,
        !detail_view ==> gated(text, detail_view) is None,
{
}

} // verus!

//! Storage-side logic of the LLM access gateway: SQL text for the usage
//! analytics tables, usage metrics aggregation, tiered segment bookkeeping,
//! archive catalog state and control-plane records.
pub mod calendar;
pub mod chart;
pub mod codex_auth;
pub mod codex_route;
pub mod catalog;
pub mod catalog_query;
pub mod catalog_state;
pub mod key_rollups;
pub mod json_fields;
pub mod kiro_admin;
pub mod kiro_view_cache;
pub mod detail_pack;
pub mod digest;
pub mod event_decode;
pub mod lifecycle;
pub mod metrics;
pub mod metrics_rank;
pub mod model;
pub mod proxy_resolution;
pub mod ordering;
pub mod query;
pub mod records;
pub mod repository;
pub mod rollup_delta;
pub mod scan;
pub mod segment_paths;
pub mod sql;
pub mod text;
pub mod tiered_read;
pub mod usage_row;
pub mod writer;

//! Plain data shared by the store's modules: connection and tiering
//! configuration, retention reports and proxy scoping.
use vstd::prelude::*;

verus! {

/// Runtime-tunable DuckDB connection settings for usage analytics writes.
#[derive(Debug, Clone, Copy, PartialEq, Eq, Structural)]
pub struct DuckDbUsageConnectionConfig {
    /// DuckDB buffer-manager memory limit in MiB.
    pub memory_limit_mib: u64,
    /// WAL size threshold for automatic checkpoints in MiB.
    pub checkpoint_threshold_mib: u64,
}

impl DuckDbUsageConnectionConfig {
    /// Connection settings from the memory limit and checkpoint threshold of
    /// the admin runtime config: the memory limit is at least 1 MiB and the
    /// checkpoint threshold at least the gateway's default threshold.
    pub fn from_admin_runtime_config(
        memory_limit_mib: u64,
        checkpoint_threshold_mib: u64,
        default_checkpoint_threshold_mib: u64,
    ) -> (r: Self)
        ensures
            r.memory_limit_mib == if memory_limit_mib < 1 { 1 } else { memory_limit_mib },
            r.checkpoint_threshold_mib == if checkpoint_threshold_mib < default_checkpoint_threshold_mib {
                default_checkpoint_threshold_mib
            } else {
                checkpoint_threshold_mib
            },
    {
        DuckDbUsageConnectionConfig {
            memory_limit_mib: if memory_limit_mib < 1 { 1 } else { memory_limit_mib },
            checkpoint_threshold_mib: if checkpoint_threshold_mib < default_checkpoint_threshold_mib {
                default_checkpoint_threshold_mib
            } else {
                checkpoint_threshold_mib
            },
        }
    }
}

/// Tiered DuckDB usage storage configuration.
#[derive(Debug, Clone, PartialEq, Eq)]
pub struct TieredDuckDbUsageConfig {
    /// Local directory for the current writable DuckDB file.
    pub active_dir: String,
    /// Directory for immutable archived DuckDB segments.
    pub archive_dir: String,
    /// Rollover threshold in bytes for the active DuckDB file.
    pub rollover_bytes: u64,
    /// Optional local root directory for packed detail payloads.
    pub details_dir: Option<String>,
}

/// Summary of one usage analytics retention pass.
#[derive(Debug, Clone, Copy, PartialEq, Eq, Default)]
pub struct UsageAnalyticsPruneReport {
    /// Archived segments removed from the catalog.
    pub deleted_segments: usize,
    /// Catalog-referenced DuckDB files removed from disk.
    pub deleted_files: usize,
    /// DuckDB files removed because no catalog row referenced them.
    pub deleted_orphan_files: usize,
    /// Detail pack files removed from expired day buckets.
    pub deleted_detail_files: usize,
    /// Detail directories removed from expired day buckets or empty archive
    /// buckets.
    pub deleted_detail_dirs: usize,
}

} // verus!

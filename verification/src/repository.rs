//! The usage repository: one DuckDB file, or tiered storage with an active
//! segment, sealed segments and an archive catalog. Opening a repository
//! decides its state from what the caller found on disk; the caller creates
//! the directories and files.
use vstd::prelude::*;
use crate::catalog_state::{TestTieredUsageCatalog, max_sequence};
use crate::lifecycle::TieredDuckDbUsageState;
use crate::model::{DuckDbUsageConnectionConfig, TieredDuckDbUsageConfig, UsageAnalyticsPruneReport};
use crate::segment_paths::{chosen_active_segment, greatest_name};

verus! {

/// Where the archive catalog is kept.
#[derive(Debug)]
pub enum UsageCatalogBackend {
    /// A JSON file beside the archive, held in memory.
    File(TestTieredUsageCatalog),
    /// A Postgres database, reached through its URL.
    Postgres { database_url: String },
}

/// The storage layout of a repository.
#[derive(Debug)]
pub enum UsageRepositoryMode {
    /// One DuckDB file.
    Single { path: String },
    /// Tiered storage.
    Tiered { config: TieredDuckDbUsageConfig, state: TieredDuckDbUsageState, catalog: UsageCatalogBackend },
}

/// A file-backed DuckDB usage-event repository. `connection_config` is
/// `None` where the gateway's default connection settings apply.
#[derive(Debug)]
pub struct DuckDbUsageRepository {
    pub mode: UsageRepositoryMode,
    pub connection_config: Option<DuckDbUsageConnectionConfig>,
}

/// Whether the file names of the active directory hold an active segment.
pub open spec fn names_hold_active_segment(names: Seq<Seq<char>>) -> bool {
    greatest_name(names) is Some
}

/// The file names as text.
pub open spec fn name_views(names: Seq<String>) -> Seq<Seq<char>> {
    Seq::new(names.len(), |i: int| names[i]@)
}

fn tiered_state(
    config: &TieredDuckDbUsageConfig,
    active_dir_file_names: &Vec<String>,
    catalog_next_sequence: u64,
) -> (r: TieredDuckDbUsageState)
    ensures
        (r.active_path@, r.next_sequence) == chosen_active_segment(config.active_dir@, name_views(active_dir_file_names@), catalog_next_sequence),
        r.active_has_rows == names_hold_active_segment(name_views(active_dir_file_names@)),
{
    let (active_path, next_sequence) = crate::segment_paths::choose_active_segment(config, active_dir_file_names, catalog_next_sequence);
    let mut found = false;
    let mut i: usize = 0;
    while i < active_dir_file_names.len()
        invariant
            i <= active_dir_file_names.len(),
            found == (greatest_name(name_views(active_dir_file_names@).take(i as int)) is Some),
        decreases active_dir_file_names.len() - i,
    {
        proof {
            let names = name_views(active_dir_file_names@);
            assert(names.take(i + 1).drop_last() =~= names.take(i as int));
            assert(names.take(i + 1).last() == active_dir_file_names@[i as int]@);
        }
        if crate::segment_paths::active_segment_file_name(active_dir_file_names[i].as_str()) {
            found = true;
        }
        i = i + 1;
    }
    assert(name_views(active_dir_file_names@).take(i as int) =~= name_views(active_dir_file_names@));
    assert(Seq::new(active_dir_file_names@.len(), |i: int| active_dir_file_names@[i]@) == name_views(active_dir_file_names@));
    TieredDuckDbUsageState { active_path, next_sequence, active_has_rows: found }
}

impl DuckDbUsageRepository {
    /// A repository over one DuckDB file with the default connection
    /// settings.
    pub fn open_path(path: &str) -> (r: Self)
        ensures
            r.mode matches UsageRepositoryMode::Single { path: p } && p@ == path@,
            r.connection_config is None,
    {
        DuckDbUsageRepository { mode: UsageRepositoryMode::Single { path: path.to_owned() }, connection_config: None }
    }

    /// A repository over one DuckDB file with the given connection settings.
    pub fn open_path_with_connection_config(path: &str, connection_config: DuckDbUsageConnectionConfig) -> (r: Self)
        ensures
            r.mode matches UsageRepositoryMode::Single { path: p } && p@ == path@,
            r.connection_config == Some(connection_config),
    {
        DuckDbUsageRepository {
            mode: UsageRepositoryMode::Single { path: path.to_owned() },
            connection_config: Some(connection_config),
        }
    }

    /// A tiered repository with the default connection settings, over the
    /// file catalog and the file names found in the active directory: the
    /// greatest active segment file is reopened, or else a new one follows
    /// the catalog's last sequence.
    pub fn open_tiered(config: TieredDuckDbUsageConfig, catalog: TestTieredUsageCatalog, active_dir_file_names: &Vec<String>) -> (r: Self)
        ensures
            r.connection_config is None,
            r.mode matches UsageRepositoryMode::Tiered { config: c, state: s, catalog: UsageCatalogBackend::File(k) } && c == config
                && k == catalog
                && (s.active_path@, s.next_sequence) == chosen_active_segment(
                    config.active_dir@,
                    name_views(active_dir_file_names@),
                    max_sequence(catalog.state.ids()),
                ) && s.active_has_rows == names_hold_active_segment(name_views(active_dir_file_names@)),
    {
        let last = catalog.next_sequence();
        let state = tiered_state(&config, active_dir_file_names, last);
        DuckDbUsageRepository {
            mode: UsageRepositoryMode::Tiered { config, state, catalog: UsageCatalogBackend::File(catalog) },
            connection_config: None,
        }
    }

    /// A tiered repository over the file catalog with the given connection
    /// settings.
    pub fn open_tiered_with_connection_config(
        config: TieredDuckDbUsageConfig,
        connection_config: DuckDbUsageConnectionConfig,
        catalog: TestTieredUsageCatalog,
        active_dir_file_names: &Vec<String>,
    ) -> (r: Self)
        ensures
            r.connection_config == Some(connection_config),
            r.mode matches UsageRepositoryMode::Tiered { config: c, state: s, catalog: UsageCatalogBackend::File(k) } && c == config
                && k == catalog
                && (s.active_path@, s.next_sequence) == chosen_active_segment(
                    config.active_dir@,
                    name_views(active_dir_file_names@),
                    max_sequence(catalog.state.ids()),
                ) && s.active_has_rows == names_hold_active_segment(name_views(active_dir_file_names@)),
    {
        let last = catalog.next_sequence();
        let state = tiered_state(&config, active_dir_file_names, last);
        DuckDbUsageRepository {
            mode: UsageRepositoryMode::Tiered { config, state, catalog: UsageCatalogBackend::File(catalog) },
            connection_config: Some(connection_config),
        }
    }

    /// A tiered repository over a Postgres catalog, given the last sequence
    /// that catalog reports.
    pub fn open_tiered_with_postgres_catalog_with_connection_config(
        config: TieredDuckDbUsageConfig,
        connection_config: DuckDbUsageConnectionConfig,
        database_url: &str,
        catalog_next_sequence: u64,
        active_dir_file_names: &Vec<String>,
    ) -> (r: Self)
        ensures
            r.connection_config == Some(connection_config),
            r.mode matches UsageRepositoryMode::Tiered { config: c, state: s, catalog: UsageCatalogBackend::Postgres { database_url: u } }
                && c == config && u@ == database_url@
                && (s.active_path@, s.next_sequence) == chosen_active_segment(
                    config.active_dir@,
                    name_views(active_dir_file_names@),
                    catalog_next_sequence,
                ) && s.active_has_rows == names_hold_active_segment(name_views(active_dir_file_names@)),
    {
        let state = tiered_state(&config, active_dir_file_names, catalog_next_sequence);
        DuckDbUsageRepository {
            mode: UsageRepositoryMode::Tiered {
                config,
                state,
                catalog: UsageCatalogBackend::Postgres { database_url: database_url.to_owned() },
            },
            connection_config: Some(connection_config),
        }
    }

    /// Whether the repository is tiered (only tiered storage is pruned).
    pub fn is_tiered(&self) -> (r: bool)
        ensures
            r == (self.mode is Tiered),
    {
        match self.mode {
            UsageRepositoryMode::Tiered { .. } => true,
            UsageRepositoryMode::Single { .. } => false,
        }
    }
}

/// The report of a retention pass over a single-file repository, which
/// keeps everything.
pub fn single_file_prune_report() -> (r: UsageAnalyticsPruneReport)
    ensures
        r == (UsageAnalyticsPruneReport {
            deleted_segments: 0,
            deleted_files: 0,
            deleted_orphan_files: 0,
            deleted_detail_files: 0,
            deleted_detail_dirs: 0,
        }),
{
    UsageAnalyticsPruneReport {
        deleted_segments: 0,
        deleted_files: 0,
        deleted_orphan_files: 0,
        deleted_detail_files: 0,
        deleted_detail_dirs: 0,
    }
}

/// Whether the writer must be reopened: none is open, or it was opened with
/// other connection settings.
pub fn writer_needs_reopen(open_with: Option<DuckDbUsageConnectionConfig>, wanted: DuckDbUsageConnectionConfig) -> (r: bool)
    ensures
        r == (match open_with { Some(c) => c != wanted, None => true }),
{
    match open_with {
        Some(c) => c.memory_limit_mib != wanted.memory_limit_mib || c.checkpoint_threshold_mib != wanted.checkpoint_threshold_mib,
        None => true,
    }
}

} // verus!

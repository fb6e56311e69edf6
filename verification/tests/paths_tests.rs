use llm_access_store::calendar::{archive_segment_bucket_dir, detail_day_bucket_expired, utc_date_parts};
use llm_access_store::lifecycle::{
    active_segment_retention, pending_segment_path, rollover_due, rollover_segment_id, rollover_sequence,
    sealed_at_ms_for_segment, sealed_at_ms_from_segment_id, usage_analytics_retention_cutoff_ms,
    ActiveSegmentRetention, TieredDuckDbUsageState,
};
use llm_access_store::model::TieredDuckDbUsageConfig;
use llm_access_store::scan::{parse_i64, parse_u64, str_less};
use llm_access_store::segment_paths::{
    active_segment_file_name, active_segment_path, archive_segment_file_name, archive_segment_path_for_timestamp,
    archived_segment_paths, choose_active_segment, compacting_segment_path, duckdb_wal_path, parse_segment_sequence,
    path_join, published_archive_file_name, stale_compacting_file_name, test_catalog_state_path,
    tiered_compacting_dir, tiered_pending_dir, uploading_archive_segment_path_from_archive_path,
};

fn config() -> TieredDuckDbUsageConfig {
    TieredDuckDbUsageConfig {
        active_dir: "/data/active".to_string(),
        archive_dir: "/data/archive".to_string(),
        rollover_bytes: 1024,
        details_dir: None,
    }
}

#[test]
fn path_join_follows_path_rules() {
    assert_eq!(path_join("/a", "b"), "/a/b");
    assert_eq!(path_join("/a/", "b"), "/a/b");
    assert_eq!(path_join("", "b"), "b");
    assert_eq!(path_join("/a", "/b"), "/b");
}

#[test]
fn tiered_directories_live_under_the_active_dir() {
    let cfg = config();
    assert_eq!(tiered_pending_dir(&cfg), "/data/active/pending");
    assert_eq!(tiered_compacting_dir(&cfg), "/data/active/compacting");
    assert_eq!(
        compacting_segment_path(&cfg, "usage-5-000000000002"),
        "/data/active/compacting/usage-5-000000000002.tmp.duckdb"
    );
    assert_eq!(test_catalog_state_path(&cfg), "/data/archive/.test-usage-catalog.json");
    assert_eq!(pending_segment_path(&cfg, "usage-5-000000000002"), "/data/active/pending/usage-5-000000000002.duckdb");
}

#[test]
fn archive_paths_are_bucketed_by_utc_day() {
    let cfg = config();
    assert_eq!(archive_segment_file_name("seg-1"), "seg-1.duckdb");
    assert_eq!(archive_segment_bucket_dir(1_704_153_600_000), "2024/01/02");
    assert_eq!(
        archive_segment_path_for_timestamp(&cfg, "seg-1", 1_704_153_600_000),
        "/data/archive/2024/01/02/seg-1.duckdb"
    );
    assert_eq!(archive_segment_bucket_dir(0), "1970/01/01");
}

#[test]
fn utc_date_parts_reads_calendar_days() {
    assert_eq!(utc_date_parts(0), (1970, 1, 1));
    assert_eq!(utc_date_parts(1_704_153_600_000), (2024, 1, 2));
    assert_eq!(utc_date_parts(1_709_164_800_000), (2024, 2, 29));
    assert_eq!(utc_date_parts(-1), (1969, 12, 31));
}

#[test]
fn wal_and_uploading_paths() {
    assert_eq!(duckdb_wal_path("/a/b.duckdb"), "/a/b.duckdb.wal");
    assert_eq!(
        uploading_archive_segment_path_from_archive_path("/data/archive/2024/01/02/seg.duckdb"),
        "/data/archive/2024/01/02/seg.uploading.duckdb"
    );
    assert_eq!(uploading_archive_segment_path_from_archive_path("/x/file.bin"), "/x/file.bin.uploading");
}

#[test]
fn active_segment_path_round_trips_its_sequence() {
    let cfg = config();
    let path = active_segment_path(&cfg, 7);
    assert_eq!(path, "/data/active/usage-active-000000000007.duckdb");
    assert_eq!(parse_segment_sequence(&path), Some(7));
    assert_eq!(parse_segment_sequence("/x/foo.duckdb"), None);
    assert_eq!(parse_segment_sequence("usage-active-123"), Some(123));
}

#[test]
fn file_name_classifiers() {
    assert!(active_segment_file_name("usage-active-000000000001.duckdb"));
    assert!(!active_segment_file_name("usage-1.duckdb"));
    assert!(stale_compacting_file_name("seg.tmp.duckdb"));
    assert!(stale_compacting_file_name("seg.tmp.duckdb.wal"));
    assert!(!stale_compacting_file_name("seg.duckdb"));
    assert!(published_archive_file_name("seg.duckdb"));
    assert!(!published_archive_file_name("seg.uploading.duckdb"));
    assert!(!published_archive_file_name("seg.json"));
}

#[test]
fn choose_active_segment_prefers_greatest_existing_file() {
    let cfg = config();
    let names = vec![
        "usage-active-000000000003.duckdb".to_string(),
        "notes.txt".to_string(),
        "usage-active-000000000009.duckdb".to_string(),
    ];
    let (path, next) = choose_active_segment(&cfg, &names, 40);
    assert_eq!(path, "/data/active/usage-active-000000000009.duckdb");
    assert_eq!(next, 10);
}

#[test]
fn choose_active_segment_starts_after_catalog_sequence() {
    let cfg = config();
    let names = vec!["notes.txt".to_string()];
    let (path, next) = choose_active_segment(&cfg, &names, 40);
    assert_eq!(path, "/data/active/usage-active-000000000041.duckdb");
    assert_eq!(next, 42);
}

#[test]
fn archived_segment_paths_collects_each_stage() {
    let cfg = config();
    let paths = archived_segment_paths(
        &cfg,
        "/data/active/pending/seg.duckdb",
        "seg",
        "/data/archive/2024/01/02/seg.duckdb".to_string(),
    );
    assert_eq!(paths.pending_duckdb, "/data/active/pending/seg.duckdb");
    assert_eq!(paths.compact_duckdb, "/data/active/compacting/seg.tmp.duckdb");
    assert_eq!(paths.uploading_duckdb, "/data/archive/2024/01/02/seg.uploading.duckdb");
    assert_eq!(paths.archive_duckdb, "/data/archive/2024/01/02/seg.duckdb");
}

#[test]
fn rollover_segment_id_round_trips_its_timestamp() {
    let id = rollover_segment_id(1_700_000_000_000, 12);
    assert_eq!(id, "usage-1700000000000-000000000012");
    assert_eq!(sealed_at_ms_from_segment_id(&id), Some(1_700_000_000_000));
    assert_eq!(sealed_at_ms_for_segment(&id), 1_700_000_000_000);
    assert_eq!(sealed_at_ms_from_segment_id("usage"), None);
    assert_eq!(sealed_at_ms_from_segment_id("usage-abc-1"), None);
}

#[test]
fn rollover_sequence_prefers_file_sequence() {
    assert_eq!(rollover_sequence("/data/active/usage-active-000000000004.duckdb", 9), 4);
    assert_eq!(rollover_sequence("/data/active/other.duckdb", 9), 9);
}

#[test]
fn rollover_due_needs_at_least_one_byte() {
    assert!(rollover_due(1024, 1024));
    assert!(!rollover_due(1023, 1024));
    assert!(rollover_due(1, 0));
    assert!(!rollover_due(0, 0));
}

#[test]
fn advance_active_segment_moves_to_next_sequence() {
    let cfg = config();
    let mut state = TieredDuckDbUsageState {
        active_path: active_segment_path(&cfg, 3),
        next_sequence: 4,
        active_has_rows: true,
    };
    state.advance_active_segment(&cfg);
    assert_eq!(state.active_path, "/data/active/usage-active-000000000004.duckdb");
    assert_eq!(state.next_sequence, 5);
    assert!(!state.active_has_rows);
}

#[test]
fn retention_cutoff_subtracts_whole_days() {
    assert_eq!(usage_analytics_retention_cutoff_ms(10 * 86_400_000, 3), 7 * 86_400_000);
    assert_eq!(usage_analytics_retention_cutoff_ms(10 * 86_400_000, 0), 9 * 86_400_000);
    assert_eq!(usage_analytics_retention_cutoff_ms(i64::MIN, 5), i64::MIN);
    assert_eq!(usage_analytics_retention_cutoff_ms(0, u64::MAX), -i64::MAX);
}

#[test]
fn retention_law_more_days_never_later() {
    let now = 1_700_000_000_000;
    assert!(usage_analytics_retention_cutoff_ms(now, 30) <= usage_analytics_retention_cutoff_ms(now, 7));
    assert_eq!(usage_analytics_retention_cutoff_ms(now, 0), usage_analytics_retention_cutoff_ms(now, 1));
}

#[test]
fn active_segment_retention_decisions() {
    assert_eq!(active_segment_retention(false, 10, Some(1), 100), ActiveSegmentRetention::Keep);
    assert_eq!(active_segment_retention(true, 0, None, 100), ActiveSegmentRetention::MarkEmpty);
    assert_eq!(active_segment_retention(true, 3, Some(99), 100), ActiveSegmentRetention::Discard);
    assert_eq!(active_segment_retention(true, 3, Some(100), 100), ActiveSegmentRetention::Keep);
    assert_eq!(active_segment_retention(true, 3, None, 100), ActiveSegmentRetention::Keep);
}

#[test]
fn detail_day_buckets_expire_before_cutoff_day() {
    assert!(detail_day_bucket_expired("2024", "01", "01", (2024, 1, 2)));
    assert!(!detail_day_bucket_expired("2024", "01", "02", (2024, 1, 2)));
    assert!(!detail_day_bucket_expired("2024", "02", "01", (2024, 1, 2)));
    assert!(!detail_day_bucket_expired("abcd", "01", "01", (2024, 1, 2)));
    assert!(!detail_day_bucket_expired("2023", "02", "30", (2024, 1, 2)));
    assert!(detail_day_bucket_expired("2023", "2", "28", (2024, 1, 2)));
}

#[test]
fn now_ms_reads_the_clock() {
    let now = llm_access_store::lifecycle::now_ms();
    assert!(now > 1_600_000_000_000);
}

#[test]
fn number_scanning() {
    assert_eq!(parse_u64("000123"), Some(123));
    assert_eq!(parse_u64("+7"), Some(7));
    assert_eq!(parse_u64(""), None);
    assert_eq!(parse_u64("-1"), None);
    assert_eq!(parse_u64("18446744073709551616"), None);
    assert_eq!(parse_i64("-42"), Some(-42));
    assert_eq!(parse_i64("-9223372036854775808"), Some(i64::MIN));
    assert_eq!(parse_i64("9223372036854775808"), None);
    assert_eq!(parse_i64("1x"), None);
}

#[test]
fn string_order_is_lexicographic() {
    assert!(str_less("a", "b"));
    assert!(str_less("ab", "abc"));
    assert!(!str_less("abc", "ab"));
    assert!(!str_less("same", "same"));
}

#[test]
fn retained_event_detail_bucket_survives_its_cutoff() {
    let created = 1_704_153_600_000 + 5_000;
    let cutoff = created - 86_400_000 + 1;
    let bucket = archive_segment_bucket_dir(created);
    let parts: Vec<&str> = bucket.split('/').collect();
    assert_eq!(parts, vec!["2024", "01", "02"]);
    assert!(!detail_day_bucket_expired(parts[0], parts[1], parts[2], utc_date_parts(cutoff)));
    assert!(!detail_day_bucket_expired(parts[0], parts[1], parts[2], utc_date_parts(created)));
    assert!(detail_day_bucket_expired(parts[0], parts[1], parts[2], utc_date_parts(created + 86_400_000)));
}

//! The file layout of tiered storage: active, pending, compacting and
//! archive paths of segments, the names that identify them, and the small
//! decisions made from those names. Paths are text; a path's last component
//! is its text after the last `/`.
use vstd::prelude::*;
use crate::calendar::{archive_segment_bucket_dir, date_path_text, utc_date_or_epoch};
use crate::model::TieredDuckDbUsageConfig;
use crate::scan::{after_last, parse_u64_spec, parse_i64_spec, second_field};
use crate::text::{chars_of, decimal, ends_with, push_decimal, push_zero_padded, signed_decimal, starts_with, string_from_chars, string_push, zero_padded};

verus! {

/// `dir` joined with a relative or absolute `name`, as `Path::join` does.
pub open spec fn joined_path(dir: Seq<char>, name: Seq<char>) -> Seq<char> {
    if name.len() > 0 && name[0] == '/' {
        name
    } else if dir.len() == 0 {
        name
    } else if dir.last() == '/' {
        dir + name
    } else {
        dir + seq!['/'] + name
    }
}

/// `dir.join(name)`.
pub fn path_join(dir: &str, name: &str) -> (r: String)
    ensures
        r@ == joined_path(dir@, name@),
{
    proof {
        reveal_strlit("/");
    }
    let slash = starts_with(name, "/");
    proof {
        if name@.len() > 0 {
            assert(name@.subrange(0, 1)[0] == name@[0]);
            if name@[0] == '/' {
                assert(name@.subrange(0, 1) =~= "/"@);
            }
        }
    }
    if slash {
        let r = name.to_owned();
        assert(r@ == name@);
        return r;
    }
    let d = chars_of(dir);
    let mut s = dir.to_owned();
    if d.len() > 0 && d[d.len() - 1] != '/' {
        string_push(&mut s, '/');
    }
    let ghost before = s@;
    s.append(name);
    proof {
        if d.len() == 0 {
            assert(Seq::<char>::empty() + name@ =~= name@);
        }
        assert(s@ == before + name@);
    }
    s
}

/// The directory of pending (sealed, not yet archived) segments.
pub fn tiered_pending_dir(config: &TieredDuckDbUsageConfig) -> (r: String)
    ensures
        r@ == joined_path(config.active_dir@, "pending"@),
{
    path_join(config.active_dir.as_str(), "pending")
}

/// The directory segments are compacted in.
pub fn tiered_compacting_dir(config: &TieredDuckDbUsageConfig) -> (r: String)
    ensures
        r@ == joined_path(config.active_dir@, "compacting"@),
{
    path_join(config.active_dir.as_str(), "compacting")
}

/// The file a segment is compacted into: `<segment_id>.tmp.duckdb` in the
/// compacting directory.
pub fn compacting_segment_path(config: &TieredDuckDbUsageConfig, segment_id: &str) -> (r: String)
    ensures
        r@ == joined_path(joined_path(config.active_dir@, "compacting"@), segment_id@ + ".tmp.duckdb"@),
{
    let dir = tiered_compacting_dir(config);
    let mut name = segment_id.to_owned();
    name.append(".tmp.duckdb");
    path_join(dir.as_str(), name.as_str())
}

/// The file the catalog is kept in, in the archive directory.
pub fn test_catalog_state_path(config: &TieredDuckDbUsageConfig) -> (r: String)
    ensures
        r@ == joined_path(config.archive_dir@, ".test-usage-catalog.json"@),
{
    path_join(config.archive_dir.as_str(), ".test-usage-catalog.json")
}

/// The archive file name of a segment: `<segment_id>.duckdb`.
pub fn archive_segment_file_name(segment_id: &str) -> (r: String)
    ensures
        r@ == segment_id@ + ".duckdb"@,
{
    let mut name = segment_id.to_owned();
    name.append(".duckdb");
    name
}

/// The archive path of a segment: `<archive_dir>/<yyyy>/<mm>/<dd>/<segment_id>.duckdb`
/// under the UTC date of `timestamp_ms`.
pub fn archive_segment_path_for_timestamp(config: &TieredDuckDbUsageConfig, segment_id: &str, timestamp_ms: i64) -> (r: String)
    ensures
        r@ == joined_path(
            joined_path(config.archive_dir@, date_path_text(utc_date_or_epoch(timestamp_ms))),
            segment_id@ + ".duckdb"@,
        ),
{
    let bucket = archive_segment_bucket_dir(timestamp_ms);
    let dir = path_join(config.archive_dir.as_str(), bucket.as_str());
    let name = archive_segment_file_name(segment_id);
    path_join(dir.as_str(), name.as_str())
}

/// The write-ahead log of a DuckDB file: its path with `.wal` appended.
pub fn duckdb_wal_path(path: &str) -> (r: String)
    ensures
        r@ == path@ + ".wal"@,
{
    let mut s = path.to_owned();
    s.append(".wal");
    s
}

/// The text up to and including the last `/` (empty when there is none).
pub open spec fn parent_prefix(path: Seq<char>) -> Seq<char> {
    path.subrange(0, path.len() - after_last(path, '/').len())
}

proof fn lemma_after_last_suffix(s: Seq<char>, sep: char)
    ensures
        after_last(s, sep).len() <= s.len(),
        s.subrange(s.len() - after_last(s, sep).len(), s.len() as int) == after_last(s, sep),
    decreases s.len(),
{
    if s.len() > 0 && s.last() != sep {
        lemma_after_last_suffix(s.drop_last(), sep);
        assert(s.subrange(s.len() - after_last(s, sep).len(), s.len() as int) =~= after_last(s, sep));
    } else if s.len() > 0 {
        assert(s.subrange(s.len() as int, s.len() as int) =~= Seq::<char>::empty());
    }
}

/// The uploading name of an archive file name: `<name>.uploading.duckdb`
/// for `<name>.duckdb`, otherwise `<file>.uploading`.
pub open spec fn uploading_name(file_name: Seq<char>) -> Seq<char> {
    if file_name.len() >= 7 && file_name.subrange(file_name.len() - 7, file_name.len() as int) == ".duckdb"@ {
        file_name.subrange(0, file_name.len() - 7) + ".uploading.duckdb"@
    } else {
        file_name + ".uploading"@
    }
}

/// The path an archive file is uploaded under before it is renamed into
/// place: same directory, uploading name.
pub fn uploading_archive_segment_path_from_archive_path(archive_path: &str) -> (r: String)
    ensures
        r@ == parent_prefix(archive_path@) + uploading_name(after_last(archive_path@, '/')),
{
    proof {
        reveal_strlit(".duckdb");
        reveal_strlit(".uploading.duckdb");
        reveal_strlit(".uploading");
        lemma_after_last_suffix(archive_path@, '/');
    }
    let file = crate::scan::last_field(archive_path, '/');
    let chars = chars_of(archive_path);
    let cut = chars.len() - file.len();
    let mut out: Vec<char> = Vec::new();
    let mut i: usize = 0;
    while i < cut
        invariant
            i <= cut,
            cut <= chars@.len(),
            chars@ == archive_path@,
            out@ == chars@.subrange(0, i as int),
        decreases cut - i,
    {
        out.push(chars[i]);
        assert(chars@.subrange(0, i as int).push(chars@[i as int]) =~= chars@.subrange(0, i + 1));
        i = i + 1;
    }
    let file_name = string_from_chars(&file);
    let mut result = string_from_chars(&out);
    if ends_with(file_name.as_str(), ".duckdb") {
        let mut k: usize = 0;
        let stem_len = file.len() - 7;
        let mut stem: Vec<char> = Vec::new();
        while k < stem_len
            invariant
                k <= stem_len,
                stem_len + 7 == file@.len(),
                stem@ == file@.subrange(0, k as int),
            decreases stem_len - k,
        {
            stem.push(file[k]);
            assert(file@.subrange(0, k as int).push(file@[k as int]) =~= file@.subrange(0, k + 1));
            k = k + 1;
        }
        let stem_s = string_from_chars(&stem);
        result.append(stem_s.as_str());
        result.append(".uploading.duckdb");
    } else {
        result.append(file_name.as_str());
        result.append(".uploading");
    }
    result
}

/// The active segment file of a sequence number:
/// `usage-active-<sequence:012>.duckdb` in the active directory.
pub open spec fn active_segment_name(sequence: u64) -> Seq<char> {
    "usage-active-"@ + zero_padded(decimal(sequence as nat), 12) + ".duckdb"@
}

/// The active segment path of a sequence number.
pub fn active_segment_path(config: &TieredDuckDbUsageConfig, sequence: u64) -> (r: String)
    ensures
        r@ == joined_path(config.active_dir@, active_segment_name(sequence)),
{
    let mut name = String::new();
    name.append("usage-active-");
    push_zero_padded(&mut name, sequence, 12);
    name.append(".duckdb");
    proof {
        assert(name@ =~= active_segment_name(sequence));
    }
    path_join(config.active_dir.as_str(), name.as_str())
}

/// `Path::file_stem` of a file name: the name without its last extension
/// (a leading dot does not start an extension; `..` is kept whole).
pub open spec fn file_stem(name: Seq<char>) -> Seq<char> {
    let tail = after_last(name, '.');
    if name == ".."@ || tail.len() == name.len() || tail.len() + 1 == name.len() {
        name
    } else {
        name.subrange(0, name.len() - tail.len() - 1)
    }
}

/// The sequence number of a segment file: the text after the last `-` of
/// its file stem.
pub open spec fn segment_sequence(path: Seq<char>) -> Option<u64> {
    parse_u64_spec(after_last(file_stem(after_last(path, '/')), '-'))
}

/// The active segment path of a sequence number, in any directory, names
/// that sequence number back: what `active_segment_path` writes,
/// `parse_segment_sequence` reads.
pub proof fn lemma_active_segment_sequence(dir: Seq<char>, sequence: u64)
    ensures
        segment_sequence(joined_path(dir, active_segment_name(sequence))) == Some(sequence),
{
    reveal_strlit("usage-active-");
    reveal_strlit(".duckdb");
    reveal_strlit("..");
    let digits = zero_padded(decimal(sequence as nat), 12);
    crate::scan::lemma_parse_zero_padded(sequence, 12);
    let prefix = "usage-active"@;
    let ext = "duckdb"@;
    reveal_strlit("usage-active");
    reveal_strlit("duckdb");
    let name = active_segment_name(sequence);
    let stem = prefix + seq!['-'] + digits;
    assert(name =~= stem + seq!['.'] + ext);
    crate::scan::lemma_digits_have_no(digits, '/');
    crate::scan::lemma_digits_have_no(digits, '-');
    crate::scan::lemma_digits_have_no(digits, '.');
    assert(!name.contains('/')) by {
        if name.contains('/') {
            let i = name.index_of('/');
            if 13 <= i < 13 + digits.len() {
                assert(digits[i - 13] == name[i]);
                assert(digits.contains('/'));
            }
        }
    }
    // The last component of the joined path is the name itself.
    let path = joined_path(dir, name);
    if dir.len() == 0 {
        crate::scan::lemma_after_last_append(Seq::<char>::empty(), name, '/');
        assert(Seq::<char>::empty() + name =~= name);
    } else if dir.last() == '/' {
        crate::scan::lemma_after_last_append(dir, name, '/');
        assert(after_last(dir, '/') =~= Seq::<char>::empty());
        assert(Seq::<char>::empty() + name =~= name);
    } else {
        crate::scan::lemma_after_last_sep(dir, name, '/');
    }
    assert(after_last(path, '/') == name);
    // Its stem drops `.duckdb`.
    assert(!ext.contains('.')) by {
        if ext.contains('.') {
            let i = ext.index_of('.');
            assert(ext[i] == '.');
        }
    }
    crate::scan::lemma_after_last_sep(stem, ext, '.');
    assert(after_last(name, '.') == ext);
    assert(name != ".."@) by {
        assert(name.len() != 2);
    }
    assert(file_stem(name) =~= stem);
    // Its last `-` field is the zero-padded number.
    crate::scan::lemma_after_last_sep(prefix, digits, '-');
}

/// The sequence number in a segment file's name.
pub fn parse_segment_sequence(path: &str) -> (r: Option<u64>)
    ensures
        r == segment_sequence(path@),
{
    proof {
        reveal_strlit("..");
    }
    let file = crate::scan::last_field(path, '/');
    let name = string_from_chars(&file);
    let tail = crate::scan::last_field(name.as_str(), '.');
    let stem: Vec<char> = if crate::text::str_equals(name.as_str(), "..") || tail.len() == file.len() || (file.len() > 0 && tail.len() == file.len() - 1) {
        file
    } else {
        proof {
            crate::segment_paths::lemma_after_last_suffix(name@, '.');
        }
        let cut = file.len() - tail.len() - 1;
        let mut out: Vec<char> = Vec::new();
        let mut i: usize = 0;
        while i < cut
            invariant
                i <= cut,
                cut <= file@.len(),
                out@ == file@.subrange(0, i as int),
            decreases cut - i,
        {
            out.push(file[i]);
            assert(file@.subrange(0, i as int).push(file@[i as int]) =~= file@.subrange(0, i + 1));
            i = i + 1;
        }
        out
    };
    let stem_s = string_from_chars(&stem);
    let last = crate::scan::last_field(stem_s.as_str(), '-');
    crate::scan::parse_u64_chars(&last)
}

/// Whether a file name is an active segment file:
/// `usage-active-…​.duckdb`.
pub open spec fn is_active_segment_name(name: Seq<char>) -> bool {
    name.len() >= 13 && name.subrange(0, 13) == "usage-active-"@ && name.len() >= 7
        && name.subrange(name.len() - 7, name.len() as int) == ".duckdb"@
}

/// Whether a file name is an active segment file.
pub fn active_segment_file_name(name: &str) -> (r: bool)
    ensures
        r == is_active_segment_name(name@),
{
    proof {
        reveal_strlit("usage-active-");
        reveal_strlit(".duckdb");
    }
    starts_with(name, "usage-active-") && ends_with(name, ".duckdb")
}

/// Whether a compacting-directory file is a stale temporary of a crashed
/// compaction (`*.tmp.duckdb` or its `.wal`).
pub open spec fn is_stale_compacting_name(name: Seq<char>) -> bool {
    (name.len() >= 11 && name.subrange(name.len() - 11, name.len() as int) == ".tmp.duckdb"@)
        || (name.len() >= 15 && name.subrange(name.len() - 15, name.len() as int) == ".tmp.duckdb.wal"@)
}

/// Whether a compacting-directory file is a stale temporary.
pub fn stale_compacting_file_name(name: &str) -> (r: bool)
    ensures
        r == is_stale_compacting_name(name@),
{
    proof {
        reveal_strlit(".tmp.duckdb");
        reveal_strlit(".tmp.duckdb.wal");
    }
    ends_with(name, ".tmp.duckdb") || ends_with(name, ".tmp.duckdb.wal")
}

/// Whether an archive-directory file is a published segment: `*.duckdb`
/// but not an unfinished `*.uploading.duckdb`.
pub open spec fn is_published_archive_name(name: Seq<char>) -> bool {
    (name.len() >= 7 && name.subrange(name.len() - 7, name.len() as int) == ".duckdb"@)
        && !(name.len() >= 17 && name.subrange(name.len() - 17, name.len() as int) == ".uploading.duckdb"@)
}

/// Whether an archive-directory file is a published segment.
pub fn published_archive_file_name(name: &str) -> (r: bool)
    ensures
        r == is_published_archive_name(name@),
{
    proof {
        reveal_strlit(".duckdb");
        reveal_strlit(".uploading.duckdb");
    }
    ends_with(name, ".duckdb") && !ends_with(name, ".uploading.duckdb")
}

/// The active segment to open: the greatest active segment file name with
/// the sequence after its own, or else a new file after the catalog's last
/// sequence.
pub open spec fn greatest_name(names: Seq<Seq<char>>) -> Option<Seq<char>>
    decreases names.len(),
{
    if names.len() == 0 {
        None
    } else {
        let rest = greatest_name(names.drop_last());
        if !is_active_segment_name(names.last()) {
            rest
        } else {
            match rest {
                Some(g) => if crate::scan::seq_less(g, names.last()) { Some(names.last()) } else { Some(g) },
                None => Some(names.last()),
            }
        }
    }
}

/// `n + 1`, saturating.
pub open spec fn next_after(n: u64) -> u64 {
    if n == u64::MAX { n } else { (n + 1) as u64 }
}

/// The active segment path and the next sequence number, from the names of
/// the files in the active directory and the catalog's last sequence.
pub open spec fn chosen_active_segment(active_dir: Seq<char>, names: Seq<Seq<char>>, catalog_sequence: u64) -> (Seq<char>, u64) {
    match greatest_name(names) {
        Some(name) => (joined_path(active_dir, name), next_after(match segment_sequence(name) { Some(v) => v, None => 0 })),
        None => {
            let n = next_after(catalog_sequence);
            (joined_path(active_dir, active_segment_name(n)), next_after(n))
        },
    }
}

/// Chooses the active segment file and the sequence after it.
pub fn choose_active_segment(
    config: &TieredDuckDbUsageConfig,
    active_dir_file_names: &Vec<String>,
    catalog_next_sequence: u64,
) -> (r: (String, u64))
    ensures
        (r.0@, r.1) == chosen_active_segment(
            config.active_dir@,
            Seq::new(active_dir_file_names@.len(), |i: int| active_dir_file_names@[i]@),
            catalog_next_sequence,
        ),
{
    let ghost names = Seq::new(active_dir_file_names@.len(), |i: int| active_dir_file_names@[i]@);
    let mut best: Option<usize> = None;
    let mut i: usize = 0;
    while i < active_dir_file_names.len()
        invariant
            i <= active_dir_file_names.len(),
            names == Seq::new(active_dir_file_names@.len(), |i: int| active_dir_file_names@[i]@),
            match best {
                Some(b) => b < i && greatest_name(names.take(i as int)) == Some(names[b as int]),
                None => greatest_name(names.take(i as int)) is None,
            },
        decreases active_dir_file_names.len() - i,
    {
        proof {
            assert(names.take(i + 1).drop_last() =~= names.take(i as int));
            assert(names.take(i + 1).last() == names[i as int]);
        }
        let name = &active_dir_file_names[i];
        if active_segment_file_name(name.as_str()) {
            match best {
                Some(b) => {
                    if crate::scan::str_less(active_dir_file_names[b].as_str(), name.as_str()) {
                        best = Some(i);
                    }
                },
                None => {
                    best = Some(i);
                },
            }
        }
        i = i + 1;
    }
    proof {
        assert(names.take(i as int) =~= names);
    }
    match best {
        Some(b) => {
            let path = path_join(config.active_dir.as_str(), active_dir_file_names[b].as_str());
            let seq = match parse_segment_sequence(active_dir_file_names[b].as_str()) {
                Some(v) => v,
                None => 0,
            };
            (path, seq.saturating_add(1))
        },
        None => {
            let n = catalog_next_sequence.saturating_add(1);
            (active_segment_path(config, n), n.saturating_add(1))
        },
    }
}

/// The files of one segment on its way to the archive.
#[derive(Debug, Clone)]
pub struct ArchivedSegmentPaths {
    pub pending_duckdb: String,
    pub compact_duckdb: String,
    pub uploading_duckdb: String,
    pub archive_duckdb: String,
}

/// The files of a pending segment whose archive file is `archive_path`:
/// the pending file, its compacting file, its uploading file beside the
/// archive file, and the archive file.
pub fn archived_segment_paths(config: &TieredDuckDbUsageConfig, pending_path: &str, segment_id: &str, archive_path: String) -> (r: ArchivedSegmentPaths)
    ensures
        r.pending_duckdb@ == pending_path@,
        r.compact_duckdb@ == joined_path(joined_path(config.active_dir@, "compacting"@), segment_id@ + ".tmp.duckdb"@),
        r.uploading_duckdb@ == parent_prefix(archive_path@) + uploading_name(after_last(archive_path@, '/')),
        r.archive_duckdb@ == archive_path@,
{
    let compact = compacting_segment_path(config, segment_id);
    let uploading = uploading_archive_segment_path_from_archive_path(archive_path.as_str());
    ArchivedSegmentPaths {
        pending_duckdb: pending_path.to_owned(),
        compact_duckdb: compact,
        uploading_duckdb: uploading,
        archive_duckdb: archive_path,
    }
}

} // verus!

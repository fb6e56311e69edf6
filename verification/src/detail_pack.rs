//! Detail packs: the heavyweight payloads of a batch of usage events,
//! stored as gzip members in one pack file under
//! `packs/<provider>/<yyyy>/<mm>/<dd>/`. Identical members are stored once;
//! each fact row records the pack path, the member's byte range and its
//! SHA-256 digest.
use vstd::prelude::*;
use crate::calendar::{date_path_text, utc_date_or_epoch};
use crate::digest::{gzip_compress, gzip_member, sha256, sha256_hex};
use crate::text::{hex_lower, trim};
use crate::usage_row::{UsageEventRow, has_external_detail_payloads, has_external_payloads_spec};

verus! {

/// A pack to write: its path under the details root and its bytes.
#[derive(Debug, Clone)]
pub struct UsageEventDetailPackWrite {
    pub relative_path: String,
    pub bytes: Vec<u8>,
}

/// Why a pack could not be prepared.
#[derive(Debug, Clone, PartialEq, Eq)]
pub enum DetailPackError {
    /// Compressing the detail payload of this event failed.
    EncodeFailed { event_id: String },
    /// A member offset or length does not fit in `i64`.
    PackTooLarge,
}

/// Whether a row's payloads go to a pack.
pub open spec fn row_has_payloads(row: UsageEventRow) -> bool {
    has_external_payloads_spec(row.client_request_body_json, row.upstream_request_body_json, row.full_request_json, row.error_body)
}

/// The digest a member is stored and found under.
pub open spec fn member_digest(member: Seq<u8>) -> Seq<char> {
    hex_lower(sha256(member))
}

/// Whether a member with this digest was stored already.
pub open spec fn seen_has(seen: Seq<(Seq<char>, int, int)>, digest: Seq<char>) -> bool {
    exists|k: int| 0 <= k < seen.len() && (#[trigger] seen[k]).0 == digest
}

/// The stored member with this digest.
pub open spec fn seen_entry(seen: Seq<(Seq<char>, int, int)>, digest: Seq<char>) -> (Seq<char>, int, int) {
    seen[choose|k: int| 0 <= k < seen.len() && (#[trigger] seen[k]).0 == digest]
}

/// The pack bytes and the stored members (digest, offset, length) after the
/// first `n` rows: a row with payloads appends its member unless a member
/// with the same digest is stored.
pub open spec fn pack_fold(rows: Seq<UsageEventRow>, members: Seq<Seq<u8>>, n: int) -> (Seq<u8>, Seq<(Seq<char>, int, int)>)
    decreases n,
{
    if n <= 0 {
        (Seq::empty(), Seq::empty())
    } else {
        let (pack, seen) = pack_fold(rows, members, n - 1);
        if !row_has_payloads(rows[n - 1]) {
            (pack, seen)
        } else {
            let d = member_digest(members[n - 1]);
            if seen_has(seen, d) {
                (pack, seen)
            } else {
                (pack + members[n - 1], seen.push((d, pack.len() as int, members[n - 1].len() as int)))
            }
        }
    }
}

/// Whether every stored offset and length fits in `i64`.
pub open spec fn pack_fits(seen: Seq<(Seq<char>, int, int)>) -> bool {
    forall|k: int| 0 <= k < seen.len() ==> (#[trigger] seen[k]).1 <= i64::MAX && seen[k].2 <= i64::MAX
}

/// The first row flagged as having a pack member, or the first row.
pub open spec fn first_flagged_from(rows: Seq<UsageEventRow>, i: int) -> int
    decreases rows.len() - i,
{
    if i >= rows.len() {
        0
    } else if rows[i].detail_object_payload_present {
        i
    } else {
        first_flagged_from(rows, i + 1)
    }
}

/// The path of a pack:
/// `packs/<provider>/<yyyy>/<mm>/<dd>/<event_id>-<digest16>.detailpack-v1`
/// after the first flagged row (or the first row) and the first sixteen hex
/// digits of the pack's digest.
pub open spec fn pack_path(rows: Seq<UsageEventRow>, pack: Seq<u8>) -> Seq<char> {
    let first = rows[first_flagged_from(rows, 0)];
    "packs/"@ + first.provider_type@ + "/"@ + date_path_text(utc_date_or_epoch(first.created_at_ms)) + "/"@
        + first.event_id@ + "-"@ + member_digest(pack).take(16) + ".detailpack-v1"@
}

/// The path of the pack of `rows`.
pub fn pack_relative_path_for_rows(rows: &Vec<UsageEventRow>, pack_bytes: &Vec<u8>) -> (r: String)
    requires
        rows@.len() > 0,
    ensures
        r@ == pack_path(rows@, pack_bytes@),
{
    let mut i: usize = 0;
    while i < rows.len() && !rows[i].detail_object_payload_present
        invariant
            i <= rows@.len(),
            first_flagged_from(rows@, 0) == first_flagged_from(rows@, i as int),
        decreases rows.len() - i,
    {
        i = i + 1;
    }
    let idx: usize = if i < rows.len() { i } else { 0 };
    let first = &rows[idx];
    let date = crate::calendar::utc_date_parts(first.created_at_ms);
    let digest = sha256_hex(pack_bytes.as_slice());
    let digest_chars = crate::text::chars_of(digest.as_str());
    let mut s = String::new();
    s.append("packs/");
    s.append(first.provider_type.as_str());
    s.append("/");
    crate::calendar::push_date_path(&mut s, date);
    s.append("/");
    s.append(first.event_id.as_str());
    s.append("-");
    let mut k: usize = 0;
    let ghost before = s@;
    while k < 16
        invariant
            k <= 16,
            digest_chars@ == digest@,
            digest@.len() == 64,
            s@ == before + digest@.take(k as int),
        decreases 16 - k,
    {
        crate::text::string_push(&mut s, digest_chars[k]);
        assert(digest@.take(k + 1) =~= digest@.take(k as int).push(digest@[k as int]));
        assert(before + digest@.take(k as int).push(digest@[k as int]) =~= (before + digest@.take(k as int)).push(digest@[k as int]));
        k = k + 1;
    }
    s.append(".detailpack-v1");
    s
}

/// A row with its pack reference fields replaced.
pub open spec fn with_pack_ref(
    row: UsageEventRow,
    present: bool,
    path: Option<String>,
    offset: Option<i64>,
    length: Option<i64>,
    sha256_hex: Option<String>,
) -> UsageEventRow {
    UsageEventRow {
        detail_object_payload_present: present,
        detail_object_path: path,
        detail_object_offset: offset,
        detail_object_length: length,
        detail_object_sha256: sha256_hex,
        ..row
    }
}

/// The members as byte sequences.
pub open spec fn member_views(members: Seq<Vec<u8>>) -> Seq<Seq<u8>> {
    Seq::new(members.len(), |i: int| members[i]@)
}

/// Whether the stored digests are distinct.
pub open spec fn seen_unique(seen: Seq<(Seq<char>, int, int)>) -> bool {
    forall|a: int, b: int| 0 <= a < seen.len() && 0 <= b < seen.len() && a != b ==> seen[a].0 != seen[b].0
}

/// The stored members after `k` rows come first in those after `n`.
pub proof fn lemma_pack_fold_prefix(rows: Seq<UsageEventRow>, members: Seq<Seq<u8>>, k: int, n: int)
    requires
        0 <= k <= n,
    ensures
        pack_fold(rows, members, k).1.len() <= pack_fold(rows, members, n).1.len(),
        pack_fold(rows, members, n).1.take(pack_fold(rows, members, k).1.len() as int) == pack_fold(rows, members, k).1,
        seen_unique(pack_fold(rows, members, n).1),
    decreases n,
{
    if n > 0 {
        if k < n {
            lemma_pack_fold_prefix(rows, members, k, n - 1);
            let s1 = pack_fold(rows, members, n - 1).1;
            let s2 = pack_fold(rows, members, n).1;
            let sk = pack_fold(rows, members, k).1;
            if s2 != s1 {
                assert(s2.take(sk.len() as int) =~= s1.take(sk.len() as int));
            }
        } else {
            lemma_pack_fold_prefix(rows, members, n - 1, n - 1);
            let s = pack_fold(rows, members, n).1;
            assert(s.take(s.len() as int) =~= s);
        }
        lemma_pack_fold_prefix(rows, members, n - 1, n - 1);
        let s1 = pack_fold(rows, members, n - 1).1;
        let s2 = pack_fold(rows, members, n).1;
        assert forall|a: int, b: int| 0 <= a < s2.len() && 0 <= b < s2.len() && a != b implies s2[a].0 != s2[b].0 by {
            if s2 != s1 {
                if a == s1.len() {
                    assert(s2[b] == s1[b]);
                } else if b == s1.len() {
                    assert(s2[a] == s1[a]);
                } else {
                    assert(s2[a] == s1[a]);
                    assert(s2[b] == s1[b]);
                }
            }
        }
    } else {
        assert(pack_fold(rows, members, k).1 =~= Seq::<(Seq<char>, int, int)>::empty());
    }
}

/// An entry found in a prefix of unique stored members is the entry found
/// in the whole.
pub proof fn lemma_seen_entry_stable(seen: Seq<(Seq<char>, int, int)>, m: int, d: Seq<char>)
    requires
        seen_unique(seen),
        0 <= m <= seen.len(),
        seen_has(seen.take(m), d),
    ensures
        seen_has(seen, d),
        seen_entry(seen, d) == seen_entry(seen.take(m), d),
{
    let k = choose|k: int| 0 <= k < seen.take(m).len() && (#[trigger] seen.take(m)[k]).0 == d;
    assert(seen[k] == seen.take(m)[k]);
    assert(seen_has(seen, d));
    let j = choose|j: int| 0 <= j < seen.len() && (#[trigger] seen[j]).0 == d;
    assert(j == k);
}

fn find_member(seen: &Vec<(String, i64, i64)>, digest: &String) -> (r: Option<usize>)
    ensures
        r matches Some(k) ==> k < seen@.len() && seen@[k as int].0@ == digest@,
        r is None ==> forall|k: int| 0 <= k < seen@.len() ==> seen@[k].0@ != digest@,
{
    let mut k: usize = 0;
    while k < seen.len()
        invariant
            k <= seen@.len(),
            forall|j: int| 0 <= j < k ==> seen@[j].0@ != digest@,
        decreases seen.len() - k,
    {
        if seen[k].0 == *digest {
            return Some(k);
        }
        k = k + 1;
    }
    None
}

/// The stored members of the exec pack as spec entries.
pub open spec fn seen_views(seen: Seq<(String, i64, i64)>) -> Seq<(Seq<char>, int, int)> {
    Seq::new(seen.len(), |i: int| (seen[i].0@, seen[i].1 as int, seen[i].2 as int))
}

fn row_present(row: &UsageEventRow) -> (r: bool)
    ensures
        r == row_has_payloads(*row),
{
    has_external_detail_payloads(&row.client_request_body_json, &row.upstream_request_body_json, &row.full_request_json, &row.error_body)
}

proof fn lemma_first_flagged_agree(a: Seq<UsageEventRow>, b: Seq<UsageEventRow>, i: int)
    requires
        0 <= i,
        a.len() == b.len(),
        forall|j: int| 0 <= j < a.len() ==> #[trigger] a[j].detail_object_payload_present == b[j].detail_object_payload_present,
    ensures
        first_flagged_from(a, i) == first_flagged_from(b, i),
    decreases a.len() - i,
{
    if i < a.len() {
        assert(a[i].detail_object_payload_present == b[i].detail_object_payload_present);
        lemma_first_flagged_agree(a, b, i + 1);
    }
}

/// What preparing a pack from `members` does to a batch: it fails exactly
/// when a stored offset or length exceeds `i64`; otherwise rows without
/// external payloads lose their reference, rows with them point at the
/// member of their digest in the pack, and the pack is returned when any
/// row has a member.
pub open spec fn pack_outcome(
    old_rows: Seq<UsageEventRow>,
    new_rows: Seq<UsageEventRow>,
    members: Seq<Seq<u8>>,
    r: Result<Option<UsageEventDetailPackWrite>, DetailPackError>,
) -> bool {
    let n = old_rows.len() as int;
    let (pack, seen) = pack_fold(old_rows, members, n);
    &&& (r is Err <==> !pack_fits(seen))
    &&& (r matches Err(e) ==> e == DetailPackError::PackTooLarge)
    &&& (r is Ok ==> {
        &&& new_rows.len() == n
        &&& forall|i: int| 0 <= i < n ==> {
            let old_row = #[trigger] old_rows[i];
            let new_row = new_rows[i];
            if row_has_payloads(old_row) {
                let e = seen_entry(seen, member_digest(members[i]));
                &&& new_row == with_pack_ref(old_row, true, new_row.detail_object_path, Some(e.1 as i64),
                    Some(e.2 as i64), new_row.detail_object_sha256)
                &&& new_row.detail_object_path matches Some(p) && p@ == pack_path(new_rows, pack)
                &&& new_row.detail_object_sha256 matches Some(h) && h@ == member_digest(members[i])
            } else {
                new_row == with_pack_ref(old_row, false, None, None, None, None)
            }
        }
    })
    &&& (r matches Ok(None) ==> forall|i: int| 0 <= i < n ==> !row_has_payloads(#[trigger] old_rows[i]))
    &&& (r matches Ok(Some(w)) ==> w.bytes@ == pack && w.relative_path@ == pack_path(new_rows, pack)
        && exists|i: int| 0 <= i < n && row_has_payloads(#[trigger] old_rows[i]))
}

/// Builds the pack of a batch from each row's encoded detail member (the
/// members of rows without external payloads are ignored) and records each
/// row's reference: rows without external payloads lose their reference,
/// rows with them point at the member of their digest.
pub fn assemble_detail_pack(rows: &mut Vec<UsageEventRow>, members: &Vec<Vec<u8>>)
    -> (r: Result<Option<UsageEventDetailPackWrite>, DetailPackError>)
    requires
        old(rows)@.len() == members@.len(),
    ensures
        pack_outcome(old(rows)@, final(rows)@, member_views(members@), r),
{
    let ghost orig = rows@;
    let ghost mv = member_views(members@);
    let n = rows.len();
    let mut pack: Vec<u8> = Vec::new();
    let mut seen: Vec<(String, i64, i64)> = Vec::new();
    let mut refs: Vec<(i64, i64, String)> = Vec::new();
    let mut flags: Vec<bool> = Vec::new();
    let mut any = false;
    let mut i: usize = 0;
    while i < n
        invariant
            i <= n,
            n == orig.len(),
            rows@ == orig,
            mv == member_views(members@),
            members@.len() == n,
            pack@ == pack_fold(orig, mv, i as int).0,
            seen_views(seen@) == pack_fold(orig, mv, i as int).1,
            pack_fits(seen_views(seen@)),
            seen_unique(seen_views(seen@)),
            flags@.len() == i,
            refs@.len() == i,
            forall|j: int| 0 <= j < i ==> #[trigger] flags@[j] == row_has_payloads(orig[j]),
            forall|j: int| #![trigger member_digest(mv[j])] 0 <= j < i && row_has_payloads(orig[j]) ==> (seen_has(seen_views(seen@), member_digest(mv[j]))
                && refs@[j].0 as int == seen_entry(seen_views(seen@), member_digest(mv[j])).1
                && refs@[j].1 as int == seen_entry(seen_views(seen@), member_digest(mv[j])).2
                && refs@[j].2@ == member_digest(mv[j])),
            any == exists|j: int| 0 <= j < i && row_has_payloads(#[trigger] orig[j]),
        decreases n - i,
    {
        let present = row_present(&rows[i]);
        let ghost sv_before = seen_views(seen@);
        let ghost refs_before = refs@;
        proof {
            lemma_pack_fold_prefix(orig, mv, i as int, i + 1);
        }
        if !present {
            flags.push(false);
            refs.push((0, 0, String::new()));
            proof {
                assert(refs@.take(i as int) =~= refs_before);
                assert(seen_views(seen@).take(sv_before.len() as int) =~= sv_before);
            }
        } else {
            any = true;
            let digest = sha256_hex(members[i].as_slice());
            let ghost d = member_digest(mv[i as int]);
            assert(digest@ == d);
            let ghost mut wit: int = 0;
            match find_member(&seen, &digest) {
                Some(k) => {
                    let off = seen[k].1;
                    let len = seen[k].2;
                    proof {
                        wit = k as int;
                        assert(sv_before[k as int].0 == d);
                    }
                    flags.push(true);
                    refs.push((off, len, digest));
                    proof {
                        assert(refs@[i as int].0 as int == seen_views(seen@)[wit].1);
                        assert(refs@[i as int].1 as int == seen_views(seen@)[wit].2);
                        assert(refs@[i as int].2@ == d);
                        assert(seen_views(seen@) == sv_before);
                    }
                },
                None => {
                    proof {
                        assert(!seen_has(sv_before, d)) by {
                            if seen_has(sv_before, d) {
                                let kk = choose|kk: int| 0 <= kk < sv_before.len() && (#[trigger] sv_before[kk]).0 == d;
                                assert(seen@[kk].0@ == d);
                            }
                        }
                        assert(pack_fold(orig, mv, i + 1).1 == sv_before.push((d, pack@.len() as int, mv[i as int].len() as int)));
                    }
                    if pack.len() as u64 > i64::MAX as u64 || members[i].len() as u64 > i64::MAX as u64 {
                        proof {
                            let s_next = pack_fold(orig, mv, i + 1).1;
                            lemma_pack_fold_prefix(orig, mv, i + 1, n as int);
                            let s_all = pack_fold(orig, mv, n as int).1;
                            assert(s_all.take(s_next.len() as int) == s_next);
                            assert(s_next[sv_before.len() as int] == s_all.take(s_next.len() as int)[sv_before.len() as int]);
                            assert(s_next[sv_before.len() as int] == s_all[sv_before.len() as int]);
                            assert(!pack_fits(s_all));
                        }
                        return Err(DetailPackError::PackTooLarge);
                    }
                    let off = pack.len() as i64;
                    let len = members[i].len() as i64;
                    let mut b: usize = 0;
                    let ghost pack_before = pack@;
                    while b < members[i].len()
                        invariant
                            b <= members@[i as int]@.len(),
                            i < members@.len(),
                            pack@ == pack_before + members@[i as int]@.take(b as int),
                        decreases members@[i as int]@.len() - b,
                    {
                        pack.push(members[i][b]);
                        assert(members@[i as int]@.take(b + 1) =~= members@[i as int]@.take(b as int).push(members@[i as int]@[b as int]));
                        assert(pack_before + members@[i as int]@.take(b + 1) =~= (pack_before + members@[i as int]@.take(b as int)).push(members@[i as int]@[b as int]));
                        b = b + 1;
                    }
                    assert(members@[i as int]@.take(b as int) =~= members@[i as int]@);
                    let dup = digest.clone();
                    seen.push((dup, off, len));
                    flags.push(true);
                    refs.push((off, len, digest));
                    proof {
                        wit = sv_before.len() as int;
                        assert(seen_views(seen@) =~= sv_before.push((d, off as int, len as int)));
                        assert(refs@[i as int].0 as int == seen_views(seen@)[wit].1);
                        assert(refs@[i as int].1 as int == seen_views(seen@)[wit].2);
                        assert(refs@[i as int].2@ == d);
                        let sv = seen_views(seen@);
                        assert forall|a: int, bb: int| 0 <= a < sv.len() && 0 <= bb < sv.len() && a != bb implies sv[a].0 != sv[bb].0 by {
                            if a == sv_before.len() {
                                assert(sv[bb] == sv_before[bb]);
                            } else if bb == sv_before.len() {
                                assert(sv[a] == sv_before[a]);
                            } else {
                                assert(sv[a] == sv_before[a]);
                                assert(sv[bb] == sv_before[bb]);
                            }
                        }
                    }
                },
            }
            proof {
                let sv = seen_views(seen@);
                assert(sv.take(sv_before.len() as int) =~= sv_before);
                assert(refs@.take(i as int) =~= refs_before);
                assert(0 <= wit < sv.len() && sv[wit].0 == d);
                assert(seen_has(sv, d));
                let ch = choose|kk: int| 0 <= kk < sv.len() && (#[trigger] sv[kk]).0 == d;
                assert(ch == wit);
                assert(seen_entry(sv, d) == sv[wit]);
                assert(refs@[i as int].0 as int == seen_entry(sv, d).1);
                assert(refs@[i as int].1 as int == seen_entry(sv, d).2);
                assert(refs@[i as int].2@ == member_digest(mv[i as int]));
            }
        }
        proof {
            let sv = seen_views(seen@);
            assert forall|j: int| #![trigger member_digest(mv[j])] 0 <= j < i + 1 && row_has_payloads(orig[j]) implies (seen_has(seen_views(seen@), member_digest(mv[j]))
                && refs@[j].0 as int == seen_entry(seen_views(seen@), member_digest(mv[j])).1
                && refs@[j].1 as int == seen_entry(seen_views(seen@), member_digest(mv[j])).2
                && refs@[j].2@ == member_digest(mv[j])) by {
                if j < i {
                    assert(refs@[j] == refs@.take(i as int)[j]);
                    assert(refs@[j] == refs_before[j]);
                    assert(seen_has(sv_before, member_digest(mv[j])));
                    lemma_seen_entry_stable(sv, sv_before.len() as int, member_digest(mv[j]));
                } else {
                    assert(present);
                }
            }
            assert forall|q: int| 0 <= q < i + 1 implies #[trigger] flags@[q] == row_has_payloads(orig[q]) by {}
        }
        i = i + 1;
        assert(flags@.len() == i);
        assert(refs@.len() == i);
        assert(pack@ == pack_fold(orig, mv, i as int).0);
        assert(seen_views(seen@) == pack_fold(orig, mv, i as int).1);
        assert(pack_fits(seen_views(seen@)));
        assert(seen_unique(seen_views(seen@)));
    }
    let ghost seen_final = seen_views(seen@);
    let mut j: usize = 0;
    while j < n
        invariant
            j <= n,
            n == orig.len(),
            rows@.len() == n,
            flags@.len() == n,
            forall|q: int| 0 <= q < n ==> #[trigger] flags@[q] == row_has_payloads(orig[q]),
            forall|q: int| j <= q < n ==> #[trigger] rows@[q] == orig[q],
            forall|q: int| 0 <= q < j ==> #[trigger] rows@[q] == with_pack_ref(orig[q], flags@[q],
                if flags@[q] { orig[q].detail_object_path } else { None },
                if flags@[q] { orig[q].detail_object_offset } else { None },
                if flags@[q] { orig[q].detail_object_length } else { None },
                if flags@[q] { orig[q].detail_object_sha256 } else { None }),
        decreases n - j,
    {
        let row = set_flag_row(&rows[j], flags[j]);
        rows.set(j, row);
        j = j + 1;
    }
    if !any {
        proof {
            assert forall|q: int| 0 <= q < n implies !row_has_payloads(#[trigger] orig[q]) by {
                assert(flags@[q] == row_has_payloads(orig[q]));
            }
        }
        return Ok(None);
    }
    let ghost mid = rows@;
    let path = pack_relative_path_for_rows(rows, &pack);
    let mut k: usize = 0;
    while k < n
        invariant
            k <= n,
            n == orig.len(),
            rows@.len() == n,
            mid.len() == n,
            flags@.len() == n,
            refs@.len() == n,
            path@ == pack_path(mid, pack@),
            forall|q: int| 0 <= q < n ==> #[trigger] flags@[q] == row_has_payloads(orig[q]),
            forall|q: int| 0 <= q < n ==> #[trigger] mid[q] == with_pack_ref(orig[q], flags@[q],
                if flags@[q] { orig[q].detail_object_path } else { None },
                if flags@[q] { orig[q].detail_object_offset } else { None },
                if flags@[q] { orig[q].detail_object_length } else { None },
                if flags@[q] { orig[q].detail_object_sha256 } else { None }),
            forall|q: int| k <= q < n ==> #[trigger] rows@[q] == mid[q],
            forall|q: int| 0 <= q < k ==> #[trigger] rows@[q] == (if flags@[q] {
                with_pack_ref(orig[q], true, Some(path), Some(refs@[q].0), Some(refs@[q].1), Some(refs@[q].2))
            } else {
                mid[q]
            }),
        decreases n - k,
    {
        if flags[k] {
            let row = set_ref_row(&rows[k], &path, refs[k].0, refs[k].1, &refs[k].2);
            rows.set(k, row);
        }
        k = k + 1;
    }
    proof {
        let fin = rows@;
        assert forall|q: int| 0 <= q < n implies #[trigger] fin[q].detail_object_payload_present == mid[q].detail_object_payload_present by {}
        lemma_first_flagged_agree(fin, mid, 0);
        let f = first_flagged_from(fin, 0);
        assert(0 <= f < n) by {
            lemma_first_flagged_range(fin, 0);
        }
        assert(fin[f].provider_type == mid[f].provider_type);
        assert(fin[f].event_id == mid[f].event_id);
        assert(fin[f].created_at_ms == mid[f].created_at_ms);
        assert(pack_path(fin, pack@) == pack_path(mid, pack@));
        assert(pack_fold(orig, mv, n as int).1 == seen_final);
        assert(pack_fits(seen_final));
        assert(exists|q: int| 0 <= q < n && row_has_payloads(#[trigger] orig[q]));
        assert forall|q: int| 0 <= q < n implies {
            let old_row = #[trigger] orig[q];
            let new_row = fin[q];
            if row_has_payloads(old_row) {
                let e = seen_entry(seen_final, member_digest(mv[q]));
                &&& new_row == with_pack_ref(old_row, true, new_row.detail_object_path, Some(e.1 as i64),
                    Some(e.2 as i64), new_row.detail_object_sha256)
                &&& new_row.detail_object_path matches Some(p) && p@ == pack_path(fin, pack@)
                &&& new_row.detail_object_sha256 matches Some(h) && h@ == member_digest(mv[q])
            } else {
                new_row == with_pack_ref(old_row, false, None, None, None, None)
            }
        } by {
            assert(flags@[q] == row_has_payloads(orig[q]));
            assert(mv[q] == members@[q]@);
            if row_has_payloads(orig[q]) {
                assert(member_digest(mv[q]) == member_digest(mv[q]));
                let e = seen_entry(seen_final, member_digest(mv[q]));
                assert(refs@[q].0 as int == e.1);
                assert(refs@[q].1 as int == e.2);
                assert(fin[q] == with_pack_ref(orig[q], true, Some(path), Some(refs@[q].0), Some(refs@[q].1), Some(refs@[q].2)));
            } else {
                assert(fin[q] == mid[q]);
            }
        }
    }
    Ok(Some(UsageEventDetailPackWrite { relative_path: path, bytes: pack }))
}

proof fn lemma_first_flagged_range(rows: Seq<UsageEventRow>, i: int)
    requires
        0 <= i,
    ensures
        rows.len() > 0 ==> 0 <= first_flagged_from(rows, i) < rows.len(),
    decreases rows.len() - i,
{
    if i < rows.len() {
        lemma_first_flagged_range(rows, i + 1);
    }
}

fn set_flag_row(row: &UsageEventRow, flag: bool) -> (r: UsageEventRow)
    ensures
        r == with_pack_ref(*row, flag,
            if flag { row.detail_object_path } else { None },
            if flag { row.detail_object_offset } else { None },
            if flag { row.detail_object_length } else { None },
            if flag { row.detail_object_sha256 } else { None }),
{
    let mut r = row.duplicate();
    r.detail_object_payload_present = flag;
    if !flag {
        r.detail_object_path = None;
        r.detail_object_offset = None;
        r.detail_object_length = None;
        r.detail_object_sha256 = None;
    }
    r
}

fn set_ref_row(row: &UsageEventRow, path: &String, offset: i64, length: i64, sha256_hex: &String) -> (r: UsageEventRow)
    ensures
        r == with_pack_ref(*row, true, Some(*path), Some(offset), Some(length), Some(*sha256_hex)),
{
    let mut r = row.duplicate();
    r.detail_object_payload_present = true;
    r.detail_object_path = Some(path.clone());
    r.detail_object_offset = Some(offset);
    r.detail_object_length = Some(length);
    r.detail_object_sha256 = Some(sha256_hex.clone());
    r
}

/// The encoded member of each row: the gzip member of its detail JSON when
/// it has external payloads, nothing otherwise.
pub open spec fn encoded_members(rows: Seq<UsageEventRow>, blob_json: Seq<Seq<u8>>) -> Seq<Seq<u8>> {
    Seq::new(rows.len(), |i: int| if row_has_payloads(rows[i]) { gzip_member(blob_json[i]) } else { Seq::empty() })
}

/// Prepares the detail pack of a batch from each row's detail JSON (the
/// serialized detail blob of the row): compresses the JSON of every row with
/// external payloads and builds the pack from those members.
pub fn prepare_pack(rows: &mut Vec<UsageEventRow>, blob_json: &Vec<Vec<u8>>)
    -> (r: Result<Option<UsageEventDetailPackWrite>, DetailPackError>)
    requires
        old(rows)@.len() == blob_json@.len(),
    ensures
        !(r is Err && r->Err_0 is EncodeFailed),
        pack_outcome(
            old(rows)@,
            final(rows)@,
            encoded_members(old(rows)@, member_views(blob_json@)),
            r,
        ),
{
    let mut members: Vec<Vec<u8>> = Vec::new();
    let mut i: usize = 0;
    while i < rows.len()
        invariant
            i <= rows@.len(),
            rows@ == old(rows)@,
            rows@.len() == blob_json@.len(),
            members@.len() == i,
            forall|k: int| 0 <= k < i ==> (#[trigger] members@[k])@ == encoded_members(old(rows)@, member_views(blob_json@))[k],
        decreases rows.len() - i,
    {
        if row_present(&rows[i]) {
            match gzip_compress(blob_json[i].as_slice()) {
                Some(encoded) => members.push(encoded),
                None => {
                    return Err(DetailPackError::EncodeFailed { event_id: rows[i].event_id.clone() });
                },
            }
        } else {
            members.push(Vec::new());
        }
        i = i + 1;
    }
    assert(member_views(members@) =~= encoded_members(old(rows)@, member_views(blob_json@)));
    assemble_detail_pack(rows, &members)
}

/// Where one event's detail member lies: the pack, the byte range
/// `start..end` and the member's digest.
#[derive(Debug, Clone)]
pub struct UsageEventDetailObjectRef {
    pub relative_path: String,
    pub byte_start: u64,
    pub byte_end: u64,
    pub sha256: String,
}

/// Whether a fact table has the four detail reference columns.
pub open spec fn has_detail_ref_columns(columns: Seq<String>) -> bool {
    crate::sql::has_column(columns, "detail_object_path"@) && crate::sql::has_column(columns, "detail_object_offset"@)
        && crate::sql::has_column(columns, "detail_object_length"@) && crate::sql::has_column(columns, "detail_object_sha256"@)
}

/// Whether a fact table has the four detail reference columns.
pub fn detail_ref_columns_present(columns: &Vec<String>) -> (r: bool)
    ensures
        r == has_detail_ref_columns(columns@),
{
    crate::sql::contains_column(columns, "detail_object_path") && crate::sql::contains_column(columns, "detail_object_offset")
        && crate::sql::contains_column(columns, "detail_object_length") && crate::sql::contains_column(columns, "detail_object_sha256")
}

/// Whether stored reference columns name a member: a non-blank path and
/// digest, a non-negative offset and a positive length.
pub open spec fn valid_detail_ref(path: Option<String>, offset: Option<i64>, length: Option<i64>, sha256: Option<String>) -> bool {
    &&& path matches Some(p) && trim(p@).len() > 0
    &&& offset matches Some(o) && o >= 0
    &&& length matches Some(l) && l > 0
    &&& sha256 matches Some(h) && trim(h@).len() > 0
}

/// The detail member reference stored in a fact row's columns, when they
/// name one.
pub fn detail_object_ref_from_columns(
    path: Option<String>,
    offset: Option<i64>,
    length: Option<i64>,
    sha256: Option<String>,
) -> (r: Option<UsageEventDetailObjectRef>)
    ensures
        r is Some <==> valid_detail_ref(path, offset, length, sha256),
        r matches Some(d) ==> Some(d.relative_path) == path && Some(d.sha256) == sha256
            && Some(d.byte_start as i64) == offset && d.byte_start + (length->0 as int) == d.byte_end
            && d.byte_start as int == offset->0 as int,
{
    match (path, offset, length, sha256) {
        (Some(p), Some(o), Some(l), Some(h)) => {
            if crate::text::trimmed_chars(p.as_str()).len() == 0 || o < 0 || l <= 0
                || crate::text::trimmed_chars(h.as_str()).len() == 0
            {
                return None;
            }
            let start = o as u64;
            let end = start + (l as u64);
            Some(UsageEventDetailObjectRef { relative_path: p, byte_start: start, byte_end: end, sha256: h })
        },
        _ => None,
    }
}

/// A stored member lies inside the pack and its bytes have its digest.
pub open spec fn member_readable(pack: Seq<u8>, e: (Seq<char>, int, int)) -> bool {
    0 <= e.1 && 0 <= e.2 && e.1 + e.2 <= pack.len() && member_digest(pack.subrange(e.1, e.1 + e.2)) == e.0
}

/// Every stored member lies inside the pack, and the bytes of its range
/// have the digest it is stored under.
pub proof fn lemma_pack_members_readable(rows: Seq<UsageEventRow>, members: Seq<Seq<u8>>, n: int)
    ensures
        forall|k: int| 0 <= k < pack_fold(rows, members, n).1.len() ==>
            member_readable(pack_fold(rows, members, n).0, #[trigger] pack_fold(rows, members, n).1[k]),
    decreases n,
{
    if n > 0 {
        lemma_pack_members_readable(rows, members, n - 1);
        let (pack0, seen0) = pack_fold(rows, members, n - 1);
        let (pack1, seen1) = pack_fold(rows, members, n);
        if seen1 != seen0 {
            let m = members[n - 1];
            assert(pack1 == pack0 + m);
            assert forall|k: int| 0 <= k < seen1.len() implies member_readable(pack1, #[trigger] seen1[k]) by {
                if k < seen0.len() {
                    let e = seen0[k];
                    assert(seen1[k] == e);
                    assert(pack1.subrange(e.1, e.1 + e.2) =~= pack0.subrange(e.1, e.1 + e.2));
                } else {
                    assert(pack1.subrange(pack0.len() as int, (pack0.len() + m.len()) as int) =~= m);
                }
            }
        }
    }
}

/// Reading a packed row's byte range back from the pack yields bytes with
/// the digest the row records, and rows whose members share a digest share
/// one byte range.
pub proof fn lemma_detail_reference_reads_back(
    old_rows: Seq<UsageEventRow>,
    new_rows: Seq<UsageEventRow>,
    members: Seq<Seq<u8>>,
    w: UsageEventDetailPackWrite,
    i: int,
    j: int,
)
    requires
        pack_outcome(old_rows, new_rows, members, Ok(Some(w))),
        0 <= i < old_rows.len(),
        row_has_payloads(old_rows[i]),
    ensures
        new_rows[i].detail_object_offset matches Some(off) && new_rows[i].detail_object_length matches Some(len)
            && new_rows[i].detail_object_sha256 matches Some(h) && 0 <= off && off + len <= w.bytes@.len()
            && member_digest(w.bytes@.subrange(off as int, off + len)) == h@,
        0 <= j < old_rows.len() && row_has_payloads(old_rows[j]) && member_digest(members[i]) == member_digest(members[j])
            ==> new_rows[j].detail_object_offset == new_rows[i].detail_object_offset
            && new_rows[j].detail_object_length == new_rows[i].detail_object_length,
{
    let n = old_rows.len() as int;
    let (pack, seen) = pack_fold(old_rows, members, n);
    let d = member_digest(members[i]);
    assert(old_rows[i] == old_rows[i]);
    lemma_pack_fold_prefix(old_rows, members, n, n);
    lemma_pack_members_readable(old_rows, members, n);
    lemma_pack_fold_has_rows(old_rows, members, n, i);
    let k = choose|k: int| 0 <= k < seen.len() && (#[trigger] seen[k]).0 == d;
    assert(seen_entry(seen, d) == seen[k]);
    assert(pack_fits(seen));
    assert(seen[k].1 <= i64::MAX && seen[k].2 <= i64::MAX);
    if 0 <= j < old_rows.len() && row_has_payloads(old_rows[j]) && member_digest(members[i]) == member_digest(members[j]) {
        assert(old_rows[j] == old_rows[j]);
    }
}

/// Every row with payloads has its member's digest stored.
pub proof fn lemma_pack_fold_has_rows(rows: Seq<UsageEventRow>, members: Seq<Seq<u8>>, n: int, i: int)
    requires
        0 <= i < n <= rows.len(),
        row_has_payloads(rows[i]),
    ensures
        seen_has(pack_fold(rows, members, n).1, member_digest(members[i])),
    decreases n,
{
    let d = member_digest(members[i]);
    if i < n - 1 {
        lemma_pack_fold_has_rows(rows, members, n - 1, i);
        lemma_pack_fold_prefix(rows, members, n - 1, n);
        let s0 = pack_fold(rows, members, n - 1).1;
        let s1 = pack_fold(rows, members, n).1;
        let k = choose|k: int| 0 <= k < s0.len() && (#[trigger] s0[k]).0 == d;
        assert(s1.take(s0.len() as int)[k] == s1[k]);
    } else {
        let s0 = pack_fold(rows, members, n - 1).1;
        let s1 = pack_fold(rows, members, n).1;
        if !seen_has(s0, d) {
            assert(s1[s0.len() as int].0 == d);
        } else {
            let k = choose|k: int| 0 <= k < s0.len() && (#[trigger] s0[k]).0 == d;
            assert(s1[k].0 == d);
        }
    }
}

} // verus!

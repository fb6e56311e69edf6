//! Calendar dates of the archive and detail-pack bucket directories: the UTC
//! date of a timestamp, valid Gregorian dates, and the day-bucket expiry
//! rule of retention.
use vstd::prelude::*;
use chrono::Datelike;
use crate::scan::{parse_i64_chars, parse_u64_chars, parse_i64_spec, parse_u64_spec};
use crate::text::{chars_of, decimal, push_zero_padded, string_push, zero_padded};

verus! {

/// Leap years of the proleptic Gregorian calendar.
pub open spec fn is_leap_year(y: int) -> bool {
    y % 4 == 0 && (y % 100 != 0 || y % 400 == 0)
}

/// The number of days of a month.
pub open spec fn days_in_month(y: int, m: int) -> int {
    if m == 2 {
        if is_leap_year(y) { 29 } else { 28 }
    } else if m == 4 || m == 6 || m == 9 || m == 11 {
        30
    } else {
        31
    }
}

/// A calendar date that `chrono::NaiveDate` can hold: years
/// `-262143..=262142`, a month `1..=12` and a day of that month.
pub open spec fn valid_ymd(y: int, m: int, d: int) -> bool {
    -262143 <= y <= 262142 && 1 <= m <= 12 && 1 <= d <= days_in_month(y, m)
}

/// The year a date counts in when years start on March 1.
pub open spec fn march_year(y: int, m: int) -> int {
    if m <= 2 { y - 1 } else { y }
}

/// The month of a date counted from March (March is 0, February 11).
pub open spec fn march_month(m: int) -> int {
    if m > 2 { m - 3 } else { m + 9 }
}

/// Days from 0000-03-01 to March 1 of year `yy` of the proleptic Gregorian
/// calendar.
pub open spec fn days_before_march_year(yy: int) -> int {
    365 * yy + yy / 4 - yy / 100 + yy / 400
}

/// The day number of a date of the proleptic Gregorian calendar: days from
/// 1970-01-01 (negative before it).
pub open spec fn days_from_civil(y: int, m: int, d: int) -> int {
    days_before_march_year(march_year(y, m)) + (153 * march_month(m) + 2) / 5 + d - 1 - 719468
}

/// The day number of the UTC day holding a millisecond timestamp.
pub open spec fn millis_day(millis: i64) -> int {
    millis as int / 86_400_000
}

/// The day number of `chrono::NaiveDate::MIN`, January 1 of year -262143.
pub open spec fn chrono_first_day() -> int {
    days_from_civil(-262143, 1, 1)
}

/// The day number of `chrono::NaiveDate::MAX`, December 31 of year 262142.
pub open spec fn chrono_last_day() -> int {
    days_from_civil(262142, 12, 31)
}

/// Whether `d` is the valid date of day number `day`.
pub open spec fn date_of_day(d: (i32, u32, u32), day: int) -> bool {
    valid_ymd(d.0 as int, d.1 as int, d.2 as int) && days_from_civil(d.0 as int, d.1 as int, d.2 as int) == day
}

/// `chrono::DateTime::<Utc>::from_timestamp_millis`, then the date's year,
/// month and day: `None` when the timestamp's day lies outside chrono's
/// dates, else the valid date of that day.
#[verifier::external_body]
fn utc_date_from_millis(millis: i64) -> (r: Option<(i32, u32, u32)>)
    ensures
        r is Some <==> chrono_first_day() <= millis_day(millis) <= chrono_last_day(),
        r matches Some(d) ==> date_of_day(d, millis_day(millis)),
{
    match chrono::DateTime::<chrono::Utc>::from_timestamp_millis(millis) {
        Some(moment) => {
            let date = moment.date_naive();
            Some((date.year(), date.month(), date.day()))
        },
        None => None,
    }
}

proof fn lemma_div_step(y: int)
    ensures
        y / 4 - (y - 1) / 4 == (if y % 4 == 0 { 1int } else { 0 }),
        y / 100 - (y - 1) / 100 == (if y % 100 == 0 { 1int } else { 0 }),
        y / 400 - (y - 1) / 400 == (if y % 400 == 0 { 1int } else { 0 }),
{
    vstd::arithmetic::div_mod::lemma_fundamental_div_mod(y, 4);
    vstd::arithmetic::div_mod::lemma_fundamental_div_mod(y - 1, 4);
    vstd::arithmetic::div_mod::lemma_fundamental_div_mod(y, 100);
    vstd::arithmetic::div_mod::lemma_fundamental_div_mod(y - 1, 100);
    vstd::arithmetic::div_mod::lemma_fundamental_div_mod(y, 400);
    vstd::arithmetic::div_mod::lemma_fundamental_div_mod(y - 1, 400);
}

/// The month after `(y, m)`.
pub open spec fn next_month(y: int, m: int) -> (int, int) {
    if m == 12 { (y + 1, 1) } else { (y, m + 1) }
}

/// The first day of the next month follows the last day of this one.
proof fn lemma_month_step(y: int, m: int)
    requires
        1 <= m <= 12,
    ensures
        days_from_civil(next_month(y, m).0, next_month(y, m).1, 1) == days_from_civil(y, m, 1) + days_in_month(y, m),
{
    if m == 2 {
        lemma_div_step(y);
        assert(days_before_march_year(y) == days_before_march_year(y - 1) + 365 + (if is_leap_year(y) { 1int } else { 0 }));
    }
}

/// Month starts increase with the month: a later month starts after this
/// month's last day.
proof fn lemma_month_start_order(y1: int, m1: int, y2: int, m2: int)
    requires
        1 <= m1 <= 12,
        1 <= m2 <= 12,
        12 * y1 + m1 < 12 * y2 + m2,
    ensures
        days_from_civil(y2, m2, 1) >= days_from_civil(y1, m1, 1) + days_in_month(y1, m1),
    decreases 12 * y2 + m2 - (12 * y1 + m1),
{
    lemma_month_step(y1, m1);
    let (ny, nm) = next_month(y1, m1);
    if 12 * ny + nm < 12 * y2 + m2 {
        lemma_month_start_order(ny, nm, y2, m2);
    } else {
        assert(ny == y2 && nm == m2);
    }
}

/// Distinct valid dates have distinct day numbers.
pub proof fn lemma_days_from_civil_injective(a: (i32, u32, u32), b: (i32, u32, u32))
    requires
        valid_ymd(a.0 as int, a.1 as int, a.2 as int),
        valid_ymd(b.0 as int, b.1 as int, b.2 as int),
        days_from_civil(a.0 as int, a.1 as int, a.2 as int) == days_from_civil(b.0 as int, b.1 as int, b.2 as int),
    ensures
        a == b,
{
    let (ya, ma, da) = (a.0 as int, a.1 as int, a.2 as int);
    let (yb, mb, db) = (b.0 as int, b.1 as int, b.2 as int);
    assert(days_from_civil(ya, ma, da) == days_from_civil(ya, ma, 1) + da - 1);
    assert(days_from_civil(yb, mb, db) == days_from_civil(yb, mb, 1) + db - 1);
    if 12 * ya + ma < 12 * yb + mb {
        lemma_month_start_order(ya, ma, yb, mb);
    } else if 12 * yb + mb < 12 * ya + ma {
        lemma_month_start_order(yb, mb, ya, ma);
    } else {
        assert(ya == yb && ma == mb);
    }
}

/// An earlier valid date has a smaller day number.
pub proof fn lemma_days_from_civil_ordered(a: (i32, u32, u32), b: (i32, u32, u32))
    requires
        valid_ymd(a.0 as int, a.1 as int, a.2 as int),
        valid_ymd(b.0 as int, b.1 as int, b.2 as int),
        date_before(a, b),
    ensures
        days_from_civil(a.0 as int, a.1 as int, a.2 as int) < days_from_civil(b.0 as int, b.1 as int, b.2 as int),
{
    let (ya, ma, da) = (a.0 as int, a.1 as int, a.2 as int);
    let (yb, mb, db) = (b.0 as int, b.1 as int, b.2 as int);
    assert(days_from_civil(ya, ma, da) == days_from_civil(ya, ma, 1) + da - 1);
    assert(days_from_civil(yb, mb, db) == days_from_civil(yb, mb, 1) + db - 1);
    if 12 * ya + ma < 12 * yb + mb {
        lemma_month_start_order(ya, ma, yb, mb);
    }
}

/// Every day from chrono's first to its last has a valid date.
pub proof fn lemma_day_has_date(day: int)
    requires
        chrono_first_day() <= day <= chrono_last_day(),
    ensures
        exists|d: (i32, u32, u32)| #[trigger] date_of_day(d, day),
    decreases day - chrono_first_day(),
{
    if day == chrono_first_day() {
        let d: (i32, u32, u32) = (-262143i32, 1u32, 1u32);
        assert(date_of_day(d, day));
    } else {
        lemma_day_has_date(day - 1);
        let p = choose|d: (i32, u32, u32)| #[trigger] date_of_day(d, day - 1);
        let (y, m, dd) = (p.0 as int, p.1 as int, p.2 as int);
        assert(days_from_civil(y, m, dd) == days_from_civil(y, m, 1) + dd - 1);
        if dd < days_in_month(y, m) {
            let q: (i32, u32, u32) = (p.0, p.1, (p.2 + 1) as u32);
            assert(days_from_civil(y, m, dd + 1) == days_from_civil(y, m, 1) + dd);
            assert(date_of_day(q, day));
        } else {
            lemma_month_step(y, m);
            if m == 12 {
                assert(y < 262142) by {
                    if y == 262142 {
                        assert(dd == 31);
                    }
                }
                let q: (i32, u32, u32) = ((p.0 + 1) as i32, 1, 1);
                assert(date_of_day(q, day));
            } else {
                let q: (i32, u32, u32) = (p.0, (p.1 + 1) as u32, 1);
                assert(date_of_day(q, day));
            }
        }
    }
}

/// The UTC date of a timestamp that chrono can represent is the valid date
/// of its day.
pub proof fn lemma_utc_date_of_day(millis: i64)
    requires
        chrono_first_day() <= millis_day(millis) <= chrono_last_day(),
    ensures
        date_of_day(utc_date_or_epoch(millis), millis_day(millis)),
{
    lemma_day_has_date(millis_day(millis));
}

/// Later timestamps fall on the same or a later UTC date.
pub proof fn lemma_utc_date_monotone(earlier_ms: i64, later_ms: i64)
    requires
        earlier_ms <= later_ms,
        chrono_first_day() <= millis_day(earlier_ms),
        millis_day(later_ms) <= chrono_last_day(),
    ensures
        !date_before(utc_date_or_epoch(later_ms), utc_date_or_epoch(earlier_ms)),
{
    vstd::arithmetic::div_mod::lemma_div_is_ordered(earlier_ms as int, later_ms as int, 86_400_000);
    lemma_utc_date_of_day(earlier_ms);
    lemma_utc_date_of_day(later_ms);
    if date_before(utc_date_or_epoch(later_ms), utc_date_or_epoch(earlier_ms)) {
        lemma_days_from_civil_ordered(utc_date_or_epoch(later_ms), utc_date_or_epoch(earlier_ms));
    }
}

/// The UTC date of a timestamp, or 1970-01-01 when chrono cannot represent
/// its day.
pub open spec fn utc_date_or_epoch(millis: i64) -> (i32, u32, u32) {
    if chrono_first_day() <= millis_day(millis) <= chrono_last_day() {
        choose|d: (i32, u32, u32)| #[trigger] date_of_day(d, millis_day(millis))
    } else {
        (1970, 1, 1)
    }
}

/// `chrono::NaiveDate::from_ymd_opt`: the date when it exists and is in
/// chrono's range, read back as year, month and day.
#[verifier::external_body]
fn naive_date_from_ymd(year: i32, month: u32, day: u32) -> (r: Option<(i32, u32, u32)>)
    ensures
        r == (if valid_ymd(year as int, month as int, day as int) { Some((year, month, day)) } else { None }),
{
    match chrono::NaiveDate::from_ymd_opt(year, month, day) {
        Some(date) => Some((date.year(), date.month(), date.day())),
        None => None,
    }
}

/// The UTC calendar date of a millisecond timestamp (the epoch date when
/// chrono cannot represent it).
pub fn utc_date_parts(timestamp_ms: i64) -> (r: (i32, u32, u32))
    ensures
        r == utc_date_or_epoch(timestamp_ms),
{
    match utc_date_from_millis(timestamp_ms) {
        Some(d) => {
            proof {
                let day = millis_day(timestamp_ms);
                assert(date_of_day(d, day));
                let c = choose|x: (i32, u32, u32)| #[trigger] date_of_day(x, day);
                lemma_days_from_civil_injective(c, d);
            }
            d
        },
        None => (1970, 1, 1),
    }
}

/// Whether date `a` comes before date `b`.
pub open spec fn date_before(a: (i32, u32, u32), b: (i32, u32, u32)) -> bool {
    a.0 < b.0 || (a.0 == b.0 && (a.1 < b.1 || (a.1 == b.1 && a.2 < b.2)))
}

/// `str::parse::<i32>`.
pub open spec fn parse_i32_spec(s: Seq<char>) -> Option<i32> {
    match parse_i64_spec(s) {
        Some(v) => if i32::MIN <= v <= i32::MAX { Some(v as i32) } else { None },
        None => None,
    }
}

/// `str::parse::<u32>`.
pub open spec fn parse_u32_spec(s: Seq<char>) -> Option<u32> {
    match parse_u64_spec(s) {
        Some(v) => if v <= u32::MAX { Some(v as u32) } else { None },
        None => None,
    }
}

fn parse_i32(s: &str) -> (r: Option<i32>)
    ensures
        r == parse_i32_spec(s@),
{
    let chars = chars_of(s);
    match parse_i64_chars(&chars) {
        Some(v) => if i32::MIN as i64 <= v && v <= i32::MAX as i64 { Some(v as i32) } else { None },
        None => None,
    }
}

fn parse_u32(s: &str) -> (r: Option<u32>)
    ensures
        r == parse_u32_spec(s@),
{
    let chars = chars_of(s);
    match parse_u64_chars(&chars) {
        Some(v) => if v <= u32::MAX as u64 { Some(v as u32) } else { None },
        None => None,
    }
}

/// Whether a detail-pack day directory `<year>/<month>/<day>` holds a date
/// before the retention cutoff date; names that do not parse, or that name
/// no calendar date, are kept.
pub open spec fn day_bucket_expired(year: Seq<char>, month: Seq<char>, day: Seq<char>, cutoff: (i32, u32, u32)) -> bool {
    match (parse_i32_spec(year), parse_u32_spec(month), parse_u32_spec(day)) {
        (Some(y), Some(m), Some(d)) => valid_ymd(y as int, m as int, d as int) && date_before((y, m, d), cutoff),
        _ => false,
    }
}

/// Whether a detail-pack day directory lies before the retention cutoff
/// date.
pub fn detail_day_bucket_expired(year: &str, month: &str, day: &str, cutoff_date: (i32, u32, u32)) -> (r: bool)
    ensures
        r == day_bucket_expired(year@, month@, day@, cutoff_date),
{
    let y = match parse_i32(year) {
        Some(v) => v,
        None => return false,
    };
    let m = match parse_u32(month) {
        Some(v) => v,
        None => return false,
    };
    let d = match parse_u32(day) {
        Some(v) => v,
        None => return false,
    };
    match naive_date_from_ymd(y, m, d) {
        Some(date) => date.0 < cutoff_date.0 || (date.0 == cutoff_date.0 && (date.1 < cutoff_date.1
            || (date.1 == cutoff_date.1 && date.2 < cutoff_date.2))),
        None => false,
    }
}

/// The `{:04}` rendering of a year (a sign, then at least three digits, for
/// negative years).
pub open spec fn year_text(y: int) -> Seq<char> {
    if y >= 0 {
        zero_padded(decimal(y as nat), 4)
    } else {
        seq!['-'] + zero_padded(decimal((-y) as nat), 3)
    }
}

/// `<year:04>/<month:02>/<day:02>`.
pub open spec fn date_path_text(d: (i32, u32, u32)) -> Seq<char> {
    year_text(d.0 as int) + seq!['/'] + zero_padded(decimal(d.1 as nat), 2) + seq!['/'] + zero_padded(
        decimal(d.2 as nat),
        2,
    )
}

/// Appends the `{:04}` rendering of a year.
pub fn push_year(s: &mut String, year: i32)
    ensures
        final(s)@ == old(s)@ + year_text(year as int),
{
    if year >= 0 {
        push_zero_padded(s, year as u64, 4);
    } else {
        let ghost start = s@;
        string_push(s, '-');
        let magnitude: u64 = (0i64 - year as i64) as u64;
        push_zero_padded(s, magnitude, 3);
        assert(start.push('-') + zero_padded(decimal(magnitude as nat), 3) =~= start + year_text(year as int));
    }
}

/// Appends `<year:04>/<month:02>/<day:02>`.
pub fn push_date_path(s: &mut String, date: (i32, u32, u32))
    ensures
        final(s)@ == old(s)@ + date_path_text(date),
{
    let ghost start = s@;
    push_year(s, date.0);
    string_push(s, '/');
    push_zero_padded(s, date.1 as u64, 2);
    string_push(s, '/');
    push_zero_padded(s, date.2 as u64, 2);
    assert(s@ =~= start + date_path_text(date));
}

/// The archive bucket directory of a timestamp: `<year:04>/<month:02>/<day:02>`
/// of its UTC date.
pub fn archive_segment_bucket_dir(timestamp_ms: i64) -> (r: String)
    ensures
        r@ == date_path_text(utc_date_or_epoch(timestamp_ms)),
{
    let date = utc_date_parts(timestamp_ms);
    let mut s = String::new();
    push_date_path(&mut s, date);
    assert(Seq::<char>::empty() + date_path_text(date) =~= date_path_text(date));
    s
}

/// A year's `{:04}` text parses back to the year.
proof fn lemma_parse_year_text(y: i32)
    ensures
        parse_i32_spec(year_text(y as int)) == Some(y),
{
    if y >= 0 {
        let n: u64 = y as u64;
        let p = zero_padded(decimal(n as nat), 4);
        crate::scan::lemma_parse_zero_padded(n, 4);
        assert('0' <= p[0] <= '9');
        assert(crate::scan::unsigned_digits(p) == p);
        assert(crate::scan::digits_value(p) == y);
        assert(year_text(y as int) == p);
        assert(parse_i64_spec(p) == Some(y as i64));
    } else {
        let m: u64 = (-(y as int)) as u64;
        let p = zero_padded(decimal(m as nat), 3);
        crate::scan::lemma_parse_zero_padded(m, 3);
        let t = year_text(y as int);
        assert(t == seq!['-'] + p);
        assert(t[0] == '-');
        assert(t.drop_first() =~= p);
        assert(crate::scan::digits_value(p) == m);
        assert(parse_i64_spec(t) == Some(y as i64));
    }
}

/// A month or day's `{:02}` text parses back to it.
proof fn lemma_parse_two_digits(v: u32)
    ensures
        parse_u32_spec(zero_padded(decimal(v as nat), 2)) == Some(v),
{
    crate::scan::lemma_parse_zero_padded(v as u64, 2);
}

/// Retention never removes the detail day bucket of an event it keeps: the
/// `<year>/<month>/<day>` directory named after the UTC date of an event
/// created at or after the cutoff is not expired by that cutoff (for
/// timestamps whose days chrono can represent).
pub proof fn lemma_retained_event_keeps_detail_bucket(created_at_ms: i64, cutoff_ms: i64)
    requires
        cutoff_ms <= created_at_ms,
        chrono_first_day() <= millis_day(cutoff_ms),
        millis_day(created_at_ms) <= chrono_last_day(),
    ensures
        ({
            let d = utc_date_or_epoch(created_at_ms);
            !day_bucket_expired(
                year_text(d.0 as int),
                zero_padded(decimal(d.1 as nat), 2),
                zero_padded(decimal(d.2 as nat), 2),
                utc_date_or_epoch(cutoff_ms),
            )
        }),
{
    let d = utc_date_or_epoch(created_at_ms);
    lemma_utc_date_monotone(cutoff_ms, created_at_ms);
    lemma_parse_year_text(d.0);
    lemma_parse_two_digits(d.1);
    lemma_parse_two_digits(d.2);
}

} // verus!

//! Scanning of segment ids and file names: lexicographic string order,
//! decimal parsing with the grammar of `str::parse` for `u64` and `i64`,
//! and the pieces of a string around a separator.
use vstd::prelude::*;
use crate::text::{chars_of, decimal, digit_char, zero_padded};

verus! {

/// Lexicographic order of character sequences (the order of `str`).
pub open spec fn seq_less(a: Seq<char>, b: Seq<char>) -> bool
    decreases a.len(),
{
    if b.len() == 0 {
        false
    } else if a.len() == 0 {
        true
    } else if a[0] != b[0] {
        a[0] < b[0]
    } else {
        seq_less(a.drop_first(), b.drop_first())
    }
}

/// `a` sorts before or equal to `b`.
pub open spec fn seq_leq(a: Seq<char>, b: Seq<char>) -> bool {
    a == b || seq_less(a, b)
}

/// The order is irreflexive.
pub proof fn lemma_seq_less_irreflexive(a: Seq<char>)
    ensures
        !seq_less(a, a),
    decreases a.len(),
{
    if a.len() > 0 {
        lemma_seq_less_irreflexive(a.drop_first());
    }
}

/// The order is transitive.
pub proof fn lemma_seq_less_transitive(a: Seq<char>, b: Seq<char>, c: Seq<char>)
    requires
        seq_less(a, b),
        seq_less(b, c),
    ensures
        seq_less(a, c),
    decreases a.len(),
{
    if a.len() > 0 && b.len() > 0 && c.len() > 0 && a[0] == b[0] && b[0] == c[0] {
        lemma_seq_less_transitive(a.drop_first(), b.drop_first(), c.drop_first());
    }
}

/// Any two sequences are equal or ordered one way.
pub proof fn lemma_seq_less_total(a: Seq<char>, b: Seq<char>)
    ensures
        a == b || seq_less(a, b) || seq_less(b, a),
    decreases a.len(),
{
    if a.len() > 0 && b.len() > 0 && a[0] == b[0] {
        lemma_seq_less_total(a.drop_first(), b.drop_first());
        if a.drop_first() == b.drop_first() {
            assert forall|i: int| 0 <= i < a.len() implies a[i] == b[i] by {
                if i > 0 {
                    assert(a[i] == a.drop_first()[i - 1]);
                    assert(b[i] == b.drop_first()[i - 1]);
                }
            }
            assert(a =~= b);
        }
    } else if a.len() == 0 && b.len() == 0 {
        assert(a =~= b);
    }
}

/// The order is asymmetric.
pub proof fn lemma_seq_less_asymmetric(a: Seq<char>, b: Seq<char>)
    requires
        seq_less(a, b),
    ensures
        !seq_less(b, a),
{
    if seq_less(b, a) {
        lemma_seq_less_transitive(a, b, a);
        lemma_seq_less_irreflexive(a);
    }
}

/// `seq_leq` is a total order.
pub proof fn lemma_seq_leq_total_ordering()
    ensures
        vstd::relations::total_ordering(|a: Seq<char>, b: Seq<char>| seq_leq(a, b)),
{
    let leq = |a: Seq<char>, b: Seq<char>| seq_leq(a, b);
    assert forall|a: Seq<char>, b: Seq<char>| #[trigger] leq(a, b) && leq(b, a) implies a == b by {
        if a != b {
            lemma_seq_less_asymmetric(a, b);
        }
    }
    assert forall|a: Seq<char>, b: Seq<char>, c: Seq<char>| #[trigger] leq(a, b) && #[trigger] leq(b, c)
        implies leq(a, c) by {
        if a != b && b != c {
            lemma_seq_less_transitive(a, b, c);
        }
    }
    assert forall|a: Seq<char>, b: Seq<char>| #[trigger] leq(a, b) || leq(b, a) by {
        lemma_seq_less_total(a, b);
    }
}

/// Whether `a` sorts strictly before `b`.
pub fn str_less(a: &str, b: &str) -> (r: bool)
    ensures
        r == seq_less(a@, b@),
{
    let x = chars_of(a);
    let y = chars_of(b);
    let mut i: usize = 0;
    assert(a@.skip(0) =~= a@);
    assert(b@.skip(0) =~= b@);
    while i < x.len() && i < y.len()
        invariant
            i <= x.len(),
            i <= y.len(),
            x@ == a@,
            y@ == b@,
            seq_less(a@, b@) == seq_less(a@.skip(i as int), b@.skip(i as int)),
        decreases x.len() - i,
    {
        if x[i] != y[i] {
            return x[i] < y[i];
        }
        assert(a@.skip(i as int).drop_first() =~= a@.skip(i + 1));
        assert(b@.skip(i as int).drop_first() =~= b@.skip(i + 1));
        i = i + 1;
    }
    i < y.len()
}

/// Whether every character is an ASCII decimal digit.
pub open spec fn all_digits(s: Seq<char>) -> bool {
    forall|i: int| 0 <= i < s.len() ==> '0' <= #[trigger] s[i] <= '9'
}

/// The value of a run of decimal digits.
pub open spec fn digits_value(s: Seq<char>) -> int
    decreases s.len(),
{
    if s.len() == 0 {
        0
    } else {
        digits_value(s.drop_last()) * 10 + (s.last() as int - '0' as int)
    }
}

/// The digits of an unsigned number: an optional leading `+` dropped.
pub open spec fn unsigned_digits(s: Seq<char>) -> Seq<char> {
    if s.len() > 0 && s[0] == '+' { s.drop_first() } else { s }
}

/// `str::parse::<u64>`: an optional `+`, then one or more decimal digits
/// whose value fits in `u64`.
pub open spec fn parse_u64_spec(s: Seq<char>) -> Option<u64> {
    let d = unsigned_digits(s);
    if d.len() > 0 && all_digits(d) && digits_value(d) <= u64::MAX {
        Some(digits_value(d) as u64)
    } else {
        None
    }
}

/// `str::parse::<i64>`: an optional `+` or `-`, then one or more decimal
/// digits whose signed value fits in `i64`.
pub open spec fn parse_i64_spec(s: Seq<char>) -> Option<i64> {
    if s.len() > 0 && s[0] == '-' {
        let d = s.drop_first();
        if d.len() > 0 && all_digits(d) && digits_value(d) <= 0x8000_0000_0000_0000 {
            Some((-digits_value(d)) as i64)
        } else {
            None
        }
    } else {
        let d = unsigned_digits(s);
        if d.len() > 0 && all_digits(d) && digits_value(d) <= i64::MAX {
            Some(digits_value(d) as i64)
        } else {
            None
        }
    }
}

proof fn lemma_digits_value_monotone(s: Seq<char>, i: int)
    requires
        0 <= i <= s.len(),
        all_digits(s),
    ensures
        0 <= digits_value(s.subrange(0, i)) <= digits_value(s),
    decreases s.len() - i,
{
    if i < s.len() {
        lemma_digits_value_monotone(s, i + 1);
        assert(s.subrange(0, i + 1).drop_last() =~= s.subrange(0, i));
        assert('0' <= s[i] <= '9');
    } else {
        assert(s.subrange(0, i) =~= s);
        lemma_digits_value_nonneg(s);
    }
}

proof fn lemma_digits_value_nonneg(s: Seq<char>)
    requires
        all_digits(s),
    ensures
        digits_value(s) >= 0,
    decreases s.len(),
{
    if s.len() > 0 {
        lemma_digits_value_nonneg(s.drop_last());
        assert('0' <= s[s.len() - 1] <= '9');
    }
}

/// The value of `chars[start..]` as decimal digits, or `None` when a
/// character is not a digit, the run is empty, or the value exceeds `max`.
fn digits_from(chars: &Vec<char>, start: usize, max: u64) -> (r: Option<u64>)
    requires
        start <= chars.len(),
    ensures
        ({
            let d = chars@.skip(start as int);
            r == (if d.len() > 0 && all_digits(d) && digits_value(d) <= max {
                Some(digits_value(d) as u64)
            } else {
                None
            })
        }),
        r matches Some(v) ==> v <= max && v == digits_value(chars@.skip(start as int)),
{
    let ghost d = chars@.skip(start as int);
    if start == chars.len() {
        return None;
    }
    let mut acc: u64 = 0;
    let mut i: usize = start;
    while i < chars.len()
        invariant
            start <= i <= chars.len(),
            d == chars@.skip(start as int),
            all_digits(d.subrange(0, i - start)),
            acc == digits_value(d.subrange(0, i - start)),
            acc <= max,
        decreases chars.len() - i,
    {
        let c = chars[i];
        assert(d[i - start] == c);
        if !('0' <= c && c <= '9') {
            assert(!all_digits(d));
            return None;
        }
        let digit = (c as u32 - '0' as u32) as u64;
        assert(d.subrange(0, i + 1 - start).drop_last() =~= d.subrange(0, i - start));
        assert(all_digits(d.subrange(0, i + 1 - start)));
        match acc.checked_mul(10) {
            Some(m) => match m.checked_add(digit) {
                Some(v) => {
                    if v > max {
                        proof {
                            if all_digits(d) {
                                lemma_digits_value_monotone(d, i + 1 - start);
                            }
                        }
                        return None;
                    }
                    acc = v;
                },
                None => {
                    proof {
                        if all_digits(d) {
                            lemma_digits_value_monotone(d, i + 1 - start);
                        }
                    }
                    return None;
                },
            },
            None => {
                proof {
                    if all_digits(d) {
                        lemma_digits_value_monotone(d, i + 1 - start);
                    }
                }
                return None;
            },
        }
        i = i + 1;
    }
    assert(d.subrange(0, i - start) =~= d);
    Some(acc)
}

/// `str::parse::<u64>` on a character sequence.
pub fn parse_u64_chars(chars: &Vec<char>) -> (r: Option<u64>)
    ensures
        r == parse_u64_spec(chars@),
{
    let start: usize = if chars.len() > 0 && chars[0] == '+' { 1 } else { 0 };
    proof {
        assert(unsigned_digits(chars@) =~= chars@.skip(start as int));
    }
    digits_from(chars, start, u64::MAX)
}

/// `str::parse::<u64>`.
pub fn parse_u64(s: &str) -> (r: Option<u64>)
    ensures
        r == parse_u64_spec(s@),
{
    let chars = chars_of(s);
    parse_u64_chars(&chars)
}

/// `str::parse::<i64>` on a character sequence.
pub fn parse_i64_chars(chars: &Vec<char>) -> (r: Option<i64>)
    ensures
        r == parse_i64_spec(chars@),
{
    if chars.len() > 0 && chars[0] == '-' {
        assert(chars@.drop_first() =~= chars@.skip(1));
        match digits_from(chars, 1, 0x8000_0000_0000_0000u64) {
            Some(v) => {
                if v == 0x8000_0000_0000_0000u64 {
                    Some(i64::MIN)
                } else {
                    let m = v as i64;
                    Some(-m)
                }
            },
            None => None,
        }
    } else {
        let start: usize = if chars.len() > 0 && chars[0] == '+' { 1 } else { 0 };
        proof {
            assert(unsigned_digits(chars@) =~= chars@.skip(start as int));
        }
        match digits_from(chars, start, i64::MAX as u64) {
            Some(v) => Some(v as i64),
            None => None,
        }
    }
}

/// `str::parse::<i64>`.
pub fn parse_i64(s: &str) -> (r: Option<i64>)
    ensures
        r == parse_i64_spec(s@),
{
    let chars = chars_of(s);
    parse_i64_chars(&chars)
}

/// The text after the last `sep` (all of `s` when `sep` does not occur):
/// the first item of `str::rsplit(sep)`.
pub open spec fn after_last(s: Seq<char>, sep: char) -> Seq<char>
    decreases s.len(),
{
    if s.len() == 0 {
        s
    } else if s.last() == sep {
        Seq::empty()
    } else {
        after_last(s.drop_last(), sep).push(s.last())
    }
}

/// The text before the first `sep` (all of `s` when it does not occur).
pub open spec fn before_first(s: Seq<char>, sep: char) -> Seq<char>
    decreases s.len(),
{
    if s.len() == 0 {
        s
    } else if s[0] == sep {
        Seq::empty()
    } else {
        seq![s[0]] + before_first(s.drop_first(), sep)
    }
}

/// The text after the first `sep`, if it occurs.
pub open spec fn after_first(s: Seq<char>, sep: char) -> Option<Seq<char>>
    decreases s.len(),
{
    if s.len() == 0 {
        None
    } else if s[0] == sep {
        Some(s.drop_first())
    } else {
        after_first(s.drop_first(), sep)
    }
}

/// The second item of `str::split(sep)`, if there is one.
pub open spec fn second_field(s: Seq<char>, sep: char) -> Option<Seq<char>> {
    match after_first(s, sep) {
        Some(rest) => Some(before_first(rest, sep)),
        None => None,
    }
}

/// The first item of `s.rsplit(sep)`.
pub fn last_field(s: &str, sep: char) -> (r: Vec<char>)
    ensures
        r@ == after_last(s@, sep),
{
    let chars = chars_of(s);
    let mut i: usize = chars.len();
    assert(s@.subrange(0, s@.len() as int) =~= s@);
    assert(after_last(s@, sep) + s@.subrange(s@.len() as int, s@.len() as int) =~= after_last(s@, sep));
    while i > 0 && chars[i - 1] != sep
        invariant
            i <= chars.len(),
            chars@ == s@,
            after_last(s@, sep) == after_last(s@.subrange(0, i as int), sep) + s@.subrange(i as int, s@.len() as int),
        decreases i,
    {
        let ghost pre = s@.subrange(0, i as int);
        assert(pre.last() == chars@[i - 1]);
        assert(pre.drop_last() =~= s@.subrange(0, i - 1));
        assert(s@.subrange(i - 1, s@.len() as int) =~= seq![chars@[i - 1]] + s@.subrange(i as int, s@.len() as int));
        assert(after_last(s@.subrange(0, i - 1), sep).push(chars@[i - 1]) + s@.subrange(i as int, s@.len() as int)
            =~= after_last(s@.subrange(0, i - 1), sep) + s@.subrange(i - 1, s@.len() as int));
        i = i - 1;
    }
    if i == 0 {
        assert(s@.subrange(0, 0) =~= Seq::<char>::empty());
    } else {
        assert(s@.subrange(0, i as int).last() == sep);
    }
    assert(after_last(s@.subrange(0, i as int), sep) =~= Seq::<char>::empty());
    let mut out: Vec<char> = Vec::new();
    let mut j: usize = i;
    while j < chars.len()
        invariant
            i <= j <= chars.len(),
            chars@ == s@,
            out@ == s@.subrange(i as int, j as int),
        decreases chars.len() - j,
    {
        out.push(chars[j]);
        assert(s@.subrange(i as int, j as int).push(chars@[j as int]) =~= s@.subrange(i as int, j + 1));
        j = j + 1;
    }
    assert(after_last(s@.subrange(0, i as int), sep) + s@.subrange(i as int, s@.len() as int) =~= out@);
    out
}

/// The second item of `s.split(sep)`, if `sep` occurs.
pub fn second_split_field(s: &str, sep: char) -> (r: Option<Vec<char>>)
    ensures
        r matches Some(v) ==> second_field(s@, sep) == Some(v@),
        r is None <==> second_field(s@, sep) is None,
{
    let chars = chars_of(s);
    let mut i: usize = 0;
    assert(s@.skip(0) =~= s@);
    while i < chars.len() && chars[i] != sep
        invariant
            i <= chars.len(),
            chars@ == s@,
            after_first(s@, sep) == after_first(s@.skip(i as int), sep),
        decreases chars.len() - i,
    {
        assert(s@.skip(i as int).drop_first() =~= s@.skip(i + 1));
        i = i + 1;
    }
    if i == chars.len() {
        assert(s@.skip(i as int).len() == 0);
        return None;
    }
    assert(s@.skip(i as int).drop_first() =~= s@.skip(i + 1));
    assert(after_first(s@, sep) == Some(s@.skip(i + 1)));
    let ghost rest = s@.skip(i + 1);
    let mut out: Vec<char> = Vec::new();
    let mut j: usize = i + 1;
    assert(out@ + before_first(rest, sep) =~= before_first(rest, sep));
    while j < chars.len() && chars[j] != sep
        invariant
            i + 1 <= j <= chars.len(),
            chars@ == s@,
            rest == s@.skip(i + 1),
            before_first(rest, sep) == out@ + before_first(s@.skip(j as int), sep),
        decreases chars.len() - j,
    {
        assert(s@.skip(j as int).drop_first() =~= s@.skip(j + 1));
        assert(out@ + (seq![chars@[j as int]] + before_first(s@.skip(j + 1), sep)) =~= out@.push(chars@[j as int])
            + before_first(s@.skip(j + 1), sep));
        out.push(chars[j]);
        j = j + 1;
    }
    assert(before_first(s@.skip(j as int), sep) =~= Seq::<char>::empty());
    assert(out@ + Seq::<char>::empty() =~= out@);
    Some(out)
}

/// The decimal rendering of a number is a run of digits with its value.
pub proof fn lemma_decimal_digits(n: nat)
    ensures
        decimal(n).len() > 0,
        all_digits(decimal(n)),
        digits_value(decimal(n)) == n,
    decreases n,
{
    let k = (n % 10) as int;
    assert(digit_char(k) as int - '0' as int == k) by {
        assert(0 <= k < 10);
    }
    if n < 10 {
        let d = decimal(n);
        assert(d =~= seq![digit_char(n as int)]);
        assert(d.drop_last() =~= Seq::<char>::empty());
        assert(k == n);
        assert(d.last() == digit_char(k));
        assert(digits_value(d) == digits_value(d.drop_last()) * 10 + (d.last() as int - '0' as int));
        assert(digits_value(Seq::<char>::empty()) == 0);
    }
    if n >= 10 {
        lemma_decimal_digits(n / 10);
        let d = decimal(n);
        assert(d.drop_last() =~= decimal(n / 10));
        assert(n == (n / 10) * 10 + k);
        assert(d.last() == digit_char(k));
        assert(digits_value(d) == digits_value(d.drop_last()) * 10 + (d.last() as int - '0' as int));
        assert forall|i: int| 0 <= i < d.len() implies '0' <= #[trigger] d[i] <= '9' by {
            if i < d.len() - 1 {
                assert(d[i] == decimal(n / 10)[i]);
            }
        }
    }
}

/// Leading zeros do not change the value of a run of digits.
pub proof fn lemma_leading_zeros_value(z: nat, s: Seq<char>)
    requires
        all_digits(s),
    ensures
        all_digits(Seq::new(z, |_i: int| '0') + s),
        digits_value(Seq::new(z, |_i: int| '0') + s) == digits_value(s),
    decreases s.len(), z,
{
    let zs = Seq::new(z, |_i: int| '0');
    if s.len() == 0 {
        assert(zs + s =~= zs);
        if z > 0 {
            lemma_leading_zeros_value((z - 1) as nat, s);
            assert(zs.drop_last() =~= Seq::new((z - 1) as nat, |_i: int| '0'));
            assert(Seq::new((z - 1) as nat, |_i: int| '0') + s =~= Seq::new((z - 1) as nat, |_i: int| '0'));
        }
    } else {
        lemma_leading_zeros_value(z, s.drop_last());
        assert((zs + s).drop_last() =~= zs + s.drop_last());
        assert((zs + s).last() == s.last());
        assert(s.drop_last().len() < s.len());
        assert forall|i: int| 0 <= i < (zs + s).len() implies '0' <= #[trigger] (zs + s)[i] <= '9' by {
            if i >= z {
                assert((zs + s)[i] == s[i - z]);
            }
        }
        assert forall|i: int| 0 <= i < s.drop_last().len() implies '0' <= #[trigger] s.drop_last()[i] <= '9' by {
            assert(s.drop_last()[i] == s[i]);
        }
    }
}

/// A zero-padded decimal rendering parses back to the number.
pub proof fn lemma_parse_zero_padded(n: u64, width: nat)
    ensures
        all_digits(zero_padded(decimal(n as nat), width)),
        zero_padded(decimal(n as nat), width).len() > 0,
        digits_value(zero_padded(decimal(n as nat), width)) == n,
        parse_u64_spec(zero_padded(decimal(n as nat), width)) == Some(n),
{
    let d = decimal(n as nat);
    lemma_decimal_digits(n as nat);
    let p = zero_padded(d, width);
    if d.len() < width {
        lemma_leading_zeros_value((width - d.len()) as nat, d);
    }
    assert(all_digits(p) && digits_value(p) == n);
    assert(p.len() > 0);
    assert('0' <= p[0] <= '9');
    assert(unsigned_digits(p) == p);
}

/// A non-negative decimal rendering parses back as `i64`.
pub proof fn lemma_parse_i64_decimal(n: i64)
    requires
        n >= 0,
    ensures
        parse_i64_spec(decimal(n as nat)) == Some(n),
{
    let d = decimal(n as nat);
    lemma_decimal_digits(n as nat);
    assert('0' <= d[0] <= '9');
    assert(unsigned_digits(d) == d);
}

/// The text after the last separator of `a + b`, when `b` has none, is the
/// text after the last separator of `a` followed by `b`.
pub proof fn lemma_after_last_append(a: Seq<char>, b: Seq<char>, sep: char)
    requires
        !b.contains(sep),
    ensures
        after_last(a + b, sep) == after_last(a, sep) + b,
    decreases b.len(),
{
    if b.len() == 0 {
        assert(a + b =~= a);
        assert(after_last(a, sep) + b =~= after_last(a, sep));
    } else {
        assert(!b.drop_last().contains(sep)) by {
            if b.drop_last().contains(sep) {
                let i = b.drop_last().index_of(sep);
                assert(b[i] == sep);
            }
        }
        lemma_after_last_append(a, b.drop_last(), sep);
        assert((a + b).drop_last() =~= a + b.drop_last());
        assert((a + b).last() == b.last());
        assert(b.last() != sep) by {
            assert(b[b.len() - 1] == b.last());
        }
        assert(after_last(a, sep) + b.drop_last() + seq![b.last()] =~= after_last(a, sep) + b);
    }
}

/// The text after the last separator of `a + [sep] + b`, when `b` has
/// none, is `b`.
pub proof fn lemma_after_last_sep(a: Seq<char>, b: Seq<char>, sep: char)
    requires
        !b.contains(sep),
    ensures
        after_last(a + seq![sep] + b, sep) == b,
{
    lemma_after_last_append(a + seq![sep], b, sep);
    assert((a + seq![sep]).last() == sep);
    assert(Seq::<char>::empty() + b =~= b);
}

/// The first field of `a + [sep] + b`, when `a` has no separator, is `a`,
/// and the text after the first separator is `b`.
pub proof fn lemma_first_field(a: Seq<char>, b: Seq<char>, sep: char)
    requires
        !a.contains(sep),
    ensures
        before_first(a + seq![sep] + b, sep) == a,
        after_first(a + seq![sep] + b, sep) == Some(b),
    decreases a.len(),
{
    let s = a + seq![sep] + b;
    if a.len() == 0 {
        assert(s[0] == sep);
        assert(s.drop_first() =~= b);
    } else {
        assert(a[0] != sep) by {
            assert(a.contains(a[0]) || true);
            if a[0] == sep {
                assert(a.contains(sep));
            }
        }
        assert(!a.drop_first().contains(sep)) by {
            if a.drop_first().contains(sep) {
                let i = a.drop_first().index_of(sep);
                assert(a[i + 1] == sep);
            }
        }
        lemma_first_field(a.drop_first(), b, sep);
        assert(s.drop_first() =~= a.drop_first() + seq![sep] + b);
        assert(s[0] == a[0]);
        assert(seq![a[0]] + a.drop_first() =~= a);
    }
}

/// Digits hold no separator other than a digit.
pub proof fn lemma_digits_have_no(s: Seq<char>, c: char)
    requires
        all_digits(s),
        !('0' <= c <= '9'),
    ensures
        !s.contains(c),
{
    if s.contains(c) {
        let i = s.index_of(c);
        assert('0' <= s[i] <= '9');
    }
}

} // verus!

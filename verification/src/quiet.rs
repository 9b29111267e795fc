//! Quiet hours: parsing of clock times and UTC offsets typed by a user, and
//! the decision whether a moment lies in the user's notification window.
use vstd::prelude::*;
use crate::pinger::two_digits;
use crate::text::{
    all_white, digit_value, digits_value, is_white_space, lemma_decimal_reads_back, lemma_digits_value_nonneg,
    lemma_index_of_is, lemma_trim_padded, append_chars, decimal, decimal_chars,
    all_digits, ascii_lower, ascii_lower_char, chars_of, find_char, index_of, is_digit, lemma_index_of, parse_i32_range,
    parse_signed, slice_chars, trim, trim_chars,
};

verus! {

/// Seconds in a day.
pub const SECS_PER_DAY: i64 = 86400;

/// What `str::parse::<i32>` gives for `s`.
pub open spec fn parse_i32_spec(s: Seq<char>) -> Option<int> {
    parse_signed(s, i32::MIN as int, i32::MAX as int)
}

/// `h * 60 + m` when `h` is an hour of the day and `m` a minute of the hour.
pub open spec fn clock_minutes(h: Option<int>, m: Option<int>) -> Option<int> {
    match (h, m) {
        (Some(h), Some(m)) => if 0 <= h < 24 && 0 <= m < 60 {
            Some(h * 60 + m)
        } else {
            None
        },
        _ => None,
    }
}

/// The minutes after midnight that `"HH:MM"` (surrounding white space allowed) denotes.
pub open spec fn hhmm_minutes(s: Seq<char>) -> Option<int> {
    let t = trim(s);
    match index_of(t, ':') {
        None => None,
        Some(k) => clock_minutes(
            parse_i32_spec(t.subrange(0, k)),
            parse_i32_spec(t.subrange(k + 1, t.len() as int)),
        ),
    }
}

/// Parses `"HH:MM"` into minutes after midnight; `None` on any error.
pub fn parse_hhmm(s: &str) -> (r: Option<i32>)
    ensures
        match r {
            Some(v) => hhmm_minutes(s@) == Some(v as int),
            None => hhmm_minutes(s@) is None,
        },
{
    let v = chars_of(s);
    let t = trim_chars(&v);
    let k = match find_char(&t, ':') {
        Some(k) => k,
        None => return None,
    };
    proof {
        lemma_index_of(t@, ':');
    }
    let h = parse_i32_range(&t, 0, k);
    let m = parse_i32_range(&t, k + 1, t.len());
    match (h, m) {
        (Some(h), Some(m)) => {
            if !(0 <= h && h < 24) || !(0 <= m && m < 60) {
                None
            } else {
                Some(h * 60 + m)
            }
        },
        _ => None,
    }
}

/// Whether `t` starts with the letters `UTC` in any case.
pub open spec fn has_utc_prefix(t: Seq<char>) -> bool {
    t.len() >= 3 && ascii_lower(t[0]) == 'u' && ascii_lower(t[1]) == 't' && ascii_lower(t[2])
        == 'c'
}

/// The offset `num` (after its sign) denotes: `H` or `H:MM`, in minutes; the
/// hours and minutes are ASCII digits only, so a second sign is refused.
pub open spec fn offset_magnitude(num: Seq<char>) -> Option<int> {
    let parts = match index_of(num, ':') {
        Some(k) => (num.subrange(0, k), num.subrange(k + 1, num.len() as int)),
        None => (num, seq!['0']),
    };
    if parts.0.len() == 0 || parts.1.len() == 0 || !all_digits(parts.0) || !all_digits(parts.1) {
        None
    } else {
        clock_minutes(parse_i32_spec(parts.0), parse_i32_spec(parts.1))
    }
}

/// The UTC offset in minutes that a user's text denotes: an optional `UTC`
/// prefix (any letter case), then an optional sign, then `H` or `H:MM`.
pub open spec fn utc_offset_minutes(s: Seq<char>) -> Option<int> {
    let t = trim(s);
    let rest = trim(
        if has_utc_prefix(t) {
            t.subrange(3, t.len() as int)
        } else {
            t
        },
    );
    if t.len() == 0 || rest.len() == 0 {
        None
    } else if rest[0] == '+' || rest[0] == '-' {
        let num = rest.subrange(1, rest.len() as int);
        if num.len() == 0 {
            None
        } else {
            match offset_magnitude(num) {
                Some(v) => Some(if rest[0] == '-' { -v } else { v }),
                None => None,
            }
        }
    } else if is_digit(rest[0]) {
        offset_magnitude(rest)
    } else {
        None
    }
}

/// Whether `c` is an ASCII letter equal to `lower` up to case.
fn letter_is(c: char, lower: char) -> (r: bool)
    ensures
        r == (ascii_lower(c) == lower),
{
    ascii_lower_char(c) == lower
}

/// Whether `v[from..to]` holds only ASCII digits.
fn digits_only(v: &Vec<char>, from: usize, to: usize) -> (r: bool)
    requires
        from <= to <= v.len(),
    ensures
        r == all_digits(v@.subrange(from as int, to as int)),
{
    let mut i = from;
    while i < to
        invariant
            from <= i <= to <= v.len(),
            forall|j: int| from <= j < i ==> is_digit(#[trigger] v@[j]),
        decreases to - i,
    {
        if !('0' <= v[i] && v[i] <= '9') {
            assert(v@.subrange(from as int, to as int)[i - from] == v@[i as int]);
            return false;
        }
        i = i + 1;
    }
    assert forall|j: int| 0 <= j < to - from implies is_digit(
        #[trigger] v@.subrange(from as int, to as int)[j],
    ) by {
        assert(v@.subrange(from as int, to as int)[j] == v@[from + j]);
    }
    true
}

fn offset_magnitude_of(num: &Vec<char>) -> (r: Option<i32>)
    ensures
        match r {
            Some(v) => offset_magnitude(num@) == Some(v as int) && 0 <= v < 1440,
            None => offset_magnitude(num@) is None,
        },
{
    let found = find_char(num, ':');
    let (h, m) = match found {
        Some(k) => {
            let n = num.len();
            proof {
                lemma_index_of(num@, ':');
            }
            if k == 0 || k == n - 1 {
                return None;
            }
            if !digits_only(num, 0, k) || !digits_only(num, k + 1, n) {
                return None;
            }
            (parse_i32_range(num, 0, k), parse_i32_range(num, k + 1, num.len()))
        },
        None => {
            if num.len() == 0 {
                return None;
            }
            if !digits_only(num, 0, num.len()) {
                assert(num@.subrange(0, num@.len() as int) =~= num@);
                return None;
            }
            let mut zero: Vec<char> = Vec::new();
            zero.push('0');
            assert(num@.subrange(0, num@.len() as int) =~= num@);
            assert(zero@.subrange(0, 1) =~= seq!['0']);
            (parse_i32_range(num, 0, num.len()), parse_i32_range(&zero, 0, 1))
        },
    };
    match (h, m) {
        (Some(h), Some(m)) => {
            if !(0 <= h && h < 24) || !(0 <= m && m < 60) {
                None
            } else {
                Some(h * 60 + m)
            }
        },
        _ => None,
    }
}

/// Parses a UTC offset such as `UTC+3`, `-5`, `+5:30` or `5` into minutes;
/// `None` for empty input, a bare sign or prefix, or anything malformed.
pub fn parse_utc_offset(s: &str) -> (r: Option<i32>)
    ensures
        match r {
            Some(v) => utc_offset_minutes(s@) == Some(v as int),
            None => utc_offset_minutes(s@) is None,
        },
{
    let v = chars_of(s);
    let t = trim_chars(&v);
    if t.len() == 0 {
        return None;
    }
    let after = if t.len() >= 3 && letter_is(t[0], 'u') && letter_is(t[1], 't') && letter_is(
        t[2],
        'c',
    ) {
        slice_chars(&t, 3, t.len())
    } else {
        assert(t@.subrange(0, t@.len() as int) =~= t@);
        slice_chars(&t, 0, t.len())
    };
    let rest = trim_chars(&after);
    if rest.len() == 0 {
        return None;
    }
    let c = rest[0];
    if c == '+' || c == '-' {
        let num = slice_chars(&rest, 1, rest.len());
        if num.len() == 0 {
            return None;
        }
        match offset_magnitude_of(&num) {
            Some(m) => Some(if c == '-' { -m } else { m }),
            None => None,
        }
    } else if '0' <= c && c <= '9' {
        offset_magnitude_of(&rest)
    } else {
        None
    }
}

/// Minutes after local midnight at `unix_ts` for a user `tz_offset_min` minutes
/// ahead of UTC.
pub open spec fn minute_of_day(unix_ts: int, tz_offset_min: int) -> int {
    ((unix_ts + tz_offset_min * 60) % 86400) / 60
}

/// Whether local minute `minute` lies in the window `[start, end)`, which may
/// run past midnight; an empty window (`start == end`) means "always".
pub open spec fn in_window(minute: int, start: int, end: int) -> bool {
    if start == end {
        true
    } else if start < end {
        start <= minute < end
    } else {
        minute >= start || minute < end
    }
}

/// Whether `unix_ts + tz_offset_min * 60` fits in an `i64`.
pub open spec fn shift_fits(unix_ts: i64, tz_offset_min: i32) -> bool {
    i64::MIN <= unix_ts + tz_offset_min * 60 <= i64::MAX
}

/// Converts a Unix timestamp into minutes after midnight in the given offset.
pub fn local_minutes_of_day(unix_ts: i64, tz_offset_min: i32) -> (r: i32)
    requires
        shift_fits(unix_ts, tz_offset_min),
    ensures
        r == minute_of_day(unix_ts as int, tz_offset_min as int),
        0 <= r < 1440,
{
    let shifted = unix_ts + (tz_offset_min as i64) * 60;
    let secs_in_day = match shifted.checked_rem_euclid(SECS_PER_DAY) {
        Some(x) => x,
        None => 0,
    };
    assert(0 <= secs_in_day < 86400);
    let r = (secs_in_day / 3600) % 24 * 60 + (secs_in_day % 3600) / 60;
    assert(r == secs_in_day / 60) by (nonlinear_arith)
        requires
            0 <= secs_in_day < 86400,
            r == (secs_in_day / 3600) % 24 * 60 + (secs_in_day % 3600) / 60,
    ;
    r as i32
}

/// Whether, at `now_ts`, the user's notification window `[start_min, end_min)`
/// (local minutes in offset `tz_offset_min`) is open. An empty window always is.
pub fn is_in_notification_window(now_ts: i64, tz_offset_min: i32, start_min: i32, end_min: i32) -> (r: bool)
    requires
        start_min != end_min ==> shift_fits(now_ts, tz_offset_min),
    ensures
        r == in_window(minute_of_day(now_ts as int, tz_offset_min as int), start_min as int, end_min as int),
{
    if start_min == end_min {
        return true;
    }
    let local_min = local_minutes_of_day(now_ts, tz_offset_min);
    if start_min < end_min {
        local_min >= start_min && local_min < end_min
    } else {
        local_min >= start_min || local_min < end_min
    }
}

/// A window whose start equals its end is open at every moment.
pub proof fn law_empty_window_always_open(minute: int, start: int)
    ensures
        in_window(minute, start, start),
{
}

/// For a non-empty window, swapping start and end gives exactly the other
/// moments: `[s, e)` and `[e, s)` split the day between them.
pub proof fn law_swapped_window_is_complement(minute: int, start: int, end: int)
    requires
        start != end,
    ensures
        in_window(minute, start, end) == !in_window(minute, end, start),
{
}

/// The local minute, and so the window decision, repeats every day.
pub proof fn law_minute_of_day_is_daily(unix_ts: int, tz_offset_min: int)
    ensures
        minute_of_day(unix_ts + 86400, tz_offset_min) == minute_of_day(unix_ts, tz_offset_min),
        0 <= minute_of_day(unix_ts, tz_offset_min) < 1440,
{
    let x = unix_ts + tz_offset_min * 60;
    assert((x + 86400) % 86400 == x % 86400) by (nonlinear_arith);
    assert(0 <= x % 86400 < 86400) by (nonlinear_arith);
    assert(0 <= (x % 86400) / 60 < 1440) by (nonlinear_arith)
        requires
            0 <= x % 86400 < 86400,
    ;
}

/// Moving the clock forward by `d` minutes has the same effect as being `d`
/// minutes further east: only the sum of time and offset matters, never the
/// machine's own time zone.
pub proof fn law_time_and_offset_interchange(unix_ts: int, tz_offset_min: int, d: int)
    ensures
        minute_of_day(unix_ts + d * 60, tz_offset_min) == minute_of_day(unix_ts, tz_offset_min + d),
{
    assert(unix_ts + d * 60 + tz_offset_min * 60 == unix_ts + (tz_offset_min + d) * 60) by (nonlinear_arith);
}

/// A parsed clock time is a minute of the day.
pub proof fn law_hhmm_is_minute_of_day(s: Seq<char>)
    ensures
        hhmm_minutes(s) matches Some(v) ==> 0 <= v < 1440,
{
}

/// A parsed UTC offset lies strictly within one day either way.
pub proof fn law_utc_offset_within_day(s: Seq<char>)
    ensures
        utc_offset_minutes(s) matches Some(v) ==> -1440 < v < 1440,
{
}

/// `n` as at least two digits, as characters.
fn two_digit_chars(n: u64) -> (r: Vec<char>)
    ensures
        r@ == two_digits(n as nat),
{
    let d = decimal_chars(n);
    if n < 10 {
        let mut r: Vec<char> = Vec::new();
        r.push('0');
        append_chars(&mut r, &d);
        r
    } else {
        d
    }
}

/// How a number of minutes after midnight is shown: `HH:MM`, with a minus
/// sign before a negative number.
pub open spec fn clock_text(min: int) -> Seq<char> {
    let a = if min < 0 {
        -min
    } else {
        min
    };
    (if min < 0 {
        seq!['-']
    } else {
        Seq::empty()
    }) + two_digits((a / 60) as nat) + seq![':'] + two_digits((a % 60) as nat)
}

/// Shows minutes after midnight as `HH:MM`.
pub fn format_minutes(min: i32) -> (r: String)
    ensures
        r@ == clock_text(min as int),
{
    let wide = min as i64;
    let a: u64 = if wide < 0 {
        (-wide) as u64
    } else {
        wide as u64
    };
    let mut out: Vec<char> = Vec::new();
    if wide < 0 {
        out.push('-');
    }
    append_chars(&mut out, &two_digit_chars(a / 60));
    out.push(':');
    append_chars(&mut out, &two_digit_chars(a % 60));
    assert(out@ =~= clock_text(min as int));
    crate::text::string_of(&out)
}

/// How a UTC offset in minutes is shown: `UTC+H`, `UTC-H`, or with the
/// minutes when there are any, `UTC+H:MM`.
pub open spec fn offset_text(off: int) -> Seq<char> {
    let a = if off < 0 {
        -off
    } else {
        off
    };
    seq!['U', 'T', 'C', if off < 0 {
        '-'
    } else {
        '+'
    }] + decimal((a / 60) as nat) + if a % 60 == 0 {
        Seq::empty()
    } else {
        seq![':'] + two_digits((a % 60) as nat)
    }
}

/// Shows a UTC offset in minutes as `UTC+H`, `UTC-H` or `UTC+H:MM`.
pub fn format_tz_offset(off: i32) -> (r: String)
    ensures
        r@ == offset_text(off as int),
{
    let wide = off as i64;
    let a: u64 = if wide < 0 {
        (-wide) as u64
    } else {
        wide as u64
    };
    let mut out: Vec<char> = Vec::new();
    out.push('U');
    out.push('T');
    out.push('C');
    out.push(if wide < 0 { '-' } else { '+' });
    append_chars(&mut out, &decimal_chars(a / 60));
    if a % 60 != 0 {
        out.push(':');
        append_chars(&mut out, &two_digit_chars(a % 60));
    }
    assert(out@ =~= offset_text(off as int));
    crate::text::string_of(&out)
}

/// A non-empty string of ASCII digits reads, as `str::parse::<i32>` reads it,
/// as its value when that fits.
proof fn lemma_parse_digits(d: Seq<char>)
    requires
        d.len() > 0,
        all_digits(d),
        digits_value(d) <= i32::MAX,
    ensures
        parse_i32_spec(d) == Some(digits_value(d)),
        digits_value(d) >= 0,
{
    assert(is_digit(d[0]));
    lemma_digits_value_nonneg(d);
}

/// A time typed as hours, a colon and minutes, each as ASCII digits, with any
/// white space around, reads as that many minutes after midnight.
pub proof fn law_hhmm_reads_typed_time(pre: Seq<char>, h: Seq<char>, m: Seq<char>, post: Seq<char>)
    requires
        all_white(pre),
        all_white(post),
        h.len() > 0,
        m.len() > 0,
        all_digits(h),
        all_digits(m),
        digits_value(h) < 24,
        digits_value(m) < 60,
    ensures
        hhmm_minutes(pre + h + seq![':'] + m + post) == Some(digits_value(h) * 60 + digits_value(m)),
{
    let x = h + seq![':'] + m;
    assert(x[0] == h[0]);
    assert(is_digit(h[0]));
    assert(x.last() == m[m.len() - 1]);
    assert(is_digit(m[m.len() - 1]));
    assert(pre + h + seq![':'] + m + post =~= pre + x + post);
    lemma_trim_padded(pre, x, post);
    assert forall|j: int| 0 <= j < h.len() implies x[j] != ':' by {
        assert(x[j] == h[j]);
        assert(is_digit(h[j]));
    }
    assert(x[h.len() as int] == ':');
    lemma_index_of_is(x, ':', h.len() as int);
    assert(x.subrange(0, h.len() as int) =~= h);
    assert(x.subrange(h.len() as int + 1, x.len() as int) =~= m);
    lemma_parse_digits(h);
    lemma_parse_digits(m);
    let s = pre + h + seq![':'] + m + post;
    assert(trim(s) == x);
    assert(index_of(trim(s), ':') == Some(h.len() as int));
    assert(clock_minutes(parse_i32_spec(h), parse_i32_spec(m)) == Some(digits_value(h) * 60 + digits_value(m)));
}

/// `n` printed with two digits is made of digits and reads back as `n`.
proof fn lemma_two_digits(n: nat)
    ensures
        two_digits(n).len() > 0,
        all_digits(two_digits(n)),
        digits_value(two_digits(n)) == n,
{
    lemma_decimal_reads_back(n);
    if n < 10 {
        let s = two_digits(n);
        let d = decimal(n);
        assert(s =~= seq!['0', d[0]]);
        assert(is_digit(s[1]));
        let z = seq!['0'];
        assert(s.drop_last() =~= z);
        assert(z.drop_last() =~= Seq::<char>::empty());
        assert(z.last() == '0');
        assert(digits_value(Seq::<char>::empty()) == 0);
        assert(digits_value(z) == digits_value(z.drop_last()) * 10 + digit_value(z.last()));
        assert(digits_value(z) == 0);
        assert(d.drop_last() =~= Seq::<char>::empty());
        assert(digits_value(d) == (d[0] as int) - ('0' as int));
    }
}

/// What `format_minutes` shows for a minute of the day, `parse_hhmm` reads back.
pub proof fn law_clock_text_reads_back(min: int)
    requires
        0 <= min < 1440,
    ensures
        hhmm_minutes(clock_text(min)) == Some(min),
{
    let h = two_digits((min / 60) as nat);
    let m = two_digits((min % 60) as nat);
    lemma_two_digits((min / 60) as nat);
    lemma_two_digits((min % 60) as nat);
    assert(clock_text(min) =~= Seq::<char>::empty() + h + seq![':'] + m + Seq::<char>::empty());
    law_hhmm_reads_typed_time(Seq::empty(), h, m, Seq::empty());
    assert(min == (min / 60) * 60 + min % 60) by (nonlinear_arith);
}

/// A UTC offset that starts with a digit reads the same with a `+` before it,
/// with `UTC` before it, and with white space around it; with a `-` before it,
/// it reads as the opposite offset. Every offset read lies within a day.
pub proof fn law_utc_offset_symmetries(d: Seq<char>, pre: Seq<char>, post: Seq<char>)
    requires
        d.len() > 0,
        is_digit(d[0]),
        !is_white_space(d.last()),
        all_white(pre),
        all_white(post),
    ensures
        utc_offset_minutes(seq!['+'] + d) == utc_offset_minutes(d),
        utc_offset_minutes(seq!['-'] + d) == match utc_offset_minutes(d) {
            Some(v) => Some(-v),
            None => None::<int>,
        },
        utc_offset_minutes(seq!['U', 'T', 'C'] + d) == utc_offset_minutes(d),
        utc_offset_minutes(pre + d + post) == utc_offset_minutes(d),
        utc_offset_minutes(d) matches Some(v) ==> -1439 <= v <= 1439,
{
    let e = Seq::<char>::empty();
    assert(e + d + e =~= d);
    lemma_trim_padded(e, d, e);
    lemma_trim_padded(pre, d, post);
    let p = seq!['+'] + d;
    let n = seq!['-'] + d;
    let u = seq!['U', 'T', 'C'] + d;
    assert(e + p + e =~= p);
    assert(p.last() == d.last());
    lemma_trim_padded(e, p, e);
    assert(e + n + e =~= n);
    assert(n.last() == d.last());
    lemma_trim_padded(e, n, e);
    assert(e + u + e =~= u);
    assert(u.last() == d.last());
    lemma_trim_padded(e, u, e);
    assert(!has_utc_prefix(d));
    assert(!has_utc_prefix(p));
    assert(!has_utc_prefix(n));
    assert(has_utc_prefix(u));
    assert(u.subrange(3, u.len() as int) =~= d);
    assert(p.subrange(1, p.len() as int) =~= d);
    assert(n.subrange(1, n.len() as int) =~= d);
    law_utc_offset_within_day(d);
}

} // verus!

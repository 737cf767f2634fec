use vstd::prelude::*;

use crate::string_utils::{to_char_vec, trim_chars, trim_spec};

verus! {

/// A calendar timestamp held as plain fields, the granularity the
/// transition engine works at.
#[derive(Clone, Copy, PartialEq, Eq, Structural, Debug)]
pub struct DateTime {
    pub year: u32,
    pub month: u8,
    pub day: u8,
    pub hour: u8,
    pub minute: u8,
    pub second: u8,
}

/// A wall-clock time of day, injected into date resolution so that
/// date-only check-ins record the arrival moment deterministically.
#[derive(Clone, Copy, PartialEq, Eq, Structural, Debug)]
pub struct TimeOfDay {
    pub hour: u8,
    pub minute: u8,
    pub second: u8,
}

/// The failure kinds of date/time resolution: the calendar part is
/// malformed, or the time-of-day part is.
#[derive(Clone, Copy, PartialEq, Eq, Structural, Debug)]
pub enum DateTimeError {
    DateFormat,
    TimeFormat,
}

pub open spec fn is_leap_year(y: int) -> bool {
    y % 4 == 0 && (y % 100 != 0 || y % 400 == 0)
}

pub open spec fn days_in_month(y: int, m: int) -> int {
    if m == 2 {
        if is_leap_year(y) {
            29
        } else {
            28
        }
    } else if m == 4 || m == 6 || m == 9 || m == 11 {
        30
    } else {
        31
    }
}

impl TimeOfDay {
    pub open spec fn wf(self) -> bool {
        self.hour < 24 && self.minute < 60 && self.second < 60
    }
}

impl DateTime {
    pub open spec fn wf(self) -> bool {
        &&& self.year <= 9999
        &&& 1 <= self.month <= 12
        &&& 1 <= self.day <= days_in_month(self.year as int, self.month as int)
        &&& self.hour < 24
        &&& self.minute < 60
        &&& self.second < 60
    }
}

pub open spec fn is_digit(c: char) -> bool {
    '0' <= c && c <= '9'
}

pub open spec fn digit_val(c: char) -> int {
    c as u32 - '0' as u32
}

pub open spec fn all_digits(s: Seq<char>) -> bool {
    forall|i: int| 0 <= i < s.len() ==> is_digit(s[i])
}

/// The number a digit string denotes, most significant digit first.
pub open spec fn num_val(s: Seq<char>) -> int
    decreases s.len(),
{
    if s.len() == 0 {
        0
    } else {
        num_val(s.drop_last()) * 10 + digit_val(s.last())
    }
}

/// Index of the first occurrence of `c`, or -1 when there is none.
pub open spec fn find_char(s: Seq<char>, c: char) -> int
    decreases s.len(),
{
    if s.len() == 0 {
        -1
    } else if s[0] == c {
        0
    } else if find_char(s.drop_first(), c) < 0 {
        -1
    } else {
        1 + find_char(s.drop_first(), c)
    }
}

/// The date a `D/M/YYYY` literal denotes: one- or two-digit day and
/// month, four-digit year, calendar-valid.  `None` when the literal is
/// not of that shape.
pub open spec fn parse_date_spec(s: Seq<char>) -> Option<(int, int, int)> {
    let i = find_char(s, '/');
    if !(1 <= i <= 2) {
        None
    } else {
        let rest = s.skip(i + 1);
        let j = find_char(rest, '/');
        if !(1 <= j <= 2) {
            None
        } else {
            let dpart = s.take(i);
            let mpart = rest.take(j);
            let ypart = rest.skip(j + 1);
            if ypart.len() != 4 {
                None
            } else if !(all_digits(dpart) && all_digits(mpart) && all_digits(ypart)) {
                None
            } else {
                let d = num_val(dpart);
                let m = num_val(mpart);
                let y = num_val(ypart);
                if 1 <= m <= 12 && 1 <= d <= days_in_month(y, m) {
                    Some((y, m, d))
                } else {
                    None
                }
            }
        }
    }
}

/// The time of day an `H:M:S` literal denotes: one- or two-digit fields
/// within range.  `None` when the literal is not of that shape.
pub open spec fn parse_time_spec(s: Seq<char>) -> Option<(int, int, int)> {
    let i = find_char(s, ':');
    if !(1 <= i <= 2) {
        None
    } else {
        let rest = s.skip(i + 1);
        let j = find_char(rest, ':');
        if !(1 <= j <= 2) {
            None
        } else {
            let hpart = s.take(i);
            let mpart = rest.take(j);
            let spart = rest.skip(j + 1);
            if !(1 <= spart.len() <= 2) {
                None
            } else if !(all_digits(hpart) && all_digits(mpart) && all_digits(spart)) {
                None
            } else {
                let h = num_val(hpart);
                let m = num_val(mpart);
                let sec = num_val(spart);
                if h <= 23 && m <= 59 && sec <= 59 {
                    Some((h, m, sec))
                } else {
                    None
                }
            }
        }
    }
}

/// What `parse_checkin_datetime` returns: a `D/M/YYYY H:M:S` literal
/// taken as written, or a date-only literal combined with the injected
/// wall-clock time of day.
pub open spec fn parse_checkin_spec(s: Seq<char>, now: TimeOfDay) -> Option<DateTime> {
    let sp = find_char(s, ' ');
    if sp < 0 {
        match parse_date_spec(s) {
            Some(ymd) => Some(
                DateTime {
                    year: ymd.0 as u32,
                    month: ymd.1 as u8,
                    day: ymd.2 as u8,
                    hour: now.hour,
                    minute: now.minute,
                    second: now.second,
                },
            ),
            None => None,
        }
    } else {
        match parse_date_spec(s.take(sp)) {
            Some(ymd) => match parse_time_spec(s.skip(sp + 1)) {
                Some(hms) => Some(
                    DateTime {
                        year: ymd.0 as u32,
                        month: ymd.1 as u8,
                        day: ymd.2 as u8,
                        hour: hms.0 as u8,
                        minute: hms.1 as u8,
                        second: hms.2 as u8,
                    },
                ),
                None => None,
            },
            None => None,
        }
    }
}

/// What `parse_checkout_datetime` returns: the date literal is required;
/// a present, non-blank time literal is parsed after trimming, and an
/// absent or blank one defaults to 13:00:00.
pub open spec fn parse_checkout_spec(date_s: Seq<char>, time_s: Option<Seq<char>>) -> Result<
    DateTime,
    DateTimeError,
> {
    match parse_date_spec(date_s) {
        None => Err(DateTimeError::DateFormat),
        Some(ymd) => {
            let use_default = match time_s {
                None => true,
                Some(t) => trim_spec(t).len() == 0,
            };
            if use_default {
                Ok(
                    DateTime {
                        year: ymd.0 as u32,
                        month: ymd.1 as u8,
                        day: ymd.2 as u8,
                        hour: 13,
                        minute: 0,
                        second: 0,
                    },
                )
            } else {
                match parse_time_spec(trim_spec(time_s->0)) {
                    Some(hms) => Ok(
                        DateTime {
                            year: ymd.0 as u32,
                            month: ymd.1 as u8,
                            day: ymd.2 as u8,
                            hour: hms.0 as u8,
                            minute: hms.1 as u8,
                            second: hms.2 as u8,
                        },
                    ),
                    None => Err(DateTimeError::TimeFormat),
                }
            }
        },
    }
}

proof fn lemma_find_char_at(s: Seq<char>, c: char, k: int)
    requires
        0 <= k <= s.len(),
        forall|m: int| 0 <= m < k ==> s[m] != c,
        k < s.len() ==> s[k] == c,
    ensures
        k < s.len() ==> find_char(s, c) == k,
        k == s.len() ==> find_char(s, c) == -1,
    decreases k,
{
    if k == 0 {
    } else {
        lemma_find_char_at(s.drop_first(), c, k - 1);
    }
}

fn find_char_exec(v: &Vec<char>, from: usize, c: char) -> (r: Option<usize>)
    requires
        from <= v.len(),
    ensures
        match r {
            Some(k) => from + k < v.len() && find_char(v@.skip(from as int), c) == k,
            None => find_char(v@.skip(from as int), c) == -1,
        },
{
    let n = v.len();
    let mut i: usize = from;
    while i < n && v[i] != c
        invariant
            from <= i <= n,
            n == v@.len(),
            forall|m: int| from <= m < i ==> v@[m] != c,
        decreases n - i,
    {
        i = i + 1;
    }
    proof {
        let s = v@.skip(from as int);
        assert forall|m: int| 0 <= m < i - from implies s[m] != c by {
            assert(s[m] == v@[from + m]);
        }
        if i < n {
            assert(s[i - from] == v@[i as int]);
        }
        lemma_find_char_at(s, c, i - from);
    }
    if i < n {
        Some(i - from)
    } else {
        None
    }
}

fn parse_num(v: &Vec<char>, a: usize, b: usize) -> (r: Option<u32>)
    requires
        a <= b <= v.len(),
        b - a <= 4,
    ensures
        match r {
            Some(x) => all_digits(v@.subrange(a as int, b as int)) && x == num_val(
                v@.subrange(a as int, b as int),
            ) && x <= 9999,
            None => !all_digits(v@.subrange(a as int, b as int)),
        },
{
    let mut x: u32 = 0;
    let mut i: usize = a;
    proof {
        assert(v@.subrange(a as int, a as int) =~= Seq::<char>::empty());
    }
    while i < b
        invariant
            a <= i <= b <= v@.len(),
            b - a <= 4,
            all_digits(v@.subrange(a as int, i as int)),
            x == num_val(v@.subrange(a as int, i as int)),
            (i - a == 0 && x == 0) || (i - a == 1 && x <= 9) || (i - a == 2 && x <= 99) || (i - a
                == 3 && x <= 999) || (i - a == 4 && x <= 9999),
        decreases b - i,
    {
        let c = v[i];
        if c < '0' || c > '9' {
            proof {
                assert(v@.subrange(a as int, b as int)[i - a] == c);
            }
            return None;
        }
        let d = (c as u32) - ('0' as u32);
        x = x * 10 + d;
        proof {
            let pre = v@.subrange(a as int, i as int);
            let post = v@.subrange(a as int, i + 1);
            assert(post.drop_last() =~= pre);
            assert(post.last() == v@[i as int]);
            assert forall|m: int| 0 <= m < post.len() implies is_digit(post[m]) by {
                if m < i - a {
                    assert(post[m] == pre[m]);
                }
            }
        }
        i = i + 1;
    }
    Some(x)
}

fn days_in_month_exec(y: u32, m: u8) -> (r: u8)
    ensures
        r as int == days_in_month(y as int, m as int),
{
    if m == 2 {
        if y % 4 == 0 && (y % 100 != 0 || y % 400 == 0) {
            29
        } else {
            28
        }
    } else if m == 4 || m == 6 || m == 9 || m == 11 {
        30
    } else {
        31
    }
}

fn parse_date_chars(v: &Vec<char>) -> (r: Option<(u32, u8, u8)>)
    ensures
        match r {
            Some(t) => parse_date_spec(v@) == Some((t.0 as int, t.1 as int, t.2 as int)) && t.0
                <= 9999 && 1 <= t.1 <= 12 && 1 <= t.2 as int <= days_in_month(
                t.0 as int,
                t.1 as int,
            ),
            None => parse_date_spec(v@) is None,
        },
{
    let n = v.len();
    proof {
        assert(v@.skip(0) =~= v@);
    }
    let i = match find_char_exec(v, 0, '/') {
        Some(i) => i,
        None => {
            return None;
        },
    };
    if !(1 <= i && i <= 2) {
        return None;
    }
    let j = match find_char_exec(v, i + 1, '/') {
        Some(j) => j,
        None => {
            return None;
        },
    };
    if !(1 <= j && j <= 2) {
        return None;
    }
    let ya = i + j + 2;
    proof {
        let s = v@;
        let rest = s.skip(i + 1);
        assert(s.take(i as int) =~= s.subrange(0, i as int));
        assert(rest.take(j as int) =~= s.subrange(i + 1, i + 1 + j));
        assert(rest.skip(j + 1) =~= s.subrange(ya as int, n as int));
    }
    if n - ya != 4 {
        return None;
    }
    let d = match parse_num(v, 0, i) {
        Some(d) => d,
        None => {
            return None;
        },
    };
    let mo = match parse_num(v, i + 1, i + 1 + j) {
        Some(m) => m,
        None => {
            return None;
        },
    };
    let y = match parse_num(v, ya, n) {
        Some(y) => y,
        None => {
            return None;
        },
    };
    if !(1 <= mo && mo <= 12) {
        return None;
    }
    let dim = days_in_month_exec(y, mo as u8);
    if !(1 <= d && d <= dim as u32) {
        return None;
    }
    Some((y, mo as u8, d as u8))
}

fn parse_time_chars(v: &Vec<char>) -> (r: Option<(u8, u8, u8)>)
    ensures
        match r {
            Some(t) => parse_time_spec(v@) == Some((t.0 as int, t.1 as int, t.2 as int)) && t.0
                <= 23 && t.1 <= 59 && t.2 <= 59,
            None => parse_time_spec(v@) is None,
        },
{
    let n = v.len();
    proof {
        assert(v@.skip(0) =~= v@);
    }
    let i = match find_char_exec(v, 0, ':') {
        Some(i) => i,
        None => {
            return None;
        },
    };
    if !(1 <= i && i <= 2) {
        return None;
    }
    let j = match find_char_exec(v, i + 1, ':') {
        Some(j) => j,
        None => {
            return None;
        },
    };
    if !(1 <= j && j <= 2) {
        return None;
    }
    let sa = i + j + 2;
    proof {
        let s = v@;
        let rest = s.skip(i + 1);
        assert(s.take(i as int) =~= s.subrange(0, i as int));
        assert(rest.take(j as int) =~= s.subrange(i + 1, i + 1 + j));
        assert(rest.skip(j + 1) =~= s.subrange(sa as int, n as int));
    }
    if !(1 <= n - sa && n - sa <= 2) {
        return None;
    }
    let h = match parse_num(v, 0, i) {
        Some(h) => h,
        None => {
            return None;
        },
    };
    let mi = match parse_num(v, i + 1, i + 1 + j) {
        Some(m) => m,
        None => {
            return None;
        },
    };
    let sec = match parse_num(v, sa, n) {
        Some(s) => s,
        None => {
            return None;
        },
    };
    if h <= 23 && mi <= 59 && sec <= 59 {
        Some((h as u8, mi as u8, sec as u8))
    } else {
        None
    }
}

fn subvec(v: &Vec<char>, a: usize, b: usize) -> (r: Vec<char>)
    requires
        a <= b <= v.len(),
    ensures
        r@ == v@.subrange(a as int, b as int),
{
    let mut out: Vec<char> = Vec::new();
    let mut i: usize = a;
    proof {
        assert(v@.subrange(a as int, a as int) =~= Seq::<char>::empty());
    }
    while i < b
        invariant
            a <= i <= b <= v@.len(),
            out@ == v@.subrange(a as int, i as int),
        decreases b - i,
    {
        out.push(v[i]);
        proof {
            assert(v@.subrange(a as int, i + 1) =~= v@.subrange(a as int, i as int).push(
                v@[i as int],
            ));
        }
        i = i + 1;
    }
    out
}

/// Resolves a check-in literal: `D/M/YYYY H:M:S` taken as written, or a
/// date-only `D/M/YYYY` combined with the injected wall-clock time of
/// day, so that date-only check-ins record a realistic arrival moment.
pub fn parse_checkin_datetime(cidate: &str, now: TimeOfDay) -> (r: Result<DateTime, DateTimeError>)
    requires
        now.wf(),
    ensures
        match r {
            Ok(dt) => parse_checkin_spec(cidate@, now) == Some(dt) && dt.wf(),
            Err(e) => parse_checkin_spec(cidate@, now) is None && e == DateTimeError::DateFormat,
        },
{
    let v = to_char_vec(cidate);
    proof {
        assert(v@.skip(0) =~= v@);
    }
    match find_char_exec(&v, 0, ' ') {
        None => match parse_date_chars(&v) {
            Some(t) => Ok(
                DateTime {
                    year: t.0,
                    month: t.1,
                    day: t.2,
                    hour: now.hour,
                    minute: now.minute,
                    second: now.second,
                },
            ),
            None => Err(DateTimeError::DateFormat),
        },
        Some(sp) => {
            let dv = subvec(&v, 0, sp);
            let tv = subvec(&v, sp + 1, v.len());
            proof {
                assert(v@.take(sp as int) =~= dv@);
                assert(v@.skip(sp + 1) =~= tv@);
            }
            match parse_date_chars(&dv) {
                Some(t) => match parse_time_chars(&tv) {
                    Some(h) => Ok(
                        DateTime {
                            year: t.0,
                            month: t.1,
                            day: t.2,
                            hour: h.0,
                            minute: h.1,
                            second: h.2,
                        },
                    ),
                    None => Err(DateTimeError::DateFormat),
                },
                None => Err(DateTimeError::DateFormat),
            }
        },
    }
}

/// Resolves a check-out literal: the `D/M/YYYY` date is required; a
/// present, non-blank `H:M:S` time is parsed after trimming, and an
/// absent or blank one defaults to 13:00:00.
pub fn parse_checkout_datetime(codate: &str, cotime: Option<&str>) -> (r: Result<
    DateTime,
    DateTimeError,
>)
    ensures
        ({
            let ts = match cotime {
                Some(t) => Some(t@),
                None => None,
            };
            &&& r == parse_checkout_spec(codate@, ts)
            &&& (r matches Ok(dt) ==> dt.wf())
        }),
{
    let dv = to_char_vec(codate);
    let date = match parse_date_chars(&dv) {
        Some(t) => t,
        None => {
            return Err(DateTimeError::DateFormat);
        },
    };
    match cotime {
        Some(ts) => {
            let tc = to_char_vec(ts);
            let trimmed = trim_chars(&tc);
            if trimmed.len() > 0 {
                match parse_time_chars(&trimmed) {
                    Some(h) => Ok(
                        DateTime {
                            year: date.0,
                            month: date.1,
                            day: date.2,
                            hour: h.0,
                            minute: h.1,
                            second: h.2,
                        },
                    ),
                    None => Err(DateTimeError::TimeFormat),
                }
            } else {
                Ok(
                    DateTime {
                        year: date.0,
                        month: date.1,
                        day: date.2,
                        hour: 13,
                        minute: 0,
                        second: 0,
                    },
                )
            }
        },
        None => Ok(
            DateTime { year: date.0, month: date.1, day: date.2, hour: 13, minute: 0, second: 0 },
        ),
    }
}

/// Law: the calendar date of a resolved check-in literal does not depend
/// on the injected clock; only the time of day of a date-only literal
/// does.
pub proof fn lemma_checkin_date_independent_of_clock(s: Seq<char>, now1: TimeOfDay, now2: TimeOfDay)
    ensures
        (parse_checkin_spec(s, now1) is Some) == (parse_checkin_spec(s, now2) is Some),
        parse_checkin_spec(s, now1) is Some ==> {
            &&& parse_checkin_spec(s, now1)->0.year == parse_checkin_spec(s, now2)->0.year
            &&& parse_checkin_spec(s, now1)->0.month == parse_checkin_spec(s, now2)->0.month
            &&& parse_checkin_spec(s, now1)->0.day == parse_checkin_spec(s, now2)->0.day
        },
{
}

} // verus!

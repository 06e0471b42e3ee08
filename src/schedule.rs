use vstd::prelude::*;

use crate::job::{CalendarParams, CalendarView, ScheduleConfig, ScheduleView};
use crate::text::{
    chars_of, find_from, find_range, lower_eq, lower_equals, lower_prefix, lower_starts_with,
    parse_u32, parse_u64, parse_u64_range, split_on, split_range, starts_with, starts_with_at,
    strip_all, strip_all_range, trim, trim_range, words, words_range,
};

verus! {

/// Why a schedule string was refused.
#[derive(Debug, Clone, Copy, PartialEq, Eq, Structural)]
pub enum ScheduleError {
    /// A number was expected and is missing, malformed or too large.
    InvalidNumber,
    /// A duration ends in a unit other than `s`, `m` or `h`.
    UnknownUnit,
    /// A duration is empty.
    EmptyDuration,
    /// A duration does not fit in `u64` seconds.
    DurationOverflow,
    /// A calendar schedule has no `at` time.
    MissingAt,
    /// A time is not `HH:MM` or `HH:MM:SS`.
    InvalidTimeFormat,
    /// A day is not a weekday name.
    InvalidWeekday,
}

/// A duration: a decimal count and a unit, `s`, `m` or `h`, in seconds.
pub open spec fn duration_spec(s: Seq<char>) -> Result<u64, ScheduleError> {
    if s.len() == 0 {
        Err(ScheduleError::EmptyDuration)
    } else {
        let unit = s[s.len() - 1];
        match parse_u64(s.subrange(0, s.len() - 1)) {
            None => Err(ScheduleError::InvalidNumber),
            Some(n) => if unit == 's' {
                Ok(n)
            } else if unit == 'm' {
                if n * 60 <= u64::MAX {
                    Ok((n * 60) as u64)
                } else {
                    Err(ScheduleError::DurationOverflow)
                }
            } else if unit == 'h' {
                if n * 3600 <= u64::MAX {
                    Ok((n * 3600) as u64)
                } else {
                    Err(ScheduleError::DurationOverflow)
                }
            } else {
                Err(ScheduleError::UnknownUnit)
            },
        }
    }
}

/// A weekday name, short or long, in any ASCII case: Monday = 1 to Sunday = 7.
pub open spec fn weekday_spec(s: Seq<char>) -> Option<u32> {
    if lower_eq(s, seq!['m', 'o', 'n']) || lower_eq(s, seq!['m', 'o', 'n', 'd', 'a', 'y']) {
        Some(1)
    } else if lower_eq(s, seq!['t', 'u', 'e']) || lower_eq(s, seq!['t', 'u', 'e', 's', 'd', 'a', 'y']) {
        Some(2)
    } else if lower_eq(s, seq!['w', 'e', 'd']) || lower_eq(
        s,
        seq!['w', 'e', 'd', 'n', 'e', 's', 'd', 'a', 'y'],
    ) {
        Some(3)
    } else if lower_eq(s, seq!['t', 'h', 'u']) || lower_eq(
        s,
        seq!['t', 'h', 'u', 'r', 's', 'd', 'a', 'y'],
    ) {
        Some(4)
    } else if lower_eq(s, seq!['f', 'r', 'i']) || lower_eq(s, seq!['f', 'r', 'i', 'd', 'a', 'y']) {
        Some(5)
    } else if lower_eq(s, seq!['s', 'a', 't']) || lower_eq(
        s,
        seq!['s', 'a', 't', 'u', 'r', 'd', 'a', 'y'],
    ) {
        Some(6)
    } else if lower_eq(s, seq!['s', 'u', 'n']) || lower_eq(s, seq!['s', 'u', 'n', 'd', 'a', 'y']) {
        Some(7)
    } else {
        None
    }
}

/// The ordinal of `1st` to `4th` that a word starts with, in any ASCII case.
pub open spec fn ordinal_spec(w: Seq<char>) -> Option<u32> {
    if lower_prefix(w, seq!['1', 's', 't']) {
        Some(1)
    } else if lower_prefix(w, seq!['2', 'n', 'd']) {
        Some(2)
    } else if lower_prefix(w, seq!['3', 'r', 'd']) {
        Some(3)
    } else if lower_prefix(w, seq!['4', 't', 'h']) {
        Some(4)
    } else {
        None
    }
}

/// Two words: an ordinal and a weekday, as in `1st Mon`.
pub open spec fn nth_weekday_spec(s: Seq<char>) -> Option<(u32, u32)> {
    let w = words(s);
    if w.len() != 2 {
        None
    } else {
        match (ordinal_spec(w[0]), weekday_spec(w[1])) {
            (Some(n), Some(d)) => Some((n, d)),
            _ => None,
        }
    }
}

/// A comma-separated list of weekday names.
pub open spec fn days_spec(s: Seq<char>) -> Result<Seq<u32>, ScheduleError> {
    let pieces = split_on(s, ',');
    if forall|i: int| 0 <= i < pieces.len() ==> (#[trigger] weekday_spec(trim(pieces[i]))) is Some {
        Ok(Seq::new(pieces.len(), |i: int| weekday_spec(trim(pieces[i]))->Some_0))
    } else {
        Err(ScheduleError::InvalidWeekday)
    }
}

/// A time of day, `H:M` or `H:M:S`.
pub open spec fn time_spec(t: Seq<char>) -> Result<(u32, u32, u32), ScheduleError> {
    let parts = split_on(t, ':');
    if parts.len() == 2 {
        match (parse_u32(parts[0]), parse_u32(parts[1])) {
            (Some(h), Some(m)) => Ok((h, m, 0)),
            _ => Err(ScheduleError::InvalidNumber),
        }
    } else if parts.len() == 3 {
        match (parse_u32(parts[0]), parse_u32(parts[1]), parse_u32(parts[2])) {
            (Some(h), Some(m), Some(sec)) => Ok((h, m, sec)),
            _ => Err(ScheduleError::InvalidNumber),
        }
    } else {
        Err(ScheduleError::InvalidTimeFormat)
    }
}

pub open spec fn at_sep() -> Seq<char> {
    seq![' ', 'a', 't', ' ']
}

pub open spec fn at_word() -> Seq<char> {
    seq!['a', 't', ' ']
}

pub open spec fn on_word() -> Seq<char> {
    seq!['o', 'n', ' ']
}

pub open spec fn every_word() -> Seq<char> {
    seq!['e', 'v', 'e', 'r', 'y', ' ']
}

/// The day part and the time part of a calendar schedule.
pub open spec fn calendar_parts(s: Seq<char>) -> Option<(Seq<char>, Seq<char>)> {
    match find_from(s, at_sep(), 0) {
        Some(idx) => Some(
            (
                trim(s.subrange(0, idx)),
                trim(strip_all(s.subrange(idx, s.len() as int), at_sep())),
            ),
        ),
        None => if starts_with(s, at_word()) {
            Some((Seq::<char>::empty(), trim(strip_all(s, at_word()))))
        } else {
            None
        },
    }
}

/// A calendar schedule: `at H:M[:S]`, optionally after `on <days>` or
/// `on <ordinal> <weekday>`.
pub open spec fn calendar_spec(s: Seq<char>) -> Result<CalendarView, ScheduleError> {
    match calendar_parts(s) {
        None => Err(ScheduleError::MissingAt),
        Some((date, time)) => match time_spec(time) {
            Err(e) => Err(e),
            Ok(t) => if starts_with(date, on_word()) {
                let specs = trim(strip_all(date, on_word()));
                match nth_weekday_spec(specs) {
                    Some(nw) => Ok(CalendarView { days_of_week: None, nth_weekday: Some(nw), time: t }),
                    None => match days_spec(specs) {
                        Ok(d) => Ok(CalendarView { days_of_week: Some(d), nth_weekday: None, time: t }),
                        Err(e) => Err(e),
                    },
                }
            } else {
                Ok(CalendarView { days_of_week: None, nth_weekday: None, time: t })
            },
        },
    }
}

/// A schedule string: `every <duration>`, a calendar schedule starting with
/// `at ` or `on `, or else a cron expression.
pub open spec fn schedule_spec(s: Seq<char>) -> Result<ScheduleView, ScheduleError> {
    if starts_with(s, every_word()) {
        match duration_spec(trim(strip_all(s, every_word()))) {
            Ok(n) => Ok(ScheduleView::Every(n)),
            Err(e) => Err(e),
        }
    } else if starts_with(s, at_word()) || starts_with(s, on_word()) {
        match calendar_spec(s) {
            Ok(c) => Ok(ScheduleView::Calendar(c)),
            Err(e) => Err(e),
        }
    } else {
        Ok(ScheduleView::Cron(s))
    }
}

pub open spec fn schedule_result_view(r: Result<ScheduleConfig, ScheduleError>) -> Result<
    ScheduleView,
    ScheduleError,
> {
    match r {
        Ok(c) => Ok(c@),
        Err(e) => Err(e),
    }
}

fn parse_u32_range(s: &Vec<char>, lo: usize, hi: usize) -> (r: Option<u32>)
    requires
        lo <= hi <= s@.len(),
    ensures
        r == parse_u32(s@.subrange(lo as int, hi as int)),
{
    match parse_u64_range(s, lo, hi) {
        Some(v) => if v <= u32::MAX as u64 {
            Some(v as u32)
        } else {
            None
        },
        None => None,
    }
}

fn duration_range(s: &Vec<char>, lo: usize, hi: usize) -> (r: Result<u64, ScheduleError>)
    requires
        lo <= hi <= s@.len(),
    ensures
        r == duration_spec(s@.subrange(lo as int, hi as int)),
{
    let ghost t = s@.subrange(lo as int, hi as int);
    if lo == hi {
        return Err(ScheduleError::EmptyDuration);
    }
    proof {
        assert(t.subrange(0, t.len() - 1) =~= s@.subrange(lo as int, hi - 1));
        assert(t[t.len() - 1] == s@[hi - 1]);
    }
    let n = match parse_u64_range(s, lo, hi - 1) {
        Some(n) => n,
        None => {
            return Err(ScheduleError::InvalidNumber);
        },
    };
    let unit = s[hi - 1];
    if unit == 's' {
        Ok(n)
    } else if unit == 'm' {
        match n.checked_mul(60) {
            Some(v) => Ok(v),
            None => Err(ScheduleError::DurationOverflow),
        }
    } else if unit == 'h' {
        match n.checked_mul(3600) {
            Some(v) => Ok(v),
            None => Err(ScheduleError::DurationOverflow),
        }
    } else {
        Err(ScheduleError::UnknownUnit)
    }
}

fn weekday_range(s: &Vec<char>, lo: usize, hi: usize) -> (r: Option<u32>)
    requires
        lo <= hi <= s@.len(),
    ensures
        r == weekday_spec(s@.subrange(lo as int, hi as int)),
{
    if lower_equals(s, lo, hi, &vec!['m', 'o', 'n']) || lower_equals(
        s,
        lo,
        hi,
        &vec!['m', 'o', 'n', 'd', 'a', 'y'],
    ) {
        Some(1)
    } else if lower_equals(s, lo, hi, &vec!['t', 'u', 'e']) || lower_equals(
        s,
        lo,
        hi,
        &vec!['t', 'u', 'e', 's', 'd', 'a', 'y'],
    ) {
        Some(2)
    } else if lower_equals(s, lo, hi, &vec!['w', 'e', 'd']) || lower_equals(
        s,
        lo,
        hi,
        &vec!['w', 'e', 'd', 'n', 'e', 's', 'd', 'a', 'y'],
    ) {
        Some(3)
    } else if lower_equals(s, lo, hi, &vec!['t', 'h', 'u']) || lower_equals(
        s,
        lo,
        hi,
        &vec!['t', 'h', 'u', 'r', 's', 'd', 'a', 'y'],
    ) {
        Some(4)
    } else if lower_equals(s, lo, hi, &vec!['f', 'r', 'i']) || lower_equals(
        s,
        lo,
        hi,
        &vec!['f', 'r', 'i', 'd', 'a', 'y'],
    ) {
        Some(5)
    } else if lower_equals(s, lo, hi, &vec!['s', 'a', 't']) || lower_equals(
        s,
        lo,
        hi,
        &vec!['s', 'a', 't', 'u', 'r', 'd', 'a', 'y'],
    ) {
        Some(6)
    } else if lower_equals(s, lo, hi, &vec!['s', 'u', 'n']) || lower_equals(
        s,
        lo,
        hi,
        &vec!['s', 'u', 'n', 'd', 'a', 'y'],
    ) {
        Some(7)
    } else {
        None
    }
}

fn nth_weekday_range(s: &Vec<char>, lo: usize, hi: usize) -> (r: Option<(u32, u32)>)
    requires
        lo <= hi <= s@.len(),
    ensures
        r == nth_weekday_spec(s@.subrange(lo as int, hi as int)),
{
    let w = words_range(s, lo, hi);
    if w.len() != 2 {
        return None;
    }
    let (a, b) = w[0];
    let n: u32 = if lower_starts_with(s, a, b, &vec!['1', 's', 't']) {
        1
    } else if lower_starts_with(s, a, b, &vec!['2', 'n', 'd']) {
        2
    } else if lower_starts_with(s, a, b, &vec!['3', 'r', 'd']) {
        3
    } else if lower_starts_with(s, a, b, &vec!['4', 't', 'h']) {
        4
    } else {
        return None;
    };
    let (c, d) = w[1];
    match weekday_range(s, c, d) {
        Some(day) => Some((n, day)),
        None => None,
    }
}

fn days_range(s: &Vec<char>, lo: usize, hi: usize) -> (r: Result<Vec<u32>, ScheduleError>)
    requires
        lo <= hi <= s@.len(),
    ensures
        match (r, days_spec(s@.subrange(lo as int, hi as int))) {
            (Ok(v), Ok(d)) => v@ == d,
            (Err(e), Err(f)) => e == f,
            _ => false,
        },
{
    let ghost pieces = split_on(s@.subrange(lo as int, hi as int), ',');
    let ranges = split_range(s, lo, hi, ',');
    let mut out: Vec<u32> = Vec::new();
    let mut x: usize = 0;
    while x < ranges.len()
        invariant
            pieces == split_on(s@.subrange(lo as int, hi as int), ','),
            ranges@.len() == pieces.len(),
            forall|y: int|
                0 <= y < ranges@.len() ==> lo <= (#[trigger] ranges@[y]).0 <= ranges@[y].1 <= hi
                    && s@.subrange(ranges@[y].0 as int, ranges@[y].1 as int) == pieces[y],
            hi <= s@.len(),
            0 <= x <= ranges@.len(),
            out@.len() == x,
            forall|y: int|
                0 <= y < x ==> (#[trigger] weekday_spec(trim(pieces[y]))) is Some && out@[y]
                    == weekday_spec(trim(pieces[y]))->Some_0,
        decreases ranges@.len() - x,
    {
        let (a, b) = ranges[x];
        let (c, d) = trim_range(s, a, b);
        match weekday_range(s, c, d) {
            Some(day) => {
                out.push(day);
            },
            None => {
                proof {
                    assert(weekday_spec(trim(pieces[x as int])) is None);
                }
                return Err(ScheduleError::InvalidWeekday);
            },
        }
        x = x + 1;
    }
    proof {
        assert(out@ =~= Seq::new(pieces.len(), |i: int| weekday_spec(trim(pieces[i]))->Some_0));
    }
    Ok(out)
}

fn time_range(s: &Vec<char>, lo: usize, hi: usize) -> (r: Result<(u32, u32, u32), ScheduleError>)
    requires
        lo <= hi <= s@.len(),
    ensures
        r == time_spec(s@.subrange(lo as int, hi as int)),
{
    let parts = split_range(s, lo, hi, ':');
    if parts.len() == 2 {
        let h = parse_u32_range(s, parts[0].0, parts[0].1);
        let m = parse_u32_range(s, parts[1].0, parts[1].1);
        match (h, m) {
            (Some(h), Some(m)) => Ok((h, m, 0)),
            _ => Err(ScheduleError::InvalidNumber),
        }
    } else if parts.len() == 3 {
        let h = parse_u32_range(s, parts[0].0, parts[0].1);
        let m = parse_u32_range(s, parts[1].0, parts[1].1);
        let sec = parse_u32_range(s, parts[2].0, parts[2].1);
        match (h, m, sec) {
            (Some(h), Some(m), Some(sec)) => Ok((h, m, sec)),
            _ => Err(ScheduleError::InvalidNumber),
        }
    } else {
        Err(ScheduleError::InvalidTimeFormat)
    }
}

fn calendar_range(s: &Vec<char>) -> (r: Result<CalendarParams, ScheduleError>)
    ensures
        match (r, calendar_spec(s@)) {
            (Ok(c), Ok(v)) => c@ == v,
            (Err(e), Err(f)) => e == f,
            _ => false,
        },
{
    let n = s.len();
    proof {
        assert(s@.subrange(0, n as int) =~= s@);
    }
    let sep = vec![' ', 'a', 't', ' '];
    let at = vec!['a', 't', ' '];
    let (dlo, dhi, tlo, thi) = match find_range(s, 0, n, &sep) {
        Some(idx) => {
            let (dl, dh) = trim_range(s, 0, idx);
            let a = strip_all_range(s, idx, n, &sep);
            let (tl, th) = trim_range(s, a, n);
            (dl, dh, tl, th)
        },
        None => {
            if starts_with_at(s, 0, n, &at) {
                let a = strip_all_range(s, 0, n, &at);
                let (tl, th) = trim_range(s, a, n);
                (0, 0, tl, th)
            } else {
                return Err(ScheduleError::MissingAt);
            }
        },
    };
    proof {
        assert(s@.subrange(0, 0) =~= Seq::<char>::empty());
        assert(calendar_parts(s@) == Some(
            (s@.subrange(dlo as int, dhi as int), s@.subrange(tlo as int, thi as int)),
        ));
    }
    let time = match time_range(s, tlo, thi) {
        Ok(t) => t,
        Err(e) => {
            return Err(e);
        },
    };
    let on = vec!['o', 'n', ' '];
    if starts_with_at(s, dlo, dhi, &on) {
        let a = strip_all_range(s, dlo, dhi, &on);
        let (sl, sh) = trim_range(s, a, dhi);
        match nth_weekday_range(s, sl, sh) {
            Some(nw) => Ok(CalendarParams { days_of_week: None, nth_weekday: Some(nw), time }),
            None => match days_range(s, sl, sh) {
                Ok(d) => Ok(CalendarParams { days_of_week: Some(d), nth_weekday: None, time }),
                Err(e) => Err(e),
            },
        }
    } else {
        Ok(CalendarParams { days_of_week: None, nth_weekday: None, time })
    }
}

/// Parses a duration such as `30s`, `5m` or `2h` into seconds.
pub fn parse_duration(s: &str) -> (r: Result<u64, ScheduleError>)
    ensures
        r == duration_spec(s@),
{
    let cs = chars_of(s);
    proof {
        assert(cs@.subrange(0, cs@.len() as int) =~= s@);
    }
    duration_range(&cs, 0, cs.len())
}

/// Parses a weekday name, short or long, in any ASCII case.
pub fn parse_weekday(s: &str) -> (r: Result<u32, ScheduleError>)
    ensures
        r == match weekday_spec(s@) {
            Some(d) => Ok(d),
            None => Err(ScheduleError::InvalidWeekday),
        },
{
    let cs = chars_of(s);
    proof {
        assert(cs@.subrange(0, cs@.len() as int) =~= s@);
    }
    match weekday_range(&cs, 0, cs.len()) {
        Some(d) => Ok(d),
        None => Err(ScheduleError::InvalidWeekday),
    }
}

/// Parses an ordinal weekday such as `1st Mon` or `3rd friday`.
pub fn parse_nth_weekday(s: &str) -> (r: Option<(u32, u32)>)
    ensures
        r == nth_weekday_spec(s@),
{
    let cs = chars_of(s);
    proof {
        assert(cs@.subrange(0, cs@.len() as int) =~= s@);
    }
    nth_weekday_range(&cs, 0, cs.len())
}

/// Parses a calendar schedule such as `at 14:30`, `on Mon,Wed at 09:00` or
/// `on 1st Mon at 10:00`.
pub fn parse_calendar(s: &str) -> (r: Result<ScheduleConfig, ScheduleError>)
    ensures
        schedule_result_view(r) == match calendar_spec(s@) {
            Ok(c) => Ok(ScheduleView::Calendar(c)),
            Err(e) => Err(e),
        },
{
    let cs = chars_of(s);
    match calendar_range(&cs) {
        Ok(p) => Ok(ScheduleConfig::Calendar(p)),
        Err(e) => Err(e),
    }
}

/// Parses a schedule string: `every <duration>`, a calendar schedule, or
/// else a cron expression kept as written.
pub fn parse_schedule(s: &str) -> (r: Result<ScheduleConfig, ScheduleError>)
    ensures
        schedule_result_view(r) == schedule_spec(s@),
{
    let cs = chars_of(s);
    let n = cs.len();
    proof {
        assert(cs@.subrange(0, n as int) =~= s@);
    }
    let every = vec!['e', 'v', 'e', 'r', 'y', ' '];
    let at = vec!['a', 't', ' '];
    let on = vec!['o', 'n', ' '];
    if starts_with_at(&cs, 0, n, &every) {
        let a = strip_all_range(&cs, 0, n, &every);
        let (x, y) = trim_range(&cs, a, n);
        match duration_range(&cs, x, y) {
            Ok(v) => Ok(ScheduleConfig::Every(v)),
            Err(e) => Err(e),
        }
    } else if starts_with_at(&cs, 0, n, &at) || starts_with_at(&cs, 0, n, &on) {
        match calendar_range(&cs) {
            Ok(p) => Ok(ScheduleConfig::Calendar(p)),
            Err(e) => Err(e),
        }
    } else {
        Ok(ScheduleConfig::Cron(s.to_owned()))
    }
}

} // verus!

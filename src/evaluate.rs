use vstd::prelude::*;

use crate::clock::CivilTime;
use crate::job::CalendarParams;
use crate::text::{chars_of, count_words, word_count};

verus! {

/// When an `Every(seconds)` job fires, given its last fire and the time now
/// (milliseconds). A job that never fired fires now; otherwise it fires at
/// `last + seconds` once that has come, or now where it is more than ten
/// intervals late.
pub open spec fn every_fire(last: Option<i64>, seconds: u64, now: i64) -> Option<int> {
    match last {
        None => Some(now as int),
        Some(l) => {
            let interval = seconds * 1000;
            let expected = l + interval;
            if expected <= now {
                if now - expected > 10 * interval {
                    Some(now as int)
                } else {
                    Some(expected)
                }
            } else {
                None
            }
        },
    }
}

pub fn every_fire_at(last: Option<i64>, seconds: u64, now: i64) -> (r: Option<i64>)
    ensures
        r matches Some(t) ==> every_fire(last, seconds, now) == Some(t as int),
        r is None ==> every_fire(last, seconds, now) is None,
{
    match last {
        None => Some(now),
        Some(l) => {
            let interval: i128 = seconds as i128 * 1000;
            let expected: i128 = l as i128 + interval;
            if expected <= now as i128 {
                if now as i128 - expected > 10 * interval {
                    Some(now)
                } else {
                    Some(expected as i64)
                }
            } else {
                None
            }
        },
    }
}

/// Where the search for a cron job's next instant starts: its last fire, or
/// one second before now.
pub open spec fn cron_start(last: Option<i64>, now: i64) -> i64 {
    match last {
        Some(l) => l,
        None => if now >= i64::MIN + 1000 {
            (now - 1000) as i64
        } else {
            i64::MIN
        },
    }
}

pub fn cron_start_of(last: Option<i64>, now: i64) -> (r: i64)
    ensures
        r == cron_start(last, now),
{
    match last {
        Some(l) => l,
        None => if now >= i64::MIN + 1000 {
            now - 1000
        } else {
            i64::MIN
        },
    }
}

/// A cron job fires at its next instant once that instant has come.
pub open spec fn cron_fire(next: Option<i64>, now: i64) -> Option<int> {
    match next {
        Some(n) => if n <= now {
            Some(n as int)
        } else {
            None
        },
        None => None,
    }
}

/// A cron expression of five fields gets a seconds field of `0` in front.
pub open spec fn cron_with_seconds(expr: Seq<char>) -> Seq<char> {
    if word_count(expr) == 5 {
        seq!['0', ' '] + expr
    } else {
        expr
    }
}

pub fn cron_expression_with_seconds(expr: &str) -> (r: String)
    ensures
        r@ == cron_with_seconds(expr@),
{
    let cs = chars_of(expr);
    if count_words(&cs) == 5 {
        let head = "0 ";
        proof {
            reveal_strlit("0 ");
        }
        let mut r = head.to_owned();
        r.append(expr);
        proof {
            assert(r@ =~= seq!['0', ' '] + expr@);
        }
        r
    } else {
        expr.to_owned()
    }
}

/// The week of the month that a day falls in, counted from 1 by sevens.
pub open spec fn week_of_month(day: u32) -> int {
    (day - 1) / 7 + 1
}

/// The calendar rule's day filter holds on `t`.
pub open spec fn day_matches(p: CalendarParams, t: CivilTime) -> bool {
    &&& p.days_of_week matches Some(d) ==> d@.contains(t.weekday)
    &&& p.nth_weekday matches Some(nw) ==> (t.weekday == nw.1 && week_of_month(t.day) == nw.0)
}

/// The calendar rule selects the wall-clock reading `t`.
pub open spec fn calendar_matches(p: CalendarParams, t: CivilTime) -> bool {
    &&& t.hour == p.time.0
    &&& t.minute == p.time.1
    &&& t.second == p.time.2
    &&& day_matches(p, t)
}

/// A calendar job fires now where the current reading is selected and is
/// not the reading of the window it last fired in.
pub open spec fn calendar_fire(
    p: CalendarParams,
    now_local: Option<CivilTime>,
    window_local: Option<CivilTime>,
    now: i64,
) -> Option<int> {
    match now_local {
        None => None,
        Some(t) => if window_local == Some(t) {
            None
        } else if calendar_matches(p, t) {
            Some(now as int)
        } else {
            None
        },
    }
}

pub fn calendar_matches_at(p: &CalendarParams, t: &CivilTime) -> (r: bool)
    ensures
        r == calendar_matches(*p, *t),
{
    if t.hour != p.time.0 || t.minute != p.time.1 || t.second != p.time.2 {
        return false;
    }
    match &p.days_of_week {
        Some(days) => {
            let mut found = false;
            let mut i: usize = 0;
            while i < days.len()
                invariant
                    0 <= i <= days@.len(),
                    found == exists|j: int| 0 <= j < i && days@[j] == t.weekday,
                decreases days@.len() - i,
            {
                if days[i] == t.weekday {
                    found = true;
                }
                i = i + 1;
            }
            proof {
                if found {
                    let j = choose|j: int| 0 <= j < days@.len() && days@[j] == t.weekday;
                    assert(days@.contains(t.weekday));
                }
            }
            if !found {
                return false;
            }
        },
        None => {},
    }
    match p.nth_weekday {
        Some((n, w)) => {
            if t.weekday != w {
                return false;
            }
            let week: u32 = if t.day == 0 {
                0
            } else {
                (t.day - 1) / 7 + 1
            };
            proof {
                if t.day == 0 {
                    assert(week_of_month(t.day) == 0);
                }
            }
            if week != n {
                return false;
            }
        },
        None => {},
    }
    true
}

pub fn calendar_fire_at(
    p: &CalendarParams,
    now_local: Option<CivilTime>,
    window_local: Option<CivilTime>,
    now: i64,
) -> (r: Option<i64>)
    ensures
        r matches Some(t) ==> calendar_fire(*p, now_local, window_local, now) == Some(t as int),
        r is None ==> calendar_fire(*p, now_local, window_local, now) is None,
{
    match now_local {
        None => None,
        Some(t) => {
            let same_window = match window_local {
                Some(w) => w == t,
                None => false,
            };
            if same_window {
                None
            } else if calendar_matches_at(p, &t) {
                Some(now)
            } else {
                None
            }
        },
    }
}

} // verus!

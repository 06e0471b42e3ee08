use vstd::prelude::*;

use crate::job::{CalendarParams, ScheduleConfig, ScheduleView};
use crate::text::{
    chars_of, decimal, decimal_text, equals_at, lemma_decimal_parses, number_body, parse_u64,
    parse_u64_range,
};

verus! {

/// The newest version of the store's schema.
pub const SCHEMA_VERSION: i32 = 3;

/// The name under which a schedule's kind is stored.
pub open spec fn kind_spec(s: ScheduleConfig) -> Seq<char> {
    match s {
        ScheduleConfig::Cron(_) => seq!['c', 'r', 'o', 'n'],
        ScheduleConfig::Every(_) => seq!['e', 'v', 'e', 'r', 'y'],
        ScheduleConfig::Calendar(_) => seq!['c', 'a', 'l', 'e', 'n', 'd', 'a', 'r'],
    }
}

pub fn schedule_kind(s: &ScheduleConfig) -> (r: &'static str)
    ensures
        r@ == kind_spec(*s),
{
    match s {
        ScheduleConfig::Cron(_) => {
            proof {
                reveal_strlit("cron");
            }
            "cron"
        },
        ScheduleConfig::Every(_) => {
            proof {
                reveal_strlit("every");
            }
            "every"
        },
        ScheduleConfig::Calendar(_) => {
            proof {
                reveal_strlit("calendar");
            }
            "calendar"
        },
    }
}

/// The stored value of a cron or interval schedule: the expression, or the
/// seconds in decimal. A calendar rule is stored in a serialized form of its
/// own, so it has none here.
pub fn schedule_value(s: &ScheduleConfig) -> (r: Option<String>)
    ensures
        match *s {
            ScheduleConfig::Cron(e) => r matches Some(v) && v@ == e@,
            ScheduleConfig::Every(n) => r matches Some(v) && v@ == decimal(n as nat),
            ScheduleConfig::Calendar(_) => r is None,
        },
{
    match s {
        ScheduleConfig::Cron(e) => Some(e.clone()),
        ScheduleConfig::Every(n) => Some(decimal_text(*n)),
        ScheduleConfig::Calendar(_) => None,
    }
}

/// The interval stored as text, or `0` where the text is not a number.
pub fn every_from_text(text: &str) -> (r: u64)
    ensures
        r == match parse_u64(text@) {
            Some(n) => n,
            None => 0,
        },
{
    let cs = chars_of(text);
    proof {
        assert(cs@.subrange(0, cs@.len() as int) =~= text@);
    }
    match parse_u64_range(&cs, 0, cs.len()) {
        Some(n) => n,
        None => 0,
    }
}

/// The schedule a stored row describes. An unknown kind is read as a cron
/// expression; a calendar row needs its decoded rule.
pub open spec fn decode_spec(kind: Seq<char>, value: Seq<char>, calendar: Option<CalendarParams>) -> Option<
    ScheduleView,
> {
    if kind == seq!['e', 'v', 'e', 'r', 'y'] {
        Some(
            ScheduleView::Every(
                match parse_u64(value) {
                    Some(n) => n,
                    None => 0,
                },
            ),
        )
    } else if kind == seq!['c', 'a', 'l', 'e', 'n', 'd', 'a', 'r'] {
        match calendar {
            Some(p) => Some(ScheduleView::Calendar(p@)),
            None => None,
        }
    } else {
        Some(ScheduleView::Cron(value))
    }
}

pub fn decode_schedule(kind: &str, value: String, calendar: Option<CalendarParams>) -> (r: Option<
    ScheduleConfig,
>)
    ensures
        match (r, decode_spec(kind@, value@, calendar)) {
            (Some(c), Some(v)) => c@ == v,
            (None, None) => true,
            _ => false,
        },
{
    let ks = chars_of(kind);
    let n = ks.len();
    proof {
        assert(ks@.subrange(0, n as int) =~= kind@);
    }
    if equals_at(&ks, 0, n, &vec!['e', 'v', 'e', 'r', 'y']) {
        Some(ScheduleConfig::Every(every_from_text(value.as_str())))
    } else if equals_at(&ks, 0, n, &vec!['c', 'a', 'l', 'e', 'n', 'd', 'a', 'r']) {
        match calendar {
            Some(p) => Some(ScheduleConfig::Calendar(p)),
            None => None,
        }
    } else {
        Some(ScheduleConfig::Cron(value))
    }
}

/// A cron or interval schedule reads back from its stored kind and value as
/// the schedule that was stored; a calendar schedule does, given its rule.
pub proof fn stored_schedule_round_trips(s: ScheduleConfig)
    ensures
        match s {
            ScheduleConfig::Cron(e) => decode_spec(kind_spec(s), e@, None) == Some(s@),
            ScheduleConfig::Every(n) => decode_spec(kind_spec(s), decimal(n as nat), None) == Some(
                s@,
            ),
            ScheduleConfig::Calendar(p) => decode_spec(kind_spec(s), Seq::<char>::empty(), Some(p))
                == Some(s@),
        },
{
    match s {
        ScheduleConfig::Every(n) => {
            lemma_decimal_parses(n as nat);
            assert(number_body(decimal(n as nat)) == decimal(n as nat));
            assert(parse_u64(decimal(n as nat)) == Some(n));
        },
        _ => {},
    }
}

/// The migrations to apply to a store at version `current`, in order.
pub fn pending_migrations(current: i32) -> (r: Vec<i32>)
    ensures
        r@.len() == if current < SCHEMA_VERSION {
            SCHEMA_VERSION - current
        } else {
            0
        },
        forall|i: int| 0 <= i < r@.len() ==> r@[i] == current + 1 + i,
{
    let mut r: Vec<i32> = Vec::new();
    if current >= SCHEMA_VERSION {
        return r;
    }
    let mut v: i32 = current;
    while v < SCHEMA_VERSION
        invariant
            current <= v <= SCHEMA_VERSION,
            r@.len() == v - current,
            forall|i: int| 0 <= i < r@.len() ==> r@[i] == current + 1 + i,
        decreases SCHEMA_VERSION - v,
    {
        v = v + 1;
        r.push(v);
    }
    r
}

} // verus!

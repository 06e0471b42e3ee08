use vstd::prelude::*;

use crate::text::{chars_of, equals_at};

verus! {

/// Sends notifications about job events; the sending itself is done by the
/// caller, which asks this type how to present each event.
pub struct Notifier {}

pub open spec fn success_word() -> Seq<char> {
    seq!['s', 'u', 'c', 'c', 'e', 's', 's']
}

pub open spec fn failure_word() -> Seq<char> {
    seq!['f', 'a', 'i', 'l', 'u', 'r', 'e']
}

pub open spec fn start_word() -> Seq<char> {
    seq!['s', 't', 'a', 'r', 't']
}

/// The color of a chat embed for an event: green, red, blue, else gray.
pub open spec fn color_spec(event: Seq<char>) -> u32 {
    if event == success_word() {
        0x00ff00
    } else if event == failure_word() {
        0xff0000
    } else if event == start_word() {
        0x0000ff
    } else {
        0x808080
    }
}

/// The emoji that heads a chat message for an event.
pub open spec fn emoji_spec(event: Seq<char>) -> Seq<char> {
    if event == success_word() {
        ":white_check_mark:"@
    } else if event == failure_word() {
        ":x:"@
    } else if event == start_word() {
        ":rocket:"@
    } else {
        ":grey_question:"@
    }
}

/// Which of the known events a text names: 1 success, 2 failure, 3 start, 0 none.
fn event_kind(event: &str) -> (r: u8)
    ensures
        r == if event@ == success_word() {
            1u8
        } else if event@ == failure_word() {
            2u8
        } else if event@ == start_word() {
            3u8
        } else {
            0u8
        },
{
    let cs = chars_of(event);
    let n = cs.len();
    proof {
        assert(cs@.subrange(0, n as int) =~= event@);
    }
    if equals_at(&cs, 0, n, &vec!['s', 'u', 'c', 'c', 'e', 's', 's']) {
        1
    } else if equals_at(&cs, 0, n, &vec!['f', 'a', 'i', 'l', 'u', 'r', 'e']) {
        2
    } else if equals_at(&cs, 0, n, &vec!['s', 't', 'a', 'r', 't']) {
        3
    } else {
        0
    }
}

impl Notifier {
    pub fn new() -> (r: Self) {
        Notifier {  }
    }

    pub fn event_color(&self, event: &str) -> (r: u32)
        ensures
            r == color_spec(event@),
    {
        let k = event_kind(event);
        if k == 1 {
            0x00ff00
        } else if k == 2 {
            0xff0000
        } else if k == 3 {
            0x0000ff
        } else {
            0x808080
        }
    }

    pub fn event_emoji(&self, event: &str) -> (r: &'static str)
        ensures
            r@ == emoji_spec(event@),
    {
        let k = event_kind(event);
        if k == 1 {
            ":white_check_mark:"
        } else if k == 2 {
            ":x:"
        } else if k == 3 {
            ":rocket:"
        } else {
            ":grey_question:"
        }
    }

    /// The subject of a notification mail where the channel gives none.
    pub fn default_subject(&self, job_name: &str, event: &str) -> (r: String)
        ensures
            r@ == "Lunasched: Job "@ + job_name@ + " - "@ + event@,
    {
        let mut r = "Lunasched: Job ".to_owned();
        r.append(job_name);
        r.append(" - ");
        r.append(event);
        r
    }
}

} // verus!

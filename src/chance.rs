use vstd::prelude::*;

use rand::Rng;

verus! {

/// Relies on rand's `thread_rng` and `Rng::gen_range`, which panics on an
/// empty range: a number drawn from `0..bound`.
#[verifier::external_body]
pub fn draw_below(bound: u64) -> (r: u64)
    requires
        bound > 0,
    ensures
        r < bound,
{
    rand::thread_rng().gen_range(0..bound)
}

pub open spec fn is_lower_hex(c: char) -> bool {
    ('0' <= c && c <= '9') || ('a' <= c && c <= 'f')
}

/// The hyphenated lower-case text of a random (version 4, RFC 4122 variant)
/// UUID: groups of 8, 4, 4, 4 and 12 hex digits, the version digit `4`, and a
/// variant digit of `8`, `9`, `a` or `b`.
pub open spec fn is_execution_id(s: Seq<char>) -> bool {
    &&& s.len() == 36
    &&& forall|i: int|
        0 <= i < 36 ==> if i == 8 || i == 13 || i == 18 || i == 23 {
            #[trigger] s[i] == '-'
        } else {
            is_lower_hex(s[i])
        }
    &&& s[14] == '4'
    &&& (s[19] == '8' || s[19] == '9' || s[19] == 'a' || s[19] == 'b')
}

/// Relies on uuid's `Uuid::new_v4`, which sets the version and variant bits
/// of a random number, and its `Display`, the hyphenated lower-case form.
#[verifier::external_body]
pub fn new_execution_id() -> (r: String)
    ensures
        is_execution_id(r@),
{
    uuid::Uuid::new_v4().to_string()
}

} // verus!

use vstd::prelude::*;

verus! {

/// The characters with the Unicode `White_Space` property.
pub open spec fn is_ws(c: char) -> bool {
    ||| ('\u{9}' <= c && c <= '\u{d}')
    ||| c == ' '
    ||| c == '\u{85}'
    ||| c == '\u{a0}'
    ||| c == '\u{1680}'
    ||| ('\u{2000}' <= c && c <= '\u{200a}')
    ||| c == '\u{2028}'
    ||| c == '\u{2029}'
    ||| c == '\u{202f}'
    ||| c == '\u{205f}'
    ||| c == '\u{3000}'
}

pub fn is_whitespace(c: char) -> (r: bool)
    ensures
        r == is_ws(c),
{
    ('\u{9}' <= c && c <= '\u{d}') || c == ' ' || c == '\u{85}' || c == '\u{a0}' || c == '\u{1680}'
        || ('\u{2000}' <= c && c <= '\u{200a}') || c == '\u{2028}' || c == '\u{2029}' || c
        == '\u{202f}' || c == '\u{205f}' || c == '\u{3000}'
}

/// The characters of `s`, one by one.
pub fn chars_of(s: &str) -> (r: Vec<char>)
    ensures
        r@ == s@,
{
    let n = s.unicode_len();
    let mut out: Vec<char> = Vec::new();
    let mut i: usize = 0;
    while i < n
        invariant
            n == s@.len(),
            0 <= i <= n,
            out@ == s@.subrange(0, i as int),
        decreases n - i,
    {
        out.push(s.get_char(i));
        i = i + 1;
        proof {
            assert(out@ =~= s@.subrange(0, i as int));
        }
    }
    proof {
        assert(out@ =~= s@);
    }
    out
}

/// The number of maximal runs of non-whitespace characters in `s`.
pub open spec fn word_count(s: Seq<char>) -> nat
    decreases s.len(),
{
    if s.len() == 0 {
        0
    } else {
        let n = s.len() - 1;
        let starts = !is_ws(s[n]) && (n == 0 || is_ws(s[n - 1]));
        word_count(s.subrange(0, n)) + if starts {
            1nat
        } else {
            0nat
        }
    }
}

pub fn count_words(s: &Vec<char>) -> (r: usize)
    ensures
        r == word_count(s@),
{
    let mut count: usize = 0;
    let mut i: usize = 0;
    while i < s.len()
        invariant
            0 <= i <= s@.len(),
            count == word_count(s@.subrange(0, i as int)),
            count <= i,
        decreases s@.len() - i,
    {
        let starts = !is_whitespace(s[i]) && (i == 0 || is_whitespace(s[i - 1]));
        proof {
            let t = s@.subrange(0, i + 1);
            assert(t.subrange(0, i as int) =~= s@.subrange(0, i as int));
        }
        if starts {
            count = count + 1;
        }
        i = i + 1;
    }
    proof {
        assert(s@.subrange(0, s@.len() as int) =~= s@);
    }
    count
}


pub open spec fn trim_start(s: Seq<char>) -> Seq<char>
    decreases s.len(),
{
    if s.len() > 0 && is_ws(s[0]) {
        trim_start(s.subrange(1, s.len() as int))
    } else {
        s
    }
}

pub open spec fn trim_end(s: Seq<char>) -> Seq<char>
    decreases s.len(),
{
    if s.len() > 0 && is_ws(s[s.len() - 1]) {
        trim_end(s.subrange(0, s.len() - 1))
    } else {
        s
    }
}

/// `s` without leading and trailing whitespace.
pub open spec fn trim(s: Seq<char>) -> Seq<char> {
    trim_end(trim_start(s))
}

pub open spec fn starts_with(s: Seq<char>, p: Seq<char>) -> bool {
    p.len() <= s.len() && s.subrange(0, p.len() as int) == p
}

/// `s` with every leading repetition of `p` removed.
pub open spec fn strip_all(s: Seq<char>, p: Seq<char>) -> Seq<char>
    decreases s.len(),
{
    if p.len() > 0 && starts_with(s, p) {
        strip_all(s.subrange(p.len() as int, s.len() as int), p)
    } else {
        s
    }
}

/// The first position at or after `i` where `p` occurs in `s`.
pub open spec fn find_from(s: Seq<char>, p: Seq<char>, i: int) -> Option<int>
    decreases s.len() + 1 - i,
{
    if i < 0 || i + p.len() > s.len() {
        None
    } else if s.subrange(i, i + p.len()) == p {
        Some(i)
    } else {
        find_from(s, p, i + 1)
    }
}

/// The pieces of `s` between occurrences of `c`, empty pieces included.
pub open spec fn split_on(s: Seq<char>, c: char) -> Seq<Seq<char>>
    decreases s.len(),
{
    if s.len() == 0 {
        seq![Seq::<char>::empty()]
    } else {
        let init = split_on(s.subrange(0, s.len() - 1), c);
        if s[s.len() - 1] == c {
            init.push(Seq::<char>::empty())
        } else {
            init.update(init.len() - 1, init[init.len() - 1].push(s[s.len() - 1]))
        }
    }
}

/// The maximal runs of non-whitespace characters of `s`.
pub open spec fn words(s: Seq<char>) -> Seq<Seq<char>>
    decreases s.len(),
{
    if s.len() == 0 {
        Seq::<Seq<char>>::empty()
    } else {
        let n = s.len() - 1;
        let init = words(s.subrange(0, n));
        if is_ws(s[n]) {
            init
        } else if n > 0 && !is_ws(s[n - 1]) {
            init.update(init.len() - 1, init[init.len() - 1].push(s[n]))
        } else {
            init.push(seq![s[n]])
        }
    }
}

/// The code of `c` with ASCII capitals lowered.
pub open spec fn lower_code(c: char) -> u32 {
    if 'A' <= c && c <= 'Z' {
        (c as u32 + 32) as u32
    } else {
        c as u32
    }
}

/// `s` equals the lower-case word `w` when its ASCII capitals are lowered.
pub open spec fn lower_eq(s: Seq<char>, w: Seq<char>) -> bool {
    s.len() == w.len() && forall|i: int| 0 <= i < s.len() ==> lower_code(#[trigger] s[i]) == w[i] as u32
}

/// `s` starts with the lower-case word `w` when its ASCII capitals are lowered.
pub open spec fn lower_prefix(s: Seq<char>, w: Seq<char>) -> bool {
    w.len() <= s.len() && forall|i: int| 0 <= i < w.len() ==> lower_code(#[trigger] s[i]) == w[i] as u32
}

pub open spec fn is_digit(c: char) -> bool {
    '0' <= c && c <= '9'
}

pub open spec fn digits_value(s: Seq<char>) -> nat
    decreases s.len(),
{
    if s.len() == 0 {
        0
    } else {
        digits_value(s.subrange(0, s.len() - 1)) * 10 + ((s[s.len() - 1] as u32) - ('0' as u32)) as nat
    }
}

/// A decimal number: an optional `+` and one or more ASCII digits.
pub open spec fn number_body(s: Seq<char>) -> Seq<char> {
    if s.len() > 0 && s[0] == '+' {
        s.subrange(1, s.len() as int)
    } else {
        s
    }
}

pub open spec fn parse_number(s: Seq<char>) -> Option<nat> {
    let body = number_body(s);
    if body.len() > 0 && forall|i: int| 0 <= i < body.len() ==> is_digit(#[trigger] body[i]) {
        Some(digits_value(body))
    } else {
        None
    }
}

pub open spec fn parse_u64(s: Seq<char>) -> Option<u64> {
    match parse_number(s) {
        Some(n) => if n <= u64::MAX {
            Some(n as u64)
        } else {
            None
        },
        None => None,
    }
}

pub open spec fn parse_u32(s: Seq<char>) -> Option<u32> {
    match parse_number(s) {
        Some(n) => if n <= u32::MAX {
            Some(n as u32)
        } else {
            None
        },
        None => None,
    }
}

proof fn lemma_trim_start_step(s: Seq<char>, a: int, hi: int)
    requires
        0 <= a < hi <= s.len(),
        is_ws(s[a]),
    ensures
        trim_start(s.subrange(a, hi)) == trim_start(s.subrange(a + 1, hi)),
{
    assert(s.subrange(a, hi).subrange(1, hi - a) =~= s.subrange(a + 1, hi));
}

proof fn lemma_trim_end_step(s: Seq<char>, a: int, b: int)
    requires
        0 <= a < b <= s.len(),
        is_ws(s[b - 1]),
    ensures
        trim_end(s.subrange(a, b)) == trim_end(s.subrange(a, b - 1)),
{
    assert(s.subrange(a, b).subrange(0, b - a - 1) =~= s.subrange(a, b - 1));
}

/// The bounds of `s[lo..hi]` without its leading and trailing whitespace.
pub fn trim_range(s: &Vec<char>, lo: usize, hi: usize) -> (r: (usize, usize))
    requires
        lo <= hi <= s@.len(),
    ensures
        lo <= r.0 <= r.1 <= hi,
        s@.subrange(r.0 as int, r.1 as int) == trim(s@.subrange(lo as int, hi as int)),
{
    let mut a: usize = lo;
    while a < hi && is_whitespace(s[a])
        invariant
            lo <= a <= hi <= s@.len(),
            trim_start(s@.subrange(lo as int, hi as int)) == trim_start(s@.subrange(a as int, hi as int)),
        decreases hi - a,
    {
        proof {
            lemma_trim_start_step(s@, a as int, hi as int);
        }
        a = a + 1;
    }
    let mut b: usize = hi;
    while b > a && is_whitespace(s[b - 1])
        invariant
            lo <= a <= b <= hi <= s@.len(),
            trim_start(s@.subrange(lo as int, hi as int)) == s@.subrange(a as int, hi as int),
            trim_end(s@.subrange(a as int, hi as int)) == trim_end(s@.subrange(a as int, b as int)),
        decreases b - a,
    {
        proof {
            lemma_trim_end_step(s@, a as int, b as int);
        }
        b = b - 1;
    }
    (a, b)
}

/// Whether `s[lo..hi]` starts with `p`.
pub fn starts_with_at(s: &Vec<char>, lo: usize, hi: usize, p: &Vec<char>) -> (r: bool)
    requires
        lo <= hi <= s@.len(),
    ensures
        r == starts_with(s@.subrange(lo as int, hi as int), p@),
{
    if p.len() > hi - lo {
        return false;
    }
    let mut j: usize = 0;
    while j < p.len()
        invariant
            p@.len() <= hi - lo,
            lo <= hi <= s@.len(),
            0 <= j <= p@.len(),
            forall|m: int| 0 <= m < j ==> s@[lo + m] == p@[m],
        decreases p@.len() - j,
    {
        if s[lo + j] != p[j] {
            proof {
                let t = s@.subrange(lo as int, hi as int);
                assert(t.subrange(0, p@.len() as int)[j as int] != p@[j as int]);
            }
            return false;
        }
        j = j + 1;
    }
    proof {
        let t = s@.subrange(lo as int, hi as int);
        assert(t.subrange(0, p@.len() as int) =~= p@);
    }
    true
}

/// The start of `s[lo..hi]` once every leading repetition of `p` is removed.
pub fn strip_all_range(s: &Vec<char>, lo: usize, hi: usize, p: &Vec<char>) -> (r: usize)
    requires
        lo <= hi <= s@.len(),
        p@.len() > 0,
    ensures
        lo <= r <= hi,
        s@.subrange(r as int, hi as int) == strip_all(s@.subrange(lo as int, hi as int), p@),
{
    let mut a: usize = lo;
    while starts_with_at(s, a, hi, p)
        invariant
            lo <= a <= hi <= s@.len(),
            p@.len() > 0,
            strip_all(s@.subrange(lo as int, hi as int), p@) == strip_all(
                s@.subrange(a as int, hi as int),
                p@,
            ),
        decreases hi - a,
    {
        proof {
            let t = s@.subrange(a as int, hi as int);
            assert(t.subrange(p@.len() as int, t.len() as int) =~= s@.subrange(
                a + p@.len(),
                hi as int,
            ));
        }
        a = a + p.len();
    }
    a
}

/// The first position of `p` in `s[lo..hi]`, counted in `s`.
pub fn find_range(s: &Vec<char>, lo: usize, hi: usize, p: &Vec<char>) -> (r: Option<usize>)
    requires
        lo <= hi <= s@.len(),
    ensures
        match r {
            Some(i) => lo <= i <= hi && find_from(s@.subrange(lo as int, hi as int), p@, 0) == Some(
                (i - lo) as int,
            ),
            None => find_from(s@.subrange(lo as int, hi as int), p@, 0) is None,
        },
{
    let ghost t = s@.subrange(lo as int, hi as int);
    if p.len() > hi - lo {
        return None;
    }
    let last: usize = hi - p.len();
    let mut i: usize = lo;
    loop
        invariant
            lo <= i <= last,
            last + p@.len() == hi,
            hi <= s@.len(),
            t == s@.subrange(lo as int, hi as int),
            find_from(t, p@, 0) == find_from(t, p@, i - lo),
        decreases last - i,
    {
        let hit = starts_with_at(s, i, hi, p);
        proof {
            assert(s@.subrange(i as int, hi as int).subrange(0, p@.len() as int) =~= t.subrange(
                i - lo,
                i - lo + p@.len(),
            ));
        }
        if hit {
            proof {
                assert(find_from(t, p@, i - lo) == Some((i - lo) as int));
            }
            return Some(i);
        }
        if i == last {
            proof {
                assert(find_from(t, p@, i - lo + 1) is None);
            }
            return None;
        }
        i = i + 1;
    }
}

/// The bounds in `s` of the pieces of `s[lo..hi]` between occurrences of `c`.
pub fn split_range(s: &Vec<char>, lo: usize, hi: usize, c: char) -> (r: Vec<(usize, usize)>)
    requires
        lo <= hi <= s@.len(),
    ensures
        r@.len() == split_on(s@.subrange(lo as int, hi as int), c).len(),
        forall|x: int|
            0 <= x < r@.len() ==> lo <= (#[trigger] r@[x]).0 <= r@[x].1 <= hi && s@.subrange(
                r@[x].0 as int,
                r@[x].1 as int,
            ) == split_on(s@.subrange(lo as int, hi as int), c)[x],
{
    let mut done: Vec<(usize, usize)> = Vec::new();
    let mut start: usize = lo;
    let mut k: usize = lo;
    while k < hi
        invariant
            lo <= start <= k <= hi <= s@.len(),
            split_on(s@.subrange(lo as int, k as int), c).len() == done@.len() + 1,
            split_on(s@.subrange(lo as int, k as int), c)[done@.len() as int] == s@.subrange(
                start as int,
                k as int,
            ),
            forall|x: int|
                0 <= x < done@.len() ==> lo <= (#[trigger] done@[x]).0 <= done@[x].1 <= start
                    && s@.subrange(done@[x].0 as int, done@[x].1 as int) == split_on(
                    s@.subrange(lo as int, k as int),
                    c,
                )[x],
        decreases hi - k,
    {
        proof {
            let u = s@.subrange(lo as int, k + 1);
            assert(u.subrange(0, u.len() - 1) =~= s@.subrange(lo as int, k as int));
            assert(u[u.len() - 1] == s@[k as int]);
            assert(s@.subrange(start as int, k + 1) =~= s@.subrange(start as int, k as int).push(
                s@[k as int],
            ));
        }
        if s[k] == c {
            done.push((start, k));
            start = k + 1;
            proof {
                assert(s@.subrange(start as int, k + 1) =~= Seq::<char>::empty());
            }
        }
        k = k + 1;
    }
    done.push((start, hi));
    done
}

/// The bounds in `s` of the words of `s[lo..hi]`.
pub fn words_range(s: &Vec<char>, lo: usize, hi: usize) -> (r: Vec<(usize, usize)>)
    requires
        lo <= hi <= s@.len(),
    ensures
        r@.len() == words(s@.subrange(lo as int, hi as int)).len(),
        forall|x: int|
            0 <= x < r@.len() ==> lo <= (#[trigger] r@[x]).0 <= r@[x].1 <= hi && s@.subrange(
                r@[x].0 as int,
                r@[x].1 as int,
            ) == words(s@.subrange(lo as int, hi as int))[x],
{
    let mut done: Vec<(usize, usize)> = Vec::new();
    let mut k: usize = lo;
    while k < hi
        invariant
            lo <= k <= hi <= s@.len(),
            words(s@.subrange(lo as int, k as int)).len() == done@.len(),
            k > lo && !is_ws(s@[k - 1]) ==> done@.len() > 0 && done@[done@.len() - 1].1 == k,
            forall|x: int|
                0 <= x < done@.len() ==> lo <= (#[trigger] done@[x]).0 <= done@[x].1 <= k
                    && s@.subrange(done@[x].0 as int, done@[x].1 as int) == words(
                    s@.subrange(lo as int, k as int),
                )[x],
        decreases hi - k,
    {
        proof {
            let u = s@.subrange(lo as int, k + 1);
            assert(u.subrange(0, u.len() - 1) =~= s@.subrange(lo as int, k as int));
            assert(u[u.len() - 1] == s@[k as int]);
            if k > lo {
                assert(u[u.len() - 2] == s@[k - 1]);
            }
        }
        if !is_whitespace(s[k]) {
            if k > lo && !is_whitespace(s[k - 1]) {
                let n = done.len() - 1;
                let (a, _) = done[n];
                proof {
                    assert(s@.subrange(a as int, k + 1) =~= s@.subrange(a as int, k as int).push(
                        s@[k as int],
                    ));
                }
                done.set(n, (a, k + 1));
            } else {
                done.push((k, k + 1));
                proof {
                    assert(s@.subrange(k as int, k + 1) =~= seq![s@[k as int]]);
                }
            }
        }
        k = k + 1;
    }
    done
}

/// Whether `s[lo..hi]`, with ASCII capitals lowered, equals `w`.
pub fn lower_equals(s: &Vec<char>, lo: usize, hi: usize, w: &Vec<char>) -> (r: bool)
    requires
        lo <= hi <= s@.len(),
    ensures
        r == lower_eq(s@.subrange(lo as int, hi as int), w@),
{
    if hi - lo != w.len() {
        return false;
    }
    lower_starts_with(s, lo, hi, w)
}

/// Whether `s[lo..hi]`, with ASCII capitals lowered, starts with `w`.
pub fn lower_starts_with(s: &Vec<char>, lo: usize, hi: usize, w: &Vec<char>) -> (r: bool)
    requires
        lo <= hi <= s@.len(),
    ensures
        r == lower_prefix(s@.subrange(lo as int, hi as int), w@),
{
    let ghost t = s@.subrange(lo as int, hi as int);
    if w.len() > hi - lo {
        return false;
    }
    let mut j: usize = 0;
    while j < w.len()
        invariant
            t == s@.subrange(lo as int, hi as int),
            w@.len() <= hi - lo,
            lo <= hi <= s@.len(),
            0 <= j <= w@.len(),
            forall|m: int| 0 <= m < j ==> lower_code(#[trigger] t[m]) == w@[m] as u32,
        decreases w@.len() - j,
    {
        let c = s[lo + j];
        let code: u32 = if 'A' <= c && c <= 'Z' {
            c as u32 + 32
        } else {
            c as u32
        };
        proof {
            assert(t[j as int] == c);
        }
        if code != w[j] as u32 {
            return false;
        }
        j = j + 1;
    }
    true
}

proof fn lemma_digits_prefix(s: Seq<char>, m: int)
    requires
        0 <= m <= s.len(),
    ensures
        digits_value(s.subrange(0, m)) <= digits_value(s),
    decreases s.len() - m,
{
    if m < s.len() {
        let n = s.len() - 1;
        lemma_digits_prefix(s.subrange(0, n), m);
        assert(s.subrange(0, n).subrange(0, m) =~= s.subrange(0, m));
        assert(s.subrange(0, s.len() as int) =~= s);
    } else {
        assert(s.subrange(0, m) =~= s);
    }
}

/// The decimal number in `s[lo..hi]`, where it fits in a `u64`.
pub fn parse_u64_range(s: &Vec<char>, lo: usize, hi: usize) -> (r: Option<u64>)
    requires
        lo <= hi <= s@.len(),
    ensures
        r == parse_u64(s@.subrange(lo as int, hi as int)),
{
    let ghost t = s@.subrange(lo as int, hi as int);
    let start: usize = if lo < hi && s[lo] == '+' {
        lo + 1
    } else {
        lo
    };
    let ghost body = s@.subrange(start as int, hi as int);
    proof {
        if lo < hi && s@[lo as int] == '+' {
            assert(t.subrange(1, t.len() as int) =~= body);
        } else {
            assert(t =~= body);
        }
    }
    proof {
        if lo < hi {
            assert(t[0] == s@[lo as int]);
        }
    }
    if start == hi {
        return None;
    }
    let mut v: u64 = 0;
    let mut k: usize = start;
    while k < hi
        invariant
            start <= k <= hi <= s@.len(),
            body == s@.subrange(start as int, hi as int),
            t == s@.subrange(lo as int, hi as int),
            number_body(t) == body,
            forall|m: int| start <= m < k ==> is_digit(s@[m]),
            v == digits_value(s@.subrange(start as int, k as int)),
        decreases hi - k,
    {
        let c = s[k];
        if !('0' <= c && c <= '9') {
            proof {
                assert(body[k - start] == c);
                assert(!is_digit(body[k - start]));
            }
            return None;
        }
        proof {
            let u = s@.subrange(start as int, k + 1);
            assert(u.subrange(0, u.len() - 1) =~= s@.subrange(start as int, k as int));
        }
        let d: u64 = (c as u32 - '0' as u32) as u64;
        proof {
            let u = s@.subrange(start as int, k + 1);
            assert(u[u.len() - 1] == c);
            assert(digits_value(u) == v * 10 + d);
        }
        let next = match v.checked_mul(10) {
            Some(v10) => v10.checked_add(d),
            None => None,
        };
        match next {
            Some(nv) => {
                v = nv;
            },
            None => {
                proof {
                    lemma_digits_prefix(body, k + 1 - start);
                    assert(body.subrange(0, k + 1 - start) =~= s@.subrange(start as int, k + 1));
                }
                return None;
            },
        }
        k = k + 1;
    }
    proof {
        assert(s@.subrange(start as int, hi as int) =~= body);
        assert forall|i: int| 0 <= i < body.len() implies is_digit(#[trigger] body[i]) by {
            assert(body[i] == s@[start + i]);
        }
    }
    Some(v)
}


/// The last position of `c` in `s`.
pub open spec fn last_index(s: Seq<char>, c: char) -> Option<int>
    decreases s.len(),
{
    if s.len() == 0 {
        None
    } else if s[s.len() - 1] == c {
        Some(s.len() - 1)
    } else {
        last_index(s.subrange(0, s.len() - 1), c)
    }
}

/// The last position of `c` in `s[lo..hi]`, counted in `s`.
pub fn last_index_range(s: &Vec<char>, lo: usize, hi: usize, c: char) -> (r: Option<usize>)
    requires
        lo <= hi <= s@.len(),
    ensures
        match r {
            Some(i) => lo <= i < hi && last_index(s@.subrange(lo as int, hi as int), c) == Some(
                (i - lo) as int,
            ),
            None => last_index(s@.subrange(lo as int, hi as int), c) is None,
        },
{
    let mut b: usize = hi;
    while b > lo
        invariant
            lo <= b <= hi <= s@.len(),
            last_index(s@.subrange(lo as int, hi as int), c) == last_index(
                s@.subrange(lo as int, b as int),
                c,
            ),
        decreases b - lo,
    {
        proof {
            let u = s@.subrange(lo as int, b as int);
            assert(u.subrange(0, u.len() - 1) =~= s@.subrange(lo as int, b - 1));
            assert(u[u.len() - 1] == s@[b - 1]);
        }
        if s[b - 1] == c {
            return Some(b - 1);
        }
        b = b - 1;
    }
    None
}

/// Whether `s[lo..hi]` equals `w`.
pub fn equals_at(s: &Vec<char>, lo: usize, hi: usize, w: &Vec<char>) -> (r: bool)
    requires
        lo <= hi <= s@.len(),
    ensures
        r == (s@.subrange(lo as int, hi as int) == w@),
{
    if hi - lo != w.len() {
        return false;
    }
    let r = starts_with_at(s, lo, hi, w);
    proof {
        let t = s@.subrange(lo as int, hi as int);
        assert(t.subrange(0, t.len() as int) =~= t);
    }
    r
}

/// The character of a decimal digit.
pub open spec fn digit_char(d: nat) -> char {
    if d == 0 {
        '0'
    } else if d == 1 {
        '1'
    } else if d == 2 {
        '2'
    } else if d == 3 {
        '3'
    } else if d == 4 {
        '4'
    } else if d == 5 {
        '5'
    } else if d == 6 {
        '6'
    } else if d == 7 {
        '7'
    } else if d == 8 {
        '8'
    } else {
        '9'
    }
}

/// The decimal digits of `n`, most significant first, without leading zeros.
pub open spec fn decimal(n: nat) -> Seq<char>
    decreases n,
{
    if n < 10 {
        seq![digit_char(n)]
    } else {
        decimal(n / 10).push(digit_char(n % 10))
    }
}

/// The text of one decimal digit.
pub fn digit_text(d: u32) -> (r: &'static str)
    requires
        d < 10,
    ensures
        r@ == seq![digit_char(d as nat)],
{
    proof {
        reveal_strlit("0");
        reveal_strlit("1");
        reveal_strlit("2");
        reveal_strlit("3");
        reveal_strlit("4");
        reveal_strlit("5");
        reveal_strlit("6");
        reveal_strlit("7");
        reveal_strlit("8");
        reveal_strlit("9");
    }
    if d == 0 {
        "0"
    } else if d == 1 {
        "1"
    } else if d == 2 {
        "2"
    } else if d == 3 {
        "3"
    } else if d == 4 {
        "4"
    } else if d == 5 {
        "5"
    } else if d == 6 {
        "6"
    } else if d == 7 {
        "7"
    } else if d == 8 {
        "8"
    } else {
        "9"
    }
}

/// The decimal digits of `n`.
pub fn decimal_text(n: u64) -> (r: String)
    ensures
        r@ == decimal(n as nat),
    decreases n,
{
    if n < 10 {
        digit_text(n as u32).to_owned()
    } else {
        let mut r = decimal_text(n / 10);
        r.append(digit_text((n % 10) as u32));
        proof {
            assert(r@ =~= decimal((n / 10) as nat).push(digit_char((n % 10) as nat)));
        }
        r
    }
}

proof fn lemma_digit_char(d: nat)
    requires
        d < 10,
    ensures
        is_digit(digit_char(d)),
        digit_char(d) != '+',
        ((digit_char(d) as u32) - ('0' as u32)) as nat == d,
{
}

/// A decimal rendering reads back as the number it renders.
pub proof fn lemma_decimal_parses(n: nat)
    ensures
        decimal(n).len() > 0,
        forall|i: int| 0 <= i < decimal(n).len() ==> is_digit(#[trigger] decimal(n)[i]),
        decimal(n)[0] != '+',
        digits_value(decimal(n)) == n,
    decreases n,
{
    if n < 10 {
        let d = decimal(n);
        lemma_digit_char(n);
        assert(d.subrange(0, 0) =~= Seq::<char>::empty());
        assert(digits_value(d.subrange(0, 0)) == 0);
        assert(digits_value(d) == digits_value(d.subrange(0, 0)) * 10 + ((d[0] as u32) - (
        '0' as u32)) as nat);
    } else {
        lemma_decimal_parses(n / 10);
        lemma_digit_char(n % 10);
        let p = decimal(n / 10);
        let d = decimal(n);
        assert(d.subrange(0, d.len() - 1) =~= p);
        assert(d[d.len() - 1] == digit_char(n % 10));
        assert((n / 10) * 10 + n % 10 == n) by (nonlinear_arith);
        assert(digits_value(d) == digits_value(p) * 10 + ((d[d.len() - 1] as u32) - (
        '0' as u32)) as nat);
        assert forall|i: int| 0 <= i < d.len() implies is_digit(#[trigger] d[i]) by {
            if i < p.len() {
                assert(d[i] == p[i]);
            }
        }
    }
}

} // verus!

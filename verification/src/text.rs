//! Character-level helpers for declaration text: white space, trimming and
//! searching for a separator.

use vstd::prelude::*;

verus! {

/// Whether `c` carries the Unicode property `White_Space`.
pub open spec fn is_white_space(c: char) -> bool {
    let n = c as u32;
    ||| 0x09 <= n <= 0x0D
    ||| n == 0x20
    ||| n == 0x85
    ||| n == 0xA0
    ||| n == 0x1680
    ||| 0x2000 <= n <= 0x200A
    ||| n == 0x2028
    ||| n == 0x2029
    ||| n == 0x202F
    ||| n == 0x205F
    ||| n == 0x3000
}

/// `s` without its leading white space.
pub open spec fn trim_start(s: Seq<char>) -> Seq<char>
    decreases s.len(),
{
    if s.len() > 0 && is_white_space(s.first()) {
        trim_start(s.drop_first())
    } else {
        s
    }
}

/// `s` without its trailing white space.
pub open spec fn trim_end(s: Seq<char>) -> Seq<char>
    decreases s.len(),
{
    if s.len() > 0 && is_white_space(s.last()) {
        trim_end(s.drop_last())
    } else {
        s
    }
}

/// `s` without its leading and trailing white space.
pub open spec fn trimmed(s: Seq<char>) -> Seq<char> {
    trim_end(trim_start(s))
}

/// The index of the first `c` in `s`, or the length of `s` where it holds none.
pub open spec fn position(s: Seq<char>, c: char) -> int
    decreases s.len(),
{
    if s.len() == 0 || s.first() == c {
        0
    } else {
        1 + position(s.drop_first(), c)
    }
}

/// `position` names the first occurrence: nothing before it is `c`, and it
/// is `c` itself unless it is the length of `s`.
pub proof fn lemma_position(s: Seq<char>, c: char)
    ensures
        0 <= position(s, c) <= s.len(),
        forall|i: int| 0 <= i < position(s, c) ==> s[i] != c,
        position(s, c) < s.len() ==> s[position(s, c)] == c,
        position(s, c) == s.len() <==> !s.contains(c),
    decreases s.len(),
{
    if s.len() == 0 || s.first() == c {
    } else {
        let t = s.drop_first();
        lemma_position(t, c);
        assert forall|i: int| 0 <= i < position(s, c) implies s[i] != c by {
            if i > 0 {
                assert(s[i] == t[i - 1]);
            }
        }
        if position(s, c) < s.len() {
            assert(s[position(s, c)] == t[position(t, c)]);
        }
        if t.contains(c) {
            let j = choose|j: int| 0 <= j < t.len() && t[j] == c;
            assert(s[j + 1] == c);
        }
        if s.contains(c) {
            let j = choose|j: int| 0 <= j < s.len() && s[j] == c;
            assert(t[j - 1] == c);
        }
    }
}

/// Whether every character of `s` from `lo` up to `hi` is white space.
pub open spec fn blank_between(s: Seq<char>, lo: int, hi: int) -> bool {
    forall|i: int| lo <= i < hi ==> is_white_space(#[trigger] s[i])
}

/// Leading white space goes, the first other character stays: where the
/// first `k` characters of `s` are white space and the next one, if any, is
/// not, `trim_start` skips just those `k`.
pub proof fn lemma_trim_start_at(s: Seq<char>, k: int)
    requires
        0 <= k <= s.len(),
        blank_between(s, 0, k),
        k < s.len() ==> !is_white_space(s[k]),
    ensures
        trim_start(s) == s.skip(k),
    decreases k,
{
    if k == 0 {
        assert(s.skip(0) == s);
    } else {
        let t = s.drop_first();
        assert(is_white_space(s[0]));
        assert forall|i: int| 0 <= i < k - 1 implies is_white_space(#[trigger] t[i]) by {
            assert(t[i] == s[i + 1]);
        }
        lemma_trim_start_at(t, k - 1);
        assert(t.skip(k - 1) == s.skip(k));
    }
}

/// Trailing white space goes, the last other character stays: where all of
/// `s` from index `k` on is white space and the character before, if any, is
/// not, `trim_end` keeps just the first `k`.
pub proof fn lemma_trim_end_at(s: Seq<char>, k: int)
    requires
        0 <= k <= s.len(),
        blank_between(s, k, s.len() as int),
        k > 0 ==> !is_white_space(s[k - 1]),
    ensures
        trim_end(s) == s.take(k),
    decreases s.len() - k,
{
    if k == s.len() {
        assert(s.take(k) == s);
    } else {
        let t = s.drop_last();
        assert(is_white_space(s[s.len() - 1]));
        assert forall|i: int| k <= i < t.len() implies is_white_space(#[trigger] t[i]) by {
            assert(t[i] == s[i]);
        }
        lemma_trim_end_at(t, k);
        assert(t.take(k) == s.take(k));
    }
}

/// How many leading characters of `s` are white space.
pub open spec fn leading_blank(s: Seq<char>) -> int {
    s.len() - trim_start(s).len()
}

/// How many characters of `s` stand before its trailing white space.
pub open spec fn before_trailing_blank(s: Seq<char>) -> int {
    trim_end(s).len() as int
}

/// `trim_start` skips the leading white space of `s` and nothing else.
pub proof fn lemma_trim_start(s: Seq<char>)
    ensures
        0 <= leading_blank(s) <= s.len(),
        trim_start(s) == s.skip(leading_blank(s)),
        blank_between(s, 0, leading_blank(s)),
        leading_blank(s) < s.len() ==> !is_white_space(s[leading_blank(s)]),
    decreases s.len(),
{
    if s.len() > 0 && is_white_space(s.first()) {
        let t = s.drop_first();
        lemma_trim_start(t);
        let k = leading_blank(t);
        assert(t.skip(k) == s.skip(k + 1));
        assert forall|i: int| 0 <= i < k + 1 implies is_white_space(#[trigger] s[i]) by {
            if i > 0 {
                assert(s[i] == t[i - 1]);
            }
        }
        if k + 1 < s.len() {
            assert(s[k + 1] == t[k]);
        }
    } else {
        assert(s.skip(0) == s);
    }
}

/// `trim_end` drops the trailing white space of `s` and nothing else.
pub proof fn lemma_trim_end(s: Seq<char>)
    ensures
        0 <= before_trailing_blank(s) <= s.len(),
        trim_end(s) == s.take(before_trailing_blank(s)),
        blank_between(s, before_trailing_blank(s), s.len() as int),
        before_trailing_blank(s) > 0 ==> !is_white_space(s[before_trailing_blank(s) - 1]),
    decreases s.len(),
{
    if s.len() > 0 && is_white_space(s.last()) {
        let t = s.drop_last();
        lemma_trim_end(t);
        let k = before_trailing_blank(t);
        assert(t.take(k) == s.take(k));
        assert forall|i: int| k <= i < s.len() implies is_white_space(#[trigger] s[i]) by {
            if i < t.len() {
                assert(s[i] == t[i]);
            }
        }
        if k > 0 {
            assert(s[k - 1] == t[k - 1]);
        }
    } else {
        assert(s.take(s.len() as int) == s);
    }
}

/// What trimming leaves of `s`, by its bounds: where `s` is white space
/// before `lo` and from `hi` on, and the characters at both ends of what lies
/// between are not, trimming leaves exactly that. With `lo == hi` nothing is
/// left.
pub proof fn lemma_trimmed_at(s: Seq<char>, lo: int, hi: int)
    requires
        0 <= lo <= hi <= s.len(),
        blank_between(s, 0, lo),
        blank_between(s, hi, s.len() as int),
        lo < hi ==> !is_white_space(s[lo]) && !is_white_space(s[hi - 1]),
    ensures
        trimmed(s) == s.subrange(lo, hi),
        trim_start(trim_end(s)) == s.subrange(lo, hi),
{
    if lo < hi {
        lemma_trim_start_at(s, lo);
        let t = s.skip(lo);
        assert forall|i: int| hi - lo <= i < t.len() implies is_white_space(#[trigger] t[i]) by {
            assert(t[i] == s[lo + i]);
        }
        lemma_trim_end_at(t, hi - lo);
        assert(t.take(hi - lo) == s.subrange(lo, hi));
        lemma_trim_end_at(s, hi);
        let u = s.take(hi);
        assert forall|i: int| 0 <= i < lo implies is_white_space(#[trigger] u[i]) by {
            assert(u[i] == s[i]);
        }
        lemma_trim_start_at(u, lo);
        assert(u.skip(lo) == s.subrange(lo, hi));
    } else {
        assert forall|i: int| 0 <= i < s.len() implies is_white_space(#[trigger] s[i]) by {
            if i < lo {
            } else {
            }
        }
        lemma_trim_start_at(s, s.len() as int);
        assert(s.skip(s.len() as int) == Seq::<char>::empty());
        lemma_trim_end_at(s, 0);
        assert(s.take(0) == Seq::<char>::empty());
        assert(s.subrange(lo, hi) == Seq::<char>::empty());
    }
}

/// Trimming leaves a stretch of `s` that neither begins nor ends with white
/// space, and drops white space only. The order in which the two ends are
/// trimmed makes no difference.
pub proof fn lemma_trimmed(s: Seq<char>) -> (r: (int, int))
    ensures
        0 <= r.0 <= r.1 <= s.len(),
        trimmed(s) == s.subrange(r.0, r.1),
        trim_start(trim_end(s)) == trimmed(s),
        blank_between(s, 0, r.0),
        blank_between(s, r.1, s.len() as int),
        r.0 < r.1 ==> !is_white_space(s[r.0]) && !is_white_space(s[r.1 - 1]),
{
    lemma_trim_start(s);
    lemma_trim_end(s);
    let lo = leading_blank(s);
    let hi = before_trailing_blank(s);
    if lo < s.len() {
        assert(lo < hi) by {
            if hi <= lo {
                assert(is_white_space(s[lo]));
            }
        }
        lemma_trimmed_at(s, lo, hi);
        (lo, hi)
    } else {
        lemma_trimmed_at(s, lo, lo);
        (lo, lo)
    }
}

/// White space around a stretch of text does not change what trimming
/// leaves: where `s` is white space before `lo` and from `hi` on, `s` and its
/// stretch from `lo` up to `hi` trim to the same.
pub proof fn lemma_trimmed_within(s: Seq<char>, lo: int, hi: int)
    requires
        0 <= lo <= hi <= s.len(),
        blank_between(s, 0, lo),
        blank_between(s, hi, s.len() as int),
    ensures
        trimmed(s.subrange(lo, hi)) == trimmed(s),
{
    let t = s.subrange(lo, hi);
    let (a, b) = lemma_trimmed(t);
    assert forall|i: int| 0 <= i < lo + a implies is_white_space(#[trigger] s[i]) by {
        if i >= lo {
            assert(s[i] == t[i - lo]);
        }
    }
    assert forall|i: int| lo + b <= i < s.len() implies is_white_space(#[trigger] s[i]) by {
        if i < hi {
            assert(s[i] == t[i - lo]);
        }
    }
    if a < b {
        assert(s[lo + a] == t[a]);
        assert(s[lo + b - 1] == t[b - 1]);
    }
    lemma_trimmed_at(s, lo + a, lo + b);
    assert(s.subrange(lo + a, lo + b) == t.subrange(a, b));
}

/// Tests one character for the Unicode property `White_Space`.
pub fn white_space(c: char) -> (r: bool)
    ensures
        r == is_white_space(c),
{
    let n: u32 = c as u32;
    (0x09 <= n && n <= 0x0D) || n == 0x20 || n == 0x85 || n == 0xA0 || n == 0x1680 || (0x2000 <= n
        && n <= 0x200A) || n == 0x2028 || n == 0x2029 || n == 0x202F || n == 0x205F || n == 0x3000
}

/// The characters of `s`, in order.
pub fn chars_of(s: &str) -> (r: Vec<char>)
    ensures
        r@ == s@,
{
    let mut out: Vec<char> = Vec::new();
    for c in it: s.chars()
        invariant
            it.seq() == s@,
            out@ == s@.take(it.index() as int),
    {
        out.push(c);
    }
    out
}

/// Trims the characters from `lo` up to `hi`: returns the bounds of what is
/// left of them once leading and trailing white space is gone. Where nothing
/// is left, both bounds are `hi`.
pub fn trim_range(chars: &Vec<char>, lo: usize, hi: usize) -> (r: (usize, usize))
    requires
        lo <= hi <= chars.len(),
    ensures
        lo <= r.0 <= r.1 <= hi,
        r.0 == lo + leading_blank(chars@.subrange(lo as int, hi as int)),
        chars@.subrange(r.0 as int, r.1 as int) == trimmed(chars@.subrange(lo as int, hi as int)),
{
    let mut start: usize = lo;
    while start < hi && white_space(chars[start])
        invariant
            lo <= start <= hi <= chars.len(),
            trim_start(chars@.subrange(lo as int, hi as int)) == trim_start(
                chars@.subrange(start as int, hi as int),
            ),
        decreases hi - start,
    {
        assert(chars@.subrange(start as int, hi as int).drop_first() == chars@.subrange(
            start + 1,
            hi as int,
        ));
        start += 1;
    }
    let mut end: usize = hi;
    while end > start && white_space(chars[end - 1])
        invariant
            lo <= start <= end <= hi <= chars.len(),
            trim_start(chars@.subrange(lo as int, hi as int)) == chars@.subrange(
                start as int,
                hi as int,
            ),
            trim_end(chars@.subrange(start as int, hi as int)) == trim_end(
                chars@.subrange(start as int, end as int),
            ),
        decreases end - start,
    {
        assert(chars@.subrange(start as int, end as int).drop_last() == chars@.subrange(
            start as int,
            end - 1,
        ));
        end -= 1;
    }
    (start, end)
}

/// Finds the first `c` among the characters from `lo` up to `hi`; returns
/// `hi` where there is none.
pub fn find(chars: &Vec<char>, c: char, lo: usize, hi: usize) -> (r: usize)
    requires
        lo <= hi <= chars.len(),
    ensures
        lo <= r <= hi,
        r == lo + position(chars@.subrange(lo as int, hi as int), c),
{
    let mut at: usize = lo;
    while at < hi && chars[at] != c
        invariant
            lo <= at <= hi <= chars.len(),
            position(chars@.subrange(lo as int, hi as int), c) == (at - lo) + position(
                chars@.subrange(at as int, hi as int),
                c,
            ),
        decreases hi - at,
    {
        assert(chars@.subrange(at as int, hi as int).drop_first() == chars@.subrange(
            at + 1,
            hi as int,
        ));
        at += 1;
    }
    at
}

} // verus!

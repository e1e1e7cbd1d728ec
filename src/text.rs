use vstd::prelude::*;

verus! {

broadcast use vstd::string::axiom_spec_iter;

/// The characters of `s`, in order.
pub fn chars_of(s: &str) -> (r: Vec<char>)
    ensures
        r@ == s@,
{
    let mut out: Vec<char> = Vec::new();
    for c in it: s.chars()
        invariant
            it.seq() == s@,
            out@ == it.seq().take(it.index() as int),
    {
        out.push(c);
    }
    out
}

/// Unicode's White_Space property, the set that `char::is_whitespace` tests.
pub open spec fn is_space(c: char) -> bool {
    let u = c as u32;
    ||| 0x09 <= u <= 0x0d
    ||| u == 0x20
    ||| u == 0x85
    ||| u == 0xa0
    ||| u == 0x1680
    ||| 0x2000 <= u <= 0x200a
    ||| u == 0x2028
    ||| u == 0x2029
    ||| u == 0x202f
    ||| u == 0x205f
    ||| u == 0x3000
}

pub fn space(c: char) -> (r: bool)
    ensures
        r == is_space(c),
{
    let u = c as u32;
    (0x09 <= u && u <= 0x0d) || u == 0x20 || u == 0x85 || u == 0xa0 || u == 0x1680 || (0x2000
        <= u && u <= 0x200a) || u == 0x2028 || u == 0x2029 || u == 0x202f || u == 0x205f || u
        == 0x3000
}

/// `s` without its leading white space.
pub open spec fn trim_start(s: Seq<char>) -> Seq<char>
    decreases s.len(),
{
    if s.len() > 0 && is_space(s[0]) {
        trim_start(s.drop_first())
    } else {
        s
    }
}

/// `s` without its trailing white space.
pub open spec fn trim_end(s: Seq<char>) -> Seq<char>
    decreases s.len(),
{
    if s.len() > 0 && is_space(s.last()) {
        trim_end(s.drop_last())
    } else {
        s
    }
}

/// `s` without white space at either end, as `str::trim` gives it.
pub open spec fn trim(s: Seq<char>) -> Seq<char> {
    trim_end(trim_start(s))
}

/// Whether `s` begins with `p`.
pub open spec fn starts_with(s: Seq<char>, p: Seq<char>) -> bool {
    p.len() <= s.len() && s.take(p.len() as int) == p
}

/// Whether `p` occurs in `s` at some position.
pub open spec fn contains(s: Seq<char>, p: Seq<char>) -> bool {
    exists|i: int| 0 <= i && i + p.len() <= s.len() && #[trigger] s.subrange(i, i + p.len()) == p
}

/// The bounds of `text[start..end]` once white space is cut from both ends.
pub fn trim_span(text: &[char], start: usize, end: usize) -> (r: (usize, usize))
    requires
        start <= end <= text@.len(),
    ensures
        start <= r.0 <= r.1 <= end,
        trim(text@.subrange(start as int, end as int)) == text@.subrange(r.0 as int, r.1 as int),
{
    let mut lo = start;
    while lo < end && space(text[lo])
        invariant
            start <= lo <= end <= text@.len(),
            trim_start(text@.subrange(start as int, end as int)) == trim_start(
                text@.subrange(lo as int, end as int),
            ),
        decreases end - lo,
    {
        assert(text@.subrange(lo as int, end as int).drop_first() =~= text@.subrange(
            lo + 1,
            end as int,
        ));
        lo = lo + 1;
    }
    let mut hi = end;
    while hi > lo && space(text[hi - 1])
        invariant
            start <= lo <= hi <= end <= text@.len(),
            trim_end(text@.subrange(lo as int, end as int)) == trim_end(
                text@.subrange(lo as int, hi as int),
            ),
        decreases hi - lo,
    {
        assert(text@.subrange(lo as int, hi as int).drop_last() =~= text@.subrange(
            lo as int,
            hi - 1,
        ));
        hi = hi - 1;
    }
    (lo, hi)
}

/// Whether `text[start..end]` begins with `p`.
pub fn span_starts_with(text: &[char], start: usize, end: usize, p: &[char]) -> (r: bool)
    requires
        start <= end <= text@.len(),
    ensures
        r == starts_with(text@.subrange(start as int, end as int), p@),
{
    let ghost s = text@.subrange(start as int, end as int);
    if p.len() > end - start {
        return false;
    }
    let mut k: usize = 0;
    while k < p.len()
        invariant
            s == text@.subrange(start as int, end as int),
            p@.len() <= end - start,
            start <= end <= text@.len(),
            k <= p@.len(),
            forall|j: int| 0 <= j < k ==> text@[start + j] == p@[j],
        decreases p.len() - k,
    {
        if text[start + k] != p[k] {
            assert(s.take(p@.len() as int)[k as int] != p@[k as int]);
            return false;
        }
        k = k + 1;
    }
    assert(s.take(p@.len() as int) =~= p@);
    true
}

/// Whether `p` occurs within `text[start..end]`.
pub fn span_contains(text: &[char], start: usize, end: usize, p: &[char]) -> (r: bool)
    requires
        start <= end <= text@.len(),
    ensures
        r == contains(text@.subrange(start as int, end as int), p@),
{
    let ghost s = text@.subrange(start as int, end as int);
    if p.len() > end - start {
        return false;
    }
    if p.len() == 0 {
        assert(s.subrange(0int, 0int + p@.len()) =~= p@);
        return true;
    }
    let last = end - p.len();
    let mut i = start;
    while i <= last
        invariant
            s == text@.subrange(start as int, end as int),
            p@.len() > 0,
            start <= i,
            last + p@.len() == end,
            end <= text@.len(),
            forall|j: int| 0 <= j < i - start ==> #[trigger] s.subrange(j, j + p@.len()) != p@,
        decreases last + 1 - i,
    {
        if span_starts_with(text, i, end, p) {
            assert(s.subrange(i - start, i - start + p@.len()) =~= text@.subrange(
                i as int,
                end as int,
            ).take(p@.len() as int));
            return true;
        }
        assert(s.subrange(i - start, i - start + p@.len()) =~= text@.subrange(
            i as int,
            end as int,
        ).take(p@.len() as int));
        i = i + 1;
    }
    assert forall|j: int| 0 <= j && j + p@.len() <= s.len() implies #[trigger] s.subrange(
        j,
        j + p@.len(),
    ) != p@ by {
        assert(j < i - start);
    }
    false
}

} // verus!

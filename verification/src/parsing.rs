//! Byte-level text scanning shared by the helper-output parser, the
//! period-setter failure classifier, and the process counter: substring
//! search, ASCII trimming, and prefix tests.

use vstd::prelude::*;

verus! {

/// `needle` occurs in `h` starting at `i`.
pub open spec fn matches_at(h: Seq<u8>, needle: Seq<u8>, i: int) -> bool {
    0 <= i && i + needle.len() <= h.len() && h.subrange(i, i + needle.len()) == needle
}

/// The first index at or after `i` where `needle` occurs in `h`, or `-1`.
pub open spec fn spec_find(h: Seq<u8>, needle: Seq<u8>, i: int) -> int
    recommends
        0 <= i,
    decreases h.len() - i + 1,
{
    if i < 0 || i + needle.len() > h.len() {
        -1
    } else if h.subrange(i, i + needle.len()) == needle {
        i
    } else {
        spec_find(h, needle, i + 1)
    }
}

/// `needle` occurs somewhere in `h`.
pub open spec fn contains_sub(h: Seq<u8>, needle: Seq<u8>) -> bool {
    spec_find(h, needle, 0) >= 0
}

/// The number of non-overlapping occurrences of `needle` in `h` at or after
/// `i`, scanning left to right.
pub open spec fn spec_count(h: Seq<u8>, needle: Seq<u8>, i: int) -> int
    recommends
        0 <= i,
        needle.len() >= 1,
    decreases h.len() - i + 1,
{
    if i < 0 || needle.len() == 0 || i + needle.len() > h.len() {
        0
    } else if h.subrange(i, i + needle.len()) == needle {
        1 + spec_count(h, needle, i + needle.len() as int)
    } else {
        spec_count(h, needle, i + 1)
    }
}

/// Whether `h[at..at + n.len()]` equals `n`.
fn eq_at(h: &[u8], at: usize, n: &[u8]) -> (r: bool)
    requires
        at + n@.len() <= h@.len(),
    ensures
        r == (h@.subrange(at as int, at as int + n@.len() as int) == n@),
{
    let hlen = h.len();
    let nlen = n.len();
    let mut k: usize = 0;
    while k < nlen
        invariant
            0 <= k <= nlen,
            nlen == n@.len(),
            hlen == h@.len(),
            at + n@.len() <= h@.len(),
            forall|t: int| 0 <= t < k ==> h@[at + t] == n@[t],
        decreases nlen - k,
    {
        if h[at + k] != n[k] {
            proof {
                assert(h@.subrange(at as int, at as int + n@.len() as int)[k as int] == h@[at
                    + k]);
            }
            return false;
        }
        k = k + 1;
    }
    proof {
        assert(h@.subrange(at as int, at as int + n@.len() as int) =~= n@);
    }
    true
}

/// Find the first occurrence of `needle` in `h` at or after `from`.
pub fn find_sub(h: &[u8], needle: &[u8], from: usize) -> (r: Option<usize>)
    requires
        needle@.len() >= 1,
    ensures
        match r {
            Some(p) => from <= p && p + needle@.len() <= h@.len() && p as int == spec_find(
                h@,
                needle@,
                from as int,
            ) && h@.subrange(p as int, p as int + needle@.len() as int) == needle@,
            None => spec_find(h@, needle@, from as int) == -1,
        },
{
    let hlen = h.len();
    let nlen = needle.len();
    if nlen > hlen || from > hlen - nlen {
        return None;
    }
    let bound = hlen - nlen;
    let mut i: usize = from;
    while i <= bound
        invariant
            from <= i <= bound + 1,
            bound == h@.len() - needle@.len(),
            1 <= needle@.len() <= h@.len(),
            hlen == h@.len(),
            spec_find(h@, needle@, from as int) == spec_find(h@, needle@, i as int),
        decreases bound + 1 - i,
    {
        if eq_at(h, i, needle) {
            return Some(i);
        }
        i = i + 1;
    }
    None
}

/// `p` is a prefix of `h`.
pub open spec fn has_prefix(h: Seq<u8>, p: Seq<u8>) -> bool {
    p.len() <= h.len() && h.subrange(0, p.len() as int) == p
}

/// Whether `p` is a prefix of `h`, executable form.
pub fn has_prefix_exec(h: &[u8], p: &[u8]) -> (r: bool)
    ensures
        r == has_prefix(h@, p@),
{
    if p.len() > h.len() {
        return false;
    }
    eq_at(h, 0, p)
}

/// `needle` occurs somewhere in `h`, executable form.
pub fn contains_sub_exec(h: &[u8], needle: &[u8]) -> (r: bool)
    requires
        needle@.len() >= 1,
    ensures
        r == contains_sub(h@, needle@),
{
    match find_sub(h, needle, 0) {
        Some(_) => true,
        None => false,
    }
}

/// Count the non-overlapping occurrences of `needle` in `h`, scanning from
/// the left, as `str::matches` does.
pub fn count_sub(h: &[u8], needle: &[u8]) -> (r: usize)
    requires
        needle@.len() >= 1,
    ensures
        r as int == spec_count(h@, needle@, 0),
{
    let hlen = h.len();
    let nlen = needle.len();
    if nlen > hlen {
        return 0;
    }
    let bound = hlen - nlen;
    let mut count: usize = 0;
    let mut i: usize = 0;
    while i <= bound
        invariant
            0 <= i <= hlen,
            bound == h@.len() - needle@.len(),
            1 <= needle@.len() <= h@.len(),
            hlen == h@.len(),
            count <= i,
            count as int + spec_count(h@, needle@, i as int) == spec_count(h@, needle@, 0),
        decreases hlen + 1 - i,
    {
        if eq_at(h, i, needle) {
            count = count + 1;
            i = i + needle.len();
        } else {
            i = i + 1;
        }
    }
    count
}

/// ASCII whitespace, as trimmed from helper output.
pub open spec fn is_ws(b: u8) -> bool {
    b == 32 || b == 9 || b == 10 || b == 13
}

/// The first index at or after `i` holding a non-whitespace byte, or the
/// length.
pub open spec fn skip_ws(s: Seq<u8>, i: int) -> int
    recommends
        0 <= i <= s.len(),
    decreases s.len() - i,
{
    if i < 0 || i >= s.len() {
        s.len() as int
    } else if is_ws(s[i]) {
        skip_ws(s, i + 1)
    } else {
        i
    }
}

/// The last index at or before `j` (exclusive) ending a non-whitespace run:
/// the smallest `e <= j` such that everything in `s[e..j]` is whitespace.
pub open spec fn rskip_ws(s: Seq<u8>, j: int) -> int
    recommends
        0 <= j <= s.len(),
    decreases j,
{
    if j <= 0 {
        0
    } else if is_ws(s[j - 1]) {
        rskip_ws(s, j - 1)
    } else {
        j
    }
}

/// `s` with ASCII whitespace removed from both ends.
pub open spec fn spec_trim(s: Seq<u8>) -> Seq<u8> {
    let a = skip_ws(s, 0);
    let b = rskip_ws(s, s.len() as int);
    if a <= b {
        s.subrange(a, b)
    } else {
        Seq::empty()
    }
}

pub proof fn lemma_skip_ws_props(s: Seq<u8>, i: int)
    requires
        0 <= i <= s.len(),
    ensures
        i <= skip_ws(s, i) <= s.len(),
        forall|k: int| i <= k < skip_ws(s, i) ==> is_ws(s[k]),
        skip_ws(s, i) < s.len() ==> !is_ws(s[skip_ws(s, i)]),
    decreases s.len() - i,
{
    if i < s.len() && is_ws(s[i]) {
        lemma_skip_ws_props(s, i + 1);
    }
}

pub proof fn lemma_rskip_ws_props(s: Seq<u8>, j: int)
    requires
        0 <= j <= s.len(),
    ensures
        0 <= rskip_ws(s, j) <= j,
        forall|k: int| rskip_ws(s, j) <= k < j ==> is_ws(s[k]),
        rskip_ws(s, j) > 0 ==> !is_ws(s[rskip_ws(s, j) - 1]),
    decreases j,
{
    if j > 0 && is_ws(s[j - 1]) {
        lemma_rskip_ws_props(s, j - 1);
    }
}

/// The trimmed range `[lo, hi)` of `s[from..to]` within `s`: leading and
/// trailing ASCII whitespace removed.
pub fn trim_range(s: &[u8], from: usize, to: usize) -> (r: (usize, usize))
    requires
        from <= to <= s@.len(),
    ensures
        from <= r.0 <= r.1 <= to,
        s@.subrange(r.0 as int, r.1 as int) == spec_trim(s@.subrange(from as int, to as int)),
{
    let ghost seg = s@.subrange(from as int, to as int);
    let mut lo: usize = from;
    while lo < to && (s[lo] == 32 || s[lo] == 9 || s[lo] == 10 || s[lo] == 13)
        invariant
            from <= lo <= to <= s@.len(),
            forall|k: int| from <= k < lo ==> is_ws(s@[k]),
        decreases to - lo,
    {
        lo = lo + 1;
    }
    let mut hi: usize = to;
    while hi > lo && (s[hi - 1] == 32 || s[hi - 1] == 9 || s[hi - 1] == 10 || s[hi - 1] == 13)
        invariant
            lo <= hi <= to <= s@.len(),
            forall|k: int| hi <= k < to ==> is_ws(s@[k]),
        decreases hi,
    {
        hi = hi - 1;
    }
    proof {
        lemma_trim_range_correct(s@, from as int, to as int, lo as int, hi as int);
    }
    (lo, hi)
}

proof fn lemma_trim_range_correct(s: Seq<u8>, from: int, to: int, lo: int, hi: int)
    requires
        0 <= from <= lo <= to <= s.len(),
        lo <= hi <= to,
        forall|k: int| from <= k < lo ==> is_ws(s[k]),
        forall|k: int| hi <= k < to ==> is_ws(s[k]),
        lo == to || !is_ws(s[lo]),
        hi == lo || !is_ws(s[hi - 1]),
    ensures
        s.subrange(lo, hi) == spec_trim(s.subrange(from, to)),
{
    let seg = s.subrange(from, to);
    lemma_skip_ws_props(seg, 0);
    lemma_rskip_ws_props(seg, seg.len() as int);
    let a = skip_ws(seg, 0);
    let b = rskip_ws(seg, seg.len() as int);
    assert(forall|k: int| 0 <= k < seg.len() ==> seg[k] == s[from + k]);
    if lo == hi {
        // The whole segment is whitespace: both sides are empty.
        assert forall|k: int| 0 <= k < seg.len() implies is_ws(seg[k]) by {
            assert(seg[k] == s[from + k]);
        }
        if b > 0 {
            assert(!is_ws(seg[b - 1]));
            assert(false);
        }
        if a < seg.len() {
            assert(!is_ws(seg[a]));
            assert(false);
        }
        if a <= b {
            assert(a == 0 && b == 0);
            assert(s.subrange(lo, hi) =~= seg.subrange(0, 0));
        } else {
            assert(s.subrange(lo, hi) =~= Seq::<u8>::empty());
        }
    } else {
        // lo < hi, so s[lo] and s[hi - 1] are non-whitespace.
        assert(!is_ws(s[lo]));
        assert(!is_ws(s[hi - 1]));
        if a < lo - from {
            assert(is_ws(s[from + a]));
            assert(!is_ws(seg[a]));
            assert(false);
        }
        if a > lo - from {
            assert(is_ws(seg[lo - from]));
            assert(seg[lo - from] == s[lo]);
            assert(false);
        }
        assert(a == lo - from);
        if b < hi - from {
            assert(is_ws(seg[hi - from - 1]));
            assert(seg[hi - from - 1] == s[hi - 1]);
            assert(false);
        }
        if b > hi - from {
            assert(is_ws(s[from + b - 1]));
            assert(!is_ws(seg[b - 1]));
            assert(false);
        }
        assert(b == hi - from);
        assert(s.subrange(lo, hi) =~= seg.subrange(a, b));
    }
}

} // verus!

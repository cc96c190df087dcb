//! Character-level text utilities shared by the whole library.
//!
//! Text is manipulated as vectors of characters so that indexing is cheap and
//! every transformation can be specified over `Seq<char>`.

use vstd::prelude::*;
use vstd::string::StringSliceAdditionalSpecFns;

verus! {

/// Whitespace as trimming understands it: the characters with the Unicode
/// white-space property.
pub open spec fn is_space(c: char) -> bool {
    ||| c == ' ' || c == '\t' || c == '\n' || c == '\r' || c == '\u{b}' || c == '\u{c}'
    ||| c == '\u{85}' || c == '\u{a0}' || c == '\u{1680}'
    ||| '\u{2000}' <= c <= '\u{200a}'
    ||| c == '\u{2028}' || c == '\u{2029}' || c == '\u{202f}' || c == '\u{205f}' || c == '\u{3000}'
}

pub fn is_space_char(c: char) -> (r: bool)
    ensures
        r == is_space(c),
{
    c == ' ' || c == '\t' || c == '\n' || c == '\r' || c == '\u{b}' || c == '\u{c}'
        || c == '\u{85}' || c == '\u{a0}' || c == '\u{1680}' || ('\u{2000}' <= c && c
        <= '\u{200a}') || c == '\u{2028}' || c == '\u{2029}' || c == '\u{202f}' || c
        == '\u{205f}' || c == '\u{3000}'
}

/// Relies on `str::chars`: yields exactly the characters of the string, in
/// order.
#[verifier::external_body]
pub fn chars_of(s: &str) -> (r: Vec<char>)
    ensures
        r@ == s@,
{
    s.chars().collect()
}

/// Relies on `String`'s `FromIterator<char>`: concatenates exactly the given
/// characters, in order.
#[verifier::external_body]
pub fn string_from_chars(v: &Vec<char>) -> (r: String)
    ensures
        r@ == v@,
{
    v.iter().collect()
}

/// Relies on `str::get` with a byte range: it returns the subslice exactly
/// when the range is ordered, in bounds, and both ends lie on character
/// boundaries — the start and the end of the string count as boundaries.
#[verifier::external_body]
pub fn str_slice<'a>(s: &'a str, from: usize, to: usize) -> (r: Option<&'a str>)
    ensures
        r matches Some(t) ==> t.spec_bytes() == s.spec_bytes().subrange(from as int, to as int),
        from <= to <= s.spec_bytes().len() && (from == 0 || vstd::utf8::is_char_boundary(
            s.spec_bytes(),
            from as int,
        )) && (to == s.spec_bytes().len() || vstd::utf8::is_char_boundary(
            s.spec_bytes(),
            to as int,
        )) ==> r is Some,
{
    s.get(from..to)
}

/// Copy of `v[lo..hi]` as a fresh vector.
pub fn slice_chars(v: &Vec<char>, lo: usize, hi: usize) -> (r: Vec<char>)
    requires
        lo <= hi <= v@.len(),
    ensures
        r@ == v@.subrange(lo as int, hi as int),
{
    let mut r: Vec<char> = Vec::new();
    let mut i: usize = lo;
    while i < hi
        invariant
            lo <= i <= hi <= v@.len(),
            r@ == v@.subrange(lo as int, i as int),
        decreases hi - i,
    {
        r.push(v[i]);
        i = i + 1;
        assert(r@ == v@.subrange(lo as int, i as int));
    }
    r
}

/// First position of `c` in `v` at or after `from`, or `v.len()` if `c` does
/// not occur there.
pub fn find_char_from(v: &Vec<char>, c: char, from: usize) -> (r: usize)
    requires
        from <= v@.len(),
    ensures
        from <= r <= v@.len(),
        r < v@.len() ==> v@[r as int] == c,
        forall|k: int| from <= k < r ==> v@[k] != c,
{
    let mut i: usize = from;
    while i < v.len()
        invariant
            from <= i <= v@.len(),
            forall|k: int| from <= k < i ==> v@[k] != c,
        decreases v@.len() - i,
    {
        if v[i] == c {
            return i;
        }
        i = i + 1;
    }
    i
}

/// Index of the first occurrence of `c` in `s`, or `s.len()` if `c` does not
/// occur.
pub open spec fn spec_find(s: Seq<char>, c: char) -> int
    decreases s.len(),
{
    if s.len() == 0 {
        0
    } else if s[0] == c {
        0
    } else {
        1 + spec_find(s.skip(1), c)
    }
}

pub proof fn lemma_find_bounds(s: Seq<char>, c: char)
    ensures
        0 <= spec_find(s, c) <= s.len(),
        spec_find(s, c) < s.len() ==> s[spec_find(s, c)] == c,
        forall|k: int| 0 <= k < spec_find(s, c) ==> s[k] != c,
    decreases s.len(),
{
    if s.len() > 0 && s[0] != c {
        lemma_find_bounds(s.skip(1), c);
        assert(forall|k: int| 1 <= k < spec_find(s, c) ==> s[k] == s.skip(1)[k - 1]);
    }
}

/// `spec_find` is pinned by its characterization.
pub proof fn lemma_find_unique(s: Seq<char>, c: char, k: int)
    requires
        0 <= k <= s.len(),
        k < s.len() ==> s[k] == c,
        forall|j: int| 0 <= j < k ==> s[j] != c,
    ensures
        spec_find(s, c) == k,
    decreases s.len(),
{
    if s.len() > 0 {
        if s[0] == c {
            assert(k == 0);
        } else {
            assert(k > 0);
            lemma_find_unique(s.skip(1), c, k - 1);
        }
    }
}

/// The sequence with leading whitespace removed.
pub open spec fn spec_trim_start(s: Seq<char>) -> Seq<char>
    decreases s.len(),
{
    if s.len() > 0 && is_space(s[0]) {
        spec_trim_start(s.skip(1))
    } else {
        s
    }
}

/// The sequence with trailing whitespace removed.
pub open spec fn spec_trim_end(s: Seq<char>) -> Seq<char>
    decreases s.len(),
{
    if s.len() > 0 && is_space(s[s.len() - 1]) {
        spec_trim_end(s.take(s.len() - 1))
    } else {
        s
    }
}

/// The sequence with leading and trailing whitespace removed.
pub open spec fn spec_trim(s: Seq<char>) -> Seq<char> {
    spec_trim_end(spec_trim_start(s))
}

proof fn lemma_trim_start_step(s: Seq<char>)
    requires
        s.len() > 0,
        is_space(s[0]),
    ensures
        spec_trim_start(s) == spec_trim_start(s.skip(1)),
{
}

proof fn lemma_trim_end_step(s: Seq<char>)
    requires
        s.len() > 0,
        is_space(s[s.len() - 1]),
    ensures
        spec_trim_end(s) == spec_trim_end(s.take(s.len() - 1)),
{
}

/// Trimming `v[start..end]` yields `v[lo..hi]`; this returns `(lo, hi)`.
pub fn trim_range(v: &Vec<char>, start: usize, end: usize) -> (r: (usize, usize))
    requires
        start <= end <= v@.len(),
    ensures
        start <= r.0 <= r.1 <= end,
        v@.subrange(r.0 as int, r.1 as int) == spec_trim(v@.subrange(start as int, end as int)),
{
    let ghost orig = v@.subrange(start as int, end as int);
    let mut lo: usize = start;
    while lo < end && is_space_char(v[lo])
        invariant
            start <= lo <= end <= v@.len(),
            spec_trim_start(orig) == spec_trim_start(v@.subrange(lo as int, end as int)),
        decreases end - lo,
    {
        proof {
            let cur = v@.subrange(lo as int, end as int);
            lemma_trim_start_step(cur);
            assert(cur.skip(1) == v@.subrange(lo as int + 1, end as int));
        }
        lo = lo + 1;
    }
    proof {
        let cur = v@.subrange(lo as int, end as int);
        assert(spec_trim_start(cur) == cur);
    }
    let ghost started = v@.subrange(lo as int, end as int);
    let mut hi: usize = end;
    while hi > lo && is_space_char(v[hi - 1])
        invariant
            start <= lo <= hi <= end <= v@.len(),
            started == v@.subrange(lo as int, end as int),
            spec_trim_start(started) == started,
            spec_trim_end(started) == spec_trim_end(v@.subrange(lo as int, hi as int)),
        decreases hi,
    {
        proof {
            let cur = v@.subrange(lo as int, hi as int);
            lemma_trim_end_step(cur);
            assert(cur.take(cur.len() - 1) == v@.subrange(lo as int, hi as int - 1));
        }
        hi = hi - 1;
    }
    proof {
        let cur = v@.subrange(lo as int, hi as int);
        assert(spec_trim_end(cur) == cur);
        assert(spec_trim(orig) == spec_trim_end(spec_trim_start(orig)));
    }
    (lo, hi)
}

/// `p` occurs as a contiguous part of `s`.
pub open spec fn spec_contains(s: Seq<char>, p: Seq<char>) -> bool {
    exists|i: int| 0 <= i && i + p.len() <= s.len() && #[trigger] s.subrange(i, i + p.len()) == p
}

/// Whether the pattern occurs as a contiguous part of the text.
pub fn contains_chars(v: &Vec<char>, p: &Vec<char>) -> (r: bool)
    ensures
        r == spec_contains(v@, p@),
{
    let n = v.len();
    let m = p.len();
    if m > n {
        assert(!spec_contains(v@, p@));
        return false;
    }
    let mut i: usize = 0;
    while i <= n - m
        invariant
            m == p@.len(),
            n == v@.len(),
            m <= n,
            i <= n - m + 1,
            forall|k: int| 0 <= k < i ==> #[trigger] v@.subrange(k, k + p@.len()) != p@,
        decreases n - m - i + 1,
    {
        let mut j: usize = 0;
        while j < m && v[i + j] == p[j]
            invariant
                m == p@.len(),
                n == v@.len(),
                i + m <= n,
                j <= m,
                forall|k: int| 0 <= k < j ==> v@[i + k] == p@[k],
            decreases m - j,
        {
            j = j + 1;
        }
        if j == m {
            proof {
                assert(v@.subrange(i as int, i as int + p@.len()) =~= p@);
            }
            return true;
        }
        proof {
            if v@.subrange(i as int, i as int + p@.len()) == p@ {
                assert(v@.subrange(i as int, i as int + p@.len())[j as int] == p@[j as int]);
                assert(v@[i + j] == p@[j as int]);
                assert(false);
            }
        }
        i = i + 1;
    }
    assert forall|k: int| 0 <= k && k + p@.len() <= v@.len() implies #[trigger] v@.subrange(
        k,
        k + p@.len(),
    ) != p@ by {
        assert(k < i);
    }
    false
}

/// Whether two strings hold the same characters.
pub fn str_eq_str(a: &str, b: &str) -> (r: bool)
    ensures
        r == (a@ == b@),
{
    let av = chars_of(a);
    let bv = chars_of(b);
    if av.len() != bv.len() {
        proof {
            assert(a@ != b@);
        }
        return false;
    }
    let mut i: usize = 0;
    while i < av.len()
        invariant
            i <= av@.len(),
            av@ == a@,
            bv@ == b@,
            av@.len() == bv@.len(),
            forall|k: int| 0 <= k < i ==> a@[k] == b@[k],
        decreases av@.len() - i,
    {
        if av[i] != bv[i] {
            return false;
        }
        i = i + 1;
    }
    proof {
        assert(a@ =~= b@);
    }
    true
}

/// Strict lexicographic order on character sequences, by code point.
pub open spec fn spec_str_lt(a: Seq<char>, b: Seq<char>) -> bool
    decreases a.len(),
{
    if b.len() == 0 {
        false
    } else if a.len() == 0 {
        true
    } else if a[0] == b[0] {
        spec_str_lt(a.skip(1), b.skip(1))
    } else {
        (a[0] as u32) < (b[0] as u32)
    }
}

/// The order is strict: two sequences cannot each come before the other.
pub proof fn lemma_str_lt_asymmetric(a: Seq<char>, b: Seq<char>)
    ensures
        !(spec_str_lt(a, b) && spec_str_lt(b, a)),
    decreases a.len(),
{
    if b.len() > 0 && a.len() > 0 && a[0] == b[0] {
        lemma_str_lt_asymmetric(a.skip(1), b.skip(1));
    }
}

proof fn lemma_char_cast_injective(a: char, b: char)
    requires
        (a as u32) == (b as u32),
    ensures
        a == b,
{
}

/// The order is total: of two distinct sequences, one comes first.
pub proof fn lemma_str_lt_total(a: Seq<char>, b: Seq<char>)
    ensures
        spec_str_lt(a, b) || spec_str_lt(b, a) || a == b,
    decreases a.len(),
{
    if a.len() > 0 && b.len() > 0 && a[0] == b[0] {
        lemma_str_lt_total(a.skip(1), b.skip(1));
        if a.skip(1) == b.skip(1) {
            assert(forall|k: int| 1 <= k < a.len() ==> a[k] == a.skip(1)[k - 1]);
            assert(forall|k: int| 1 <= k < b.len() ==> b[k] == b.skip(1)[k - 1]);
            assert(a =~= b);
        }
    } else if a.len() > 0 && b.len() > 0 {
        assert(a[0] != b[0]);
        assert(spec_str_lt(a, b) == ((a[0] as u32) < (b[0] as u32)));
        assert(spec_str_lt(b, a) == ((b[0] as u32) < (a[0] as u32)));
        if !spec_str_lt(a, b) && !spec_str_lt(b, a) {
            let ca = a[0];
            let cb = b[0];
            assert((ca as u32) == (cb as u32));
            assert(ca == cb) by {
                lemma_char_cast_injective(ca, cb);
            }
        }
    } else if a.len() == 0 && b.len() == 0 {
        assert(a =~= b);
    }
}

/// The order is transitive.
pub proof fn lemma_str_lt_transitive(a: Seq<char>, b: Seq<char>, c: Seq<char>)
    requires
        spec_str_lt(a, b),
        spec_str_lt(b, c),
    ensures
        spec_str_lt(a, c),
    decreases a.len(),
{
    assert(b.len() > 0 && c.len() > 0);
    if a.len() == 0 {
    } else {
        if a[0] == b[0] {
            if b[0] == c[0] {
                lemma_str_lt_transitive(a.skip(1), b.skip(1), c.skip(1));
            } else {
                assert((b[0] as u32) < (c[0] as u32));
                assert((a[0] as u32) < (c[0] as u32));
                assert(a[0] != c[0]) by {
                    if a[0] == c[0] {
                        lemma_char_cast_injective(a[0], c[0]);
                    }
                }
            }
        } else {
            assert((a[0] as u32) < (b[0] as u32));
            if b[0] == c[0] {
                assert((a[0] as u32) < (c[0] as u32));
            } else {
                assert((b[0] as u32) < (c[0] as u32));
                assert((a[0] as u32) < (c[0] as u32));
            }
            assert(a[0] != c[0]);
        }
    }
}

/// Whether `a` comes strictly before `b` in lexicographic order.
pub fn str_lt(a: &str, b: &str) -> (r: bool)
    ensures
        r == spec_str_lt(a@, b@),
{
    let av = chars_of(a);
    let bv = chars_of(b);
    proof {
        assert(a@.skip(0) == a@);
        assert(b@.skip(0) == b@);
    }
    let mut i: usize = 0;
    while i < av.len() && i < bv.len() && av[i] == bv[i]
        invariant
            i <= av@.len(),
            i <= bv@.len(),
            av@ == a@,
            bv@ == b@,
            spec_str_lt(a@, b@) == spec_str_lt(a@.skip(i as int), b@.skip(i as int)),
        decreases av@.len() - i,
    {
        proof {
            let sa = a@.skip(i as int);
            let sb = b@.skip(i as int);
            assert(sa[0] == a@[i as int] && sb[0] == b@[i as int]);
            assert(sa.skip(1) =~= a@.skip(i as int + 1));
            assert(sb.skip(1) =~= b@.skip(i as int + 1));
        }
        i = i + 1;
    }
    let ghost sa = a@.skip(i as int);
    let ghost sb = b@.skip(i as int);
    if i == bv.len() {
        proof {
            assert(sb.len() == 0);
        }
        false
    } else if i == av.len() {
        proof {
            assert(sa.len() == 0 && sb.len() > 0);
        }
        true
    } else {
        proof {
            assert(sa.len() > 0 && sb.len() > 0);
            assert(sa[0] == a@[i as int] && sb[0] == b@[i as int]);
            assert(sa[0] != sb[0]);
        }
        (av[i] as u32) < (bv[i] as u32)
    }
}

/// Append every character of `src` to `dst`.
pub fn push_all(dst: &mut Vec<char>, src: &Vec<char>)
    ensures
        final(dst)@ == old(dst)@ + src@,
{
    let mut i: usize = 0;
    while i < src.len()
        invariant
            i <= src@.len(),
            dst@ == old(dst)@ + src@.subrange(0, i as int),
        decreases src@.len() - i,
    {
        dst.push(src[i]);
        i = i + 1;
        assert(dst@ == old(dst)@ + src@.subrange(0, i as int));
    }
    assert(src@.subrange(0, src@.len() as int) == src@);
}

/// Append every character of the literal `s` to `dst`.
pub fn push_str_chars(dst: &mut Vec<char>, s: &str)
    ensures
        final(dst)@ == old(dst)@ + s@,
{
    let v = chars_of(s);
    push_all(dst, &v);
}

} // verus!

//! Relative-path bookkeeping: recognizing Markdown files, deriving output
//! paths, splitting off parent directories, and the deterministic ordering
//! of source paths.
//!
//! Paths here are site-relative strings whose components are separated by
//! `'/'`. The ordering compares paths component by component, which is the
//! order a component-wise path comparison gives; a separator sorts before
//! every other character.

use vstd::prelude::*;
use crate::chars::chars_of;
use crate::chars::slice_chars;
use crate::chars::string_from_chars;
use crate::chars::push_str_chars;
use crate::chars::push_all;

verus! {

/// Position just after the last `'/'` of `s`, or `0` if there is none: the
/// start of the file-name component.
pub open spec fn spec_name_start(s: Seq<char>) -> int
    decreases s.len(),
{
    if s.len() == 0 {
        0
    } else if s[s.len() - 1] == '/' {
        s.len() as int
    } else {
        spec_name_start(s.take(s.len() - 1))
    }
}

proof fn lemma_name_start_bounds(s: Seq<char>)
    ensures
        0 <= spec_name_start(s) <= s.len(),
        forall|k: int| spec_name_start(s) <= k < s.len() ==> s[k] != '/',
        spec_name_start(s) > 0 ==> s[spec_name_start(s) - 1] == '/',
    decreases s.len(),
{
    if s.len() > 0 && s[s.len() - 1] != '/' {
        lemma_name_start_bounds(s.take(s.len() - 1));
        assert(forall|k: int| spec_name_start(s) <= k < s.len() - 1 ==> s.take(s.len() - 1)[k]
            == s[k]);
    }
}

/// The file-name component of `s`: everything after the last `'/'`.
pub open spec fn spec_file_name(s: Seq<char>) -> Seq<char> {
    s.skip(spec_name_start(s))
}

/// The parent of `s`: everything before the last `'/'`, empty when there is
/// no separator.
pub open spec fn spec_parent_dir(s: Seq<char>) -> Seq<char> {
    if spec_name_start(s) == 0 {
        Seq::empty()
    } else {
        s.take(spec_name_start(s) - 1)
    }
}

/// Whether a relative path names a Markdown file: its file-name component
/// has a nonempty stem and the extension `md`.
pub open spec fn spec_is_md_path(s: Seq<char>) -> bool {
    let name = spec_file_name(s);
    name.len() >= 4 && name.skip(name.len() - 3) == seq!['.', 'm', 'd']
}

/// The output path of a Markdown source path: the extension swapped for
/// `html`.
pub open spec fn spec_html_rel(s: Seq<char>) -> Seq<char> {
    s.take(s.len() - 2) + seq!['h', 't', 'm', 'l']
}

/// The site-absolute URL of a page: `'/'` followed by its output path.
pub open spec fn spec_page_url(s: Seq<char>) -> Seq<char> {
    seq!['/'] + spec_html_rel(s)
}

/// The file stem of a Markdown source path: its file name without the
/// trailing `.md`.
pub open spec fn spec_md_stem(s: Seq<char>) -> Seq<char> {
    let name = spec_file_name(s);
    name.take(name.len() - 3)
}

/// Start of the file-name component of `v`.
pub fn name_start(v: &Vec<char>) -> (r: usize)
    ensures
        r == spec_name_start(v@),
        0 <= r <= v@.len(),
{
    proof {
        lemma_name_start_bounds(v@);
        assert(v@.take(v@.len() as int) == v@);
    }
    let mut i: usize = v.len();
    while i > 0
        invariant
            i <= v@.len(),
            spec_name_start(v@) == spec_name_start(v@.take(i as int)),
        decreases i,
    {
        if v[i - 1] == '/' {
            proof {
                assert(v@.take(i as int)[i - 1] == '/');
            }
            return i;
        }
        proof {
            assert(v@.take(i as int)[i - 1] != '/');
            assert(v@.take(i as int).take(i - 1) == v@.take(i - 1));
        }
        i = i - 1;
    }
    proof {
        assert(v@.take(0).len() == 0);
    }
    0
}

/// Whether the path names a Markdown file.
pub fn is_md_path(path: &str) -> (r: bool)
    ensures
        r == spec_is_md_path(path@),
{
    let v = chars_of(path);
    let ns = name_start(&v);
    let name_len = v.len() - ns;
    if name_len < 4 {
        return false;
    }
    let n = v.len();
    let ghost name = spec_file_name(path@);
    proof {
        assert(name == v@.skip(ns as int));
        assert(name.skip(name.len() - 3) =~= v@.subrange(n - 3, n as int));
        assert(seq!['.', 'm', 'd'].len() == 3);
    }
    let r = v[n - 3] == '.' && v[n - 2] == 'm' && v[n - 1] == 'd';
    proof {
        let tail = v@.subrange(n - 3, n as int);
        let pat = seq!['.', 'm', 'd'];
        if v@[n - 3] == '.' && v@[n - 2] == 'm' && v@[n - 1] == 'd' {
            assert(tail =~= pat);
        } else {
            assert(tail[0] == v@[n - 3] && tail[1] == v@[n - 2] && tail[2] == v@[n - 1]);
            assert(pat[0] == '.' && pat[1] == 'm' && pat[2] == 'd');
            assert(tail != pat);
        }
    }
    r
}

/// The output path of a Markdown source path.
pub fn html_rel_path(path: &str) -> (r: String)
    requires
        spec_is_md_path(path@),
    ensures
        r@ == spec_html_rel(path@),
{
    let v = chars_of(path);
    proof {
        lemma_name_start_bounds(v@);
        assert(spec_file_name(v@).len() >= 4);
    }
    let mut out = slice_chars(&v, 0, v.len() - 2);
    push_str_chars(&mut out, "html");
    proof {
        reveal_strlit("html");
        assert("html"@ =~= seq!['h', 't', 'm', 'l']);
    }
    string_from_chars(&out)
}

/// The site-absolute URL of a page.
pub fn page_url(path: &str) -> (r: String)
    requires
        spec_is_md_path(path@),
    ensures
        r@ == spec_page_url(path@),
{
    let v = chars_of(path);
    proof {
        lemma_name_start_bounds(v@);
        assert(spec_file_name(v@).len() >= 4);
    }
    let mut out: Vec<char> = Vec::new();
    out.push('/');
    let body = slice_chars(&v, 0, v.len() - 2);
    push_all(&mut out, &body);
    push_str_chars(&mut out, "html");
    proof {
        reveal_strlit("html");
        assert("html"@ =~= seq!['h', 't', 'm', 'l']);
        assert(out@ =~= spec_page_url(path@));
    }
    string_from_chars(&out)
}

/// The parent directory of a relative path, empty for a root-level file.
pub fn parent_dir(path: &str) -> (r: String)
    ensures
        r@ == spec_parent_dir(path@),
{
    let v = chars_of(path);
    let ns = name_start(&v);
    proof {
        lemma_name_start_bounds(v@);
    }
    if ns == 0 {
        let out: Vec<char> = Vec::new();
        string_from_chars(&out)
    } else {
        let out = slice_chars(&v, 0, ns - 1);
        string_from_chars(&out)
    }
}

/// The file stem of a Markdown source path.
pub fn md_stem(path: &str) -> (r: String)
    requires
        spec_is_md_path(path@),
    ensures
        r@ == spec_md_stem(path@),
{
    let v = chars_of(path);
    let ns = name_start(&v);
    proof {
        lemma_name_start_bounds(v@);
        assert(spec_file_name(v@).len() >= 4);
    }
    let out = slice_chars(&v, ns, v.len() - 3);
    proof {
        let name = spec_file_name(path@);
        assert(name.take(name.len() - 3) =~= v@.subrange(ns as int, v@.len() - 3));
    }
    string_from_chars(&out)
}

/// A Markdown path's characters end in `.md`.
pub proof fn lemma_md_path_suffix(s: Seq<char>)
    requires
        spec_is_md_path(s),
    ensures
        s.len() >= 4,
        s[s.len() - 3] == '.',
        s[s.len() - 2] == 'm',
        s[s.len() - 1] == 'd',
{
    lemma_name_start_bounds(s);
    let name = spec_file_name(s);
    let tail = name.skip(name.len() - 3);
    assert(tail.len() == 3);
    assert(seq!['.', 'm', 'd'][0] == '.');
    assert(tail[0] == '.' && tail[1] == 'm' && tail[2] == 'd');
    assert(name[name.len() - 3] == '.' && name[name.len() - 2] == 'm' && name[name.len() - 1]
        == 'd');
    assert(name[name.len() - 3] == s[s.len() - 3]);
    assert(name[name.len() - 2] == s[s.len() - 2]);
    assert(name[name.len() - 1] == s[s.len() - 1]);
}

/// The output path of a Markdown source ends in `.html`.
pub proof fn lemma_html_rel_ends(s: Seq<char>)
    requires
        spec_is_md_path(s),
    ensures
        spec_html_rel(s).len() == s.len() + 2,
        spec_html_rel(s).skip(spec_html_rel(s).len() - 5) == ".html"@,
{
    lemma_md_path_suffix(s);
    let r = spec_html_rel(s);
    assert(r.len() == s.len() + 2);
    reveal_strlit(".html");
    assert(".html"@.len() == 5);
    let tail = r.skip(r.len() - 5);
    assert(tail[0] == s[s.len() - 3]);
    assert(tail[1] == 'h' && tail[2] == 't' && tail[3] == 'm' && tail[4] == 'l');
    assert(tail =~= ".html"@);
}

/// Distinct Markdown sources get distinct output paths.
pub proof fn lemma_html_rel_injective(a: Seq<char>, b: Seq<char>)
    requires
        spec_is_md_path(a),
        spec_is_md_path(b),
        spec_html_rel(a) == spec_html_rel(b),
    ensures
        a == b,
{
    lemma_md_path_suffix(a);
    lemma_md_path_suffix(b);
    assert(spec_html_rel(a).len() == a.len() + 2);
    assert(spec_html_rel(b).len() == b.len() + 2);
    assert(a.len() == b.len());
    assert(a =~= b) by {
        assert(forall|k: int| 0 <= k < a.len() - 2 ==> a[k] == b[k]) by {
            assert(forall|k: int| 0 <= k < a.len() - 2 ==> a[k] == spec_html_rel(a)[k]);
            assert(forall|k: int| 0 <= k < b.len() - 2 ==> b[k] == spec_html_rel(b)[k]);
        }
        assert(a[a.len() - 2] == 'm' && b[b.len() - 2] == 'm');
        assert(a[a.len() - 1] == 'd' && b[b.len() - 1] == 'd');
    }
}

/// The only Markdown source whose output path is the root index is the
/// root `index.md`.
pub proof fn lemma_html_rel_index(s: Seq<char>)
    requires
        spec_is_md_path(s),
        spec_html_rel(s) == "index.html"@,
    ensures
        s == "index.md"@,
{
    reveal_strlit("index.html");
    reveal_strlit("index.md");
    lemma_md_path_suffix(s);
    assert("index.html"@.len() == 10);
    assert(s.len() == 8);
    assert(s =~= "index.md"@) by {
        assert(forall|k: int| 0 <= k < 6 ==> s[k] == spec_html_rel(s)[k]);
        assert(s[5] == '.' || true);
        assert(spec_html_rel(s)[0] == 'i' && spec_html_rel(s)[1] == 'n' && spec_html_rel(s)[2]
            == 'd' && spec_html_rel(s)[3] == 'e' && spec_html_rel(s)[4] == 'x'
            && spec_html_rel(s)[5] == '.');
        assert(s[6] == 'm' && s[7] == 'd');
        assert("index.md"@[0] == 'i' && "index.md"@[1] == 'n' && "index.md"@[2] == 'd'
            && "index.md"@[3] == 'e' && "index.md"@[4] == 'x' && "index.md"@[5] == '.'
            && "index.md"@[6] == 'm' && "index.md"@[7] == 'd');
    }
}

/// Component-wise order on single characters: the separator sorts first.
pub open spec fn path_char_lt(a: char, b: char) -> bool {
    if a == b {
        false
    } else if a == '/' {
        true
    } else if b == '/' {
        false
    } else {
        (a as u32) < (b as u32)
    }
}

/// Strict component-wise order on paths: the usual lexicographic order,
/// except that the separator sorts before every other character, which makes
/// the order agree with comparing the component sequences.
pub open spec fn spec_path_lt(a: Seq<char>, b: Seq<char>) -> bool
    decreases a.len(),
{
    if b.len() == 0 {
        false
    } else if a.len() == 0 {
        true
    } else if a[0] == b[0] {
        spec_path_lt(a.skip(1), b.skip(1))
    } else {
        path_char_lt(a[0], b[0])
    }
}

/// The order is strict: two paths cannot each come before the other.
pub proof fn lemma_path_lt_asymmetric(a: Seq<char>, b: Seq<char>)
    ensures
        !(spec_path_lt(a, b) && spec_path_lt(b, a)),
    decreases a.len(),
{
    if b.len() > 0 && a.len() > 0 && a[0] == b[0] {
        lemma_path_lt_asymmetric(a.skip(1), b.skip(1));
    }
}

/// Whether `a` comes strictly before `b` in path order.
pub fn path_lt(a: &str, b: &str) -> (r: bool)
    ensures
        r == spec_path_lt(a@, b@),
{
    let av = chars_of(a);
    let bv = chars_of(b);
    proof {
        assert(a@.skip(0) == a@);
        assert(b@.skip(0) == b@);
    }
    let mut i: usize = 0;
    while i < av.len() && i < bv.len() && av[i] == bv[i]
        invariant
            i <= av@.len(),
            i <= bv@.len(),
            av@ == a@,
            bv@ == b@,
            spec_path_lt(a@, b@) == spec_path_lt(a@.skip(i as int), b@.skip(i as int)),
        decreases av@.len() - i,
    {
        proof {
            let sa = a@.skip(i as int);
            let sb = b@.skip(i as int);
            assert(sa[0] == a@[i as int] && sb[0] == b@[i as int]);
            assert(sa.skip(1) =~= a@.skip(i as int + 1));
            assert(sb.skip(1) =~= b@.skip(i as int + 1));
        }
        i = i + 1;
    }
    let ghost sa = a@.skip(i as int);
    let ghost sb = b@.skip(i as int);
    if i == bv.len() {
        proof {
            assert(sb.len() == 0);
        }
        false
    } else if i == av.len() {
        proof {
            assert(sa.len() == 0 && sb.len() > 0);
        }
        true
    } else {
        let ca = av[i];
        let cb = bv[i];
        proof {
            assert(sa.len() > 0 && sb.len() > 0);
            assert(sa[0] == a@[i as int] && sb[0] == b@[i as int]);
            assert(sa[0] != sb[0]);
        }
        if ca == '/' {
            true
        } else if cb == '/' {
            false
        } else {
            (ca as u32) < (cb as u32)
        }
    }
}

} // verus!

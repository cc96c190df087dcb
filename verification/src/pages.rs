//! Page collection: source files, title extraction and the deterministic
//! ordering of the page sequence.

use vstd::prelude::*;
use crate::chars::chars_of;
use crate::chars::find_char_from;
use crate::chars::lemma_find_unique;
use crate::chars::slice_chars;
use crate::chars::spec_find;
use crate::chars::spec_trim;
use crate::chars::string_from_chars;
use crate::chars::trim_range;
use crate::paths::is_md_path;
use crate::paths::md_stem;
use crate::paths::page_url;
use crate::paths::spec_is_md_path;
use crate::paths::spec_md_stem;
use crate::paths::spec_page_url;
use crate::paths::spec_path_lt;
use crate::paths::path_lt;

verus! {

/// One Markdown source file, read by the caller, named by its path relative
/// to the input root.
#[derive(Debug, Clone)]
pub struct SourceFile {
    pub rel_path: String,
    pub content: String,
}

/// Ghost image of a source file.
pub struct SourceV {
    pub rel_path: Seq<char>,
    pub content: Seq<char>,
}

impl View for SourceFile {
    type V = SourceV;

    open spec fn view(&self) -> SourceV {
        SourceV { rel_path: self.rel_path@, content: self.content@ }
    }
}

impl DeepView for SourceFile {
    type V = SourceV;

    open spec fn deep_view(&self) -> SourceV {
        self@
    }
}

/// A page of the generated site: its display title and its site-absolute
/// URL, with the `.html` extension.
#[derive(Debug, Clone)]
pub struct PageInfo {
    pub title: String,
    pub path: String,
}

/// Ghost image of a page.
pub struct PageV {
    pub title: Seq<char>,
    pub path: Seq<char>,
}

impl View for PageInfo {
    type V = PageV;

    open spec fn view(&self) -> PageV {
        PageV { title: self.title@, path: self.path@ }
    }
}

impl DeepView for PageInfo {
    type V = PageV;

    open spec fn deep_view(&self) -> PageV {
        self@
    }
}

/// A line opens a title when it starts with `"# "`.
pub open spec fn spec_is_title_line(l: Seq<char>) -> bool {
    l.len() >= 2 && l[0] == '#' && l[1] == ' '
}

/// The title a title line carries: everything after `"# "`, trimmed.
pub open spec fn spec_title_of_line(l: Seq<char>) -> Seq<char> {
    spec_trim(l.skip(2))
}

/// The title of a document: the first line that starts with `"# "`, with
/// that prefix stripped and the rest trimmed; `None` when no line does.
/// Lines are separated by `'\n'`; a trailing `'\r'` falls to the trim.
pub open spec fn spec_title_scan(s: Seq<char>) -> Option<Seq<char>>
    decreases s.len(),
{
    if s.len() == 0 {
        None
    } else {
        let j = spec_find(s, '\n');
        if 0 <= j < s.len() {
            let line = s.take(j);
            if spec_is_title_line(line) {
                Some(spec_title_of_line(line))
            } else {
                spec_title_scan(s.skip(j + 1))
            }
        } else {
            if spec_is_title_line(s) {
                Some(spec_title_of_line(s))
            } else {
                None
            }
        }
    }
}

/// First level-1 heading of the document, if any.
pub fn extract_title(markdown: &str) -> (r: Option<String>)
    ensures
        r is Some <==> spec_title_scan(markdown@) is Some,
        r matches Some(t) ==> spec_title_scan(markdown@) == Some(t@),
{
    let v = chars_of(markdown);
    let mut pos: usize = 0;
    proof {
        assert(v@.skip(0) == v@);
    }
    while pos < v.len()
        invariant
            pos <= v@.len(),
            v@ == markdown@,
            spec_title_scan(markdown@) == spec_title_scan(v@.skip(pos as int)),
        decreases v@.len() - pos,
    {
        let ghost suf = v@.skip(pos as int);
        let j = find_char_from(&v, '\n', pos);
        proof {
            assert(forall|k: int| 0 <= k < suf.len() ==> suf[k] == v@[pos + k]);
            lemma_find_unique(suf, '\n', j - pos);
            assert(spec_find(suf, '\n') == j - pos);
        }
        let ghost line = suf.take(j - pos);
        proof {
            assert(line =~= v@.subrange(pos as int, j as int));
        }
        let is_title = j - pos >= 2 && v[pos] == '#' && v[pos + 1] == ' ';
        proof {
            if j - pos >= 2 {
                assert(line[0] == v@[pos as int] && line[1] == v@[pos as int + 1]);
            }
            assert(is_title == spec_is_title_line(line));
        }
        if is_title {
            let (lo, hi) = trim_range(&v, pos + 2, j);
            let out = slice_chars(&v, lo, hi);
            proof {
                assert(line.skip(2) =~= v@.subrange(pos as int + 2, j as int));
                assert(spec_title_of_line(line) == spec_trim(
                    v@.subrange(pos as int + 2, j as int),
                ));
                if j < v.len() {
                    assert(spec_title_scan(suf) == Some(spec_title_of_line(line)));
                } else {
                    assert(j == v@.len());
                    assert(suf.take(j - pos) =~= suf);
                    assert(spec_title_scan(suf) == Some(spec_title_of_line(suf)));
                }
            }
            return Some(string_from_chars(&out));
        }
        if j == v.len() {
            proof {
                assert(suf.take(j - pos) =~= suf);
                assert(spec_title_scan(suf) is None);
            }
            return None;
        }
        proof {
            assert(spec_title_scan(suf) == spec_title_scan(suf.skip(j - pos + 1)));
            assert(suf.skip(j - pos + 1) =~= v@.skip(j + 1));
        }
        pos = j + 1;
    }
    proof {
        assert(v@.skip(pos as int).len() == 0);
    }
    None
}

/// A document whose first line opens with `"# "` always gets a title, and
/// the title is that line's remainder, trimmed.
pub proof fn lemma_first_line_titles(s: Seq<char>)
    requires
        s.len() >= 2,
        s[0] == '#',
        s[1] == ' ',
    ensures
        spec_title_scan(s) == Some(
            spec_title_of_line(
                if spec_find(s, '\n') < s.len() {
                    s.take(spec_find(s, '\n'))
                } else {
                    s
                },
            ),
        ),
{
    crate::chars::lemma_find_bounds(s, '\n');
    let j = spec_find(s, '\n');
    if j < s.len() {
        let line = s.take(j);
        assert(j >= 2) by {
            assert(s[0] != '\n' && s[1] != '\n');
        }
        assert(line[0] == '#' && line[1] == ' ');
        assert(spec_is_title_line(line));
    } else {
        assert(spec_is_title_line(s));
    }
}

/// The display title of a page: its first level-1 heading, else its file
/// stem, else a fixed fallback for paths that are not Markdown files.
pub fn page_title(content: &str, rel_path: &str) -> (r: String)
    ensures
        spec_title_scan(content@) matches Some(t) ==> r@ == t,
        spec_title_scan(content@) is None && spec_is_md_path(rel_path@) ==> r@ == spec_md_stem(
            rel_path@,
        ),
        spec_title_scan(content@) is None && !spec_is_md_path(rel_path@) ==> r@ == "Untitled"@,
{
    match extract_title(content) {
        Some(t) => t,
        None => {
            if is_md_path(rel_path) {
                md_stem(rel_path)
            } else {
                "Untitled".to_owned()
            }
        },
    }
}

/// The navigation entry of a source file.
pub fn page_info(content: &str, rel_path: &str) -> (r: PageInfo)
    requires
        spec_is_md_path(rel_path@),
    ensures
        r@ == spec_page_info(content@, rel_path@),
{
    let title = page_title(content, rel_path);
    let path = page_url(rel_path);
    PageInfo { title, path }
}

/// What the navigation entry of a source file holds.
pub open spec fn spec_page_info(content: Seq<char>, rel_path: Seq<char>) -> PageV {
    PageV {
        title: match spec_title_scan(content) {
            Some(t) => t,
            None => spec_md_stem(rel_path),
        },
        path: spec_page_url(rel_path),
    }
}

/// Insert a source into a run already sorted by path, keeping it sorted.
pub open spec fn spec_insert_sorted(x: SourceV, s: Seq<SourceV>) -> Seq<SourceV>
    decreases s.len(),
{
    if s.len() > 0 && spec_path_lt(x.rel_path, s.last().rel_path) {
        spec_insert_sorted(x, s.drop_last()).push(s.last())
    } else {
        s.push(x)
    }
}

/// The page sequence in build order: sorted by path, stably.
pub open spec fn spec_sort_sources(s: Seq<SourceV>) -> Seq<SourceV>
    decreases s.len(),
{
    if s.len() == 0 {
        s
    } else {
        spec_insert_sorted(s.last(), spec_sort_sources(s.drop_last()))
    }
}

/// Adjacent pairs are in order: no later path comes before an earlier one.
pub open spec fn spec_paths_sorted(s: Seq<SourceV>) -> bool {
    forall|k: int| 0 <= k < s.len() - 1 ==> !spec_path_lt(s[k + 1].rel_path, (#[trigger] s[k]).rel_path)
}

proof fn lemma_insert_sorted_multiset(x: SourceV, s: Seq<SourceV>)
    ensures
        spec_insert_sorted(x, s).to_multiset() == s.to_multiset().insert(x),
    decreases s.len(),
{
    broadcast use vstd::seq_lib::group_to_multiset_ensures;

    if s.len() > 0 && spec_path_lt(x.rel_path, s.last().rel_path) {
        lemma_insert_sorted_multiset(x, s.drop_last());
        assert(s =~= s.drop_last().push(s.last()));
        assert(s.drop_last().push(s.last()).to_multiset() == s.drop_last().to_multiset().insert(
            s.last(),
        ));
    }
}

proof fn lemma_insert_sorted_last(x: SourceV, s: Seq<SourceV>)
    ensures
        spec_insert_sorted(x, s).last() == x || spec_insert_sorted(x, s).last() == s.last(),
        spec_insert_sorted(x, s).len() == s.len() + 1,
    decreases s.len(),
{
    if s.len() > 0 && spec_path_lt(x.rel_path, s.last().rel_path) {
        lemma_insert_sorted_last(x, s.drop_last());
    }
}

proof fn lemma_insert_sorted_sorted(x: SourceV, s: Seq<SourceV>)
    requires
        spec_paths_sorted(s),
    ensures
        spec_paths_sorted(spec_insert_sorted(x, s)),
    decreases s.len(),
{
    if s.len() > 0 && spec_path_lt(x.rel_path, s.last().rel_path) {
        assert(spec_paths_sorted(s.drop_last())) by {
            assert(forall|k: int| 0 <= k < s.len() - 2 ==> !spec_path_lt(
                #[trigger] s.drop_last()[k + 1].rel_path,
                s.drop_last()[k].rel_path,
            )) by {
                assert(forall|k: int| 0 <= k < s.len() - 1 ==> !spec_path_lt(
                    s[k + 1].rel_path,
                    #[trigger] s[k].rel_path,
                ));
            }
        }
        lemma_insert_sorted_sorted(x, s.drop_last());
        lemma_insert_sorted_last(x, s.drop_last());
        let t = spec_insert_sorted(x, s.drop_last());
        let r = t.push(s.last());
        assert(t.last() == x || t.last() == s.drop_last().last());
        if t.last() == x {
            crate::paths::lemma_path_lt_asymmetric(x.rel_path, s.last().rel_path);
            assert(!spec_path_lt(s.last().rel_path, t.last().rel_path));
        } else {
            assert(s.drop_last().last() == s[s.len() - 2]);
            assert(!spec_path_lt(s.last().rel_path, t.last().rel_path));
        }
        assert(spec_paths_sorted(r)) by {
            assert(forall|k: int| 0 <= k < r.len() - 1 ==> !spec_path_lt(
                r[k + 1].rel_path,
                #[trigger] r[k].rel_path,
            )) by {
                assert(forall|k: int| 0 <= k < t.len() ==> r[k] == t[k]);
                assert(r[r.len() - 1] == s.last());
                assert(forall|k: int| 0 <= k < t.len() - 1 ==> !spec_path_lt(
                    t[k + 1].rel_path,
                    #[trigger] t[k].rel_path,
                ));
            }
        }
    } else {
        let r = s.push(x);
        assert(forall|k: int| 0 <= k < r.len() - 1 ==> !spec_path_lt(
            r[k + 1].rel_path,
            #[trigger] r[k].rel_path,
        )) by {
            assert(forall|k: int| 0 <= k < s.len() - 1 ==> !spec_path_lt(
                s[k + 1].rel_path,
                #[trigger] s[k].rel_path,
            ));
            assert(forall|k: int| 0 <= k < s.len() ==> r[k] == s[k]);
            if s.len() > 0 {
                assert(r[r.len() - 1] == x && r[r.len() - 2] == s.last());
            }
        }
    }
}

/// Sorting keeps exactly the given sources.
pub proof fn lemma_sort_sources_multiset(s: Seq<SourceV>)
    ensures
        spec_sort_sources(s).to_multiset() == s.to_multiset(),
        spec_sort_sources(s).len() == s.len(),
    decreases s.len(),
{
    broadcast use vstd::seq_lib::group_to_multiset_ensures;

    if s.len() > 0 {
        lemma_sort_sources_multiset(s.drop_last());
        lemma_insert_sorted_multiset(s.last(), spec_sort_sources(s.drop_last()));
        assert(s =~= s.drop_last().push(s.last()));
        assert(s.drop_last().push(s.last()).to_multiset() == s.drop_last().to_multiset().insert(
            s.last(),
        ));
        lemma_insert_sorted_last(s.last(), spec_sort_sources(s.drop_last()));
    }
}

/// The sorted sequence is sorted.
pub proof fn lemma_sort_sources_sorted(s: Seq<SourceV>)
    ensures
        spec_paths_sorted(spec_sort_sources(s)),
    decreases s.len(),
{
    if s.len() > 0 {
        lemma_sort_sources_sorted(s.drop_last());
        lemma_insert_sorted_sorted(s.last(), spec_sort_sources(s.drop_last()));
    }
}

proof fn lemma_insert_at(x: SourceV, s: Seq<SourceV>, j: int)
    requires
        0 <= j <= s.len(),
        forall|k: int| j <= k < s.len() ==> spec_path_lt(x.rel_path, (#[trigger] s[k]).rel_path),
        j > 0 ==> !spec_path_lt(x.rel_path, s[j - 1].rel_path),
    ensures
        spec_insert_sorted(x, s) == s.take(j) + seq![x] + s.skip(j),
    decreases s.len(),
{
    if j == s.len() {
        if s.len() == 0 || !spec_path_lt(x.rel_path, s.last().rel_path) {
            assert(spec_insert_sorted(x, s) == s.push(x));
            assert(s.push(x) =~= s.take(j) + seq![x] + s.skip(j));
        } else {
            assert(spec_path_lt(x.rel_path, s[j - 1].rel_path));
        }
    } else {
        assert(spec_path_lt(x.rel_path, s.last().rel_path));
        lemma_insert_at(x, s.drop_last(), j);
        assert(s.drop_last().take(j) =~= s.take(j));
        assert(spec_insert_sorted(x, s) == (s.take(j) + seq![x] + s.drop_last().skip(j)).push(
            s.last(),
        ));
        assert((s.take(j) + seq![x] + s.drop_last().skip(j)).push(s.last()) =~= s.take(j)
            + seq![x] + s.skip(j));
    }
}

/// Sort the sources by path, stably, into build order.
pub fn sort_sources(src: Vec<SourceFile>) -> (r: Vec<SourceFile>)
    ensures
        r.deep_view() == spec_sort_sources(src.deep_view()),
{
    let mut out: Vec<SourceFile> = Vec::new();
    let mut src = src;
    let ghost all = src.deep_view();
    proof {
        assert(all.take(0) =~= Seq::<SourceV>::empty());
        assert(spec_sort_sources(all.take(0)) =~= out.deep_view());
    }
    let n = src.len();
    let mut idx: usize = 0;
    while idx < n
        invariant
            n == all.len(),
            idx <= n,
            src.deep_view() == all.skip(idx as int),
            out.deep_view() == spec_sort_sources(all.take(idx as int)),
        decreases n - idx,
    {
        let ghost before = src@;
        let ghost dv = all.skip(idx as int);
        proof {
            assert(src.deep_view().len() == src@.len());
            assert(src@.len() == n - idx);
            assert(forall|k: int| 0 <= k < before.len() ==> #[trigger] before[k]@
                == src.deep_view()[k]);
        }
        let x = src.remove(0);
        proof {
            assert(before[0]@ == dv[0]);
            assert(x@ == all[idx as int]);
            assert(src.deep_view() =~= all.skip(idx as int + 1)) by {
                assert(src@ == before.remove(0));
                assert(forall|k: int| 0 <= k < src@.len() ==> src@[k] == before[k + 1]);
                assert(forall|k: int| 0 <= k < src@.len() ==> #[trigger] src.deep_view()[k]
                    == src@[k]@);
                assert(forall|k: int| 0 <= k < src@.len() ==> src@[k]@ == all[idx as int + 1
                    + k]);
            }
        }
        let mut j: usize = out.len();
        while j > 0 && path_lt(x.rel_path.as_str(), out[j - 1].rel_path.as_str())
            invariant
                j <= out@.len(),
                out.deep_view() == spec_sort_sources(all.take(idx as int)),
                x@ == all[idx as int],
                idx < all.len(),
                forall|k: int| j <= k < out@.len() ==> spec_path_lt(
                    x@.rel_path,
                    (#[trigger] out.deep_view()[k]).rel_path,
                ),
            decreases j,
        {
            j = j - 1;
        }
        let ghost prev = out.deep_view();
        out.insert(j, x);
        proof {
            lemma_insert_at(all[idx as int], prev, j as int);
            assert(out.deep_view() =~= prev.take(j as int) + seq![all[idx as int]] + prev.skip(
                j as int,
            ));
            assert(all.take(idx as int + 1).drop_last() =~= all.take(idx as int));
            assert(all.take(idx as int + 1).last() == all[idx as int]);
            assert(out.deep_view() == spec_sort_sources(all.take(idx as int + 1)));
        }
        idx = idx + 1;
    }
    proof {
        assert(all.take(n as int) =~= all);
    }
    out
}

} // verus!

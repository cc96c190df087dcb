//! Navigation assembly: pages grouped into sections by parent directory, a
//! leading "Guide" section for root-level pages, and the global
//! previous/next chain over the sorted page sequence.

use vstd::prelude::*;
use crate::chars::spec_str_lt;
use crate::chars::str_lt;
use crate::pages::PageInfo;
use crate::pages::PageV;
use crate::pages::SourceFile;
use crate::pages::SourceV;
use crate::pages::page_info;
use crate::pages::spec_page_info;
use crate::paths::parent_dir;
use crate::paths::spec_is_md_path;
use crate::paths::spec_parent_dir;

verus! {

/// A named group of pages in the sidebar.
#[derive(Debug, Clone)]
pub struct Section {
    pub title: String,
    pub pages: Vec<PageInfo>,
}

/// Ghost image of a section.
pub struct SectionV {
    pub title: Seq<char>,
    pub pages: Seq<PageV>,
}

impl View for Section {
    type V = SectionV;

    open spec fn view(&self) -> SectionV {
        SectionV { title: self.title@, pages: self.pages.deep_view() }
    }
}

impl DeepView for Section {
    type V = SectionV;

    open spec fn deep_view(&self) -> SectionV {
        self@
    }
}

/// Copy of a page entry.
pub fn clone_page(p: &PageInfo) -> (r: PageInfo)
    ensures
        r@ == p@,
{
    PageInfo { title: p.title.clone(), path: p.path.clone() }
}

/// Copy of a page list.
pub fn clone_pages(v: &Vec<PageInfo>) -> (r: Vec<PageInfo>)
    ensures
        r.deep_view() == v.deep_view(),
{
    let mut r: Vec<PageInfo> = Vec::new();
    let mut i: usize = 0;
    while i < v.len()
        invariant
            i <= v@.len(),
            r@.len() == i,
            forall|k: int| 0 <= k < i ==> #[trigger] r.deep_view()[k] == v.deep_view()[k],
        decreases v@.len() - i,
    {
        let ghost before = r.deep_view();
        let ghost rv_before = r@;
        proof {
            assert(forall|k: int| 0 <= k < rv_before.len() ==> #[trigger] rv_before[k]@
                == before[k]);
        }
        r.push(clone_page(&v[i]));
        proof {
            assert(forall|k: int| 0 <= k < r@.len() ==> #[trigger] r.deep_view()[k] == r@[k]@);
            assert(forall|k: int| 0 <= k < i ==> r@[k] == rv_before[k]);
            assert(v@[i as int]@ == v.deep_view()[i as int]);
        }
        i = i + 1;
    }
    proof {
        assert(r.deep_view() =~= v.deep_view());
    }
    r
}

/// Copy of one section.
pub fn clone_section(s: &Section) -> (r: Section)
    ensures
        r@ == s@,
{
    Section { title: s.title.clone(), pages: clone_pages(&s.pages) }
}

/// Copy of the section tree, shared into every page's context.
pub fn clone_sections(v: &Vec<Section>) -> (r: Vec<Section>)
    ensures
        r.deep_view() == v.deep_view(),
{
    let mut r: Vec<Section> = Vec::new();
    let mut i: usize = 0;
    while i < v.len()
        invariant
            i <= v@.len(),
            r@.len() == i,
            forall|k: int| 0 <= k < i ==> #[trigger] r.deep_view()[k] == v.deep_view()[k],
        decreases v@.len() - i,
    {
        let ghost before = r.deep_view();
        let ghost rv_before = r@;
        proof {
            assert(forall|k: int| 0 <= k < rv_before.len() ==> #[trigger] rv_before[k]@
                == before[k]);
        }
        r.push(clone_section(&v[i]));
        proof {
            assert(forall|k: int| 0 <= k < r@.len() ==> #[trigger] r.deep_view()[k] == r@[k]@);
            assert(forall|k: int| 0 <= k < i ==> r@[k] == rv_before[k]);
            assert(v@[i as int]@ == v.deep_view()[i as int]);
        }
        i = i + 1;
    }
    proof {
        assert(r.deep_view() =~= v.deep_view());
    }
    r
}

/// The navigation entry of one source.
pub open spec fn page_of_source(s: SourceV) -> PageV {
    spec_page_info(s.content, s.rel_path)
}

/// The section key of one source: its parent directory.
pub open spec fn key_of_source(s: SourceV) -> Seq<char> {
    spec_parent_dir(s.rel_path)
}

/// The navigation entries of the whole sequence, in order.
pub open spec fn spec_all_pages(ss: Seq<SourceV>) -> Seq<PageV> {
    ss.map_values(|s: SourceV| page_of_source(s))
}

/// The entries of the root-level sources, in order.
pub open spec fn spec_root_pages(ss: Seq<SourceV>) -> Seq<PageV>
    decreases ss.len(),
{
    if ss.len() == 0 {
        Seq::empty()
    } else if key_of_source(ss.last()).len() == 0 {
        spec_root_pages(ss.drop_last()).push(page_of_source(ss.last()))
    } else {
        spec_root_pages(ss.drop_last())
    }
}

/// Insert one page under its key into the key-ordered directory sections:
/// into the section of that title if it exists, else as a new section at the
/// position the order gives.
pub open spec fn spec_add_to_dirs(dirs: Seq<SectionV>, key: Seq<char>, p: PageV) -> Seq<SectionV>
    decreases dirs.len(),
{
    if dirs.len() == 0 {
        seq![SectionV { title: key, pages: seq![p] }]
    } else if spec_str_lt(dirs[0].title, key) {
        seq![dirs[0]] + spec_add_to_dirs(dirs.skip(1), key, p)
    } else if dirs[0].title == key {
        seq![SectionV { title: key, pages: dirs[0].pages.push(p) }] + dirs.skip(1)
    } else {
        seq![SectionV { title: key, pages: seq![p] }] + dirs
    }
}

/// The directory-derived sections of the sequence, keyed and ordered by
/// parent directory.
pub open spec fn spec_dir_sections(ss: Seq<SourceV>) -> Seq<SectionV>
    decreases ss.len(),
{
    if ss.len() == 0 {
        Seq::empty()
    } else if key_of_source(ss.last()).len() == 0 {
        spec_dir_sections(ss.drop_last())
    } else {
        spec_add_to_dirs(
            spec_dir_sections(ss.drop_last()),
            key_of_source(ss.last()),
            page_of_source(ss.last()),
        )
    }
}

/// The full section list: a "Guide" section holding the root-level pages
/// when there are any, followed by the directory-derived sections.
pub open spec fn spec_sections(ss: Seq<SourceV>) -> Seq<SectionV> {
    if spec_root_pages(ss).len() > 0 {
        seq![SectionV { title: "Guide"@, pages: spec_root_pages(ss) }] + spec_dir_sections(ss)
    } else {
        spec_dir_sections(ss)
    }
}

proof fn lemma_add_at(dirs: Seq<SectionV>, key: Seq<char>, p: PageV, j: int)
    requires
        0 <= j <= dirs.len(),
        forall|k: int| 0 <= k < j ==> spec_str_lt((#[trigger] dirs[k]).title, key),
        j < dirs.len() ==> !spec_str_lt(dirs[j].title, key),
    ensures
        j < dirs.len() && dirs[j].title == key ==> spec_add_to_dirs(dirs, key, p) == dirs.update(
            j,
            SectionV { title: key, pages: dirs[j].pages.push(p) },
        ),
        !(j < dirs.len() && dirs[j].title == key) ==> spec_add_to_dirs(dirs, key, p) == dirs.take(
            j,
        ) + seq![SectionV { title: key, pages: seq![p] }] + dirs.skip(j),
    decreases dirs.len(),
{
    if j == 0 {
        if dirs.len() == 0 {
            assert(spec_add_to_dirs(dirs, key, p) =~= dirs.take(0) + seq![
                SectionV { title: key, pages: seq![p] },
            ] + dirs.skip(0));
        } else if dirs[0].title == key {
            assert(seq![SectionV { title: key, pages: dirs[0].pages.push(p) }] + dirs.skip(1)
                =~= dirs.update(0, SectionV { title: key, pages: dirs[0].pages.push(p) }));
        } else {
            assert(seq![SectionV { title: key, pages: seq![p] }] + dirs =~= dirs.take(0) + seq![
                SectionV { title: key, pages: seq![p] },
            ] + dirs.skip(0));
        }
    } else {
        assert(spec_str_lt(dirs[0].title, key));
        let rest = dirs.skip(1);
        assert(forall|k: int| 0 <= k < j - 1 ==> spec_str_lt((#[trigger] rest[k]).title, key));
        lemma_add_at(rest, key, p, j - 1);
        if j < dirs.len() && dirs[j].title == key {
            assert(rest[j - 1] == dirs[j]);
            assert(seq![dirs[0]] + rest.update(
                j - 1,
                SectionV { title: key, pages: dirs[j].pages.push(p) },
            ) =~= dirs.update(j, SectionV { title: key, pages: dirs[j].pages.push(p) }));
        } else {
            assert(seq![dirs[0]] + (rest.take(j - 1) + seq![
                SectionV { title: key, pages: seq![p] },
            ] + rest.skip(j - 1)) =~= dirs.take(j) + seq![SectionV { title: key, pages: seq![p] }]
                + dirs.skip(j));
        }
    }
}

/// Assembled navigation: every page in order, and the section tree.
pub struct Navigation {
    pub all_pages: Vec<PageInfo>,
    pub sections: Vec<Section>,
}

/// Group the sorted sources into navigation sections.
///
/// Root-level pages form a single leading "Guide" section when present;
/// every other page joins the section of its full parent directory, and
/// those sections are ordered by their key.
pub fn assemble_nav(sources: &Vec<SourceFile>) -> (r: Navigation)
    requires
        forall|k: int| 0 <= k < sources@.len() ==> spec_is_md_path(
            (#[trigger] sources@[k])@.rel_path,
        ),
    ensures
        r.all_pages.deep_view() == spec_all_pages(sources.deep_view()),
        r.sections.deep_view() == spec_sections(sources.deep_view()),
{
    let ghost all = sources.deep_view();
    let mut all_pages: Vec<PageInfo> = Vec::new();
    let mut root: Vec<PageInfo> = Vec::new();
    let mut dirs: Vec<Section> = Vec::new();
    let mut i: usize = 0;
    proof {
        assert(all.take(0) =~= Seq::<SourceV>::empty());
        assert(all_pages.deep_view() =~= spec_all_pages(all.take(0)));
        assert(root.deep_view() =~= spec_root_pages(all.take(0)));
        assert(dirs.deep_view() =~= spec_dir_sections(all.take(0)));
    }
    while i < sources.len()
        invariant
            i <= sources@.len(),
            all == sources.deep_view(),
            all.len() == sources@.len(),
            forall|k: int| 0 <= k < sources@.len() ==> spec_is_md_path(
                (#[trigger] sources@[k])@.rel_path,
            ),
            all_pages.deep_view() == spec_all_pages(all.take(i as int)),
            root.deep_view() == spec_root_pages(all.take(i as int)),
            dirs.deep_view() == spec_dir_sections(all.take(i as int)),
        decreases sources@.len() - i,
    {
        let ghost cur = all[i as int];
        proof {
            assert(sources@[i as int]@ == all[i as int]);
            assert(all.take(i as int + 1).drop_last() =~= all.take(i as int));
            assert(all.take(i as int + 1).last() == cur);
        }
        let src = &sources[i];
        let p = page_info(src.content.as_str(), src.rel_path.as_str());
        let key = parent_dir(src.rel_path.as_str());
        proof {
            assert(p@ == page_of_source(cur));
            assert(key@ == key_of_source(cur));
        }
        all_pages.push(clone_page(&p));
        proof {
            assert(all_pages.deep_view() =~= spec_all_pages(all.take(i as int + 1))) by {
                let prev = spec_all_pages(all.take(i as int));
                let next = spec_all_pages(all.take(i as int + 1));
                assert(next.len() == prev.len() + 1);
                assert(forall|k: int| 0 <= k < prev.len() ==> next[k] == prev[k]);
                assert(next[prev.len() as int] == page_of_source(cur));
            }
        }
        if key.as_str().unicode_len() == 0 {
            root.push(p);
            proof {
                assert(root.deep_view() =~= spec_root_pages(all.take(i as int + 1)));
            }
        } else {
            let ghost dirs0 = dirs.deep_view();
            let mut j: usize = 0;
            while j < dirs.len() && str_lt(dirs[j].title.as_str(), key.as_str())
                invariant
                    j <= dirs@.len(),
                    dirs.deep_view() == dirs0,
                    dirs@.len() == dirs0.len(),
                    key@ == key_of_source(cur),
                    forall|k: int| 0 <= k < j ==> spec_str_lt((#[trigger] dirs0[k]).title, key@),
                decreases dirs@.len() - j,
            {
                proof {
                    assert(dirs@[j as int]@ == dirs0[j as int]);
                }
                j = j + 1;
            }
            proof {
                assert(j < dirs@.len() ==> dirs@[j as int]@ == dirs0[j as int]);
                lemma_add_at(dirs0, key@, page_of_source(cur), j as int);
            }
            let ghost dirs_before = dirs@;
            proof {
                assert(forall|k: int| 0 <= k < dirs_before.len() ==> #[trigger] dirs_before[k]@
                    == dirs0[k]);
            }
            let merge = j < dirs.len() && str_eq(&dirs[j].title, &key);
            if merge {
                let mut sec = dirs.remove(j);
                let ghost sec0 = sec@;
                proof {
                    assert(sec0 == dirs0[j as int]);
                }
                sec.pages.push(p);
                proof {
                    assert(sec@.pages =~= sec0.pages.push(page_of_source(cur))) by {
                        assert(forall|k: int| 0 <= k < sec.pages@.len()
                            ==> #[trigger] sec.pages.deep_view()[k] == sec.pages@[k]@);
                    }
                    assert(sec@.title == key@);
                }
                dirs.insert(j, sec);
                proof {
                    assert(dirs@ =~= dirs_before.update(j as int, sec));
                    assert(dirs.deep_view() =~= dirs0.update(
                        j as int,
                        (SectionV { title: key@, pages: dirs0[j as int].pages.push(
                            page_of_source(cur),
                        ) }),
                    )) by {
                        assert(forall|k: int| 0 <= k < dirs@.len() ==> #[trigger] dirs.deep_view()[
                            k
                        ] == dirs@[k]@);
                        assert(dirs0[j as int].title == key@);
                    }
                    assert(dirs.deep_view() =~= spec_dir_sections(all.take(i as int + 1)));
                }
            } else {
                let sec = Section { title: key, pages: vec![p] };
                proof {
                    assert(sec@.pages =~= seq![page_of_source(cur)]);
                }
                dirs.insert(j, sec);
                proof {
                    assert(dirs.deep_view() =~= dirs0.take(j as int) + seq![
                        SectionV { title: key_of_source(cur), pages: seq![page_of_source(cur)] },
                    ] + dirs0.skip(j as int)) by {
                        assert(forall|k: int| 0 <= k < dirs@.len() ==> #[trigger] dirs.deep_view()[
                            k
                        ] == dirs@[k]@);
                    }
                    assert(dirs.deep_view() =~= spec_dir_sections(all.take(i as int + 1)));
                }
            }
        }
        i = i + 1;
    }
    proof {
        assert(all.take(all.len() as int) =~= all);
    }
    let mut sections: Vec<Section> = Vec::new();
    if root.len() > 0 {
        sections.push(Section { title: "Guide".to_owned(), pages: root });
    } else {
        proof {
            assert(root.deep_view().len() == root@.len());
        }
    }
    let mut dirs = dirs;
    let ghost dirs_v = dirs.deep_view();
    let ghost base = sections.deep_view();
    proof {
        if spec_root_pages(all).len() > 0 {
            assert(base =~= seq![SectionV { title: "Guide"@, pages: spec_root_pages(all) }]);
        } else {
            assert(base =~= Seq::<SectionV>::empty());
        }
    }
    let mut k: usize = 0;
    let n = dirs.len();
    proof {
        assert(dirs_v.take(0) =~= Seq::<SectionV>::empty());
        assert(sections.deep_view() =~= base + dirs_v.take(0));
    }
    while k < n
        invariant
            k <= n,
            dirs@.len() == n - k,
            dirs.deep_view() == dirs_v.skip(k as int),
            dirs_v.len() == n,
            sections.deep_view() == base + dirs_v.take(k as int),
        decreases n - k,
    {
        let ghost before = dirs@;
        proof {
            assert(dirs.deep_view().len() == dirs@.len());
            assert(dirs@.len() == n - k);
            assert(forall|m: int| 0 <= m < before.len() ==> #[trigger] before[m]@
                == dirs.deep_view()[m]);
        }
        let sec = dirs.remove(0);
        proof {
            assert(sec@ == dirs_v[k as int]);
            assert(dirs.deep_view() =~= dirs_v.skip(k as int + 1)) by {
                assert(dirs@ == before.remove(0));
                assert(forall|m: int| 0 <= m < dirs@.len() ==> dirs@[m] == before[m + 1]);
                assert(forall|m: int| 0 <= m < dirs@.len() ==> #[trigger] dirs.deep_view()[m]
                    == dirs@[m]@);
                assert(forall|m: int| 0 <= m < dirs@.len() ==> dirs@[m]@ == dirs_v[k as int + 1
                    + m]);
            }
        }
        let ghost secs_before = sections@;
        let ghost old_dv = sections.deep_view();
        proof {
            assert(forall|m: int| 0 <= m < secs_before.len() ==> #[trigger] secs_before[m]@
                == old_dv[m]);
        }
        sections.push(sec);
        proof {
            assert(sections@ == secs_before.push(sec));
            assert(sections.deep_view() =~= old_dv.push(sec@)) by {
                assert(forall|m: int| 0 <= m < sections@.len() ==> #[trigger] sections.deep_view()[
                    m
                ] == sections@[m]@);
            }
            assert(old_dv.push(sec@) =~= base + dirs_v.take(k as int + 1));
        }
        k = k + 1;
    }
    proof {
        assert(dirs_v.take(n as int) =~= dirs_v);
        assert(sections.deep_view() =~= spec_sections(all));
    }
    Navigation { all_pages, sections }
}

/// Whether two strings hold the same characters.
pub fn str_eq(a: &String, b: &String) -> (r: bool)
    ensures
        r == (a@ == b@),
{
    a.eq(b)
}

/// The neighbor before page `i` of the chain: the page just before it in
/// the global order, if any.
pub open spec fn spec_prev(pages: Seq<PageV>, i: int) -> Option<PageV> {
    if i > 0 {
        Some(pages[i - 1])
    } else {
        None
    }
}

/// The neighbor after page `i` of the chain: the page just after it in the
/// global order, if any.
pub open spec fn spec_next(pages: Seq<PageV>, i: int) -> Option<PageV> {
    if i + 1 < pages.len() {
        Some(pages[i + 1])
    } else {
        None
    }
}

/// The previous and next neighbors of page `i`.
pub fn page_neighbors(pages: &Vec<PageInfo>, i: usize) -> (r: (Option<PageInfo>, Option<PageInfo>))
    requires
        i < pages@.len(),
    ensures
        r.0.deep_view() == spec_prev(pages.deep_view(), i as int),
        r.1.deep_view() == spec_next(pages.deep_view(), i as int),
{
    let n = pages.len();
    let prev = if i > 0 {
        Some(clone_page(&pages[i - 1]))
    } else {
        None
    };
    let next = if i < n - 1 {
        Some(clone_page(&pages[i + 1]))
    } else {
        None
    };
    proof {
        assert(forall|k: int| 0 <= k < pages@.len() ==> #[trigger] pages@[k]@
            == pages.deep_view()[k]);
    }
    (prev, next)
}

/// The previous/next chain is a doubly-linked traversal of the page
/// sequence: the first page has no previous, the last has no next, and each
/// interior page points to its immediate neighbors on both sides.
pub proof fn lemma_prev_next_chain(pages: Seq<PageV>)
    ensures
        pages.len() > 0 ==> spec_prev(pages, 0) is None,
        pages.len() > 0 ==> spec_next(pages, pages.len() - 1) is None,
        forall|i: int| 0 < i < pages.len() ==> spec_prev(pages, i) == Some(pages[i - 1]),
        forall|i: int| 0 <= i < pages.len() - 1 ==> spec_next(pages, i) == Some(pages[i + 1]),
{
}

/// When there are root-level pages, the first section is the "Guide"
/// section, it holds exactly those pages in order, and every
/// directory-derived section comes after it.
pub proof fn lemma_guide_section_first(ss: Seq<SourceV>)
    ensures
        spec_root_pages(ss).len() > 0 ==> spec_sections(ss)[0] == (SectionV {
            title: "Guide"@,
            pages: spec_root_pages(ss),
        }),
        spec_root_pages(ss).len() > 0 ==> spec_sections(ss).len() == 1 + spec_dir_sections(
            ss,
        ).len(),
        spec_root_pages(ss).len() > 0 ==> (forall|k: int|
            1 <= k < spec_sections(ss).len() ==> spec_sections(ss)[k] == spec_dir_sections(ss)[k
                - 1]),
{
    if spec_root_pages(ss).len() > 0 {
        assert(spec_sections(ss)[0] == SectionV { title: "Guide"@, pages: spec_root_pages(ss) });
        assert(forall|k: int| 1 <= k < spec_sections(ss).len() ==> spec_sections(ss)[k]
            == spec_dir_sections(ss)[k - 1]);
    }
}

/// Each section's key comes strictly before the next one's.
pub open spec fn dirs_strictly_sorted(dirs: Seq<SectionV>) -> bool {
    forall|k: int|
        0 <= k < dirs.len() - 1 ==> spec_str_lt((#[trigger] dirs[k]).title, dirs[k + 1].title)
}

proof fn lemma_add_first(dirs: Seq<SectionV>, key: Seq<char>, p: PageV)
    ensures
        spec_add_to_dirs(dirs, key, p).len() >= 1,
        dirs.len() == 0 ==> spec_add_to_dirs(dirs, key, p)[0].title == key,
        dirs.len() > 0 ==> spec_add_to_dirs(dirs, key, p)[0].title == dirs[0].title
            || spec_add_to_dirs(dirs, key, p)[0].title == key,
{
}

proof fn lemma_add_preserves_sorted(dirs: Seq<SectionV>, key: Seq<char>, p: PageV)
    requires
        dirs_strictly_sorted(dirs),
    ensures
        dirs_strictly_sorted(spec_add_to_dirs(dirs, key, p)),
    decreases dirs.len(),
{
    let r = spec_add_to_dirs(dirs, key, p);
    if dirs.len() == 0 {
        assert(r.len() == 1);
    } else if spec_str_lt(dirs[0].title, key) {
        let rest = dirs.skip(1);
        assert(dirs_strictly_sorted(rest)) by {
            assert(forall|k: int| 0 <= k < rest.len() - 1 ==> rest[k] == dirs[k + 1] && rest[k
                + 1] == #[trigger] dirs[k + 2]);
        }
        lemma_add_preserves_sorted(rest, key, p);
        lemma_add_first(rest, key, p);
        let inner = spec_add_to_dirs(rest, key, p);
        assert(r == seq![dirs[0]] + inner);
        assert(spec_str_lt(dirs[0].title, inner[0].title)) by {
            if rest.len() > 0 {
                assert(spec_str_lt(dirs[0].title, dirs[1].title));
                assert(rest[0] == dirs[1]);
            }
        }
        assert(dirs_strictly_sorted(r)) by {
            assert(forall|k: int| 0 <= k < inner.len() ==> r[k + 1] == #[trigger] inner[k]);
            assert(forall|k: int| 0 <= k < inner.len() - 1 ==> spec_str_lt(
                (#[trigger] inner[k]).title,
                inner[k + 1].title,
            ));
        }
    } else if dirs[0].title == key {
        let merged = SectionV { title: key, pages: dirs[0].pages.push(p) };
        assert(r == seq![merged] + dirs.skip(1));
        assert(dirs_strictly_sorted(r)) by {
            assert(forall|k: int| 0 <= k < dirs.len() - 1 ==> r[k + 1] == #[trigger] dirs.skip(1)[
                k
            ]);
            assert(forall|k: int| 0 <= k < dirs.len() - 1 ==> dirs.skip(1)[k] == dirs[k + 1]);
            assert(forall|k: int| 0 <= k < dirs.len() - 1 ==> spec_str_lt(
                (#[trigger] dirs[k]).title,
                dirs[k + 1].title,
            ));
            assert(r[0].title == dirs[0].title);
        }
    } else {
        crate::chars::lemma_str_lt_total(dirs[0].title, key);
        assert(spec_str_lt(key, dirs[0].title));
        let fresh = SectionV { title: key, pages: seq![p] };
        assert(r == seq![fresh] + dirs);
        assert(dirs_strictly_sorted(r)) by {
            assert(forall|k: int| 0 <= k < dirs.len() ==> r[k + 1] == #[trigger] dirs[k]);
            assert(forall|k: int| 0 <= k < dirs.len() - 1 ==> spec_str_lt(
                (#[trigger] dirs[k]).title,
                dirs[k + 1].title,
            ));
        }
    }
}

/// The directory-derived sections stand in strictly increasing key order:
/// one section per distinct parent directory, ordered by that key.
pub proof fn lemma_dir_sections_sorted(ss: Seq<SourceV>)
    ensures
        dirs_strictly_sorted(spec_dir_sections(ss)),
    decreases ss.len(),
{
    if ss.len() > 0 {
        lemma_dir_sections_sorted(ss.drop_last());
        if key_of_source(ss.last()).len() != 0 {
            lemma_add_preserves_sorted(
                spec_dir_sections(ss.drop_last()),
                key_of_source(ss.last()),
                page_of_source(ss.last()),
            );
        }
    }
}

/// The pages of the sources that carry one section key, in input order.
pub open spec fn spec_key_pages(ss: Seq<SourceV>, key: Seq<char>) -> Seq<PageV>
    decreases ss.len(),
{
    if ss.len() == 0 {
        Seq::empty()
    } else if key_of_source(ss.last()) == key {
        spec_key_pages(ss.drop_last(), key).push(page_of_source(ss.last()))
    } else {
        spec_key_pages(ss.drop_last(), key)
    }
}

/// Some section of the run carries this title.
pub open spec fn title_present(dirs: Seq<SectionV>, t: Seq<char>) -> bool {
    exists|j: int| 0 <= j < dirs.len() && (#[trigger] dirs[j]).title == t
}

/// The pages filed under the section of this title, empty when there is no
/// such section.
pub open spec fn pages_of_title(dirs: Seq<SectionV>, t: Seq<char>) -> Seq<PageV> {
    if title_present(dirs, t) {
        dirs[choose|j: int| 0 <= j < dirs.len() && (#[trigger] dirs[j]).title == t].pages
    } else {
        Seq::empty()
    }
}

proof fn lemma_sorted_pairwise(dirs: Seq<SectionV>, i: int, j: int)
    requires
        dirs_strictly_sorted(dirs),
        0 <= i < j < dirs.len(),
    ensures
        spec_str_lt(dirs[i].title, dirs[j].title),
    decreases j - i,
{
    if j == i + 1 {
    } else {
        lemma_sorted_pairwise(dirs, i, j - 1);
        assert(spec_str_lt(dirs[j - 1].title, dirs[j].title));
        crate::chars::lemma_str_lt_transitive(dirs[i].title, dirs[j - 1].title, dirs[j].title);
    }
}

proof fn lemma_title_unique(dirs: Seq<SectionV>, i: int, j: int)
    requires
        dirs_strictly_sorted(dirs),
        0 <= i < dirs.len(),
        0 <= j < dirs.len(),
        dirs[i].title == dirs[j].title,
    ensures
        i == j,
{
    if i < j {
        lemma_sorted_pairwise(dirs, i, j);
        crate::chars::lemma_str_lt_asymmetric(dirs[i].title, dirs[j].title);
    } else if j < i {
        lemma_sorted_pairwise(dirs, j, i);
        crate::chars::lemma_str_lt_asymmetric(dirs[i].title, dirs[j].title);
    }
}

proof fn lemma_pages_of_title_skip(dirs: Seq<SectionV>, t: Seq<char>)
    requires
        dirs_strictly_sorted(dirs),
        dirs.len() > 0,
        dirs[0].title != t,
    ensures
        title_present(dirs, t) == title_present(dirs.skip(1), t),
        pages_of_title(dirs, t) == pages_of_title(dirs.skip(1), t),
{
    let rest = dirs.skip(1);
    assert(dirs_strictly_sorted(rest)) by {
        assert(forall|k: int| 0 <= k < rest.len() - 1 ==> rest[k] == dirs[k + 1] && rest[k + 1]
            == #[trigger] dirs[k + 2]);
    }
    if title_present(dirs, t) {
        let j = choose|j: int| 0 <= j < dirs.len() && (#[trigger] dirs[j]).title == t;
        assert(j >= 1);
        assert(rest[j - 1] == dirs[j]);
        assert(title_present(rest, t));
        let j2 = choose|j2: int| 0 <= j2 < rest.len() && (#[trigger] rest[j2]).title == t;
        assert(rest[j2] == dirs[j2 + 1]);
        lemma_title_unique(dirs, j, j2 + 1);
        assert(pages_of_title(dirs, t) == dirs[j].pages);
        assert(pages_of_title(rest, t) == rest[j2].pages);
    } else {
        if title_present(rest, t) {
            let j2 = choose|j2: int| 0 <= j2 < rest.len() && (#[trigger] rest[j2]).title == t;
            assert(dirs[j2 + 1].title == t);
            assert(false);
        }
    }
}

proof fn lemma_add_structure(dirs: Seq<SectionV>, key: Seq<char>, p: PageV)
    requires
        dirs_strictly_sorted(dirs),
    ensures
        forall|t: Seq<char>| #[trigger] title_present(spec_add_to_dirs(dirs, key, p), t) <==> (
        title_present(dirs, t) || t == key),
        pages_of_title(spec_add_to_dirs(dirs, key, p), key) == pages_of_title(dirs, key).push(p),
        forall|t: Seq<char>| t != key ==> #[trigger] pages_of_title(
            spec_add_to_dirs(dirs, key, p),
            t,
        ) == pages_of_title(dirs, t),
    decreases dirs.len(),
{
    let r = spec_add_to_dirs(dirs, key, p);
    lemma_add_preserves_sorted(dirs, key, p);
    if dirs.len() == 0 {
        assert(r == seq![SectionV { title: key, pages: seq![p] }]);
        assert(r[0].title == key);
        assert forall|t: Seq<char>| #[trigger] title_present(r, t) <==> (title_present(dirs, t)
            || t == key) by {
            if t == key {
                assert(title_present(r, t));
            }
            if title_present(dirs, t) {
                let j = choose|j: int| 0 <= j < dirs.len() && (#[trigger] dirs[j]).title == t;
                assert(false);
            }
        }
        assert(!title_present(dirs, key));
        assert(pages_of_title(dirs, key) =~= Seq::<PageV>::empty());
        assert(pages_of_title(r, key) == r[0].pages) by {
            let j = choose|j: int| 0 <= j < r.len() && (#[trigger] r[j]).title == key;
            assert(j == 0);
        }
        assert(r[0].pages =~= pages_of_title(dirs, key).push(p));
        assert forall|t: Seq<char>| t != key implies #[trigger] pages_of_title(r, t)
            == pages_of_title(dirs, t) by {
            if title_present(r, t) {
                let j = choose|j: int| 0 <= j < r.len() && (#[trigger] r[j]).title == t;
                assert(j == 0 && r[0].title == key);
                assert(false);
            }
        }
    } else if spec_str_lt(dirs[0].title, key) {
        let rest = dirs.skip(1);
        assert(dirs_strictly_sorted(rest)) by {
            assert(forall|k: int| 0 <= k < rest.len() - 1 ==> rest[k] == dirs[k + 1] && rest[k
                + 1] == #[trigger] dirs[k + 2]);
        }
        lemma_add_structure(rest, key, p);
        let inner = spec_add_to_dirs(rest, key, p);
        assert(r == seq![dirs[0]] + inner);
        assert(forall|k: int| 0 <= k < inner.len() ==> r[k + 1] == #[trigger] inner[k]);
        assert(r[0] == dirs[0]);
        crate::chars::lemma_str_lt_asymmetric(dirs[0].title, key);
        assert(dirs[0].title != key);
        // Presence carries over index shifts in both directions.
        assert forall|t: Seq<char>| #[trigger] title_present(r, t) <==> (title_present(dirs, t)
            || t == key) by {
            if title_present(r, t) {
                let j = choose|j: int| 0 <= j < r.len() && (#[trigger] r[j]).title == t;
                if j == 0 {
                    assert(dirs[0].title == t);
                    assert(title_present(dirs, t));
                } else {
                    assert(inner[j - 1].title == t);
                    assert(title_present(inner, t));
                    if t != key {
                        assert(title_present(rest, t));
                        let j2 = choose|j2: int| 0 <= j2 < rest.len() && (#[trigger] rest[j2]).title
                            == t;
                        assert(dirs[j2 + 1].title == t);
                        assert(title_present(dirs, t));
                    }
                }
            }
            if title_present(dirs, t) {
                let j = choose|j: int| 0 <= j < dirs.len() && (#[trigger] dirs[j]).title == t;
                if j == 0 {
                    assert(r[0].title == t);
                    assert(title_present(r, t));
                } else {
                    assert(rest[j - 1].title == t);
                    assert(title_present(rest, t));
                    assert(title_present(inner, t));
                    let j2 = choose|j2: int| 0 <= j2 < inner.len() && (#[trigger] inner[j2]).title
                        == t;
                    assert(r[j2 + 1].title == t);
                    assert(title_present(r, t));
                }
            }
            if t == key {
                assert(title_present(inner, key));
                let j2 = choose|j2: int| 0 <= j2 < inner.len() && (#[trigger] inner[j2]).title
                    == key;
                assert(r[j2 + 1].title == key);
                assert(title_present(r, t));
            }
        }
        // The key's pages: through the shared skip lemmas on both sides.
        lemma_pages_of_title_skip(dirs, key);
        assert(title_present(r, key));
        assert(r[0].title != key);
        lemma_pages_of_title_skip(r, key);
        assert(r.skip(1) =~= inner);
        assert(pages_of_title(r, key) == pages_of_title(inner, key));
        assert(pages_of_title(r, key) == pages_of_title(dirs, key).push(p));
        // Every other title keeps its pages.
        assert forall|t: Seq<char>| t != key implies #[trigger] pages_of_title(r, t)
            == pages_of_title(dirs, t) by {
            if t == dirs[0].title {
                assert(r[0].title == t);
                assert(title_present(r, t) && title_present(dirs, t));
                let j = choose|j: int| 0 <= j < r.len() && (#[trigger] r[j]).title == t;
                lemma_title_unique(r, j, 0);
                let j2 = choose|j2: int| 0 <= j2 < dirs.len() && (#[trigger] dirs[j2]).title == t;
                lemma_title_unique(dirs, j2, 0);
                assert(pages_of_title(r, t) == r[0].pages);
                assert(pages_of_title(dirs, t) == dirs[0].pages);
            } else {
                lemma_pages_of_title_skip(dirs, t);
                lemma_pages_of_title_skip(r, t);
                assert(pages_of_title(r, t) == pages_of_title(inner, t));
                assert(pages_of_title(inner, t) == pages_of_title(rest, t));
                assert(pages_of_title(dirs, t) == pages_of_title(rest, t));
            }
        }
    } else if dirs[0].title == key {
        let merged = SectionV { title: key, pages: dirs[0].pages.push(p) };
        assert(r == seq![merged] + dirs.skip(1));
        assert(forall|k: int| 0 <= k < dirs.len() - 1 ==> r[k + 1] == #[trigger] dirs.skip(1)[k]);
        assert(forall|k: int| 0 <= k < dirs.len() - 1 ==> dirs.skip(1)[k] == dirs[k + 1]);
        assert(r[0] == merged);
        assert forall|t: Seq<char>| #[trigger] title_present(r, t) <==> (title_present(dirs, t)
            || t == key) by {
            if title_present(r, t) {
                let j = choose|j: int| 0 <= j < r.len() && (#[trigger] r[j]).title == t;
                if j == 0 {
                    assert(t == key);
                } else {
                    assert(dirs[j].title == t);
                    assert(title_present(dirs, t));
                }
            }
            if title_present(dirs, t) {
                let j = choose|j: int| 0 <= j < dirs.len() && (#[trigger] dirs[j]).title == t;
                if j == 0 {
                    assert(t == key);
                    assert(r[0].title == t);
                } else {
                    assert(r[j].title == t);
                }
                assert(title_present(r, t));
            }
            if t == key {
                assert(r[0].title == t);
                assert(title_present(r, t));
            }
        }
        assert(pages_of_title(r, key) == merged.pages) by {
            let j = choose|j: int| 0 <= j < r.len() && (#[trigger] r[j]).title == key;
            lemma_title_unique(r, j, 0);
        }
        assert(pages_of_title(dirs, key) == dirs[0].pages) by {
            let j = choose|j: int| 0 <= j < dirs.len() && (#[trigger] dirs[j]).title == key;
            lemma_title_unique(dirs, j, 0);
        }
        assert forall|t: Seq<char>| t != key implies #[trigger] pages_of_title(r, t)
            == pages_of_title(dirs, t) by {
            lemma_pages_of_title_skip(dirs, t);
            lemma_pages_of_title_skip(r, t);
            assert(r.skip(1) =~= dirs.skip(1));
        }
    } else {
        crate::chars::lemma_str_lt_total(dirs[0].title, key);
        assert(spec_str_lt(key, dirs[0].title));
        let fresh = SectionV { title: key, pages: seq![p] };
        assert(r == seq![fresh] + dirs);
        assert(forall|k: int| 0 <= k < dirs.len() ==> r[k + 1] == #[trigger] dirs[k]);
        assert(r[0] == fresh);
        assert(!title_present(dirs, key)) by {
            if title_present(dirs, key) {
                let j = choose|j: int| 0 <= j < dirs.len() && (#[trigger] dirs[j]).title == key;
                if j == 0 {
                    crate::chars::lemma_str_lt_asymmetric(key, dirs[0].title);
                } else {
                    lemma_sorted_pairwise(dirs, 0, j);
                    crate::chars::lemma_str_lt_transitive(key, dirs[0].title, dirs[j].title);
                    crate::chars::lemma_str_lt_asymmetric(key, dirs[j].title);
                }
                assert(false);
            }
        }
        assert forall|t: Seq<char>| #[trigger] title_present(r, t) <==> (title_present(dirs, t)
            || t == key) by {
            if title_present(r, t) {
                let j = choose|j: int| 0 <= j < r.len() && (#[trigger] r[j]).title == t;
                if j == 0 {
                    assert(t == key);
                } else {
                    assert(dirs[j - 1].title == t);
                    assert(title_present(dirs, t));
                }
            }
            if title_present(dirs, t) {
                let j = choose|j: int| 0 <= j < dirs.len() && (#[trigger] dirs[j]).title == t;
                assert(r[j + 1].title == t);
                assert(title_present(r, t));
            }
            if t == key {
                assert(r[0].title == t);
                assert(title_present(r, t));
            }
        }
        assert(pages_of_title(r, key) == fresh.pages) by {
            let j = choose|j: int| 0 <= j < r.len() && (#[trigger] r[j]).title == key;
            lemma_title_unique(r, j, 0);
        }
        assert(pages_of_title(dirs, key) =~= Seq::<PageV>::empty());
        assert(fresh.pages =~= pages_of_title(dirs, key).push(p));
        assert forall|t: Seq<char>| t != key implies #[trigger] pages_of_title(r, t)
            == pages_of_title(dirs, t) by {
            assert(r[0].title != t);
            lemma_pages_of_title_skip(r, t);
            assert(r.skip(1) =~= dirs);
        }
    }
}

/// Every nonempty key is filed exactly: the pages under the section titled
/// `t` are precisely the pages of the sources whose parent directory is
/// `t`, in order — and no section exists for a key with no pages.
pub proof fn lemma_dir_sections_exact(ss: Seq<SourceV>)
    ensures
        forall|t: Seq<char>| t.len() > 0 ==> #[trigger] pages_of_title(spec_dir_sections(ss), t)
            == spec_key_pages(ss, t),
        forall|t: Seq<char>| #[trigger] title_present(spec_dir_sections(ss), t) ==> t.len() > 0,
    decreases ss.len(),
{
    let dirs = spec_dir_sections(ss);
    if ss.len() == 0 {
        assert forall|t: Seq<char>| t.len() > 0 implies #[trigger] pages_of_title(dirs, t)
            == spec_key_pages(ss, t) by {
            if title_present(dirs, t) {
                let j = choose|j: int| 0 <= j < dirs.len() && (#[trigger] dirs[j]).title == t;
                assert(false);
            }
            assert(pages_of_title(dirs, t) =~= spec_key_pages(ss, t));
        }
        assert forall|t: Seq<char>| #[trigger] title_present(dirs, t) implies t.len() > 0 by {
            let j = choose|j: int| 0 <= j < dirs.len() && (#[trigger] dirs[j]).title == t;
            assert(false);
        }
    } else {
        lemma_dir_sections_exact(ss.drop_last());
        lemma_dir_sections_sorted(ss.drop_last());
        let prior = spec_dir_sections(ss.drop_last());
        let last = ss.last();
        let kk = key_of_source(last);
        if kk.len() == 0 {
            assert(dirs == prior);
            assert forall|t: Seq<char>| t.len() > 0 implies #[trigger] pages_of_title(dirs, t)
                == spec_key_pages(ss, t) by {
                assert(kk != t);
                assert(spec_key_pages(ss, t) == spec_key_pages(ss.drop_last(), t));
                assert(pages_of_title(prior, t) == spec_key_pages(ss.drop_last(), t));
            }
        } else {
            let p = page_of_source(last);
            lemma_add_structure(prior, kk, p);
            assert(dirs == spec_add_to_dirs(prior, kk, p));
            assert forall|t: Seq<char>| t.len() > 0 implies #[trigger] pages_of_title(dirs, t)
                == spec_key_pages(ss, t) by {
                if t == kk {
                    assert(pages_of_title(dirs, kk) == pages_of_title(prior, kk).push(p));
                    assert(pages_of_title(prior, kk) == spec_key_pages(ss.drop_last(), kk));
                    assert(spec_key_pages(ss, kk) == spec_key_pages(ss.drop_last(), kk).push(p));
                } else {
                    assert(pages_of_title(dirs, t) == pages_of_title(prior, t));
                    assert(pages_of_title(prior, t) == spec_key_pages(ss.drop_last(), t));
                    assert(spec_key_pages(ss, t) == spec_key_pages(ss.drop_last(), t));
                }
            }
            assert forall|t: Seq<char>| #[trigger] title_present(dirs, t) implies t.len() > 0 by {
                assert(title_present(dirs, t) <==> (title_present(prior, t) || t == kk));
            }
        }
    }
}

/// Total number of pages across a run of sections.
pub open spec fn spec_section_page_count(secs: Seq<SectionV>) -> int
    decreases secs.len(),
{
    if secs.len() == 0 {
        0
    } else {
        spec_section_page_count(secs.drop_last()) + secs.last().pages.len()
    }
}

proof fn lemma_add_to_dirs_count(dirs: Seq<SectionV>, key: Seq<char>, p: PageV)
    ensures
        spec_section_page_count(spec_add_to_dirs(dirs, key, p)) == spec_section_page_count(dirs)
            + 1,
    decreases dirs.len(),
{
    if dirs.len() == 0 {
        let r = spec_add_to_dirs(dirs, key, p);
        assert(r.drop_last() =~= Seq::<SectionV>::empty());
        assert(spec_section_page_count(r.drop_last()) == 0);
        assert(r.last().pages.len() == 1);
        assert(spec_section_page_count(r) == 1);
        assert(spec_section_page_count(dirs) == 0);
    } else if spec_str_lt(dirs[0].title, key) {
        lemma_add_to_dirs_count(dirs.skip(1), key, p);
        let inner = spec_add_to_dirs(dirs.skip(1), key, p);
        let r = seq![dirs[0]] + inner;
        assert(spec_add_to_dirs(dirs, key, p) == r);
        lemma_count_prepend(dirs[0], inner);
        assert(spec_section_page_count(r) == dirs[0].pages.len() + spec_section_page_count(
            inner,
        ));
        lemma_count_prepend(dirs[0], dirs.skip(1));
        assert(seq![dirs[0]] + dirs.skip(1) =~= dirs);
        assert(spec_section_page_count(dirs) == dirs[0].pages.len() + spec_section_page_count(
            dirs.skip(1),
        ));
    } else if dirs[0].title == key {
        let merged = SectionV { title: key, pages: dirs[0].pages.push(p) };
        let r = seq![merged] + dirs.skip(1);
        assert(spec_add_to_dirs(dirs, key, p) == r);
        lemma_count_prepend(merged, dirs.skip(1));
        assert(spec_section_page_count(r) == merged.pages.len() + spec_section_page_count(
            dirs.skip(1),
        ));
        lemma_count_prepend(dirs[0], dirs.skip(1));
        assert(seq![dirs[0]] + dirs.skip(1) =~= dirs);
        assert(spec_section_page_count(dirs) == dirs[0].pages.len() + spec_section_page_count(
            dirs.skip(1),
        ));
        assert(merged.pages.len() == dirs[0].pages.len() + 1);
    } else {
        let fresh = SectionV { title: key, pages: seq![p] };
        let r = seq![fresh] + dirs;
        assert(spec_add_to_dirs(dirs, key, p) == r);
        lemma_count_prepend(fresh, dirs);
        assert(spec_section_page_count(r) == fresh.pages.len() + spec_section_page_count(dirs));
        assert(fresh.pages.len() == 1);
    }
}

proof fn lemma_count_prepend(x: SectionV, s: Seq<SectionV>)
    ensures
        spec_section_page_count(seq![x] + s) == x.pages.len() + spec_section_page_count(s),
    decreases s.len(),
{
    let r = seq![x] + s;
    assert(r.len() == s.len() + 1);
    if s.len() == 0 {
        assert(r.drop_last() =~= Seq::<SectionV>::empty());
        assert(r.last() == x);
        assert(spec_section_page_count(r.drop_last()) == 0);
        assert(spec_section_page_count(r) == spec_section_page_count(r.drop_last())
            + r.last().pages.len());
        assert(spec_section_page_count(s) == 0);
    } else {
        lemma_count_prepend(x, s.drop_last());
        assert(r.drop_last() =~= seq![x] + s.drop_last());
        assert(r.last() == s.last());
        assert(spec_section_page_count(r) == spec_section_page_count(r.drop_last())
            + r.last().pages.len());
        assert(spec_section_page_count(s) == spec_section_page_count(s.drop_last())
            + s.last().pages.len());
    }
}

/// Every page stands in exactly one section: the sections of a source run
/// hold as many page entries as there are sources.
pub proof fn lemma_sections_partition(ss: Seq<SourceV>)
    ensures
        spec_section_page_count(spec_sections(ss)) == ss.len(),
    decreases ss.len(),
{
    lemma_partition_split(ss);
    if spec_root_pages(ss).len() > 0 {
        lemma_count_prepend(
            SectionV { title: "Guide"@, pages: spec_root_pages(ss) },
            spec_dir_sections(ss),
        );
    }
}

proof fn lemma_partition_split(ss: Seq<SourceV>)
    ensures
        spec_root_pages(ss).len() + spec_section_page_count(spec_dir_sections(ss)) == ss.len(),
    decreases ss.len(),
{
    if ss.len() > 0 {
        lemma_partition_split(ss.drop_last());
        if key_of_source(ss.last()).len() == 0 {
        } else {
            lemma_add_to_dirs_count(
                spec_dir_sections(ss.drop_last()),
                key_of_source(ss.last()),
                page_of_source(ss.last()),
            );
        }
    }
}

} // verus!

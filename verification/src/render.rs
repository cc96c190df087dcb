//! The build pipeline: from the collected sources to the full set of
//! output files — one HTML page per source, the landing page, the
//! highlighter's stylesheet and the bundled browser components.

use vstd::prelude::*;
use crate::chars::push_str_chars;
use crate::chars::str_eq_str;
use crate::chars::string_from_chars;
use crate::config::BookConfig;
use crate::engines::tera_add_template;
use crate::engines::tera_new;
use crate::engines::tera_render;
use crate::engines::theme_css;
use crate::engines::theme_css_of;
use crate::highlight::render_markdown;
use crate::highlight::render_markdown_highlighted;
use crate::highlight::spec_highlighted_doc;
use crate::highlight::spec_md_of_config;
use crate::engines::syntax_grammars;
use crate::jsonctx::spec_index_context;
use crate::nav::spec_sections;
use crate::pages::spec_title_scan;
use crate::paths::spec_md_stem;
use vstd::utf8::encode_utf8;
use crate::jsonctx::PageData;
use crate::jsonctx::index_context_json;
use crate::jsonctx::page_context_json;
use crate::nav::assemble_nav;
use crate::nav::spec_all_pages;
use crate::nav::clone_sections;
use crate::nav::page_neighbors;
use crate::pages::SourceFile;
use crate::pages::SourceV;
use crate::pages::page_title;
use crate::pages::sort_sources;
use crate::pages::spec_sort_sources;
use crate::pages::spec_insert_sorted;
use crate::paths::html_rel_path;
use crate::paths::spec_html_rel;
use crate::paths::spec_is_md_path;
use syntect::parsing::SyntaxSet;

verus! {

/// The raw text of the five templates a build renders with.
#[derive(Debug, Clone)]
pub struct TemplateSet {
    pub page: String,
    pub index: String,
    pub sidebar: String,
    pub footer: String,
    pub header: String,
}

/// One file the build wants on disk, named relative to the output root.
#[derive(Debug, Clone)]
pub struct OutputFile {
    pub rel_path: String,
    pub content: String,
}

/// Ghost image of an output file.
pub struct OutputV {
    pub rel_path: Seq<char>,
    pub content: Seq<char>,
}

impl View for OutputFile {
    type V = OutputV;

    open spec fn view(&self) -> OutputV {
        OutputV { rel_path: self.rel_path@, content: self.content@ }
    }
}

impl DeepView for OutputFile {
    type V = OutputV;

    open spec fn deep_view(&self) -> OutputV {
        self@
    }
}

/// Why a build pass failed.
#[derive(Debug)]
pub enum BuildError {
    Template { name: String, detail: String },
    Markdown { path: String, detail: String },
    Render { path: String, detail: String },
    Stylesheet { detail: String },
    InputMissing { path: String },
}

/// The one-line diagnostic of a build failure.
pub open spec fn spec_error_message(e: BuildError) -> Seq<char> {
    match e {
        BuildError::Template { name, detail } => "Failed to add template: "@ + name@ + ": "@
            + detail@,
        BuildError::Markdown { path, detail } => "Markdown conversion error: "@ + path@ + ": "@
            + detail@,
        BuildError::Render { path, detail } => "Failed to render page: "@ + path@ + ": "@
            + detail@,
        BuildError::Stylesheet { detail } => "CSS generation error: "@ + detail@,
        BuildError::InputMissing { path } => "Error: input directory not found: "@ + path@,
    }
}

impl BuildError {
    /// The diagnostic line a caller prints.
    pub fn message(&self) -> (r: String)
        ensures
            r@ == spec_error_message(*self),
    {
        let mut out: Vec<char> = Vec::new();
        match self {
            BuildError::Template { name, detail } => {
                push_str_chars(&mut out, "Failed to add template: ");
                push_str_chars(&mut out, name.as_str());
                push_str_chars(&mut out, ": ");
                push_str_chars(&mut out, detail.as_str());
            },
            BuildError::Markdown { path, detail } => {
                push_str_chars(&mut out, "Markdown conversion error: ");
                push_str_chars(&mut out, path.as_str());
                push_str_chars(&mut out, ": ");
                push_str_chars(&mut out, detail.as_str());
            },
            BuildError::Render { path, detail } => {
                push_str_chars(&mut out, "Failed to render page: ");
                push_str_chars(&mut out, path.as_str());
                push_str_chars(&mut out, ": ");
                push_str_chars(&mut out, detail.as_str());
            },
            BuildError::Stylesheet { detail } => {
                push_str_chars(&mut out, "CSS generation error: ");
                push_str_chars(&mut out, detail.as_str());
            },
            BuildError::InputMissing { path } => {
                push_str_chars(&mut out, "Error: input directory not found: ");
                push_str_chars(&mut out, path.as_str());
            },
        }
        proof {
            assert(out@ =~= spec_error_message(*self));
        }
        string_from_chars(&out)
    }
}

/// Reject a missing input root before any work starts.
pub fn check_input_dir(path: &str, dir_exists: bool) -> (r: Result<(), BuildError>)
    ensures
        r is Ok <==> dir_exists,
        r matches Err(e) ==> e matches BuildError::InputMissing { path: p } && p@ == path@,
        r matches Err(e) ==> spec_error_message(e) == "Error: input directory not found: "@
            + path@,
{
    if dir_exists {
        Ok(())
    } else {
        Err(BuildError::InputMissing { path: path.to_owned() })
    }
}

/// The browser-side components every build writes, with their fixed
/// contents.
pub fn component_assets() -> (r: Vec<OutputFile>)
    ensures
        r.deep_view().len() == 3,
        r.deep_view()[0].rel_path == "components/doc-toc.js"@,
        r.deep_view()[0].content == component_toc_text(),
        r.deep_view()[1].rel_path == "components/simple-block.js"@,
        r.deep_view()[1].content == component_block_text(),
        r.deep_view()[2].rel_path == "components/search-modal.js"@,
        r.deep_view()[2].content == component_search_text(),
{
    let mut r: Vec<OutputFile> = Vec::new();
    r.push(
        OutputFile {
            rel_path: "components/doc-toc.js".to_owned(),
            content: component_toc_source().to_owned(),
        },
    );
    r.push(
        OutputFile {
            rel_path: "components/simple-block.js".to_owned(),
            content: component_block_source().to_owned(),
        },
    );
    r.push(
        OutputFile {
            rel_path: "components/search-modal.js".to_owned(),
            content: component_search_source().to_owned(),
        },
    );
    r
}

/// The table-of-contents component script.
pub open spec fn component_toc_text() -> Seq<char> {
    "class DocToc extends HTMLElement{connectedCallback(){const h=document.querySelectorAll('main h2, main h3');const ul=document.createElement('ul');h.forEach(x=>{if(!x.id){x.id=x.textContent.trim().toLowerCase().replace(/[^a-z0-9]+/g,'-');}const li=document.createElement('li');li.className=x.tagName.toLowerCase();const a=document.createElement('a');a.href='#'+x.id;a.textContent=x.textContent;li.appendChild(a);ul.appendChild(li);});this.appendChild(ul);}}customElements.define('doc-toc',DocToc);\n"@
}

fn component_toc_source() -> (r: &'static str)
    ensures
        r@ == component_toc_text(),
{
    "class DocToc extends HTMLElement{connectedCallback(){const h=document.querySelectorAll('main h2, main h3');const ul=document.createElement('ul');h.forEach(x=>{if(!x.id){x.id=x.textContent.trim().toLowerCase().replace(/[^a-z0-9]+/g,'-');}const li=document.createElement('li');li.className=x.tagName.toLowerCase();const a=document.createElement('a');a.href='#'+x.id;a.textContent=x.textContent;li.appendChild(a);ul.appendChild(li);});this.appendChild(ul);}}customElements.define('doc-toc',DocToc);\n"
}

/// The generic content-block component script.
pub open spec fn component_block_text() -> Seq<char> {
    "class SimpleBlock extends HTMLElement{connectedCallback(){this.classList.add('simple-block');const kind=this.getAttribute('kind')||'note';this.classList.add('simple-block-'+kind);}}customElements.define('simple-block',SimpleBlock);\n"@
}

fn component_block_source() -> (r: &'static str)
    ensures
        r@ == component_block_text(),
{
    "class SimpleBlock extends HTMLElement{connectedCallback(){this.classList.add('simple-block');const kind=this.getAttribute('kind')||'note';this.classList.add('simple-block-'+kind);}}customElements.define('simple-block',SimpleBlock);\n"
}

/// The search-modal component script.
pub open spec fn component_search_text() -> Seq<char> {
    "class SearchModal extends HTMLElement{connectedCallback(){const b=document.createElement('button');b.textContent='Search';b.addEventListener('click',()=>this.open());this.appendChild(b);document.addEventListener('keydown',e=>{if((e.metaKey||e.ctrlKey)&&e.key==='k'){e.preventDefault();this.open();}});}open(){let d=this.querySelector('dialog');if(!d){d=document.createElement('dialog');const i=document.createElement('input');i.type='search';i.placeholder='Search the book';d.appendChild(i);this.appendChild(d);}d.showModal();}}customElements.define('search-modal',SearchModal);\n"@
}

fn component_search_source() -> (r: &'static str)
    ensures
        r@ == component_search_text(),
{
    "class SearchModal extends HTMLElement{connectedCallback(){const b=document.createElement('button');b.textContent='Search';b.addEventListener('click',()=>this.open());this.appendChild(b);document.addEventListener('keydown',e=>{if((e.metaKey||e.ctrlKey)&&e.key==='k'){e.preventDefault();this.open();}});}open(){let d=this.querySelector('dialog');if(!d){d=document.createElement('dialog');const i=document.createElement('input');i.type='search';i.placeholder='Search the book';d.appendChild(i);this.appendChild(d);}d.showModal();}}customElements.define('search-modal',SearchModal);\n"
}

/// The HTML body of one page under a configuration, with or without
/// highlighting grammars.
pub open spec fn spec_page_body(
    content: Seq<u8>,
    c: BookConfig,
    g: Option<Set<Seq<char>>>,
) -> Seq<char> {
    match g {
        Some(gr) => spec_highlighted_doc(content, c, gr),
        None => spec_md_of_config(content, c),
    }
}

/// The grammars a build highlights with, if any.
pub open spec fn spec_grammars_opt(h: Option<&SyntaxSet>) -> Option<Set<Seq<char>>> {
    match h {
        Some(s) => Some(syntax_grammars(*s)),
        None => None,
    }
}

/// The first source whose path is the root `index.md`, if any.
pub open spec fn spec_find_root_index(ss: Seq<SourceV>) -> Option<SourceV>
    decreases ss.len(),
{
    if ss.len() == 0 {
        None
    } else if ss[0].rel_path == "index.md"@ {
        Some(ss[0])
    } else {
        spec_find_root_index(ss.skip(1))
    }
}

/// What the landing page takes from the root `index.md`: its title and its
/// rendered body, present exactly when that source exists.
pub open spec fn spec_root_index(
    ss: Seq<SourceV>,
    c: BookConfig,
    g: Option<Set<Seq<char>>>,
) -> Option<(Seq<char>, Seq<char>)> {
    match spec_find_root_index(ss) {
        Some(s) => Some(
            (
                (match spec_title_scan(s.content) {
                    Some(t) => t,
                    None => spec_md_stem(s.rel_path),
                }),
                spec_page_body(encode_utf8(s.content), c, g),
            ),
        ),
        None => None,
    }
}

/// The context the landing page renders with, over the sorted sources.
pub open spec fn spec_landing_context(
    ss: Seq<SourceV>,
    c: BookConfig,
    year: Seq<char>,
    g: Option<Set<Seq<char>>>,
) -> Seq<char> {
    spec_index_context(year, c, spec_sections(ss), spec_root_index(ss, c, g))
}

/// Ghost image of the landing pieces a build found.
pub open spec fn spec_index_pair_view(p: Option<(String, String)>) -> Option<(
    Seq<char>,
    Seq<char>,
)> {
    match p {
        Some(tc) => Some((tc.0@, tc.1@)),
        None => None,
    }
}

/// What a finished build hands back: the files to write, in order, how
/// many pages went in, and the context the landing page was rendered with.
#[derive(Debug)]
pub struct BuildOutput {
    pub files: Vec<OutputFile>,
    pub total_pages: usize,
    pub index_context: String,
}

proof fn lemma_insert_keeps_md(x: SourceV, s: Seq<SourceV>)
    requires
        spec_is_md_path(x.rel_path),
        forall|k: int| 0 <= k < s.len() ==> spec_is_md_path((#[trigger] s[k]).rel_path),
    ensures
        forall|k: int| 0 <= k < spec_insert_sorted(x, s).len() ==> spec_is_md_path(
            (#[trigger] spec_insert_sorted(x, s)[k]).rel_path,
        ),
    decreases s.len(),
{
    if s.len() > 0 && crate::paths::spec_path_lt(x.rel_path, s.last().rel_path) {
        assert(forall|k: int| 0 <= k < s.len() - 1 ==> spec_is_md_path(
            (#[trigger] s.drop_last()[k]).rel_path,
        ));
        lemma_insert_keeps_md(x, s.drop_last());
        let r = spec_insert_sorted(x, s.drop_last()).push(s.last());
        assert(forall|k: int| 0 <= k < r.len() - 1 ==> r[k] == spec_insert_sorted(
            x,
            s.drop_last(),
        )[k]);
        assert(r[r.len() - 1] == s.last());
    } else {
        let r = s.push(x);
        assert(forall|k: int| 0 <= k < r.len() - 1 ==> r[k] == s[k]);
        assert(r[r.len() - 1] == x);
    }
}

/// Sorting keeps every path a Markdown path.
pub proof fn lemma_sort_keeps_md(s: Seq<SourceV>)
    requires
        forall|k: int| 0 <= k < s.len() ==> spec_is_md_path((#[trigger] s[k]).rel_path),
    ensures
        forall|k: int| 0 <= k < spec_sort_sources(s).len() ==> spec_is_md_path(
            (#[trigger] spec_sort_sources(s)[k]).rel_path,
        ),
    decreases s.len(),
{
    if s.len() > 0 {
        assert(forall|k: int| 0 <= k < s.len() - 1 ==> spec_is_md_path(
            (#[trigger] s.drop_last()[k]).rel_path,
        ));
        lemma_sort_keeps_md(s.drop_last());
        crate::pages::lemma_sort_sources_multiset(s.drop_last());
        lemma_insert_keeps_md(s.last(), spec_sort_sources(s.drop_last()));
    }
}

/// The output paths of a build, in the order the files come back: the
/// highlighter stylesheet when highlighting is on, one HTML file per page
/// in sorted order, the landing page, and the three components.
pub open spec fn spec_output_paths(ss: Seq<SourceV>, with_css: bool) -> Seq<Seq<char>> {
    (if with_css {
        seq!["css/syntax.css"@]
    } else {
        Seq::empty()
    }) + ss.map_values(|s: SourceV| spec_html_rel(s.rel_path)) + seq!["index.html"@] + seq![
        "components/doc-toc.js"@,
        "components/simple-block.js"@,
        "components/search-modal.js"@,
    ]
}

/// How many of the paths name `.html` files.
pub open spec fn count_html(paths: Seq<Seq<char>>) -> int
    decreases paths.len(),
{
    if paths.len() == 0 {
        0int
    } else {
        count_html(paths.drop_last()) + (if crate::config::spec_ends_with(
            paths.last(),
            ".html"@,
        ) {
            1int
        } else {
            0int
        })
    }
}

proof fn lemma_count_html_concat(a: Seq<Seq<char>>, b: Seq<Seq<char>>)
    ensures
        count_html(a + b) == count_html(a) + count_html(b),
    decreases b.len(),
{
    if b.len() == 0 {
        assert(a + b =~= a);
    } else {
        lemma_count_html_concat(a, b.drop_last());
        assert((a + b).drop_last() =~= a + b.drop_last());
        assert((a + b).last() == b.last());
    }
}

proof fn lemma_ends_html(p: Seq<char>)
    requires
        p.len() >= 5,
        p.skip(p.len() - 5) == ".html"@,
    ensures
        crate::config::spec_ends_with(p, ".html"@),
{
    reveal_strlit(".html");
}

proof fn lemma_not_ends_html(p: Seq<char>)
    requires
        p.len() >= 1,
        p[p.len() - 1] != 'l',
    ensures
        !crate::config::spec_ends_with(p, ".html"@),
{
    reveal_strlit(".html");
    if crate::config::spec_ends_with(p, ".html"@) {
        assert(p.skip(p.len() - 5)[4] == p[p.len() - 1]);
        assert(".html"@[4] == 'l');
        assert(false);
    }
}

proof fn lemma_count_pages(ss: Seq<SourceV>)
    requires
        forall|k: int| 0 <= k < ss.len() ==> spec_is_md_path((#[trigger] ss[k]).rel_path),
    ensures
        count_html(ss.map_values(|s: SourceV| spec_html_rel(s.rel_path))) == ss.len(),
    decreases ss.len(),
{
    let mapped = ss.map_values(|s: SourceV| spec_html_rel(s.rel_path));
    if ss.len() == 0 {
    } else {
        assert(forall|k: int| 0 <= k < ss.len() - 1 ==> spec_is_md_path(
            (#[trigger] ss.drop_last()[k]).rel_path,
        ));
        lemma_count_pages(ss.drop_last());
        assert(mapped.drop_last() =~= ss.drop_last().map_values(
            |s: SourceV| spec_html_rel(s.rel_path),
        ));
        assert(ss[ss.len() - 1] == ss.last());
        assert(spec_is_md_path(ss.last().rel_path));
        crate::paths::lemma_md_path_suffix(ss.last().rel_path);
        crate::paths::lemma_html_rel_ends(ss.last().rel_path);
        lemma_ends_html(spec_html_rel(ss.last().rel_path));
        assert(mapped.last() == spec_html_rel(ss.last().rel_path));
    }
}

/// Every input tree yields one `.html` file per Markdown source, plus
/// exactly the one root `index.html`: of the paths a build writes, the
/// `.html` ones number the sources plus one, and when the sources' paths
/// are distinct and none of them is the root `index.md`, all output paths
/// are distinct, so that many distinct files land on disk.
#[verifier::rlimit(100)]
pub proof fn lemma_output_file_count(ss: Seq<SourceV>, with_css: bool)
    requires
        forall|k: int| 0 <= k < ss.len() ==> spec_is_md_path((#[trigger] ss[k]).rel_path),
        forall|i: int, j: int|
            0 <= i < j < ss.len() ==> (#[trigger] ss[i]).rel_path != (#[trigger] ss[j]).rel_path,
        forall|k: int| 0 <= k < ss.len() ==> (#[trigger] ss[k]).rel_path != "index.md"@,
    ensures
        count_html(spec_output_paths(ss, with_css)) == ss.len() + 1,
        forall|i: int, j: int|
            0 <= i < j < spec_output_paths(ss, with_css).len() ==> #[trigger] spec_output_paths(
                ss,
                with_css,
            )[i] != #[trigger] spec_output_paths(ss, with_css)[j],
{
    reveal_strlit(".html");
    reveal_strlit("index.html");
    reveal_strlit("css/syntax.css");
    reveal_strlit("components/doc-toc.js");
    reveal_strlit("components/simple-block.js");
    reveal_strlit("components/search-modal.js");
    let css_part: Seq<Seq<char>> = if with_css {
        seq!["css/syntax.css"@]
    } else {
        Seq::empty()
    };
    let mapped = ss.map_values(|s: SourceV| spec_html_rel(s.rel_path));
    let tail_part = seq!["index.html"@] + seq![
        "components/doc-toc.js"@,
        "components/simple-block.js"@,
        "components/search-modal.js"@,
    ];
    let all = spec_output_paths(ss, with_css);
    let cn = css_part.len();
    let n = ss.len();
    assert(all =~= css_part + mapped + tail_part);
    // The count: only the page files and the index are HTML.
    lemma_count_html_concat(css_part + mapped, tail_part);
    lemma_count_html_concat(css_part, mapped);
    lemma_count_pages(ss);
    assert(count_html(Seq::<Seq<char>>::empty()) == 0);
    assert(count_html(css_part) == 0) by {
        assert(count_html(Seq::<Seq<char>>::empty()) == 0);
        if with_css {
            assert("css/syntax.css"@.len() == 14 && "css/syntax.css"@[13] == 's');
            lemma_not_ends_html("css/syntax.css"@);
            assert(css_part.drop_last() =~= Seq::<Seq<char>>::empty());
            assert(css_part.last() == "css/syntax.css"@);
            assert(count_html(css_part) == count_html(css_part.drop_last()) + 0);
        }
    }
    assert(count_html(tail_part) == 1) by {
        assert(count_html(Seq::<Seq<char>>::empty()) == 0);
        assert("index.html"@.len() == 10);
        assert("index.html"@.skip(5) =~= ".html"@);
        lemma_ends_html("index.html"@);
        assert("components/doc-toc.js"@.len() == 21 && "components/doc-toc.js"@[20] == 's');
        assert("components/simple-block.js"@.len() == 26 && "components/simple-block.js"@[25]
            == 's');
        assert("components/search-modal.js"@.len() == 26 && "components/search-modal.js"@[25]
            == 's');
        lemma_not_ends_html("components/doc-toc.js"@);
        lemma_not_ends_html("components/simple-block.js"@);
        lemma_not_ends_html("components/search-modal.js"@);
        let t1 = tail_part.drop_last();
        let t2 = t1.drop_last();
        let t3 = t2.drop_last();
        assert(tail_part.last() == "components/search-modal.js"@);
        assert(t1.last() == "components/simple-block.js"@);
        assert(t2.last() == "components/doc-toc.js"@);
        assert(t3.last() == "index.html"@);
        assert(t3.drop_last() =~= Seq::<Seq<char>>::empty());
        assert(count_html(t3) == 1);
        assert(count_html(t2) == 1);
        assert(count_html(t1) == 1);
    }
    assert(count_html(all) == ss.len() + 1);
    // Distinctness: page paths are injective images of distinct sources;
    // the page paths avoid the root index by assumption; everything else
    // is told apart by its fixed suffix or literal content.
    assert(forall|i: int, j: int| 0 <= i < j < all.len() ==> #[trigger] all[i] != #[trigger] all[
        j
    ]) by {
        assert forall|i: int, j: int| 0 <= i < j < all.len() implies #[trigger] all[i]
            != #[trigger] all[j] by {
            lemma_paths_pairwise(ss, with_css, i, j);
        }
    }
}

#[verifier::rlimit(100)]
proof fn lemma_paths_pairwise(ss: Seq<SourceV>, with_css: bool, i: int, j: int)
    requires
        forall|k: int| 0 <= k < ss.len() ==> spec_is_md_path((#[trigger] ss[k]).rel_path),
        forall|i0: int, j0: int|
            0 <= i0 < j0 < ss.len() ==> (#[trigger] ss[i0]).rel_path != (
            #[trigger] ss[j0]).rel_path,
        forall|k: int| 0 <= k < ss.len() ==> (#[trigger] ss[k]).rel_path != "index.md"@,
        0 <= i < j < spec_output_paths(ss, with_css).len(),
    ensures
        spec_output_paths(ss, with_css)[i] != spec_output_paths(ss, with_css)[j],
{
    reveal_strlit(".html");
    reveal_strlit("index.html");
    reveal_strlit("css/syntax.css");
    reveal_strlit("components/doc-toc.js");
    reveal_strlit("components/simple-block.js");
    reveal_strlit("components/search-modal.js");
    let all = spec_output_paths(ss, with_css);
    let cn: int = if with_css {
        1
    } else {
        0
    };
    let n = ss.len() as int;
    let mapped = ss.map_values(|s: SourceV| spec_html_rel(s.rel_path));
    assert(all.len() == cn + n + 4);
    assert(forall|k: int| 0 <= k < n ==> #[trigger] all[cn + k] == spec_html_rel(
        ss[k].rel_path,
    ));
    if cn + 0 <= i < cn + n {
        crate::paths::lemma_html_rel_ends(ss[i - cn].rel_path);
    }
    if cn + 0 <= j < cn + n {
        crate::paths::lemma_html_rel_ends(ss[j - cn].rel_path);
    }
    if i < cn {
        // The stylesheet against anything after it.
        assert(all[i] == "css/syntax.css"@);
        if j < cn + n {
            crate::paths::lemma_md_path_suffix(ss[j - cn].rel_path);
            assert(all[j].len() == ss[j - cn].rel_path.len() + 2);
            assert(all[j][all[j].len() - 1] == 'l');
            assert(all[i][all[i].len() - 1] == 's');
        } else if j == cn + n {
            assert(all[j] == "index.html"@);
            assert(all[i].len() == 14 && all[j].len() == 10);
        } else {
            assert(all[j] == seq![
                "components/doc-toc.js"@,
                "components/simple-block.js"@,
                "components/search-modal.js"@,
            ][j - cn - n - 1]);
            assert(all[i][0] == 'c' && all[i][1] == 's');
            assert(all[j][0] == 'c' && all[j][1] == 'o');
        }
    } else if i < cn + n {
        assert(all[i] == spec_html_rel(ss[i - cn].rel_path));
        if j < cn + n {
            if all[i] == all[j] {
                crate::paths::lemma_html_rel_injective(ss[i - cn].rel_path, ss[j - cn].rel_path);
                assert(ss[i - cn].rel_path == ss[j - cn].rel_path);
                assert(false);
            }
        } else if j == cn + n {
            if all[i] == all[j] {
                crate::paths::lemma_html_rel_index(ss[i - cn].rel_path);
                assert(false);
            }
        } else {
            assert(all[j] == seq![
                "components/doc-toc.js"@,
                "components/simple-block.js"@,
                "components/search-modal.js"@,
            ][j - cn - n - 1]);
            assert(all[i][all[i].len() - 1] == 'l');
            assert(all[j][all[j].len() - 1] == 's');
        }
    } else if i == cn + n {
        assert(all[i] == "index.html"@);
        assert(all[j] == seq![
            "components/doc-toc.js"@,
            "components/simple-block.js"@,
            "components/search-modal.js"@,
        ][j - cn - n - 1]);
        assert(all[i][all[i].len() - 1] == 'l');
        assert(all[j][all[j].len() - 1] == 's');
    } else {
        assert(all[i] == seq![
            "components/doc-toc.js"@,
            "components/simple-block.js"@,
            "components/search-modal.js"@,
        ][i - cn - n - 1]);
        assert(all[j] == seq![
            "components/doc-toc.js"@,
            "components/simple-block.js"@,
            "components/search-modal.js"@,
        ][j - cn - n - 1]);
        assert("components/doc-toc.js"@.len() == 21);
        assert("components/simple-block.js"@.len() == 26);
        assert("components/search-modal.js"@.len() == 26);
        assert("components/simple-block.js"@[11] == 's' && "components/simple-block.js"@[12]
            == 'i');
        assert("components/search-modal.js"@[11] == 's' && "components/search-modal.js"@[12]
            == 'e');
    }
}

/// Run one full build pass over the collected sources.
///
/// The sources are sorted by path, grouped into navigation sections, each
/// page is converted and rendered through the template engine, the landing
/// page is synthesized from a root `index.md` when there is one, and the
/// fixed assets are appended. The file list's paths are exactly
/// `spec_output_paths` of the sorted sequence; the stylesheet and component
/// contents are pinned, while each rendered page holds whatever the
/// template engine returned for its fully determined context.
#[verifier::rlimit(100)]
pub fn build(
    sources: Vec<SourceFile>,
    templates: &TemplateSet,
    config: &BookConfig,
    year: &str,
    watch_enabled: bool,
    highlight: Option<&SyntaxSet>,
) -> (r: Result<BuildOutput, BuildError>)
    requires
        forall|k: int| 0 <= k < sources@.len() ==> spec_is_md_path(
            (#[trigger] sources@[k])@.rel_path,
        ),
    ensures
        r matches Ok(out) ==> out.files.deep_view().map_values(|f: OutputV| f.rel_path)
            == spec_output_paths(spec_sort_sources(sources.deep_view()), highlight is Some),
        r matches Ok(out) ==> out.total_pages == sources@.len(),
        r matches Ok(out) ==> highlight is Some ==> out.files.deep_view()[0].content
            == theme_css_of("Solarized (light)"@),
        r matches Ok(out) ==> out.files.deep_view().last().content == component_search_text()
            && out.files.deep_view()[out.files.deep_view().len() - 2].content
            == component_block_text() && out.files.deep_view()[out.files.deep_view().len()
            - 3].content == component_toc_text(),
        r matches Ok(out) ==> out.index_context@ == spec_landing_context(
            spec_sort_sources(sources.deep_view()),
            *config,
            year@,
            spec_grammars_opt(highlight),
        ),
        r matches Err(e) ==> !(e is InputMissing),
{
    let ghost orig = sources.deep_view();
    let mut tera = tera_new();
    if let Err(e) = tera_add_template(&mut tera, "page", templates.page.as_str()) {
        return Err(BuildError::Template { name: "page".to_owned(), detail: e });
    }
    if let Err(e) = tera_add_template(&mut tera, "index", templates.index.as_str()) {
        return Err(BuildError::Template { name: "index".to_owned(), detail: e });
    }
    if let Err(e) = tera_add_template(&mut tera, "sidebar", templates.sidebar.as_str()) {
        return Err(BuildError::Template { name: "sidebar".to_owned(), detail: e });
    }
    if let Err(e) = tera_add_template(&mut tera, "footer", templates.footer.as_str()) {
        return Err(BuildError::Template { name: "footer".to_owned(), detail: e });
    }
    if let Err(e) = tera_add_template(&mut tera, "header", templates.header.as_str()) {
        return Err(BuildError::Template { name: "header".to_owned(), detail: e });
    }
    let total_pages = sources.len();
    let sorted = sort_sources(sources);
    let ghost sv = spec_sort_sources(orig);
    proof {
        lemma_sort_keeps_md(orig);
        crate::pages::lemma_sort_sources_multiset(orig);
        assert(forall|k: int| 0 <= k < sorted@.len() ==> (#[trigger] sorted@[k])@
            == sorted.deep_view()[k]);
    }
    let nav = assemble_nav(&sorted);
    let mut files: Vec<OutputFile> = Vec::new();
    let css_count: usize = match highlight {
        Some(_) => 1,
        None => 0,
    };
    if let Some(_) = highlight {
        match theme_css("Solarized (light)") {
            Ok(css) => {
                files.push(OutputFile { rel_path: "css/syntax.css".to_owned(), content: css });
            },
            Err(e) => {
                return Err(BuildError::Stylesheet { detail: e });
            },
        }
    }
    let ghost base_files = files.deep_view();
    proof {
        assert(base_files.len() == css_count);
        if highlight is Some {
            assert(base_files[0].rel_path == "css/syntax.css"@);
            assert(base_files[0].content == theme_css_of("Solarized (light)"@));
        }
    }
    let n = sorted.len();
    proof {
        assert(n == sv.len());
        assert(nav.all_pages.deep_view().len() == nav.all_pages@.len());
        assert(spec_all_pages(sv).len() == sv.len());
    }
    let mut i: usize = 0;
    while i < n
        invariant
            i <= n,
            n == sorted@.len(),
            n == sv.len(),
            sorted.deep_view() == sv,
            forall|k: int| 0 <= k < sv.len() ==> spec_is_md_path((#[trigger] sv[k]).rel_path),
            nav.all_pages@.len() == n,
            files@.len() == css_count + i,
            files.deep_view().len() == css_count + i,
            css_count <= 1,
            base_files.len() == css_count,
            forall|k: int| 0 <= k < css_count ==> #[trigger] files.deep_view()[k] == base_files[k],
            forall|k: int| 0 <= k < i ==> (#[trigger] files.deep_view()[css_count + k]).rel_path
                == spec_html_rel(sv[k].rel_path),
        decreases n - i,
    {
        proof {
            assert(sorted@[i as int]@ == sv[i as int]);
        }
        let src = &sorted[i];
        let body = match highlight {
            Some(ss) => render_markdown_highlighted(src.content.as_str(), config, ss),
            None => render_markdown(src.content.as_str(), config),
        };
        let html = match body {
            Ok(h) => h,
            Err(detail) => {
                return Err(
                    BuildError::Markdown { path: src.rel_path.clone(), detail },
                );
            },
        };
        let title = page_title(src.content.as_str(), src.rel_path.as_str());
        let (previous, next) = page_neighbors(&nav.all_pages, i);
        let data = PageData {
            title,
            content: html,
            sections: clone_sections(&nav.sections),
            previous,
            next,
        };
        let rel_html = html_rel_path(src.rel_path.as_str());
        let ctx = page_context_json(year, &data, config, rel_html.as_str(), watch_enabled);
        let rendered = match tera_render(&tera, "page", ctx.as_str()) {
            Ok(p) => p,
            Err(detail) => {
                return Err(BuildError::Render { path: rel_html, detail });
            },
        };
        let ghost before = files.deep_view();
        files.push(OutputFile { rel_path: rel_html, content: rendered });
        proof {
            assert(forall|k: int| 0 <= k < before.len() ==> #[trigger] files.deep_view()[k]
                == before[k]);
            assert(files.deep_view()[css_count + i] == files@[css_count + i]@);
            assert(files.deep_view()[css_count + i].rel_path == spec_html_rel(
                sv[i as int].rel_path,
            ));
        }
        i = i + 1;
    }
    // The landing page: from the root index page when there is one.
    let mut index_page: Option<(String, String)> = None;
    let mut j: usize = 0;
    let mut searching = true;
    proof {
        assert(sv.skip(0) == sv);
    }
    while searching && j < n
        invariant
            j <= n,
            n == sorted@.len(),
            n == sv.len(),
            sorted.deep_view() == sv,
            forall|k: int| 0 <= k < sv.len() ==> spec_is_md_path((#[trigger] sv[k]).rel_path),
            searching ==> index_page is None && spec_find_root_index(sv)
                == spec_find_root_index(sv.skip(j as int)),
            !searching ==> spec_index_pair_view(index_page) == spec_root_index(
                sv,
                *config,
                spec_grammars_opt(highlight),
            ),
        decreases n - j,
    {
        let ghost rest = sv.skip(j as int);
        proof {
            assert(sorted@[j as int]@ == sv[j as int]);
            assert(rest[0] == sv[j as int]);
            assert(rest.skip(1) =~= sv.skip(j as int + 1));
        }
        if str_eq_str(sorted[j].rel_path.as_str(), "index.md") {
            proof {
                assert(sv[j as int].rel_path == "index.md"@);
                assert(spec_find_root_index(rest) == Some(sv[j as int]));
                assert(spec_find_root_index(sv) == Some(sv[j as int]));
            }
            let src = &sorted[j];
            let body = match highlight {
                Some(ss) => render_markdown_highlighted(src.content.as_str(), config, ss),
                None => render_markdown(src.content.as_str(), config),
            };
            let html = match body {
                Ok(h) => h,
                Err(detail) => {
                    return Err(
                        BuildError::Markdown { path: src.rel_path.clone(), detail },
                    );
                },
            };
            proof {
                assert(src.content@ == sv[j as int].content);
                assert(html@ == spec_page_body(
                    encode_utf8(sv[j as int].content),
                    *config,
                    spec_grammars_opt(highlight),
                ));
            }
            let title = page_title(src.content.as_str(), src.rel_path.as_str());
            proof {
                assert(spec_is_md_path(sv[j as int].rel_path));
                assert(title@ == (match spec_title_scan(sv[j as int].content) {
                    Some(t) => t,
                    None => spec_md_stem(sv[j as int].rel_path),
                }));
            }
            index_page = Some((title, html));
            searching = false;
        } else {
            proof {
                assert(sv[j as int].rel_path != "index.md"@);
                assert(spec_find_root_index(rest) == spec_find_root_index(
                    sv.skip(j as int + 1),
                ));
            }
        }
        j = j + 1;
    }
    proof {
        if searching {
            assert(sv.skip(n as int).len() == 0);
            assert(spec_find_root_index(sv) is None);
        }
        assert(spec_index_pair_view(index_page) == spec_root_index(
            sv,
            *config,
            spec_grammars_opt(highlight),
        ));
    }
    let index_ctx = index_context_json(year, config, &nav.sections, &index_page);
    proof {
        assert(index_ctx@ == spec_landing_context(sv, *config, year@, spec_grammars_opt(
            highlight,
        ))) by {
            assert(nav.sections.deep_view() == spec_sections(sv));
        }
    }
    let index_rendered = match tera_render(&tera, "index", index_ctx.as_str()) {
        Ok(p) => p,
        Err(detail) => {
            return Err(BuildError::Render { path: "index.html".to_owned(), detail });
        },
    };
    let ghost before_index = files.deep_view();
    files.push(OutputFile { rel_path: "index.html".to_owned(), content: index_rendered });
    proof {
        assert(forall|k: int| 0 <= k < before_index.len() ==> #[trigger] files.deep_view()[k]
            == before_index[k]);
    }
    let ghost before_components = files.deep_view();
    let ghost fv_before = files@;
    proof {
        assert(forall|k: int| 0 <= k < fv_before.len() ==> #[trigger] fv_before[k]@
            == before_components[k]);
    }
    let mut components = component_assets();
    let ghost comp_v = components.deep_view();
    let ghost comp_vec = components@;
    proof {
        assert(forall|k: int| 0 <= k < comp_vec.len() ==> #[trigger] comp_vec[k]@ == comp_v[k]);
    }
    files.append(&mut components);
    proof {
        assert(files@ == fv_before + comp_vec);
        assert(files.deep_view() =~= before_components + comp_v) by {
            assert(forall|k: int| 0 <= k < files@.len() ==> #[trigger] files.deep_view()[k]
                == files@[k]@);
        }
    }
    let out = BuildOutput { files, total_pages, index_context: index_ctx };
    proof {
        let dv = out.files.deep_view();
        assert(dv.len() == css_count + n + 4);
        assert(forall|k: int| 0 <= k < css_count ==> #[trigger] dv[k] == base_files[k]);
        assert(forall|k: int| 0 <= k < n ==> (#[trigger] dv[css_count + k]).rel_path
            == spec_html_rel(sv[k].rel_path)) by {
            assert(forall|k: int| 0 <= k < n ==> #[trigger] before_index[css_count + k]
                == before_components[css_count + k]);
        }
        assert(dv[css_count + n].rel_path == "index.html"@);
        assert(dv[css_count + n + 1] == comp_v[0]);
        assert(dv[css_count + n + 2] == comp_v[1]);
        assert(dv[css_count + n + 3] == comp_v[2]);
        let paths = dv.map_values(|f: OutputV| f.rel_path);
        let want = spec_output_paths(sv, highlight is Some);
        let mapped = sv.map_values(|s: SourceV| spec_html_rel(s.rel_path));
        let css_part: Seq<Seq<char>> = if highlight is Some {
            seq!["css/syntax.css"@]
        } else {
            Seq::empty()
        };
        assert(want == css_part + mapped + seq!["index.html"@] + seq![
            "components/doc-toc.js"@,
            "components/simple-block.js"@,
            "components/search-modal.js"@,
        ]);
        assert(css_part.len() == css_count);
        assert(mapped.len() == sv.len());
        assert(want.len() == css_count + n + 4);
        assert(paths.len() == want.len());
        assert forall|k: int| 0 <= k < paths.len() implies paths[k] == want[k] by {
            assert(paths[k] == dv[k].rel_path);
            if k < css_count {
                assert(want[k] == css_part[k]);
                assert(dv[k] == base_files[k]);
            } else if k < css_count + n {
                assert(want[k] == mapped[k - css_count]);
                assert(mapped[k - css_count] == spec_html_rel(sv[k - css_count].rel_path));
                assert(dv[css_count + (k - css_count)].rel_path == spec_html_rel(
                    sv[k - css_count].rel_path,
                ));
                assert(css_count + (k - css_count) == k);
            } else if k == css_count + n {
                assert(want[k] == "index.html"@);
                assert(dv[css_count + n].rel_path == "index.html"@);
            } else {
                assert(want[k] == seq![
                    "components/doc-toc.js"@,
                    "components/simple-block.js"@,
                    "components/search-modal.js"@,
                ][k - css_count - n - 1]);
                if k == css_count + n + 1 {
                    assert(dv[css_count + n + 1] == comp_v[0]);
                    assert(comp_v[0].rel_path == "components/doc-toc.js"@);
                } else if k == css_count + n + 2 {
                    assert(dv[css_count + n + 2] == comp_v[1]);
                    assert(comp_v[1].rel_path == "components/simple-block.js"@);
                } else {
                    assert(k == css_count + n + 3);
                    assert(dv[css_count + n + 3] == comp_v[2]);
                    assert(comp_v[2].rel_path == "components/search-modal.js"@);
                }
            }
        }
        assert(paths =~= want);
        assert(dv.last().content == component_search_text());
        assert(dv[dv.len() - 2].content == component_block_text());
        assert(dv[dv.len() - 3].content == component_toc_text());
    }
    Ok(out)
}

} // verus!

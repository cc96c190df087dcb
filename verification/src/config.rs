//! The build configuration: book metadata, Markdown dialect selection,
//! HTML output flags, search tuning and template paths.
//!
//! The configuration is plain data. Loading it from files and from the
//! environment happens outside the library; the pipeline only reads it.

use vstd::prelude::*;

verus! {

/// The Markdown dialect a book is written in.
#[derive(Debug, Clone, Copy, PartialEq, Eq, Structural)]
pub enum MarkdownFormat {
    Markdown,
    Gfm,
    Mdx,
}

impl Default for MarkdownFormat {
    fn default() -> (r: Self)
        ensures
            r == MarkdownFormat::Markdown,
    {
        MarkdownFormat::Markdown
    }
}

/// How the Markdown sources are to be read.
#[derive(Debug, Clone)]
pub struct MarkdownInput {
    pub format: MarkdownFormat,
    pub frontmatter: bool,
}

impl Default for MarkdownInput {
    fn default() -> (r: Self)
        ensures
            r.format == MarkdownFormat::Markdown,
            !r.frontmatter,
    {
        MarkdownInput { format: MarkdownFormat::Markdown, frontmatter: false }
    }
}

/// Title of a book that never named one.
pub fn default_title() -> (r: String)
    ensures
        r@ == "My Book"@,
{
    "My Book".to_owned()
}

/// Language of a book that never named one.
pub fn default_language() -> (r: String)
    ensures
        r@ == "en"@,
{
    "en".to_owned()
}

/// Logo path of a book that never named one.
pub fn default_logo() -> (r: String)
    ensures
        r@ == "/img/default_logo.svg"@,
{
    "/img/default_logo.svg".to_owned()
}

/// Rust edition assumed for playground code blocks.
pub fn default_edition() -> (r: String)
    ensures
        r@ == "2021"@,
{
    "2021".to_owned()
}

/// How many search results are shown at most.
pub fn default_limit_results() -> (r: u32)
    ensures
        r == 20,
{
    20
}

/// Weight of a title match in search ranking.
pub fn default_boost_title() -> (r: u32)
    ensures
        r == 2,
{
    2
}

/// Weight of a hierarchy match in search ranking.
pub fn default_boost_hierarchy() -> (r: u32)
    ensures
        r == 2,
{
    2
}

/// Weight of a paragraph match in search ranking.
pub fn default_boost_paragraph() -> (r: u32)
    ensures
        r == 1,
{
    1
}

/// Heading level at which search entries split documents.
pub fn default_heading_split_level() -> (r: u32)
    ensures
        r == 2,
{
    2
}

/// Where templates live when no path is configured.
pub fn default_templates_dir() -> (r: String)
    ensures
        r@ == "templates"@,
{
    "templates".to_owned()
}

/// The book's own metadata.
#[derive(Debug, Clone)]
pub struct Book {
    pub title: String,
    pub description: Option<String>,
    pub authors: Vec<String>,
    pub language: String,
    pub base_url: Option<String>,
    pub logo: String,
    pub github_url: Option<String>,
    pub github_edit_url_base: Option<String>,
}

impl Default for Book {
    fn default() -> (r: Self)
        ensures
            r.title@ == "My Book"@,
            r.description is None,
            r.authors@.len() == 0,
            r.language@ == "en"@,
            r.base_url is None,
            r.logo@ == "/img/default_logo.svg"@,
            r.github_url is None,
            r.github_edit_url_base is None,
    {
        Book {
            title: default_title(),
            description: None,
            authors: Vec::new(),
            language: default_language(),
            base_url: None,
            logo: default_logo(),
            github_url: None,
            github_edit_url_base: None,
        }
    }
}

/// Settings of the Rust playground affordance.
#[derive(Debug, Clone)]
pub struct Rust {
    pub edition: String,
}

impl Default for Rust {
    fn default() -> (r: Self)
        ensures
            r.edition@ == "2021"@,
    {
        Rust { edition: default_edition() }
    }
}

/// Settings of the editable-playground affordance.
#[derive(Debug, Clone)]
pub struct PlaygroundConfig {
    pub editable: bool,
    pub line_numbers: bool,
}

impl Default for PlaygroundConfig {
    fn default() -> (r: Self)
        ensures
            !r.editable,
            !r.line_numbers,
    {
        PlaygroundConfig { editable: false, line_numbers: false }
    }
}

/// Tuning of the full-text search.
#[derive(Debug, Clone)]
pub struct SearchConfig {
    pub limit_results: u32,
    pub use_boolean_and: bool,
    pub boost_title: u32,
    pub boost_hierarchy: u32,
    pub boost_paragraph: u32,
    pub expand: bool,
    pub heading_split_level: u32,
}

impl Default for SearchConfig {
    fn default() -> (r: Self)
        ensures
            r.limit_results == 20,
            !r.use_boolean_and,
            r.boost_title == 2,
            r.boost_hierarchy == 2,
            r.boost_paragraph == 1,
            !r.expand,
            r.heading_split_level == 2,
    {
        SearchConfig {
            limit_results: default_limit_results(),
            use_boolean_and: false,
            boost_title: default_boost_title(),
            boost_hierarchy: default_boost_hierarchy(),
            boost_paragraph: default_boost_paragraph(),
            expand: false,
            heading_split_level: default_heading_split_level(),
        }
    }
}

/// Flags of the HTML output.
#[derive(Debug, Clone)]
pub struct HtmlOutput {
    pub mathjax_support: bool,
    pub allow_html: bool,
    pub playground: PlaygroundConfig,
    pub search: SearchConfig,
}

impl Default for HtmlOutput {
    fn default() -> (r: Self)
        ensures
            !r.mathjax_support,
            !r.allow_html,
            !r.playground.editable,
            !r.playground.line_numbers,
            r.search.limit_results == 20,
    {
        HtmlOutput {
            mathjax_support: false,
            allow_html: false,
            playground: PlaygroundConfig::default(),
            search: SearchConfig::default(),
        }
    }
}

/// The output section of the configuration.
#[derive(Debug, Clone)]
pub struct Output {
    pub html: HtmlOutput,
}

impl Default for Output {
    fn default() -> (r: Self)
        ensures
            !r.html.mathjax_support,
            !r.html.allow_html,
    {
        Output { html: HtmlOutput::default() }
    }
}

/// Paths the build reads from.
#[derive(Debug, Clone)]
pub struct Paths {
    pub templates: String,
}

impl Default for Paths {
    fn default() -> (r: Self)
        ensures
            r.templates@ == "templates"@,
    {
        Paths { templates: default_templates_dir() }
    }
}

/// The whole configuration of one build invocation.
#[derive(Debug, Clone)]
pub struct BookConfig {
    pub book: Book,
    pub rust: Rust,
    pub output: Output,
    pub markdown: MarkdownInput,
    pub paths: Paths,
}

impl Default for BookConfig {
    fn default() -> (r: Self)
        ensures
            r.book.title@ == "My Book"@,
            r.book.language@ == "en"@,
            r.rust.edition@ == "2021"@,
            !r.output.html.allow_html,
            !r.output.html.mathjax_support,
            r.markdown.format == MarkdownFormat::Markdown,
            !r.markdown.frontmatter,
            r.paths.templates@ == "templates"@,
    {
        BookConfig {
            book: Book::default(),
            rust: Rust::default(),
            output: Output::default(),
            markdown: MarkdownInput::default(),
            paths: Paths::default(),
        }
    }
}

/// The kind of configuration file a path names, by its extension.
#[derive(Debug, Clone, Copy, PartialEq, Eq, Structural)]
pub enum ConfigLayerKind {
    Toml,
    Json,
    Unsupported,
}

/// Whether `s` ends with the suffix `p`.
pub open spec fn spec_ends_with(s: Seq<char>, p: Seq<char>) -> bool {
    s.len() >= p.len() && s.skip(s.len() - p.len()) == p
}

fn ends_with_chars(v: &Vec<char>, p: &Vec<char>) -> (r: bool)
    ensures
        r == spec_ends_with(v@, p@),
{
    let n = v.len();
    let m = p.len();
    if m > n {
        return false;
    }
    let mut j: usize = 0;
    while j < m && v[n - m + j] == p[j]
        invariant
            m == p@.len(),
            n == v@.len(),
            m <= n,
            j <= m,
            forall|k: int| 0 <= k < j ==> v@[n - m + k] == p@[k],
        decreases m - j,
    {
        j = j + 1;
    }
    if j == m {
        proof {
            assert(v@.skip(n - m) =~= p@);
        }
        true
    } else {
        proof {
            if v@.skip(n - m) == p@ {
                assert(v@.skip(n - m)[j as int] == v@[n - m + j]);
                assert(false);
            }
        }
        false
    }
}

/// Which layer an explicitly named configuration file contributes: TOML for
/// `.toml`, JSON for `.json`, and a rejected kind for anything else.
pub fn config_layer_kind(path: &str) -> (r: ConfigLayerKind)
    ensures
        spec_ends_with(path@, ".toml"@) ==> r == ConfigLayerKind::Toml,
        !spec_ends_with(path@, ".toml"@) && spec_ends_with(path@, ".json"@) ==> r
            == ConfigLayerKind::Json,
        !spec_ends_with(path@, ".toml"@) && !spec_ends_with(path@, ".json"@) ==> r
            == ConfigLayerKind::Unsupported,
{
    let v = crate::chars::chars_of(path);
    let toml = crate::chars::chars_of(".toml");
    let json = crate::chars::chars_of(".json");
    proof {
        reveal_strlit(".toml");
        reveal_strlit(".json");
    }
    if ends_with_chars(&v, &toml) {
        ConfigLayerKind::Toml
    } else if ends_with_chars(&v, &json) {
        ConfigLayerKind::Json
    } else {
        ConfigLayerKind::Unsupported
    }
}

} // verus!

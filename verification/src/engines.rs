//! The outside engines the pipeline delegates to: Markdown conversion,
//! template rendering, syntax highlighting, HTML escaping and the clock.
//!
//! Every item here is trusted: its contract states only what the engine's
//! source or documentation shows, and where a result is too large to write
//! out but depends on the arguments alone, the contract gives it a name.

use vstd::prelude::*;
use vstd::string::StringSliceAdditionalSpecFns;

verus! {

// ---------------------------------------------------------------------------
// Markdown conversion
// ---------------------------------------------------------------------------

/// The HTML that the Markdown engine produces for a document, as a function
/// of the document bytes and the dialect flags.
pub uninterp spec fn md_html_of(
    content: Seq<u8>,
    gfm: bool,
    mdx: bool,
    frontmatter: bool,
    allow_html: bool,
) -> Seq<char>;

/// Whether the Markdown engine accepts a document: a pure function of the
/// document bytes and the dialect flags, and always true outside the
/// MDX-like dialect, whose expressions alone have syntax errors.
pub uninterp spec fn md_ok_of(
    content: Seq<u8>,
    gfm: bool,
    mdx: bool,
    frontmatter: bool,
    allow_html: bool,
) -> bool;

/// One fenced code block of a parsed document: its byte span in the source,
/// its language tag and its text.
#[derive(Debug)]
pub struct CodeSpan {
    pub start: usize,
    pub end: usize,
    pub lang: Option<String>,
    pub code: String,
}

/// Ghost image of a code block: start, end, language, text.
pub open spec fn span_view(cs: CodeSpan) -> (nat, nat, Option<Seq<char>>, Seq<char>) {
    (cs.start as nat, cs.end as nat, cs.lang.deep_view(), cs.code@)
}

/// Ghost image of a parsed block list.
pub open spec fn spans_view(v: Seq<CodeSpan>) -> Seq<(nat, nat, Option<Seq<char>>, Seq<char>)> {
    v.map_values(|cs: CodeSpan| span_view(cs))
}

/// The code blocks the Markdown parser finds in a document, in document
/// order, as a function of the document bytes and the dialect flags.
pub uninterp spec fn code_spans_of(
    content: Seq<u8>,
    gfm: bool,
    mdx: bool,
    frontmatter: bool,
    allow_html: bool,
) -> Seq<(nat, nat, Option<Seq<char>>, Seq<char>)>;

/// Whether the Markdown parser accepts a document: a pure function of the
/// document bytes and the dialect flags, and always true outside the
/// MDX-like dialect.
pub uninterp spec fn md_spans_ok_of(
    content: Seq<u8>,
    gfm: bool,
    mdx: bool,
    frontmatter: bool,
    allow_html: bool,
) -> bool;

/// The parsed code blocks are well formed against the document bytes: each
/// span is ordered and in bounds, its ends lie on character boundaries, and
/// the blocks come disjoint, in document order.
pub open spec fn spans_wf(
    spans: Seq<(nat, nat, Option<Seq<char>>, Seq<char>)>,
    bytes: Seq<u8>,
) -> bool {
    &&& forall|i: int| 0 <= i < spans.len() ==> (#[trigger] spans[i]).0 <= spans[i].1
        <= bytes.len()
    &&& forall|i: int| 0 <= i < spans.len() ==> vstd::utf8::is_char_boundary(
        bytes,
        (#[trigger] spans[i]).0 as int,
    ) && vstd::utf8::is_char_boundary(bytes, spans[i].1 as int)
    &&& forall|i: int| 0 <= i < spans.len() - 1 ==> (#[trigger] spans[i]).1 <= spans[i + 1].0
}

#[verifier::external_type_specification]
#[verifier::external_body]
pub struct ExParseOptions(markdown::ParseOptions);

/// Relies on `markdown::ParseOptions`: the parse options the configuration
/// flags select — the dialect preset with the frontmatter and raw-HTML
/// constructs switched as asked.
#[verifier::external_body]
fn md_parse_options(gfm: bool, mdx: bool, frontmatter: bool, allow_html: bool) -> (r:
    markdown::ParseOptions) {
    let mut parse = if mdx { markdown::ParseOptions::mdx() } else if gfm { markdown::ParseOptions::gfm() } else { markdown::ParseOptions::default() };
    parse.constructs.frontmatter = frontmatter;
    parse.constructs.html_flow = allow_html;
    parse.constructs.html_text = allow_html;
    parse
}

/// Relies on `markdown::to_html_with_options`: a pure function of the
/// document and the options, here keyed by the dialect and safety flags the
/// configuration can set. Its own documentation says conversion never
/// errors outside MDX.
#[verifier::external_body]
pub fn md_to_html(content: &str, gfm: bool, mdx: bool, frontmatter: bool, allow_html: bool) -> (r:
    Result<String, String>)
    ensures
        r matches Ok(h) ==> h@ == md_html_of(content.spec_bytes(), gfm, mdx, frontmatter,
            allow_html,
        ),
        r is Ok <==> md_ok_of(content.spec_bytes(), gfm, mdx, frontmatter, allow_html),
        !mdx ==> r is Ok,
{
    let mut options = markdown::Options {
        parse: md_parse_options(gfm, mdx, frontmatter, allow_html),
        compile: if gfm { markdown::CompileOptions::gfm() } else { markdown::CompileOptions::default() },
    };
    options.compile.allow_dangerous_html = allow_html;
    options.compile.allow_dangerous_protocol = allow_html;
    markdown::to_html_with_options(content, &options).map_err(|e| e.to_string())
}

/// Relies on `markdown::to_mdast`: a pure function of the document and the
/// parse options, which its documentation says never errors outside MDX.
/// The body walks the returned tree and keeps each code node's byte span,
/// language and text, in document order; the tree carries in-document byte
/// offsets on character boundaries, disjoint and increasing across code
/// nodes.
#[verifier::external_body]
pub fn md_code_spans(
    content: &str,
    gfm: bool,
    mdx: bool,
    frontmatter: bool,
    allow_html: bool,
) -> (r: Result<Vec<CodeSpan>, String>)
    ensures
        r matches Ok(v) ==> spans_view(v@) == code_spans_of(content.spec_bytes(), gfm, mdx,
            frontmatter, allow_html,
        ),
        r matches Ok(v) ==> spans_wf(spans_view(v@), content.spec_bytes()),
        r is Ok <==> md_spans_ok_of(content.spec_bytes(), gfm, mdx, frontmatter, allow_html),
        !mdx ==> r is Ok,
{
    let parse = md_parse_options(gfm, mdx, frontmatter, allow_html);
    let ast = match markdown::to_mdast(content, &parse) { Ok(a) => a, Err(e) => return Err(e.to_string()) };
    let mut out = Vec::new();
    let mut stack = vec![&ast];
    while let Some(n) = stack.pop() {
        if let markdown::mdast::Node::Code(c) = n {
            if let Some(p) = &c.position {
                out.push(CodeSpan { start: p.start.offset, end: p.end.offset, lang: c.lang.clone(), code: c.value.clone() });
            }
        } else if let Some(ch) = n.children() { for x in ch.iter().rev() { stack.push(x); } }
    }
    Ok(out)
}

// ---------------------------------------------------------------------------
// Template rendering
// ---------------------------------------------------------------------------

#[verifier::external_type_specification]
#[verifier::external_body]
pub struct ExTera(tera::Tera);

/// What a template registry holds: the raw template text under each name.
pub uninterp spec fn tera_templates(t: tera::Tera) -> Map<Seq<char>, Seq<char>>;

/// The registry holds no templates.
pub open spec fn tera_is_empty(t: tera::Tera) -> bool {
    tera_templates(t) == Map::<Seq<char>, Seq<char>>::empty()
}

/// Relies on `tera::Tera::default`: the registry starts with no templates.
#[verifier::external_body]
pub fn tera_new() -> (r: tera::Tera)
    ensures
        tera_is_empty(r),
{
    tera::Tera::default()
}

/// Relies on `tera::Tera::add_raw_template`: on success the template text is
/// registered under the name.
#[verifier::external_body]
pub fn tera_add_template(t: &mut tera::Tera, name: &str, content: &str) -> (r: Result<
    (),
    String,
>)
    ensures
        r is Ok ==> tera_templates(*final(t)) == tera_templates(*old(t)).insert(name@, content@),
{
    t.add_raw_template(name, content).map_err(|e| e.to_string())
}

/// Relies on `tera::Tera::render`, with the context parsed from JSON text
/// through `serde_json::from_str` and `tera::Context::from_value`. Built-in
/// template functions may read the clock or the environment, so nothing is
/// promised of the rendered text.
#[verifier::external_body]
pub fn tera_render(t: &tera::Tera, name: &str, ctx_json: &str) -> (r: Result<String, String>) {
    let value: serde_json::Value = match serde_json::from_str(ctx_json) {
        Ok(v) => v,
        Err(e) => return Err(e.to_string()),
    };
    let ctx = match tera::Context::from_value(value) { Ok(c) => c, Err(e) => return Err(e.to_string()) };
    t.render(name, &ctx).map_err(|e| e.to_string())
}

// ---------------------------------------------------------------------------
// Syntax highlighting
// ---------------------------------------------------------------------------

#[verifier::external_type_specification]
#[verifier::external_body]
pub struct ExSyntaxSet(syntect::parsing::SyntaxSet);

/// What a syntax set holds: its grammars.
pub uninterp spec fn syntax_grammars(ss: syntect::parsing::SyntaxSet) -> Set<Seq<char>>;

/// The classed HTML the highlighter produces for a code block, as a function
/// of the grammars, the language token used for lookup, and the code.
pub uninterp spec fn highlighted_of(
    grammars: Set<Seq<char>>,
    token: Option<Seq<char>>,
    code: Seq<char>,
) -> Seq<char>;

/// Whether highlighting a code block succeeds: a pure function of the
/// grammars, the lookup token and the code.
pub uninterp spec fn highlight_ok_of(
    grammars: Set<Seq<char>>,
    token: Option<Seq<char>>,
    code: Seq<char>,
) -> bool;

/// Relies on `syntect::parsing::SyntaxSet::load_defaults_newlines`: the
/// bundled grammar set.
#[verifier::external_body]
pub fn load_syntaxes() -> (r: syntect::parsing::SyntaxSet) {
    syntect::parsing::SyntaxSet::load_defaults_newlines()
}

/// Relies on `SyntaxSet::find_syntax_by_extension` / `_by_name` /
/// `_by_token` for the grammar lookup chain, falling back to the plain-text
/// grammar, and on `syntect::html::ClassedHTMLGenerator` fed line by line
/// through `syntect::util::LinesWithEndings`: deterministic in the set, the
/// token and the code.
#[verifier::external_body]
pub fn highlight_code(
    ss: &syntect::parsing::SyntaxSet,
    token: Option<&str>,
    code: &str,
) -> (r: Result<String, String>)
    ensures
        r matches Ok(h) ==> h@ == highlighted_of(syntax_grammars(*ss), token.deep_view(), code@),
        r is Ok <==> highlight_ok_of(syntax_grammars(*ss), token.deep_view(), code@),
{
    let syntax = match token {
        Some(tk) => ss.find_syntax_by_extension(tk).or_else(|| ss.find_syntax_by_name(tk)).or_else(|| ss.find_syntax_by_token(tk)).or_else(|| ss.find_syntax_by_name("Plain Text")),
        None => ss.find_syntax_by_name("Plain Text"),
    };
    let syntax = match syntax { Some(s) => s, None => return Err("plain text grammar unavailable".to_string()) };
    let mut generator = syntect::html::ClassedHTMLGenerator::new_with_class_style(syntax, ss, syntect::html::ClassStyle::Spaced);
    for line in syntect::util::LinesWithEndings::from(code) {
        if let Err(e) = generator.parse_html_for_line_which_includes_newline(line) {
            return Err(format!("{:?}", e));
        }
    }
    Ok(generator.finalize())
}

/// The stylesheet the highlighter derives from one of its bundled themes.
pub uninterp spec fn theme_css_of(name: Seq<char>) -> Seq<char>;

/// Relies on `syntect::highlighting::ThemeSet::load_defaults` and
/// `syntect::html::css_for_theme_with_class_style`: the bundled themes are
/// fixed, so the stylesheet is a function of the theme name.
#[verifier::external_body]
pub fn theme_css(name: &str) -> (r: Result<String, String>)
    ensures
        r matches Ok(css) ==> css@ == theme_css_of(name@),
{
    let ts = syntect::highlighting::ThemeSet::load_defaults();
    let theme = match ts.themes.get(name) { Some(t) => t, None => return Err(format!("theme not found: {}", name)) };
    syntect::html::css_for_theme_with_class_style(theme, syntect::html::ClassStyle::Spaced).map_err(|e| format!("{:?}", e))
}

// ---------------------------------------------------------------------------
// HTML escaping
// ---------------------------------------------------------------------------

/// How one character appears in escaped HTML text: `&`, `<` and `>` become
/// entities, everything else stays itself.
pub open spec fn spec_html_escaped_char(c: char) -> Seq<char> {
    if c == '&' {
        "&amp;"@
    } else if c == '<' {
        "&lt;"@
    } else if c == '>' {
        "&gt;"@
    } else {
        seq![c]
    }
}

/// A text, escaped for the inside of an HTML element.
pub open spec fn spec_html_escape(s: Seq<char>) -> Seq<char>
    decreases s.len(),
{
    if s.len() == 0 {
        Seq::empty()
    } else {
        spec_html_escaped_char(s[0]) + spec_html_escape(s.skip(1))
    }
}

/// Relies on `html_escape::encode_text`: it escapes exactly `&`, `<` and
/// `>`.
#[verifier::external_body]
pub fn escape_html_text(s: &str) -> (r: String)
    ensures
        r@ == spec_html_escape(s@),
{
    html_escape::encode_text(s).into_owned()
}

// ---------------------------------------------------------------------------
// The clock
// ---------------------------------------------------------------------------

/// Relies on `jiff::Zoned::now` and `Zoned::year`: the year of the current
/// moment in the system time zone, documented to lie in `-9999..=9999`.
#[verifier::external_body]
pub fn current_year() -> (r: i16)
    ensures
        -9999 <= r <= 9999,
{
    jiff::Zoned::now().year()
}

} // verus!

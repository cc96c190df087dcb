//! Rendering Markdown with highlighted code blocks.
//!
//! The Markdown parser hands back the byte spans of the fenced code blocks;
//! the text between them is converted as Markdown, each block is run
//! through the highlighter (with the documented special cases for `rust`
//! and `mermaid` blocks), and the pieces are joined in source order.

use vstd::prelude::*;
use vstd::string::StringSliceAdditionalSpecFns;
use vstd::string::StrSliceExecFns;
use vstd::string::StringExecFns;
use crate::chars::chars_of;
use crate::chars::contains_chars;
use crate::chars::push_all;
use crate::chars::push_str_chars;
use crate::chars::spec_contains;
use crate::chars::string_from_chars;
use crate::config::BookConfig;
use crate::config::MarkdownFormat;
use crate::engines::code_spans_of;
use crate::engines::escape_html_text;
use crate::engines::highlight_code;
use crate::engines::highlighted_of;
use crate::engines::md_code_spans;
use crate::engines::md_to_html;
use crate::engines::md_html_of;
use crate::engines::md_ok_of;
use crate::engines::md_spans_ok_of;
use crate::engines::highlight_ok_of;
use crate::engines::spans_wf;
use crate::engines::spec_html_escape;
use crate::engines::spans_view;
use crate::engines::span_view;
use crate::engines::syntax_grammars;
use syntect::parsing::SyntaxSet;

verus! {

/// Whether the Markdown dialect is GitHub-flavored.
pub open spec fn spec_gfm(c: BookConfig) -> bool {
    c.markdown.format is Gfm
}

/// Whether the Markdown dialect is the MDX-like one.
pub open spec fn spec_mdx(c: BookConfig) -> bool {
    c.markdown.format is Mdx
}

/// The HTML of a document under a configuration, with no highlighting.
pub open spec fn spec_md_of_config(content: Seq<u8>, c: BookConfig) -> Seq<char> {
    md_html_of(content, spec_gfm(c), spec_mdx(c), c.markdown.frontmatter, c.output.html.allow_html)
}

/// Whether the Markdown engine accepts a document under a configuration.
pub open spec fn spec_md_ok_of_config(content: Seq<u8>, c: BookConfig) -> bool {
    md_ok_of(content, spec_gfm(c), spec_mdx(c), c.markdown.frontmatter, c.output.html.allow_html)
}

/// Convert one document to HTML under the configuration's dialect and
/// safety flags, without touching code blocks. Conversion succeeds exactly
/// when the engine accepts the document, and always outside the MDX-like
/// dialect.
pub fn render_markdown(content: &str, config: &BookConfig) -> (r: Result<String, String>)
    ensures
        r matches Ok(h) ==> h@ == spec_md_of_config(content.spec_bytes(), *config),
        r is Ok <==> spec_md_ok_of_config(content.spec_bytes(), *config),
        !spec_mdx(*config) ==> r is Ok,
{
    let gfm = matches!(config.markdown.format, MarkdownFormat::Gfm);
    let mdx = matches!(config.markdown.format, MarkdownFormat::Mdx);
    md_to_html(content, gfm, mdx, config.markdown.frontmatter, config.output.html.allow_html)
}

/// The code a `rust` block hands to the highlighter: when the block carries
/// the editable marker, a marker comment line is appended.
pub open spec fn spec_rust_input(code: Seq<char>) -> Seq<char> {
    if spec_contains(code, "<--editable-->"@) {
        code + "\n// <--editable-->"@
    } else {
        code
    }
}

/// The HTML of one fenced code block: `rust` blocks are highlighted with
/// the Rust grammar after the editable-marker check; `mermaid` blocks are
/// escaped verbatim so the client renders them; anything else is
/// highlighted with the grammar its tag names, falling back to plain text.
pub open spec fn spec_block_html(
    lang: Option<Seq<char>>,
    code: Seq<char>,
    grammars: Set<Seq<char>>,
) -> Seq<char> {
    match lang {
        Some(l) => {
            if l == "rust"@ {
                "<pre class=\"code rust\"><code>"@ + highlighted_of(
                    grammars,
                    Some("rs"@),
                    spec_rust_input(code),
                ) + "</code></pre>"@
            } else if l == "mermaid"@ {
                "<pre class=\"code\"><code class=\"language-mermaid\">"@ + spec_html_escape(code)
                    + "</code></pre>"@
            } else {
                "<pre class=\"code\"><code>"@ + highlighted_of(grammars, Some(l), code)
                    + "</code></pre>"@
            }
        },
        None => "<pre class=\"code\"><code>"@ + highlighted_of(grammars, None, code)
            + "</code></pre>"@,
    }
}

/// Whether one fenced code block renders: a `mermaid` block always does
/// (escaping and wrapping are total); every other block exactly when the
/// highlighter accepts the code it is handed.
pub open spec fn spec_block_ok(
    lang: Option<Seq<char>>,
    code: Seq<char>,
    grammars: Set<Seq<char>>,
) -> bool {
    match lang {
        Some(l) => {
            if l == "rust"@ {
                highlight_ok_of(grammars, Some("rs"@), spec_rust_input(code))
            } else if l == "mermaid"@ {
                true
            } else {
                highlight_ok_of(grammars, Some(l), code)
            }
        },
        None => highlight_ok_of(grammars, None, code),
    }
}

/// Highlight one fenced code block.
pub fn process_code_block(code: &str, language: Option<&str>, ss: &SyntaxSet) -> (r: Result<
    String,
    String,
>)
    ensures
        r matches Ok(h) ==> h@ == spec_block_html(language.deep_view(), code@, syntax_grammars(
            *ss,
        )),
        r is Ok <==> spec_block_ok(language.deep_view(), code@, syntax_grammars(*ss)),
{
    match language {
        Some(l) => {
            if crate::chars::str_eq_str(l, "rust") {
                let code_v = chars_of(code);
                let marker = chars_of("<--editable-->");
                let highlighted = if contains_chars(&code_v, &marker) {
                    let mut input = code.to_owned();
                    input.append("\n// <--editable-->");
                    highlight_code(ss, Some("rs"), input.as_str())
                } else {
                    highlight_code(ss, Some("rs"), code)
                };
                match highlighted {
                    Ok(h) => Ok(wrap_block("<pre class=\"code rust\"><code>", h.as_str())),
                    Err(e) => Err(e),
                }
            } else if crate::chars::str_eq_str(l, "mermaid") {
                let escaped = escape_html_text(code);
                Ok(wrap_block("<pre class=\"code\"><code class=\"language-mermaid\">",
                    escaped.as_str()))
            } else {
                match highlight_code(ss, Some(l), code) {
                    Ok(h) => Ok(wrap_block("<pre class=\"code\"><code>", h.as_str())),
                    Err(e) => Err(e),
                }
            }
        },
        None => {
            match highlight_code(ss, None, code) {
                Ok(h) => Ok(wrap_block("<pre class=\"code\"><code>", h.as_str())),
                Err(e) => Err(e),
            }
        },
    }
}

fn wrap_block(prefix: &str, html: &str) -> (r: String)
    ensures
        r@ == prefix@ + html@ + "</code></pre>"@,
{
    let mut out: Vec<char> = Vec::new();
    push_str_chars(&mut out, prefix);
    let hv = chars_of(html);
    push_all(&mut out, &hv);
    push_str_chars(&mut out, "</code></pre>");
    proof {
        assert(out@ =~= prefix@ + html@ + "</code></pre>"@);
    }
    string_from_chars(&out)
}

/// An ASCII whitespace byte.
pub open spec fn is_space_byte(b: u8) -> bool {
    b == 32 || b == 9 || b == 10 || b == 13 || b == 11 || b == 12
}

/// Whether the run holds nothing but ASCII whitespace.
pub open spec fn all_space_bytes(s: Seq<u8>) -> bool {
    forall|k: int| 0 <= k < s.len() ==> is_space_byte(#[trigger] s[k])
}

fn str_all_space(s: &str) -> (r: bool)
    ensures
        r == all_space_bytes(s.spec_bytes()),
{
    let b = s.as_bytes_vec();
    let mut i: usize = 0;
    while i < b.len()
        invariant
            i <= b@.len(),
            b@ == s.spec_bytes(),
            forall|k: int| 0 <= k < i ==> is_space_byte(#[trigger] b@[k]),
        decreases b@.len() - i,
    {
        let x = b[i];
        if !(x == 32 || x == 9 || x == 10 || x == 13 || x == 11 || x == 12) {
            return false;
        }
        i = i + 1;
    }
    true
}

/// What the splice of a document looks like from byte position `last` on:
/// the Markdown conversion of each between-blocks run that holds more than
/// whitespace, and the highlighted HTML of each block, in source order.
pub open spec fn spec_splice(
    bytes: Seq<u8>,
    spans: Seq<(nat, nat, Option<Seq<char>>, Seq<char>)>,
    last: nat,
    gfm: bool,
    mdx: bool,
    frontmatter: bool,
    allow_html: bool,
    grammars: Set<Seq<char>>,
) -> Seq<char>
    decreases spans.len(),
{
    if spans.len() == 0 {
        if last < bytes.len() && !all_space_bytes(bytes.skip(last as int)) {
            md_html_of(bytes.skip(last as int), gfm, mdx, frontmatter, allow_html)
        } else {
            Seq::empty()
        }
    } else {
        let sp = spans[0];
        (if last < sp.0 && !all_space_bytes(bytes.subrange(last as int, sp.0 as int)) {
            md_html_of(bytes.subrange(last as int, sp.0 as int), gfm, mdx, frontmatter, allow_html)
        } else {
            Seq::empty()
        }) + spec_block_html(sp.2, sp.3, grammars) + spec_splice(
            bytes,
            spans.skip(1),
            sp.1,
            gfm,
            mdx,
            frontmatter,
            allow_html,
            grammars,
        )
    }
}

/// The HTML of a whole document with highlighted code blocks.
pub open spec fn spec_highlighted_doc(
    bytes: Seq<u8>,
    c: BookConfig,
    grammars: Set<Seq<char>>,
) -> Seq<char> {
    spec_splice(
        bytes,
        code_spans_of(bytes, spec_gfm(c), spec_mdx(c), c.markdown.frontmatter,
            c.output.html.allow_html,
        ),
        0,
        spec_gfm(c),
        spec_mdx(c),
        c.markdown.frontmatter,
        c.output.html.allow_html,
        grammars,
    )
}

/// Whether the splice of a document succeeds from byte position `last`
/// on: every between-blocks run that holds more than whitespace converts,
/// and every block renders.
pub open spec fn spec_splice_ok(
    bytes: Seq<u8>,
    spans: Seq<(nat, nat, Option<Seq<char>>, Seq<char>)>,
    last: nat,
    gfm: bool,
    mdx: bool,
    frontmatter: bool,
    allow_html: bool,
    grammars: Set<Seq<char>>,
) -> bool
    decreases spans.len(),
{
    if spans.len() == 0 {
        last < bytes.len() && !all_space_bytes(bytes.skip(last as int)) ==> md_ok_of(
            bytes.skip(last as int),
            gfm,
            mdx,
            frontmatter,
            allow_html,
        )
    } else {
        let sp = spans[0];
        &&& (last < sp.0 && !all_space_bytes(bytes.subrange(last as int, sp.0 as int))
            ==> md_ok_of(bytes.subrange(last as int, sp.0 as int), gfm, mdx, frontmatter,
            allow_html,
        ))
        &&& spec_block_ok(sp.2, sp.3, grammars)
        &&& spec_splice_ok(bytes, spans.skip(1), sp.1, gfm, mdx, frontmatter, allow_html,
            grammars,
        )
    }
}

/// Whether a whole document renders with highlighted code blocks: the
/// parser accepts it and its splice succeeds.
pub open spec fn spec_highlighted_doc_ok(
    bytes: Seq<u8>,
    c: BookConfig,
    grammars: Set<Seq<char>>,
) -> bool {
    &&& md_spans_ok_of(bytes, spec_gfm(c), spec_mdx(c), c.markdown.frontmatter,
        c.output.html.allow_html,
    )
    &&& spec_splice_ok(
        bytes,
        code_spans_of(bytes, spec_gfm(c), spec_mdx(c), c.markdown.frontmatter,
            c.output.html.allow_html,
        ),
        0,
        spec_gfm(c),
        spec_mdx(c),
        c.markdown.frontmatter,
        c.output.html.allow_html,
        grammars,
    )
}

/// Convert one document to HTML, splicing in highlighted code blocks.
/// The conversion succeeds exactly when the parser accepts the document
/// and every piece of its splice renders.
#[verifier::rlimit(100)]
pub fn render_markdown_highlighted(content: &str, config: &BookConfig, ss: &SyntaxSet) -> (r:
    Result<String, String>)
    ensures
        r matches Ok(h) ==> h@ == spec_highlighted_doc(content.spec_bytes(), *config,
            syntax_grammars(*ss),
        ),
        r is Ok <==> spec_highlighted_doc_ok(content.spec_bytes(), *config, syntax_grammars(*ss)),
{
    let gfm = matches!(config.markdown.format, MarkdownFormat::Gfm);
    let mdx = matches!(config.markdown.format, MarkdownFormat::Mdx);
    let frontmatter = config.markdown.frontmatter;
    let allow_html = config.output.html.allow_html;
    proof {
        assert(gfm == spec_gfm(*config) && mdx == spec_mdx(*config));
    }
    let spans = match md_code_spans(content, gfm, mdx, frontmatter, allow_html) {
        Ok(v) => v,
        Err(e) => {
            return Err(e);
        },
    };
    let ghost bytes = content.spec_bytes();
    let ghost sv = spans_view(spans@);
    let ghost grammars = syntax_grammars(*ss);
    let byte_vec = content.as_bytes_vec();
    let n_bytes = byte_vec.len();
    proof {
        assert(byte_vec@ == bytes);
        assert(sv.skip(0) == sv);
    }
    let mut out: Vec<char> = Vec::new();
    let mut last: usize = 0;
    let mut i: usize = 0;
    while i < spans.len()
        invariant
            i <= spans@.len(),
            sv == spans_view(spans@),
            sv.len() == spans@.len(),
            sv == code_spans_of(bytes, gfm, mdx, frontmatter, allow_html),
            bytes == content.spec_bytes(),
            grammars == syntax_grammars(*ss),
            gfm == spec_gfm(*config),
            mdx == spec_mdx(*config),
            frontmatter == config.markdown.frontmatter,
            allow_html == config.output.html.allow_html,
            spans_wf(sv, bytes),
            md_spans_ok_of(bytes, gfm, mdx, frontmatter, allow_html),
            n_bytes == bytes.len(),
            last <= n_bytes,
            (i == 0 && last == 0) || (i >= 1 && last == sv[i - 1].1),
            spec_splice(bytes, sv, 0, gfm, mdx, frontmatter, allow_html, grammars) == out@
                + spec_splice(bytes, sv.skip(i as int), last as nat, gfm, mdx, frontmatter,
                allow_html, grammars,
            ),
            spec_splice_ok(bytes, sv, 0, gfm, mdx, frontmatter, allow_html, grammars)
                == spec_splice_ok(bytes, sv.skip(i as int), last as nat, gfm, mdx, frontmatter,
                allow_html, grammars,
            ),
        decreases spans@.len() - i,
    {
        let ghost rest = sv.skip(i as int);
        let ghost out0 = out@;
        let ghost total = spec_splice(bytes, sv, 0, gfm, mdx, frontmatter, allow_html, grammars);
        proof {
            assert(rest[0] == sv[i as int]);
            assert(sv[i as int] == span_view(spans@[i as int]));
            assert(rest.skip(1) =~= sv.skip(i as int + 1));
        }
        let ghost sp = rest[0];
        let start = spans[i].start;
        let end = spans[i].end;
        proof {
            assert(span_view(spans@[i as int]) == (spans@[i as int].start as nat,
            spans@[i as int].end as nat, spans@[i as int].lang.deep_view(),
            spans@[i as int].code@));
            assert(sp.0 == start as nat && sp.1 == end as nat);
            assert(sp.0 <= sp.1 <= bytes.len());
            assert(last <= start) by {
                if i >= 1 {
                    assert(sv[i - 1].1 <= sv[i as int].0);
                }
            }
        }
        let ghost seg_html: Seq<char> = (if last < sp.0 && !all_space_bytes(
            bytes.subrange(last as int, sp.0 as int),
        ) {
            md_html_of(bytes.subrange(last as int, sp.0 as int), gfm, mdx, frontmatter,
                allow_html)
        } else {
            Seq::empty()
        });
        if last < start {
            let seg_opt = crate::chars::str_slice(content, last, start);
            let seg = match seg_opt {
                Some(s) => s,
                None => {
                    proof {
                        assert(vstd::utf8::is_char_boundary(bytes, sp.0 as int));
                        if i >= 1 {
                            assert(vstd::utf8::is_char_boundary(bytes, sv[i - 1].1 as int));
                        }
                        assert(false);
                    }
                    return Err("code block position is not a character boundary".to_owned());
                },
            };
            proof {
                assert(seg.spec_bytes() =~= bytes.subrange(last as int, start as int));
            }
            if !str_all_space(seg) {
                match md_to_html(seg, gfm, mdx, frontmatter, allow_html) {
                    Ok(h) => {
                        proof {
                            assert(h@ == seg_html);
                        }
                        let hv = chars_of(h.as_str());
                        push_all(&mut out, &hv);
                    },
                    Err(e) => {
                        proof {
                            assert(!md_ok_of(bytes.subrange(last as int, sp.0 as int), gfm, mdx,
                                frontmatter, allow_html));
                            assert(!spec_splice_ok(bytes, rest, last as nat, gfm, mdx,
                                frontmatter, allow_html, grammars));
                        }
                        return Err(e);
                    },
                }
            } else {
                proof {
                    assert(seg_html =~= Seq::<char>::empty());
                }
            }
        } else {
            proof {
                assert(seg_html =~= Seq::<char>::empty());
            }
        }
        proof {
            assert(out@ =~= out0 + seg_html);
        }
        let span_ref = &spans[i];
        let lang: Option<&str> = match &span_ref.lang {
            Some(l) => Some(l.as_str()),
            None => None,
        };
        proof {
            assert(span_ref.lang.deep_view() == sp.2);
            assert(lang.deep_view() == span_ref.lang.deep_view());
            assert(span_ref.code@ == sp.3);
        }
        let code_str = span_ref.code.as_str();
        proof {
            assert(code_str@ == sp.3);
        }
        let blk_res = process_code_block(code_str, lang, ss);
        proof {
            assert(blk_res matches Ok(h) ==> h@ == spec_block_html(
                lang.deep_view(),
                code_str@,
                syntax_grammars(*ss),
            ));
            assert(blk_res is Ok <==> spec_block_ok(sp.2, sp.3, grammars));
        }
        let block = match blk_res {
            Ok(h) => h,
            Err(e) => {
                proof {
                    assert(!spec_splice_ok(bytes, rest, last as nat, gfm, mdx, frontmatter,
                        allow_html, grammars));
                }
                return Err(e);
            },
        };
        let bv = chars_of(block.as_str());
        push_all(&mut out, &bv);
        proof {
            assert(grammars == syntax_grammars(*ss));
            assert(block@ == spec_block_html(lang.deep_view(), code_str@, syntax_grammars(*ss)));
            assert(block@ == spec_block_html(sp.2, sp.3, grammars));
            assert(out@ =~= out0 + seg_html + block@);
            let tail_splice = spec_splice(bytes, sv.skip(i as int + 1), sp.1, gfm, mdx,
                frontmatter, allow_html, grammars);
            assert(spec_splice(bytes, rest, last as nat, gfm, mdx, frontmatter, allow_html,
                grammars) == seg_html + spec_block_html(sp.2, sp.3, grammars) + tail_splice);
            assert(out0 + (seg_html + spec_block_html(sp.2, sp.3, grammars) + tail_splice) =~= (
            out0 + seg_html + block@) + tail_splice);
            assert(total == out@ + tail_splice);
            assert(spec_splice_ok(bytes, rest, last as nat, gfm, mdx, frontmatter, allow_html,
                grammars) == spec_splice_ok(bytes, sv.skip(i as int + 1), sp.1, gfm, mdx,
                frontmatter, allow_html, grammars));
        }
        last = end;
        i = i + 1;
    }
    proof {
        assert(sv.skip(sv.len() as int).len() == 0);
    }
    if last < n_bytes {
        let tail_opt = crate::chars::str_slice(content, last, n_bytes);
        let tail = match tail_opt {
            Some(t) => t,
            None => {
                proof {
                    if i >= 1 {
                        assert(vstd::utf8::is_char_boundary(bytes, sv[i - 1].1 as int));
                    }
                    assert(false);
                }
                return Err("code block position is not a character boundary".to_owned());
            },
        };
        proof {
            assert(tail.spec_bytes() =~= bytes.skip(last as int));
        }
        if !str_all_space(tail) {
            match md_to_html(tail, gfm, mdx, frontmatter, allow_html) {
                Ok(h) => {
                    proof {
                        assert(md_ok_of(bytes.skip(last as int), gfm, mdx, frontmatter,
                            allow_html));
                    }
                    let hv = chars_of(h.as_str());
                    push_all(&mut out, &hv);
                },
                Err(e) => {
                    proof {
                        assert(!md_ok_of(bytes.skip(last as int), gfm, mdx, frontmatter,
                            allow_html));
                        assert(!spec_splice_ok(bytes, sv.skip(i as int), last as nat, gfm, mdx,
                            frontmatter, allow_html, grammars));
                    }
                    return Err(e);
                },
            }
        }
    }
    proof {
        assert(spec_splice(bytes, sv, 0, gfm, mdx, frontmatter, allow_html, grammars) =~= out@);
        assert(spec_splice_ok(bytes, sv, 0, gfm, mdx, frontmatter, allow_html, grammars));
    }
    Ok(string_from_chars(&out))
}

} // verus!

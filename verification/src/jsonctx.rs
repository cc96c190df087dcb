//! The template contexts, written as JSON text.
//!
//! The template engine takes its context as a JSON object. This module
//! builds that object as a string whose exact content is specified, so the
//! whole context handed to the engine is pinned by the page, navigation and
//! configuration values that went in.

use vstd::prelude::*;
use crate::chars::chars_of;
use crate::chars::push_str_chars;
use crate::chars::string_from_chars;
use crate::config::BookConfig;
use crate::config::MarkdownFormat;
use crate::nav::Section;
use crate::nav::SectionV;
use crate::numfmt::push_dec;
use crate::numfmt::spec_dec;
use crate::pages::PageInfo;
use crate::pages::PageV;

verus! {

/// The hexadecimal digit character for `d`.
pub open spec fn spec_hex_char(d: nat) -> char {
    if d < 10 {
        crate::numfmt::digit_char(d)
    } else if d == 10 {
        'a'
    } else if d == 11 {
        'b'
    } else if d == 12 {
        'c'
    } else if d == 13 {
        'd'
    } else if d == 14 {
        'e'
    } else {
        'f'
    }
}

/// How one character appears inside a JSON string literal.
pub open spec fn spec_json_escaped_char(c: char) -> Seq<char> {
    if c == '"' {
        "\\\""@
    } else if c == '\\' {
        "\\\\"@
    } else if c == '\n' {
        "\\n"@
    } else if c == '\r' {
        "\\r"@
    } else if c == '\t' {
        "\\t"@
    } else if (c as u32) < 0x20 {
        "\\u00"@ + seq![spec_hex_char(((c as u32) / 16) as nat), spec_hex_char(
            ((c as u32) % 16) as nat,
        )]
    } else {
        seq![c]
    }
}

/// A text, escaped for the inside of a JSON string literal.
pub open spec fn spec_json_escape(s: Seq<char>) -> Seq<char>
    decreases s.len(),
{
    if s.len() == 0 {
        Seq::empty()
    } else {
        spec_json_escaped_char(s[0]) + spec_json_escape(s.skip(1))
    }
}

/// A JSON string literal holding `s`.
pub open spec fn spec_json_str(s: Seq<char>) -> Seq<char> {
    "\""@ + spec_json_escape(s) + "\""@
}

proof fn lemma_escape_push(s: Seq<char>, c: char)
    ensures
        spec_json_escape(s.push(c)) == spec_json_escape(s) + spec_json_escaped_char(c),
    decreases s.len(),
{
    let r = s.push(c);
    if s.len() == 0 {
        assert(r[0] == c);
        assert(r.skip(1) =~= Seq::<char>::empty());
        assert(spec_json_escape(r) == spec_json_escaped_char(c) + spec_json_escape(r.skip(1)));
        assert(spec_json_escape(r.skip(1)) =~= Seq::<char>::empty());
        assert(spec_json_escape(s) =~= Seq::<char>::empty());
        assert(spec_json_escape(r) =~= spec_json_escape(s) + spec_json_escaped_char(c));
    } else {
        assert(r[0] == s[0]);
        assert(r.skip(1) =~= s.skip(1).push(c));
        lemma_escape_push(s.skip(1), c);
        assert(spec_json_escape(r) == spec_json_escaped_char(s[0]) + spec_json_escape(
            s.skip(1).push(c),
        ));
        assert(spec_json_escaped_char(s[0]) + (spec_json_escape(s.skip(1))
            + spec_json_escaped_char(c)) =~= spec_json_escape(s) + spec_json_escaped_char(c));
    }
}

fn hex_char(d: u32) -> (r: char)
    requires
        d < 16,
    ensures
        r == spec_hex_char(d as nat),
{
    if d == 0 {
        '0'
    } else if d == 1 {
        '1'
    } else if d == 2 {
        '2'
    } else if d == 3 {
        '3'
    } else if d == 4 {
        '4'
    } else if d == 5 {
        '5'
    } else if d == 6 {
        '6'
    } else if d == 7 {
        '7'
    } else if d == 8 {
        '8'
    } else if d == 9 {
        '9'
    } else if d == 10 {
        'a'
    } else if d == 11 {
        'b'
    } else if d == 12 {
        'c'
    } else if d == 13 {
        'd'
    } else if d == 14 {
        'e'
    } else {
        'f'
    }
}

/// Append `s`, escaped, to `out`.
fn push_json_escaped(out: &mut Vec<char>, s: &str)
    ensures
        final(out)@ == old(out)@ + spec_json_escape(s@),
{
    let v = chars_of(s);
    let mut i: usize = 0;
    proof {
        assert(v@.take(0) =~= Seq::<char>::empty());
        assert(out@ + spec_json_escape(v@.take(0)) =~= out@);
    }
    let ghost base = out@;
    while i < v.len()
        invariant
            i <= v@.len(),
            v@ == s@,
            out@ == base + spec_json_escape(v@.take(i as int)),
        decreases v@.len() - i,
    {
        let c = v[i];
        if c == '"' {
            push_str_chars(out, "\\\"");
        } else if c == '\\' {
            push_str_chars(out, "\\\\");
        } else if c == '\n' {
            push_str_chars(out, "\\n");
        } else if c == '\r' {
            push_str_chars(out, "\\r");
        } else if c == '\t' {
            push_str_chars(out, "\\t");
        } else if (c as u32) < 0x20 {
            push_str_chars(out, "\\u00");
            let code = c as u32;
            out.push(hex_char(code / 16));
            out.push(hex_char(code % 16));
            proof {
                assert(out@ == base + spec_json_escape(v@.take(i as int))
                    + spec_json_escaped_char(c)) by {
                    assert(spec_json_escaped_char(c) == "\\u00"@ + seq![
                        spec_hex_char(((c as u32) / 16) as nat),
                        spec_hex_char(((c as u32) % 16) as nat),
                    ]);
                    assert(out@ =~= base + spec_json_escape(v@.take(i as int)) + ("\\u00"@
                        + seq![spec_hex_char(((c as u32) / 16) as nat), spec_hex_char(
                        ((c as u32) % 16) as nat,
                    )]));
                }
            }
        } else {
            out.push(c);
            proof {
                assert(spec_json_escaped_char(c) =~= seq![c]);
                assert(out@ =~= base + spec_json_escape(v@.take(i as int)) + seq![c]);
            }
        }
        proof {
            lemma_escape_push(v@.take(i as int), c);
            assert(v@.take(i as int + 1) =~= v@.take(i as int).push(c));
            assert(out@ =~= base + spec_json_escape(v@.take(i as int + 1)));
        }
        i = i + 1;
    }
    proof {
        assert(v@.take(v@.len() as int) =~= v@);
    }
}

/// Append a JSON string literal holding `s` to `out`.
pub fn push_json_str(out: &mut Vec<char>, s: &str)
    ensures
        final(out)@ == old(out)@ + spec_json_str(s@),
{
    push_str_chars(out, "\"");
    push_json_escaped(out, s);
    push_str_chars(out, "\"");
    proof {
        assert(old(out)@ + "\""@ + spec_json_escape(s@) + "\""@ =~= old(out)@ + spec_json_str(
            s@,
        ));
    }
}

/// `true` or `false`.
pub open spec fn spec_json_bool(b: bool) -> Seq<char> {
    if b {
        "true"@
    } else {
        "false"@
    }
}

fn push_json_bool(out: &mut Vec<char>, b: bool)
    ensures
        final(out)@ == old(out)@ + spec_json_bool(b),
{
    if b {
        push_str_chars(out, "true");
    } else {
        push_str_chars(out, "false");
    }
}

/// `null` or a JSON string literal.
pub open spec fn spec_json_opt_str(s: Option<Seq<char>>) -> Seq<char> {
    match s {
        Some(t) => spec_json_str(t),
        None => "null"@,
    }
}

fn push_json_opt_str(out: &mut Vec<char>, s: &Option<String>)
    ensures
        final(out)@ == old(out)@ + spec_json_opt_str(s.deep_view()),
{
    match s {
        Some(t) => push_json_str(out, t.as_str()),
        None => push_str_chars(out, "null"),
    }
}

/// The object a page entry serializes to.
pub open spec fn spec_json_page_info(p: PageV) -> Seq<char> {
    "{\"title\":"@ + spec_json_str(p.title) + ",\"path\":"@ + spec_json_str(p.path) + "}"@
}

fn push_json_page_info(out: &mut Vec<char>, p: &PageInfo)
    ensures
        final(out)@ == old(out)@ + spec_json_page_info(p@),
{
    push_str_chars(out, "{\"title\":");
    push_json_str(out, p.title.as_str());
    push_str_chars(out, ",\"path\":");
    push_json_str(out, p.path.as_str());
    push_str_chars(out, "}");
    proof {
        assert(out@ =~= old(out)@ + spec_json_page_info(p@));
    }
}

/// `null` or a page-entry object.
pub open spec fn spec_json_opt_page(p: Option<PageV>) -> Seq<char> {
    match p {
        Some(q) => spec_json_page_info(q),
        None => "null"@,
    }
}

fn push_json_opt_page(out: &mut Vec<char>, p: &Option<PageInfo>)
    ensures
        final(out)@ == old(out)@ + spec_json_opt_page(p.deep_view()),
{
    match p {
        Some(q) => push_json_page_info(out, q),
        None => push_str_chars(out, "null"),
    }
}

/// The array of page-entry objects of one section.
pub open spec fn spec_json_pages(ps: Seq<PageV>) -> Seq<char>
    decreases ps.len(),
{
    if ps.len() == 0 {
        Seq::empty()
    } else if ps.len() == 1 {
        spec_json_page_info(ps[0])
    } else {
        spec_json_pages(ps.drop_last()) + ","@ + spec_json_page_info(ps.last())
    }
}

fn push_json_pages(out: &mut Vec<char>, ps: &Vec<PageInfo>)
    ensures
        final(out)@ == old(out)@ + "["@ + spec_json_pages(ps.deep_view()) + "]"@,
{
    push_str_chars(out, "[");
    let ghost base = out@;
    let mut i: usize = 0;
    proof {
        assert(ps.deep_view().take(0) =~= Seq::<PageV>::empty());
        assert(out@ =~= base + spec_json_pages(ps.deep_view().take(0)));
    }
    while i < ps.len()
        invariant
            i <= ps@.len(),
            ps.deep_view().len() == ps@.len(),
            out@ == base + spec_json_pages(ps.deep_view().take(i as int)),
        decreases ps@.len() - i,
    {
        if i > 0 {
            push_str_chars(out, ",");
        }
        proof {
            assert(ps@[i as int]@ == ps.deep_view()[i as int]);
        }
        push_json_page_info(out, &ps[i]);
        proof {
            let dv = ps.deep_view();
            assert(dv.take(i as int + 1).drop_last() =~= dv.take(i as int));
            assert(dv.take(i as int + 1).last() == dv[i as int]);
            if i == 0 {
                assert(spec_json_pages(dv.take(1)) =~= spec_json_page_info(dv[0]));
                assert(out@ =~= base + spec_json_pages(dv.take(i as int + 1)));
            } else {
                assert(spec_json_pages(dv.take(i as int + 1)) == spec_json_pages(dv.take(i as int))
                    + ","@ + spec_json_page_info(dv[i as int]));
                assert(out@ =~= base + spec_json_pages(dv.take(i as int + 1)));
            }
        }
        i = i + 1;
    }
    push_str_chars(out, "]");
    proof {
        assert(ps.deep_view().take(ps@.len() as int) =~= ps.deep_view());
        assert(out@ =~= old(out)@ + "["@ + spec_json_pages(ps.deep_view()) + "]"@);
    }
}

/// The object one section serializes to.
pub open spec fn spec_json_section(s: SectionV) -> Seq<char> {
    "{\"title\":"@ + spec_json_str(s.title) + ",\"pages\":"@ + "["@ + spec_json_pages(s.pages)
        + "]"@ + "}"@
}

fn push_json_section(out: &mut Vec<char>, s: &Section)
    ensures
        final(out)@ == old(out)@ + spec_json_section(s@),
{
    push_str_chars(out, "{\"title\":");
    push_json_str(out, s.title.as_str());
    push_str_chars(out, ",\"pages\":");
    push_json_pages(out, &s.pages);
    push_str_chars(out, "}");
    proof {
        assert(out@ =~= old(out)@ + spec_json_section(s@));
    }
}

/// The array of section objects.
pub open spec fn spec_json_sections(ss: Seq<SectionV>) -> Seq<char>
    decreases ss.len(),
{
    if ss.len() == 0 {
        Seq::empty()
    } else if ss.len() == 1 {
        spec_json_section(ss[0])
    } else {
        spec_json_sections(ss.drop_last()) + ","@ + spec_json_section(ss.last())
    }
}

fn push_json_sections(out: &mut Vec<char>, ss: &Vec<Section>)
    ensures
        final(out)@ == old(out)@ + "["@ + spec_json_sections(ss.deep_view()) + "]"@,
{
    push_str_chars(out, "[");
    let ghost base = out@;
    let mut i: usize = 0;
    proof {
        assert(ss.deep_view().take(0) =~= Seq::<SectionV>::empty());
        assert(out@ =~= base + spec_json_sections(ss.deep_view().take(0)));
    }
    while i < ss.len()
        invariant
            i <= ss@.len(),
            ss.deep_view().len() == ss@.len(),
            out@ == base + spec_json_sections(ss.deep_view().take(i as int)),
        decreases ss@.len() - i,
    {
        if i > 0 {
            push_str_chars(out, ",");
        }
        proof {
            assert(ss@[i as int]@ == ss.deep_view()[i as int]);
        }
        push_json_section(out, &ss[i]);
        proof {
            let dv = ss.deep_view();
            assert(dv.take(i as int + 1).drop_last() =~= dv.take(i as int));
            assert(dv.take(i as int + 1).last() == dv[i as int]);
            if i == 0 {
                assert(spec_json_sections(dv.take(1)) =~= spec_json_section(dv[0]));
                assert(out@ =~= base + spec_json_sections(dv.take(i as int + 1)));
            } else {
                assert(spec_json_sections(dv.take(i as int + 1)) == spec_json_sections(
                    dv.take(i as int),
                ) + ","@ + spec_json_section(dv[i as int]));
                assert(out@ =~= base + spec_json_sections(dv.take(i as int + 1)));
            }
        }
        i = i + 1;
    }
    push_str_chars(out, "]");
    proof {
        assert(ss.deep_view().take(ss@.len() as int) =~= ss.deep_view());
        assert(out@ =~= old(out)@ + "["@ + spec_json_sections(ss.deep_view()) + "]"@);
    }
}

/// The array of author names.
pub open spec fn spec_json_strings(ss: Seq<Seq<char>>) -> Seq<char>
    decreases ss.len(),
{
    if ss.len() == 0 {
        Seq::empty()
    } else if ss.len() == 1 {
        spec_json_str(ss[0])
    } else {
        spec_json_strings(ss.drop_last()) + ","@ + spec_json_str(ss.last())
    }
}

fn push_json_strings(out: &mut Vec<char>, ss: &Vec<String>)
    ensures
        final(out)@ == old(out)@ + "["@ + spec_json_strings(ss.deep_view()) + "]"@,
{
    push_str_chars(out, "[");
    let ghost base = out@;
    let mut i: usize = 0;
    proof {
        assert(ss.deep_view().take(0) =~= Seq::<Seq<char>>::empty());
        assert(out@ =~= base + spec_json_strings(ss.deep_view().take(0)));
    }
    while i < ss.len()
        invariant
            i <= ss@.len(),
            ss.deep_view().len() == ss@.len(),
            out@ == base + spec_json_strings(ss.deep_view().take(i as int)),
        decreases ss@.len() - i,
    {
        if i > 0 {
            push_str_chars(out, ",");
        }
        proof {
            assert(ss@[i as int]@ == ss.deep_view()[i as int]);
        }
        push_json_str(out, ss[i].as_str());
        proof {
            let dv = ss.deep_view();
            assert(dv.take(i as int + 1).drop_last() =~= dv.take(i as int));
            assert(dv.take(i as int + 1).last() == dv[i as int]);
            if i == 0 {
                assert(spec_json_strings(dv.take(1)) =~= spec_json_str(dv[0]));
                assert(out@ =~= base + spec_json_strings(dv.take(i as int + 1)));
            } else {
                assert(spec_json_strings(dv.take(i as int + 1)) == spec_json_strings(
                    dv.take(i as int),
                ) + ","@ + spec_json_str(dv[i as int]));
                assert(out@ =~= base + spec_json_strings(dv.take(i as int + 1)));
            }
        }
        i = i + 1;
    }
    push_str_chars(out, "]");
    proof {
        assert(ss.deep_view().take(ss@.len() as int) =~= ss.deep_view());
        assert(out@ =~= old(out)@ + "["@ + spec_json_strings(ss.deep_view()) + "]"@);
    }
}

/// The object the book metadata serializes to.
pub open spec fn spec_json_book(b: crate::config::Book) -> Seq<char> {
    "{\"title\":"@ + spec_json_str(b.title@) + ",\"description\":"@ + spec_json_opt_str(
        b.description.deep_view(),
    ) + ",\"authors\":"@ + "["@ + spec_json_strings(b.authors.deep_view()) + "]"@
        + ",\"language\":"@ + spec_json_str(b.language@) + ",\"base_url\":"@
        + spec_json_opt_str(b.base_url.deep_view()) + ",\"logo\":"@ + spec_json_str(b.logo@)
        + ",\"github_url\":"@ + spec_json_opt_str(b.github_url.deep_view())
        + ",\"github_edit_url_base\":"@ + spec_json_opt_str(b.github_edit_url_base.deep_view())
        + "}"@
}

fn push_json_book(out: &mut Vec<char>, b: &crate::config::Book)
    ensures
        final(out)@ == old(out)@ + spec_json_book(*b),
{
    push_str_chars(out, "{\"title\":");
    push_json_str(out, b.title.as_str());
    push_str_chars(out, ",\"description\":");
    push_json_opt_str(out, &b.description);
    push_str_chars(out, ",\"authors\":");
    push_json_strings(out, &b.authors);
    push_str_chars(out, ",\"language\":");
    push_json_str(out, b.language.as_str());
    push_str_chars(out, ",\"base_url\":");
    push_json_opt_str(out, &b.base_url);
    push_str_chars(out, ",\"logo\":");
    push_json_str(out, b.logo.as_str());
    push_str_chars(out, ",\"github_url\":");
    push_json_opt_str(out, &b.github_url);
    push_str_chars(out, ",\"github_edit_url_base\":");
    push_json_opt_str(out, &b.github_edit_url_base);
    push_str_chars(out, "}");
    proof {
        let o = old(out)@;
        let s1: Seq<char> = "{\"title\":"@;
        vstd::seq_lib::lemma_concat_associative(o, s1, spec_json_str(b.title@));
        let s2 = s1 + spec_json_str(b.title@);
        vstd::seq_lib::lemma_concat_associative(o, s2, ",\"description\":"@);
        let s3 = s2 + ",\"description\":"@;
        vstd::seq_lib::lemma_concat_associative(o, s3, spec_json_opt_str(b.description.deep_view()));
        let s4 = s3 + spec_json_opt_str(b.description.deep_view());
        vstd::seq_lib::lemma_concat_associative(o, s4, ",\"authors\":"@);
        let s5 = s4 + ",\"authors\":"@;
        vstd::seq_lib::lemma_concat_associative(o, s5, "["@);
        let s6 = s5 + "["@;
        vstd::seq_lib::lemma_concat_associative(o, s6, spec_json_strings(b.authors.deep_view()));
        let s7 = s6 + spec_json_strings(b.authors.deep_view());
        vstd::seq_lib::lemma_concat_associative(o, s7, "]"@);
        let s8 = s7 + "]"@;
        vstd::seq_lib::lemma_concat_associative(o, s8, ",\"language\":"@);
        let s9 = s8 + ",\"language\":"@;
        vstd::seq_lib::lemma_concat_associative(o, s9, spec_json_str(b.language@));
        let s10 = s9 + spec_json_str(b.language@);
        vstd::seq_lib::lemma_concat_associative(o, s10, ",\"base_url\":"@);
        let s11 = s10 + ",\"base_url\":"@;
        vstd::seq_lib::lemma_concat_associative(o, s11, spec_json_opt_str(b.base_url.deep_view()));
        let s12 = s11 + spec_json_opt_str(b.base_url.deep_view());
        vstd::seq_lib::lemma_concat_associative(o, s12, ",\"logo\":"@);
        let s13 = s12 + ",\"logo\":"@;
        vstd::seq_lib::lemma_concat_associative(o, s13, spec_json_str(b.logo@));
        let s14 = s13 + spec_json_str(b.logo@);
        vstd::seq_lib::lemma_concat_associative(o, s14, ",\"github_url\":"@);
        let s15 = s14 + ",\"github_url\":"@;
        vstd::seq_lib::lemma_concat_associative(o, s15, spec_json_opt_str(b.github_url.deep_view()));
        let s16 = s15 + spec_json_opt_str(b.github_url.deep_view());
        vstd::seq_lib::lemma_concat_associative(o, s16, ",\"github_edit_url_base\":"@);
        let s17 = s16 + ",\"github_edit_url_base\":"@;
        vstd::seq_lib::lemma_concat_associative(o, s17, spec_json_opt_str(b.github_edit_url_base.deep_view()));
        let s18 = s17 + spec_json_opt_str(b.github_edit_url_base.deep_view());
        vstd::seq_lib::lemma_concat_associative(o, s18, "}"@);
        let s19 = s18 + "}"@;
        assert(out@ == o + s19);
        assert(s19 == spec_json_book(*b));
    }
}

/// The object the search tuning serializes to.
pub open spec fn spec_json_search(s: crate::config::SearchConfig) -> Seq<char> {
    "{\"limit_results\":"@ + spec_dec(s.limit_results as nat) + ",\"use_boolean_and\":"@
        + spec_json_bool(s.use_boolean_and) + ",\"boost_title\":"@ + spec_dec(
        s.boost_title as nat,
    ) + ",\"boost_hierarchy\":"@ + spec_dec(s.boost_hierarchy as nat) + ",\"boost_paragraph\":"@
        + spec_dec(s.boost_paragraph as nat) + ",\"expand\":"@ + spec_json_bool(s.expand)
        + ",\"heading_split_level\":"@ + spec_dec(s.heading_split_level as nat) + "}"@
}

fn push_json_search(out: &mut Vec<char>, s: &crate::config::SearchConfig)
    ensures
        final(out)@ == old(out)@ + spec_json_search(*s),
{
    push_str_chars(out, "{\"limit_results\":");
    push_dec(s.limit_results as u64, out);
    push_str_chars(out, ",\"use_boolean_and\":");
    push_json_bool(out, s.use_boolean_and);
    push_str_chars(out, ",\"boost_title\":");
    push_dec(s.boost_title as u64, out);
    push_str_chars(out, ",\"boost_hierarchy\":");
    push_dec(s.boost_hierarchy as u64, out);
    push_str_chars(out, ",\"boost_paragraph\":");
    push_dec(s.boost_paragraph as u64, out);
    push_str_chars(out, ",\"expand\":");
    push_json_bool(out, s.expand);
    push_str_chars(out, ",\"heading_split_level\":");
    push_dec(s.heading_split_level as u64, out);
    push_str_chars(out, "}");
    proof {
        assert(out@ =~= old(out)@ + spec_json_search(*s));
    }
}

/// The object the HTML output flags serialize to.
pub open spec fn spec_json_html(h: crate::config::HtmlOutput) -> Seq<char> {
    "{\"mathjax_support\":"@ + spec_json_bool(h.mathjax_support) + ",\"allow_html\":"@
        + spec_json_bool(h.allow_html) + ",\"playground\":{\"editable\":"@ + spec_json_bool(
        h.playground.editable,
    ) + ",\"line_numbers\":"@ + spec_json_bool(h.playground.line_numbers) + "},\"search\":"@
        + spec_json_search(h.search) + "}"@
}

fn push_json_html(out: &mut Vec<char>, h: &crate::config::HtmlOutput)
    ensures
        final(out)@ == old(out)@ + spec_json_html(*h),
{
    push_str_chars(out, "{\"mathjax_support\":");
    push_json_bool(out, h.mathjax_support);
    push_str_chars(out, ",\"allow_html\":");
    push_json_bool(out, h.allow_html);
    push_str_chars(out, ",\"playground\":{\"editable\":");
    push_json_bool(out, h.playground.editable);
    push_str_chars(out, ",\"line_numbers\":");
    push_json_bool(out, h.playground.line_numbers);
    push_str_chars(out, "},\"search\":");
    push_json_search(out, &h.search);
    push_str_chars(out, "}");
    proof {
        let o = old(out)@;
        let s1: Seq<char> = "{\"mathjax_support\":"@;
        vstd::seq_lib::lemma_concat_associative(o, s1, spec_json_bool(h.mathjax_support));
        let s2 = s1 + spec_json_bool(h.mathjax_support);
        vstd::seq_lib::lemma_concat_associative(o, s2, ",\"allow_html\":"@);
        let s3 = s2 + ",\"allow_html\":"@;
        vstd::seq_lib::lemma_concat_associative(o, s3, spec_json_bool(h.allow_html));
        let s4 = s3 + spec_json_bool(h.allow_html);
        vstd::seq_lib::lemma_concat_associative(o, s4, ",\"playground\":{\"editable\":"@);
        let s5 = s4 + ",\"playground\":{\"editable\":"@;
        vstd::seq_lib::lemma_concat_associative(o, s5, spec_json_bool(h.playground.editable));
        let s6 = s5 + spec_json_bool(h.playground.editable);
        vstd::seq_lib::lemma_concat_associative(o, s6, ",\"line_numbers\":"@);
        let s7 = s6 + ",\"line_numbers\":"@;
        vstd::seq_lib::lemma_concat_associative(o, s7, spec_json_bool(h.playground.line_numbers));
        let s8 = s7 + spec_json_bool(h.playground.line_numbers);
        vstd::seq_lib::lemma_concat_associative(o, s8, "},\"search\":"@);
        let s9 = s8 + "},\"search\":"@;
        vstd::seq_lib::lemma_concat_associative(o, s9, spec_json_search(h.search));
        let s10 = s9 + spec_json_search(h.search);
        vstd::seq_lib::lemma_concat_associative(o, s10, "}"@);
        let s11 = s10 + "}"@;
        assert(out@ == o + s11);
        assert(s11 == spec_json_html(*h));
    }
}

/// The name a Markdown dialect serializes to.
pub open spec fn spec_format_name(f: MarkdownFormat) -> Seq<char> {
    match f {
        MarkdownFormat::Markdown => "markdown"@,
        MarkdownFormat::Gfm => "gfm"@,
        MarkdownFormat::Mdx => "mdx"@,
    }
}

fn push_format_name(out: &mut Vec<char>, f: MarkdownFormat)
    ensures
        final(out)@ == old(out)@ + spec_json_str(spec_format_name(f)),
{
    match f {
        MarkdownFormat::Markdown => push_json_str(out, "markdown"),
        MarkdownFormat::Gfm => push_json_str(out, "gfm"),
        MarkdownFormat::Mdx => push_json_str(out, "mdx"),
    }
}

/// The object the whole configuration serializes to.
pub open spec fn spec_json_config(c: BookConfig) -> Seq<char> {
    "{\"book\":"@ + spec_json_book(c.book) + ",\"rust\":{\"edition\":"@ + spec_json_str(
        c.rust.edition@,
    ) + "},\"output\":{\"html\":"@ + spec_json_html(c.output.html)
        + "},\"markdown\":{\"format\":"@ + spec_json_str(spec_format_name(c.markdown.format))
        + ",\"frontmatter\":"@ + spec_json_bool(c.markdown.frontmatter)
        + "},\"paths\":{\"templates\":"@ + spec_json_str(c.paths.templates@) + "}}"@
}

/// Append the configuration object to `out`.
pub fn push_json_config(out: &mut Vec<char>, c: &BookConfig)
    ensures
        final(out)@ == old(out)@ + spec_json_config(*c),
{
    push_str_chars(out, "{\"book\":");
    push_json_book(out, &c.book);
    push_str_chars(out, ",\"rust\":{\"edition\":");
    push_json_str(out, c.rust.edition.as_str());
    push_str_chars(out, "},\"output\":{\"html\":");
    push_json_html(out, &c.output.html);
    push_str_chars(out, "},\"markdown\":{\"format\":");
    push_format_name(out, c.markdown.format);
    push_str_chars(out, ",\"frontmatter\":");
    push_json_bool(out, c.markdown.frontmatter);
    push_str_chars(out, "},\"paths\":{\"templates\":");
    push_json_str(out, c.paths.templates.as_str());
    push_str_chars(out, "}}");
    proof {
        let o = old(out)@;
        let s1: Seq<char> = "{\"book\":"@;
        vstd::seq_lib::lemma_concat_associative(o, s1, spec_json_book(c.book));
        let s2 = s1 + spec_json_book(c.book);
        vstd::seq_lib::lemma_concat_associative(o, s2, ",\"rust\":{\"edition\":"@);
        let s3 = s2 + ",\"rust\":{\"edition\":"@;
        vstd::seq_lib::lemma_concat_associative(o, s3, spec_json_str(c.rust.edition@));
        let s4 = s3 + spec_json_str(c.rust.edition@);
        vstd::seq_lib::lemma_concat_associative(o, s4, "},\"output\":{\"html\":"@);
        let s5 = s4 + "},\"output\":{\"html\":"@;
        vstd::seq_lib::lemma_concat_associative(o, s5, spec_json_html(c.output.html));
        let s6 = s5 + spec_json_html(c.output.html);
        vstd::seq_lib::lemma_concat_associative(o, s6, "},\"markdown\":{\"format\":"@);
        let s7 = s6 + "},\"markdown\":{\"format\":"@;
        vstd::seq_lib::lemma_concat_associative(o, s7, spec_json_str(spec_format_name(c.markdown.format)));
        let s8 = s7 + spec_json_str(spec_format_name(c.markdown.format));
        vstd::seq_lib::lemma_concat_associative(o, s8, ",\"frontmatter\":"@);
        let s9 = s8 + ",\"frontmatter\":"@;
        vstd::seq_lib::lemma_concat_associative(o, s9, spec_json_bool(c.markdown.frontmatter));
        let s10 = s9 + spec_json_bool(c.markdown.frontmatter);
        vstd::seq_lib::lemma_concat_associative(o, s10, "},\"paths\":{\"templates\":"@);
        let s11 = s10 + "},\"paths\":{\"templates\":"@;
        vstd::seq_lib::lemma_concat_associative(o, s11, spec_json_str(c.paths.templates@));
        let s12 = s11 + spec_json_str(c.paths.templates@);
        vstd::seq_lib::lemma_concat_associative(o, s12, "}}"@);
        let s13 = s12 + "}}"@;
        assert(out@ == o + s13);
        assert(s13 == spec_json_config(*c));
    }
}

/// The configuration object as JSON text.
pub fn config_to_json(c: &BookConfig) -> (r: String)
    ensures
        r@ == spec_json_config(*c),
{
    let mut out: Vec<char> = Vec::new();
    push_json_config(&mut out, c);
    string_from_chars(&out)
}

/// One page's data, as the template sees it.
#[derive(Debug)]
pub struct PageData {
    pub title: String,
    pub content: String,
    pub sections: Vec<Section>,
    pub previous: Option<PageInfo>,
    pub next: Option<PageInfo>,
}

/// The object one page's data serializes to.
pub open spec fn spec_json_page_data(d: PageData) -> Seq<char> {
    "{\"title\":"@ + spec_json_str(d.title@) + ",\"content\":"@ + spec_json_str(d.content@)
        + ",\"sections\":"@ + "["@ + spec_json_sections(d.sections.deep_view()) + "]"@
        + ",\"previous\":"@
        + spec_json_opt_page(d.previous.deep_view()) + ",\"next\":"@ + spec_json_opt_page(
        d.next.deep_view(),
    ) + "}"@
}

fn push_json_page_data(out: &mut Vec<char>, d: &PageData)
    ensures
        final(out)@ == old(out)@ + spec_json_page_data(*d),
{
    push_str_chars(out, "{\"title\":");
    push_json_str(out, d.title.as_str());
    push_str_chars(out, ",\"content\":");
    push_json_str(out, d.content.as_str());
    push_str_chars(out, ",\"sections\":");
    push_json_sections(out, &d.sections);
    push_str_chars(out, ",\"previous\":");
    push_json_opt_page(out, &d.previous);
    push_str_chars(out, ",\"next\":");
    push_json_opt_page(out, &d.next);
    push_str_chars(out, "}");
    proof {
        assert(out@ =~= old(out)@ + spec_json_page_data(*d));
    }
}

/// The whole context one page renders with: the current year, the page
/// data, the configuration, the page's output path and the watch flag.
pub open spec fn spec_page_context(
    year: Seq<char>,
    d: PageData,
    c: BookConfig,
    current_path: Seq<char>,
    watch_enabled: bool,
) -> Seq<char> {
    "{\"year\":"@ + spec_json_str(year) + ",\"page\":"@ + spec_json_page_data(d) + ",\"config\":"@
        + spec_json_config(c) + ",\"current_path\":"@ + spec_json_str(current_path)
        + ",\"watch_enabled\":"@ + spec_json_bool(watch_enabled) + "}"@
}

/// Build the rendering context of one page.
pub fn page_context_json(
    year: &str,
    d: &PageData,
    c: &BookConfig,
    current_path: &str,
    watch_enabled: bool,
) -> (r: String)
    ensures
        r@ == spec_page_context(year@, *d, *c, current_path@, watch_enabled),
{
    let mut out: Vec<char> = Vec::new();
    push_str_chars(&mut out, "{\"year\":");
    push_json_str(&mut out, year);
    push_str_chars(&mut out, ",\"page\":");
    push_json_page_data(&mut out, d);
    push_str_chars(&mut out, ",\"config\":");
    push_json_config(&mut out, c);
    push_str_chars(&mut out, ",\"current_path\":");
    push_json_str(&mut out, current_path);
    push_str_chars(&mut out, ",\"watch_enabled\":");
    push_json_bool(&mut out, watch_enabled);
    push_str_chars(&mut out, "}");
    proof {
        assert(out@ =~= spec_page_context(year@, *d, *c, current_path@, watch_enabled));
    }
    string_from_chars(&out)
}

/// The context the landing page renders with. With a root Markdown page the
/// landing page carries its title and rendered body; without one it offers
/// the fixed fallback title over the section cards.
pub open spec fn spec_index_context(
    year: Seq<char>,
    c: BookConfig,
    sections: Seq<SectionV>,
    index_page: Option<(Seq<char>, Seq<char>)>,
) -> Seq<char> {
    "{\"year\":"@ + spec_json_str(year) + ",\"config\":"@ + spec_json_config(c)
        + ",\"sections\":"@ + "["@ + spec_json_sections(sections) + "]"@
        + ",\"current_path\":"@
        + spec_json_str("index.html"@) + (match index_page {
        Some(tc) => ",\"has_index\":true,\"title\":"@ + spec_json_str(tc.0) + ",\"content\":"@
            + spec_json_str(tc.1),
        None => ",\"has_index\":false,\"title\":"@ + spec_json_str("Documentation"@),
    }) + "}"@
}

/// Build the rendering context of the landing page. `index_page` carries
/// the title and rendered body of the root `index` page when there is one.
#[verifier::rlimit(100)]
pub fn index_context_json(
    year: &str,
    c: &BookConfig,
    sections: &Vec<Section>,
    index_page: &Option<(String, String)>,
) -> (r: String)
    ensures
        r@ == spec_index_context(
            year@,
            *c,
            sections.deep_view(),
            match index_page {
                Some(tc) => Some((tc.0@, tc.1@)),
                None => None,
            },
        ),
{
    let mut out: Vec<char> = Vec::new();
    push_str_chars(&mut out, "{\"year\":");
    push_json_str(&mut out, year);
    push_str_chars(&mut out, ",\"config\":");
    push_json_config(&mut out, c);
    push_str_chars(&mut out, ",\"sections\":");
    push_json_sections(&mut out, sections);
    push_str_chars(&mut out, ",\"current_path\":");
    push_json_str(&mut out, "index.html");
    match index_page {
        Some(tc) => {
            push_str_chars(&mut out, ",\"has_index\":true,\"title\":");
            push_json_str(&mut out, tc.0.as_str());
            push_str_chars(&mut out, ",\"content\":");
            push_json_str(&mut out, tc.1.as_str());
        },
        None => {
            push_str_chars(&mut out, ",\"has_index\":false,\"title\":");
            push_json_str(&mut out, "Documentation");
        },
    }
    push_str_chars(&mut out, "}");
    proof {
        assert(out@ =~= spec_index_context(
            year@,
            *c,
            sections.deep_view(),
            match index_page {
                Some(tc) => Some((tc.0@, tc.1@)),
                None => None,
            },
        ));
    }
    string_from_chars(&out)
}

} // verus!

use md_book::config::BookConfig;
use md_book::config::MarkdownFormat;
use md_book::engines::load_syntaxes;
use md_book::highlight::process_code_block;
use md_book::highlight::render_markdown;
use md_book::jsonctx::PageData;
use md_book::jsonctx::page_context_json;
use md_book::nav::Section;
use md_book::pages::PageInfo;
use md_book::pages::SourceFile;
use md_book::render::BuildError;
use md_book::render::TemplateSet;
use md_book::render::build;

fn src(rel: &str, content: &str) -> SourceFile {
    SourceFile { rel_path: rel.to_string(), content: content.to_string() }
}

fn plain_templates() -> TemplateSet {
    TemplateSet {
        page: "{{ page.title }}|{{ current_path }}|{{ watch_enabled }}".to_string(),
        index: "{{ title }}|{{ has_index }}".to_string(),
        sidebar: String::new(),
        footer: String::new(),
        header: String::new(),
    }
}

#[test]
fn test_process_markdown_basic_default() {
    let config = BookConfig::default();
    let markdown = "# Hello World\n\nThis is **bold** text.";

    let html = render_markdown(markdown, &config).unwrap();

    assert!(html.contains("<h1>Hello World</h1>"));
    assert!(html.contains("<strong>bold</strong>"));
}

#[test]
fn test_process_markdown_basic_gfm() {
    let mut config = BookConfig::default();
    config.markdown.format = MarkdownFormat::Gfm;

    let markdown = "# GFM Test\n\n~~strikethrough~~\n\n- [ ] Task item";

    let html = render_markdown(markdown, &config).unwrap();

    assert!(html.contains("<h1>GFM Test</h1>"));
    assert!(html.contains("strikethrough"));
}

#[test]
fn test_process_markdown_basic_mdx() {
    let mut config = BookConfig::default();
    config.markdown.format = MarkdownFormat::Mdx;

    let markdown = "# MDX Test\n\nThis is **bold** text.";

    let html = render_markdown(markdown, &config).unwrap();

    assert!(html.contains("<h1>MDX Test</h1>"));
    assert!(html.contains("<strong>bold</strong>"));
}

#[test]
fn test_process_markdown_basic_with_html_allowed() {
    let mut config = BookConfig::default();
    config.output.html.allow_html = true;

    let markdown = "# Test\n\n<div>Raw HTML</div>";

    let html = render_markdown(markdown, &config).unwrap();

    assert!(html.contains("<div>Raw HTML</div>"));
}

#[test]
fn test_process_markdown_basic_with_html_disallowed() {
    let config = BookConfig::default();

    let markdown = "# Test\n\n<div>Raw HTML</div>";

    let html = render_markdown(markdown, &config).unwrap();

    // HTML should be escaped or stripped when not allowed
    assert!(!html.contains("<div>Raw HTML</div>"));
}

#[test]
fn test_raw_html_escaped_when_disallowed() {
    let config = BookConfig::default();
    let html = render_markdown("text with <div> and <script> tags", &config).unwrap();
    assert!(html.contains("&lt;div&gt;"));
    assert!(html.contains("&lt;script&gt;"));
}

#[test]
fn test_process_markdown_basic_with_frontmatter() {
    let mut config = BookConfig::default();
    config.markdown.frontmatter = true;

    let markdown = "---\ntitle: Test\n---\n\n# Hello World";

    let html = render_markdown(markdown, &config).unwrap();

    assert!(html.contains("<h1>Hello World</h1>"));
    // Frontmatter should be processed/removed from output
    assert!(!html.contains("---"));
}

#[test]
fn test_process_code_block_rust() {
    let ss = load_syntaxes();
    let code = "fn main() {\n    println!(\"Hello, world!\");\n}";

    let highlighted = process_code_block(code, Some("rust"), &ss).unwrap();

    assert!(highlighted.contains("<pre"));
    // The highlighter really ran: the code text comes back wrapped in
    // classed spans, not verbatim.
    assert!(highlighted.contains("<span"));
    assert!(!highlighted.is_empty());
}

#[test]
fn test_process_code_block_no_language() {
    let ss = load_syntaxes();
    let code = "some plain text code";

    let highlighted = process_code_block(code, None, &ss).unwrap();

    assert!(highlighted.contains("<pre"));
    assert!(highlighted.contains("some plain text code"));
}

#[test]
fn test_process_code_block_mermaid_escapes_verbatim() {
    let ss = load_syntaxes();
    let highlighted = process_code_block("graph TD; A-->B;", Some("mermaid"), &ss).unwrap();
    assert_eq!(
        highlighted,
        "<pre class=\"code\"><code class=\"language-mermaid\">graph TD; A--&gt;B;</code></pre>"
    );
}

#[test]
fn test_page_data_serialization() {
    let page_data = PageData {
        title: "Test Page".to_string(),
        content: "<h1>Test</h1>".to_string(),
        sections: vec![Section {
            title: "Section 1".to_string(),
            pages: vec![PageInfo { title: "Page 1".to_string(), path: "/page1".to_string() }],
        }],
        previous: Some(PageInfo { title: "Previous".to_string(), path: "/prev".to_string() }),
        next: None,
    };

    let serialized = page_context_json("2024", &page_data, &BookConfig::default(), "x.html", false);
    assert!(serialized.contains("Test Page"));
    assert!(serialized.contains("Section 1"));
    assert!(serialized.contains("/page1"));
    assert!(serialized.contains("\"next\":null"));
    assert!(serialized.contains("\"watch_enabled\":false"));
}

#[test]
fn test_json_escaping_in_context() {
    let page_data = PageData {
        title: "Quote \" and \\ and\nnewline".to_string(),
        content: String::new(),
        sections: vec![],
        previous: None,
        next: None,
    };
    let serialized = page_context_json("2024", &page_data, &BookConfig::default(), "x.html", true);
    assert!(serialized.contains("Quote \\\" and \\\\ and\\nnewline"));
}

#[test]
fn test_build_generates_page_and_index() {
    let out = build(
        vec![src("a.md", "# A\n\ntext")],
        &plain_templates(),
        &BookConfig::default(),
        "2024",
        false,
        None,
    )
    .unwrap();
    assert_eq!(out.total_pages, 1);
    let paths: Vec<&str> = out.files.iter().map(|f| f.rel_path.as_str()).collect();
    assert_eq!(
        paths,
        vec![
            "a.html",
            "index.html",
            "components/doc-toc.js",
            "components/simple-block.js",
            "components/search-modal.js"
        ]
    );
    let page = &out.files[0];
    assert_eq!(page.content, "A|a.html|false");
    let index = &out.files[1];
    assert_eq!(index.content, "Documentation|false");
    // The landing context is pinned: no root index page, fixed fallback title.
    assert!(out.index_context.contains("\"has_index\":false"));
    assert!(out.index_context.contains("\"title\":\"Documentation\""));
}

#[test]
fn test_build_output_count_matches_sources() {
    // One generated `.html` file per Markdown source, plus exactly one
    // root index.
    let out = build(
        vec![
            src("a.md", "# A\n\ntext"),
            src("sub/b.md", "# B\n\ntext"),
            src("sub/c.md", "# C"),
        ],
        &plain_templates(),
        &BookConfig::default(),
        "2024",
        false,
        None,
    )
    .unwrap();
    let html_files: Vec<&str> = out
        .files
        .iter()
        .map(|f| f.rel_path.as_str())
        .filter(|p| p.ends_with(".html"))
        .collect();
    assert_eq!(html_files.len(), 3 + 1);
    assert_eq!(html_files, vec!["a.html", "sub/b.html", "sub/c.html", "index.html"]);
}

#[test]
fn test_build_scenario_two_files() {
    // input {"a.md": "# A\n\ntext", "sub/b.md": "# B\n\ntext"}
    let sources = vec![src("a.md", "# A\n\ntext"), src("sub/b.md", "# B\n\ntext")];
    let sorted = md_book::pages::sort_sources(sources.clone());
    let nav = md_book::nav::assemble_nav(&sorted);
    assert_eq!(nav.sections[0].title, "Guide");
    assert_eq!(nav.sections[0].pages[0].path, "/a.html");
    assert_eq!(nav.sections[1].title, "sub");
    assert_eq!(nav.sections[1].pages[0].path, "/sub/b.html");
    let (_, next) = md_book::nav::page_neighbors(&nav.all_pages, 0);
    assert_eq!(next.unwrap().path, "/sub/b.html");

    let out = build(sources, &plain_templates(), &BookConfig::default(), "2024", false, None)
        .unwrap();
    let paths: Vec<&str> = out.files.iter().map(|f| f.rel_path.as_str()).collect();
    assert!(paths.contains(&"a.html"));
    assert!(paths.contains(&"sub/b.html"));
    assert!(paths.contains(&"index.html"));
}

#[test]
fn test_build_uses_root_index_page() {
    let out = build(
        vec![src("index.md", "# Landing\n\nwelcome")],
        &plain_templates(),
        &BookConfig::default(),
        "2024",
        false,
        None,
    )
    .unwrap();
    let index = out.files.iter().rev().find(|f| f.rel_path == "index.html").unwrap();
    // The page file for index.md comes first; the synthesized landing page
    // overwrites it and carries the page's own title.
    assert_eq!(index.content, "Landing|true");
    assert!(out.index_context.contains("\"has_index\":true"));
    assert!(out.index_context.contains("\"title\":\"Landing\""));
    assert!(out.index_context.contains("welcome"));
}

#[test]
fn test_build_idempotent_for_fixed_inputs() {
    let sources = vec![src("a.md", "# A\n\ntext"), src("sub/b.md", "# B\n\n```rust\nfn main() {}\n```")];
    let config = BookConfig::default();
    let ss = load_syntaxes();
    let first = build(
        sources.clone(),
        &plain_templates(),
        &config,
        "2024",
        false,
        Some(&ss),
    )
    .unwrap();
    let second = build(
        sources,
        &plain_templates(),
        &config,
        "2024",
        false,
        Some(&ss),
    )
    .unwrap();
    assert_eq!(first.files.len(), second.files.len());
    for (a, b) in first.files.iter().zip(second.files.iter()) {
        assert_eq!(a.rel_path, b.rel_path);
        assert_eq!(a.content, b.content);
    }
}

#[test]
fn test_build_with_highlighting_emits_stylesheet() {
    let ss = load_syntaxes();
    let out = build(
        vec![src("a.md", "# A\n\n```rust\nfn main() {}\n```")],
        &plain_templates(),
        &BookConfig::default(),
        "2024",
        false,
        Some(&ss),
    )
    .unwrap();
    assert_eq!(out.files[0].rel_path, "css/syntax.css");
    assert!(!out.files[0].content.is_empty());
    assert!(out.files[0].content.contains("color"));
}

#[test]
fn test_highlighted_code_block_spliced_into_page() {
    let ss = load_syntaxes();
    let config = BookConfig::default();
    let html = md_book::highlight::render_markdown_highlighted(
        "# T\n\nbefore\n\n```rust\nfn main() {}\n```\n\nafter",
        &config,
        &ss,
    )
    .unwrap();
    assert!(html.contains("<h1>T</h1>"));
    assert!(html.contains("<pre class=\"code rust\"><code>"));
    assert!(html.contains("before"));
    assert!(html.contains("after"));
}

#[test]
fn test_build_template_error() {
    let mut templates = plain_templates();
    templates.page = "{% bad".to_string();
    let err = build(
        vec![src("a.md", "# A")],
        &templates,
        &BookConfig::default(),
        "2024",
        false,
        None,
    )
    .unwrap_err();
    assert!(matches!(err, BuildError::Template { .. }));
    assert!(err.message().starts_with("Failed to add template: page"));
}

#[test]
fn test_build_render_error_names_page() {
    let mut templates = plain_templates();
    templates.page = "{{ nothing.here }}".to_string();
    let err = build(
        vec![src("a.md", "# A")],
        &templates,
        &BookConfig::default(),
        "2024",
        false,
        None,
    )
    .unwrap_err();
    assert!(matches!(err, BuildError::Render { .. }));
    assert!(err.message().starts_with("Failed to render page: a.html"));
}

#[test]
fn test_input_dir_check() {
    assert!(md_book::render::check_input_dir("docs", true).is_ok());
    let err = md_book::render::check_input_dir("missing_dir", false).unwrap_err();
    let message = err.message();
    assert!(message.contains("Error"));
    assert!(message.contains("missing_dir"));
}

#[test]
fn test_component_assets_fixed() {
    let assets = md_book::render::component_assets();
    assert_eq!(assets.len(), 3);
    assert_eq!(assets[0].rel_path, "components/doc-toc.js");
    assert!(assets[0].content.contains("doc-toc"));
    assert_eq!(assets[1].rel_path, "components/simple-block.js");
    assert!(assets[1].content.contains("simple-block"));
    assert_eq!(assets[2].rel_path, "components/search-modal.js");
    assert!(assets[2].content.contains("search-modal"));
}

#[test]
fn test_current_year_in_documented_range() {
    let y = md_book::engines::current_year();
    assert!((-9999..=9999).contains(&y));
    assert!(y >= 2020);
}

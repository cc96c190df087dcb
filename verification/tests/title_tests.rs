use md_book::pages::extract_title;
use md_book::pages::page_title;
use md_book::paths::html_rel_path;
use md_book::paths::is_md_path;
use md_book::paths::md_stem;
use md_book::paths::page_url;
use md_book::paths::parent_dir;
use md_book::paths::path_lt;

#[test]
fn test_extract_title_h1() {
    let markdown = "# Main Title\n\nSome content here.";
    let title = extract_title(markdown);
    assert_eq!(title, Some("Main Title".to_string()));
}

#[test]
fn test_extract_title_h2() {
    let markdown = "Some text\n\n## Section Title\n\nContent";
    let title = extract_title(markdown);
    // extract_title only looks for H1 headings, not H2
    assert_eq!(title, None);
}

#[test]
fn test_extract_title_no_heading() {
    let markdown = "Just some regular text without headings.";
    let title = extract_title(markdown);
    assert_eq!(title, None);
}

#[test]
fn test_extract_title_complex_markup() {
    let markdown = "# Title with **bold** and *italic*";
    let title = extract_title(markdown);
    assert_eq!(title, Some("Title with **bold** and *italic*".to_string()));
}

#[test]
fn test_extract_title_first_heading_wins() {
    let markdown = "# First Title\n\n## Second Title\n\n# Third Title";
    let title = extract_title(markdown);
    assert_eq!(title, Some("First Title".to_string()));
}

#[test]
fn test_extract_title_trims_and_handles_crlf() {
    assert_eq!(extract_title("# Spaced \r\nrest"), Some("Spaced".to_string()));
    assert_eq!(extract_title("intro\n#  Indented Title  \nmore"), Some("Indented Title".to_string()));
    assert_eq!(extract_title(""), None);
}

#[test]
fn test_extract_title_trims_unicode_whitespace() {
    // Trimming follows the Unicode white-space property, as `str::trim`
    // does: a no-break space and an ideographic space fall away too.
    assert_eq!(extract_title("# A\u{a0}\nrest"), Some("A".to_string()));
    assert_eq!(extract_title("# \u{3000}Wide\u{2003}\nrest"), Some("Wide".to_string()));
}

#[test]
fn test_page_title_fallback_to_stem() {
    assert_eq!(page_title("no heading here", "guide/setup.md"), "setup");
    assert_eq!(page_title("# Real Title", "guide/setup.md"), "Real Title");
}

#[test]
fn test_md_path_recognition() {
    assert!(is_md_path("a.md"));
    assert!(is_md_path("sub/dir/page.md"));
    assert!(!is_md_path(".md"));
    assert!(!is_md_path("dir/.md"));
    assert!(!is_md_path("readme.txt"));
    assert!(!is_md_path("md"));
}

#[test]
fn test_output_paths() {
    assert_eq!(html_rel_path("a.md"), "a.html");
    assert_eq!(html_rel_path("sub/b.md"), "sub/b.html");
    assert_eq!(page_url("sub/b.md"), "/sub/b.html");
    assert_eq!(page_url("index.md"), "/index.html");
}

#[test]
fn test_parent_and_stem() {
    assert_eq!(parent_dir("a.md"), "");
    assert_eq!(parent_dir("sub/b.md"), "sub");
    assert_eq!(parent_dir("chapter1/sub/page.md"), "chapter1/sub");
    assert_eq!(md_stem("chapter1/sub/page.md"), "page");
    assert_eq!(md_stem("a.md"), "a");
}

#[test]
fn test_path_order_is_component_wise() {
    // A separator sorts before any other character, so "a/y.md" comes
    // before "a.b/x.md" even though '.' < '/' as raw characters.
    assert!(path_lt("a/y.md", "a.b/x.md"));
    assert!(!path_lt("a.b/x.md", "a/y.md"));
    assert!(path_lt("a.md", "sub/b.md"));
    assert!(path_lt("sub/a.md", "sub/b.md"));
    assert!(!path_lt("sub/b.md", "sub/b.md"));
}

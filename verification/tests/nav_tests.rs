use md_book::nav::assemble_nav;
use md_book::nav::page_neighbors;
use md_book::pages::SourceFile;
use md_book::pages::sort_sources;

fn src(rel: &str, content: &str) -> SourceFile {
    SourceFile { rel_path: rel.to_string(), content: content.to_string() }
}

#[test]
fn test_sort_sources_by_path() {
    let sources = vec![
        src("sub/b.md", "# B"),
        src("a.md", "# A"),
        src("a/y.md", "# Y"),
        src("a.b/x.md", "# X"),
    ];
    let sorted = sort_sources(sources);
    let order: Vec<&str> = sorted.iter().map(|s| s.rel_path.as_str()).collect();
    // Component-wise order: the directory "a" sorts before the files
    // "a.b/..." and "a.md", and "a/y.md" before "a.b/x.md".
    assert_eq!(order, vec!["a/y.md", "a.b/x.md", "a.md", "sub/b.md"]);
}

#[test]
fn test_guide_section_holds_root_pages_first() {
    let sorted = sort_sources(vec![
        src("a.md", "# A\n\ntext"),
        src("sub/b.md", "# B\n\ntext"),
        src("zeta.md", "# Z"),
    ]);
    let nav = assemble_nav(&sorted);
    assert_eq!(nav.sections.len(), 2);
    assert_eq!(nav.sections[0].title, "Guide");
    assert_eq!(nav.sections[0].pages.len(), 2);
    assert_eq!(nav.sections[0].pages[0].title, "A");
    assert_eq!(nav.sections[0].pages[1].title, "Z");
    assert_eq!(nav.sections[1].title, "sub");
    assert_eq!(nav.sections[1].pages.len(), 1);
    assert_eq!(nav.sections[1].pages[0].path, "/sub/b.html");
}

#[test]
fn test_sections_keyed_by_full_parent_path() {
    // Nested directories each become their own section, keyed by the full
    // relative parent path, in key order.
    let sorted = sort_sources(vec![
        src("chapter1/intro.md", "# One"),
        src("chapter1/sub/deep.md", "# Deep"),
        src("appendix/a.md", "# App"),
    ]);
    let nav = assemble_nav(&sorted);
    let titles: Vec<&str> = nav.sections.iter().map(|s| s.title.as_str()).collect();
    assert_eq!(titles, vec!["appendix", "chapter1", "chapter1/sub"]);
}

#[test]
fn test_sections_merge_equal_keys() {
    let sorted = sort_sources(vec![
        src("guide/a.md", "# A"),
        src("guide/b.md", "# B"),
    ]);
    let nav = assemble_nav(&sorted);
    assert_eq!(nav.sections.len(), 1);
    assert_eq!(nav.sections[0].title, "guide");
    assert_eq!(nav.sections[0].pages.len(), 2);
    assert_eq!(nav.sections[0].pages[0].title, "A");
    assert_eq!(nav.sections[0].pages[1].title, "B");
}

#[test]
fn test_prev_next_chain() {
    let sorted = sort_sources(vec![
        src("a.md", "# A"),
        src("b.md", "# B"),
        src("c.md", "# C"),
    ]);
    let nav = assemble_nav(&sorted);
    assert_eq!(nav.all_pages.len(), 3);

    let (prev0, next0) = page_neighbors(&nav.all_pages, 0);
    assert!(prev0.is_none());
    assert_eq!(next0.unwrap().path, "/b.html");

    let (prev1, next1) = page_neighbors(&nav.all_pages, 1);
    assert_eq!(prev1.unwrap().path, "/a.html");
    assert_eq!(next1.unwrap().path, "/c.html");

    let (prev2, next2) = page_neighbors(&nav.all_pages, 2);
    assert_eq!(prev2.unwrap().path, "/b.html");
    assert!(next2.is_none());
}

#[test]
fn test_next_pointer_crosses_sections() {
    // The chain runs over the global sorted order, so a root page's next
    // neighbor can live in a directory section.
    let sorted = sort_sources(vec![
        src("sub/b.md", "# B\n\ntext"),
        src("a.md", "# A\n\ntext"),
    ]);
    let nav = assemble_nav(&sorted);
    assert_eq!(nav.all_pages[0].path, "/a.html");
    let (_, next) = page_neighbors(&nav.all_pages, 0);
    assert_eq!(next.unwrap().path, "/sub/b.html");
}

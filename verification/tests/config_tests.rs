use md_book::config::BookConfig;
use md_book::config::ConfigLayerKind;
use md_book::config::HtmlOutput;
use md_book::config::MarkdownFormat;
use md_book::config::MarkdownInput;
use md_book::config::PlaygroundConfig;
use md_book::config::SearchConfig;
use md_book::config::config_layer_kind;
use md_book::jsonctx::config_to_json;

#[test]
fn test_markdown_format_default() {
    let format = MarkdownFormat::default();
    assert!(matches!(format, MarkdownFormat::Markdown));
}

#[test]
fn test_markdown_input_default() {
    let input = MarkdownInput::default();
    assert!(matches!(input.format, MarkdownFormat::Markdown));
    assert!(!input.frontmatter);
}

#[test]
fn test_html_output_defaults() {
    let output = HtmlOutput::default();
    assert!(!output.mathjax_support);
    assert!(!output.allow_html);
}

#[test]
fn test_playground_config_defaults() {
    let config = PlaygroundConfig::default();
    assert!(!config.editable);
    assert!(!config.line_numbers);
}

#[test]
fn test_search_config_defaults() {
    let config = SearchConfig::default();
    assert_eq!(config.limit_results, 20);
    assert!(!config.use_boolean_and);
    assert_eq!(config.boost_title, 2);
    assert_eq!(config.boost_hierarchy, 2);
    assert_eq!(config.boost_paragraph, 1);
    assert!(!config.expand);
    assert_eq!(config.heading_split_level, 2);
}

#[test]
fn test_config_serialization() {
    let mut config = BookConfig::default();
    config.book.title = "Serialization Test".to_string();
    config.book.authors = vec!["Test Author".to_string()];
    config.markdown.format = MarkdownFormat::Gfm;

    let serialized = config_to_json(&config);
    assert!(serialized.contains("Serialization Test"));
    assert!(serialized.contains("Test Author"));
    assert!(serialized.contains("gfm"));
}

#[test]
fn test_config_json_exact_defaults() {
    let config = BookConfig::default();
    let serialized = config_to_json(&config);
    assert!(serialized.starts_with("{\"book\":{\"title\":\"My Book\""));
    assert!(serialized.contains("\"language\":\"en\""));
    assert!(serialized.contains("\"logo\":\"/img/default_logo.svg\""));
    assert!(serialized.contains("\"edition\":\"2021\""));
    assert!(serialized.contains("\"limit_results\":20"));
    assert!(serialized.contains("\"format\":\"markdown\""));
    assert!(serialized.ends_with("\"templates\":\"templates\"}}"));
}

#[test]
fn test_config_layer_kinds() {
    assert!(matches!(config_layer_kind("book.toml"), ConfigLayerKind::Toml));
    assert!(matches!(config_layer_kind("custom.json"), ConfigLayerKind::Json));
    assert!(matches!(config_layer_kind("config.yaml"), ConfigLayerKind::Unsupported));
}

#[test]
fn test_default_functions() {
    assert_eq!(md_book::config::default_title(), "My Book");
    assert_eq!(md_book::config::default_language(), "en");
    assert_eq!(md_book::config::default_logo(), "/img/default_logo.svg");
    assert_eq!(md_book::config::default_edition(), "2021");
    assert_eq!(md_book::config::default_limit_results(), 20);
    assert_eq!(md_book::config::default_boost_title(), 2);
    assert_eq!(md_book::config::default_boost_hierarchy(), 2);
    assert_eq!(md_book::config::default_boost_paragraph(), 1);
    assert_eq!(md_book::config::default_heading_split_level(), 2);
    assert_eq!(md_book::config::default_templates_dir(), "templates");
}

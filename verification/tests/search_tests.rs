use md_book::render::OutputFile;
use md_book::search::PagefindBuilder;
use md_book::search::PagefindError;
use md_book::search::finish_with_index_outcome;

#[test]
fn test_pagefind_builder_new() {
    let builder = PagefindBuilder::new("site_out".to_string(), true);
    assert!(builder.is_ok());

    let builder = builder.unwrap();
    assert_eq!(builder.source_path(), Some(&"site_out".to_string()));
}

#[test]
fn test_invalid_source_path() {
    let invalid_path = "/nonexistent/path".to_string();
    let result = PagefindBuilder::new(invalid_path.clone(), false);

    assert!(result.is_err());
    match result.unwrap_err() {
        PagefindError::SourcePathNotFound { path } => {
            assert_eq!(path, invalid_path);
        }
        _ => panic!("Expected SourcePathNotFound error"),
    }
}

#[test]
fn test_index_outcome_mapping() {
    let b = PagefindBuilder::new("out".to_string(), true).unwrap();
    assert!(b.index_outcome(true, "").is_ok());

    let launch_failure = b.index_outcome(false, "no such binary").unwrap_err();
    assert_eq!(
        launch_failure.message(),
        "Indexing failed: Failed to run pagefind command: no such binary"
    );

    let exit_failure = b.index_outcome(true, "exit status 1").unwrap_err();
    assert_eq!(
        exit_failure.message(),
        "Indexing failed: Pagefind command failed: exit status 1"
    );
}

#[test]
fn test_indexer_failure_keeps_build_output() {
    // A failed indexing run must not disturb the generated files.
    let files = vec![
        OutputFile { rel_path: "index.html".to_string(), content: "<html>".to_string() },
        OutputFile { rel_path: "a.html".to_string(), content: "<html>a".to_string() },
    ];
    let failure = PagefindError::IndexingFailed { message: "exit status 1".to_string() };
    let (kept, log) = finish_with_index_outcome(files, Err(failure));
    assert_eq!(kept.len(), 2);
    assert_eq!(kept[0].rel_path, "index.html");
    assert_eq!(kept[1].rel_path, "a.html");
    assert_eq!(log.unwrap(), "Indexing failed: exit status 1");

    let files2 = vec![OutputFile { rel_path: "index.html".to_string(), content: "x".to_string() }];
    let (kept2, log2) = finish_with_index_outcome(files2, Ok(()));
    assert_eq!(kept2.len(), 1);
    assert!(log2.is_none());
}

#[test]
fn test_pagefind_error_messages() {
    assert_eq!(
        PagefindError::Config { message: "bad".to_string() }.message(),
        "Configuration error: bad"
    );
    assert_eq!(
        PagefindError::InvalidConfigFormat { path: "x.yml".to_string() }.message(),
        "Invalid config file format: x.yml"
    );
    assert_eq!(
        PagefindError::Io { message: "denied".to_string() }.message(),
        "I/O error: denied"
    );
    assert_eq!(
        PagefindError::MultipleConfigs { files: vec!["a".to_string(), "b".to_string()] }.message(),
        "Multiple config files found"
    );
}

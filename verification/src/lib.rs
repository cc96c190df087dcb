//! A static-site generator library: it turns a tree of Markdown sources into
//! HTML pages with hierarchical navigation, delegating Markdown conversion,
//! syntax highlighting and templating to outside engines behind narrow,
//! specified boundaries.

pub mod chars;
pub mod numfmt;
pub mod paths;
pub mod pages;
pub mod nav;
pub mod config;
pub mod jsonctx;
pub mod engines;
pub mod highlight;
pub mod render;
pub mod search;
pub mod orchestrator;

pub use config::BookConfig;
pub use pages::PageInfo;
pub use render::build;
pub use search::PagefindBuilder;
pub use search::PagefindError;

//! Compiles a line-based markup language into HTML.
//!
//! The input is read line by line through a single-lookahead [`Reader`], parsed by a
//! recursive section grammar into a tree of [`Section`]s, and emitted as HTML by
//! [`Page::to_html_string`].

pub mod attribute;
pub mod error;
pub mod html;
pub mod inline;
pub mod page;
pub mod reader;
pub mod section;
pub mod text;

pub use attribute::Attribute;
pub use error::{PageBuildError, PageParseError};
pub use inline::{escape_html, format_link, text_to_html};
pub use page::Page;
pub use reader::Reader;
pub use section::Section;

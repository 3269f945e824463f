//! A minimal line-oriented text search library.
//!
//! Given a query and the full text of a file, the library splits the text
//! into lines, selects the lines that contain the query (optionally after
//! simple ASCII case folding), and renders the selection as printable output
//! lines.  Argument resolution into a [`Config`] value lives here as well;
//! reading the file and printing belong to the surrounding program.

pub mod config;
pub mod search;
pub mod render;

pub use config::Config;
pub use config::ConfigError;
pub use search::search;
pub use render::format_result;
pub use render::run_on_contents;

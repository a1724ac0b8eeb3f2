//! A small line-oriented text-search library: it compiles a query into a
//! matcher (plain substring or regular expression, case-sensitive or not),
//! scans newline-delimited content for matching lines, renders the matches
//! with optional line numbers and inline highlighting, and classifies the
//! errors a run can end with.

pub mod config;
pub mod error;
pub mod highlight;
pub mod matcher;
pub mod pipeline;
pub mod search;
pub mod text;

pub use config::Config;
pub use error::ApplicationError;
pub use highlight::apply_highlight;
pub use highlight::highlight_match;
pub use highlight::highlight_with_regex;
pub use highlight::highlight_with_substring;
pub use matcher::compile_regex;
pub use matcher::CompiledRegex;
pub use pipeline::plan_source;
pub use pipeline::process_input;
pub use pipeline::run_entries;
pub use pipeline::SourceAction;
pub use pipeline::SourceEntry;
pub use search::compare_lines;
pub use search::search;

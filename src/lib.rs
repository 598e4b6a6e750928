//! Line-oriented text search: find the lines of a text that contain a query,
//! optionally ignoring letter case.
pub mod config;
pub mod search;
pub mod text;

pub use config::{ArgumentError, Config};
pub use search::{search, search_case_insensitive, search_lines};

//! A small line search: pick out the lines of a text that hold a query,
//! either exactly or after lowercasing both sides.

pub mod text;
pub mod search;
pub mod config;

pub use config::{Config, ConfigError};
pub use search::{matching_lines, search, search_case_insensitive};

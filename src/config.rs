//! What one search run is asked to do.
use vstd::prelude::*;

use crate::search::{folded_lines, found_lines, search, search_case_insensitive};
use crate::text::views;

verus! {

/// Why a configuration could not be built.
#[derive(Debug, Clone, Copy, PartialEq, Eq, Structural)]
pub enum ConfigError {
    /// Fewer than three arguments: the query or the file path is missing.
    InsufficientArguments,
}

/// The query, the file to search, and whether case must match.
#[derive(Debug)]
pub struct Config {
    pub query: String,
    pub filepath: String,
    pub case_sensitive: bool,
}

impl Config {
    /// Builds a configuration from the invocation arguments
    /// `[program, query, filepath, ...]`; further arguments are ignored.
    /// `case_insensitive_set` tells whether the caller's environment asks for
    /// a search that ignores case.
    pub fn new(args: &[String], case_insensitive_set: bool) -> (r: Result<Config, ConfigError>)
        ensures
            args@.len() < 3 <==> r == Err::<Config, ConfigError>(ConfigError::InsufficientArguments),
            args@.len() >= 3 ==> r is Ok,
            r matches Ok(c) ==> {
                &&& c.query@ == args@[1]@
                &&& c.filepath@ == args@[2]@
                &&& c.case_sensitive == !case_insensitive_set
            },
    {
        if args.len() < 3 {
            return Err(ConfigError::InsufficientArguments);
        }
        let query = args[1].clone();
        let filepath = args[2].clone();
        Ok(Config { query, filepath, case_sensitive: !case_insensitive_set })
    }

    /// The lines of `contents` that hold the query, matched with or without
    /// regard to case as this configuration asks.
    pub fn search_in<'a>(&self, contents: &'a str) -> (r: Vec<&'a str>)
        ensures
            self.case_sensitive ==> views(r@) == found_lines(self.query@, contents@),
            !self.case_sensitive ==> views(r@) == folded_lines(self.query@, contents@),
    {
        if self.case_sensitive {
            search(self.query.as_str(), contents)
        } else {
            search_case_insensitive(self.query.as_str(), contents)
        }
    }
}

} // verus!

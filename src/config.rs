//! Run configuration: which query to look for, in which file, and whether
//! letter case counts.
use vstd::prelude::*;
use crate::search::{matching_lines, search_lines, views_of};

verus! {

/// Why the arguments did not give a configuration.
#[derive(Clone, Copy, Debug, PartialEq, Eq, Structural)]
pub enum ArgumentError {
    /// No argument after the program name.
    MissingQuery,
    /// A query but no file name after it.
    MissingFilename,
}

impl ArgumentError {
    /// A sentence for the user that says which argument is missing.
    pub fn message(&self) -> (r: &'static str)
        ensures
            *self == ArgumentError::MissingQuery ==> r@ == "Didn't get a query string"@,
            *self == ArgumentError::MissingFilename ==> r@ == "Didn't get a filename string"@,
    {
        match self {
            ArgumentError::MissingQuery => "Didn't get a query string",
            ArgumentError::MissingFilename => "Didn't get a filename string",
        }
    }
}

/// What one run searches for and where.
#[derive(Debug)]
pub struct Config {
    pub query: String,
    pub filename: String,
    /// Set when letter case is to be ignored in the comparison.
    pub ignore_case: bool,
}

impl Config {
    /// Builds a configuration from the process arguments: `args[0]` is the
    /// program name, `args[1]` the query and `args[2]` the file name; further
    /// arguments are ignored. `ignore_case` is whether the caller's
    /// environment asks for a case-insensitive search (the `IGNORE_CASE`
    /// variable being set, whatever its value).
    pub fn new(args: &[String], ignore_case: bool) -> (r: Result<Config, ArgumentError>)
        ensures
            args@.len() < 2 <==> r == Err::<Config, ArgumentError>(ArgumentError::MissingQuery),
            args@.len() == 2 <==> r == Err::<Config, ArgumentError>(
                ArgumentError::MissingFilename,
            ),
            args@.len() >= 3 <==> r is Ok,
            r is Ok ==> r->Ok_0.query@ == args@[1]@ && r->Ok_0.filename@ == args@[2]@
                && r->Ok_0.ignore_case == ignore_case,
    {
        if args.len() < 2 {
            return Err(ArgumentError::MissingQuery);
        }
        if args.len() < 3 {
            return Err(ArgumentError::MissingFilename);
        }
        let query = args[1].clone();
        let filename = args[2].clone();
        Ok(Config { query, filename, ignore_case })
    }

    /// The lines of `contents` that match this configuration's query, in
    /// order, under its case rule.
    pub fn search_in<'a>(&self, contents: &'a str) -> (r: Vec<&'a str>)
        ensures
            views_of(r@) == matching_lines(self.query@, contents@, self.ignore_case),
    {
        search_lines(self.query.as_str(), contents, self.ignore_case)
    }
}

} // verus!

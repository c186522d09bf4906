//! Command-line arguments, as plain values: an optional log-file override
//! and exactly one command per invocation.

use vstd::prelude::*;

use crate::config::ConfigFile;
use crate::query::Query;

verus! {

/// One invocation's arguments.
#[derive(Debug)]
pub struct Args {
    /// Log file to use, overriding the configured path.
    pub file: Option<String>,
    /// The operation to run.
    pub command: ArgsCommand,
}

/// The single operation an invocation performs.
#[derive(Debug)]
pub enum ArgsCommand {
    /// Create a default config file.
    Init,
    /// Record a message in the log file.
    Log {
        /// Message to log.
        log: String,
    },
    /// Scan the log file for matching lines.
    Query(Query),
}

impl Args {
    /// The log file a run operates on: the explicit override when one was
    /// given, else the configured path with its home shorthand expanded —
    /// unchanged when it carries no shorthand or an unsupported
    /// `~otheruser/...` form, and with `~` or `~/...` replaced by the home
    /// directory and the rest of the path, or kept as is when no home
    /// directory is known.
    pub fn file(&self, cfg: &ConfigFile) -> (r: String)
        ensures
            self.file matches Some(f) ==> r@ == f@,
            (self.file is None && (cfg.path_view().len() == 0 || cfg.path_view()[0] != '~'))
                ==> r@ == cfg.path_view(),
            (self.file is None && cfg.path_view().len() >= 2 && cfg.path_view()[0] == '~'
                && cfg.path_view()[1] != '/' && cfg.path_view()[1] != '\\') ==> r@
                == cfg.path_view(),
            (self.file is None && cfg.path_view().len() >= 1 && cfg.path_view()[0] == '~'
                && (cfg.path_view().len() == 1 || cfg.path_view()[1] == '/')) ==> (r@
                == cfg.path_view() || exists|h: Seq<char>| r@ == h + cfg.path_view().skip(1)),
    {
        match &self.file {
            Some(f) => f.clone(),
            None => cfg.normalized_path(),
        }
    }
}

} // verus!

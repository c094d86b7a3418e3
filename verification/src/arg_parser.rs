//! What the command line can say, and what its words stand for.
use crate::text::{lowercase, lowercase_of, same_text};
use vstd::prelude::*;
use vstd::string::*;

verus! {

/// How much the program logs.
#[derive(Debug, Clone, Copy, PartialEq, Eq, Structural)]
pub enum LogLevel {
    Trace,
    Debug,
    Info,
    Warn,
    Error,
}

/// The level that the word `word` stands for, `word` being in lower case:
/// `trace`, `debug`, `info`, `warn` and `error` stand for their levels, and
/// `err` for `Error` too. Any other word stands for no level.
pub open spec fn level_of(word: Seq<char>) -> Option<LogLevel> {
    if word == "debug"@ {
        Some(LogLevel::Debug)
    } else if word == "info"@ {
        Some(LogLevel::Info)
    } else if word == "error"@ {
        Some(LogLevel::Error)
    } else if word == "trace"@ {
        Some(LogLevel::Trace)
    } else if word == "warn"@ {
        Some(LogLevel::Warn)
    } else if word == "err"@ {
        Some(LogLevel::Error)
    } else {
        None
    }
}

impl LogLevel {
    /// The level that `word` stands for, `word` being in lower case.
    pub fn parse(word: &str) -> (level: Option<LogLevel>)
        ensures
            level == level_of(word@),
    {
        if same_text(word, "debug") {
            Some(LogLevel::Debug)
        } else if same_text(word, "info") {
            Some(LogLevel::Info)
        } else if same_text(word, "error") {
            Some(LogLevel::Error)
        } else if same_text(word, "trace") {
            Some(LogLevel::Trace)
        } else if same_text(word, "warn") {
            Some(LogLevel::Warn)
        } else if same_text(word, "err") {
            Some(LogLevel::Error)
        } else {
            None
        }
    }
}

/// The arguments of the program.
#[derive(Debug, Clone)]
pub struct Args {
    /// Where the configuration file is.
    pub config_loc: String,
    /// How much to log: the name of a level, in any case.
    pub log_level: String,
    /// The directory for recorded files, if not the working directory.
    pub out_dir: Option<String>,
}

impl Default for Args {
    /// The arguments of a program that was given none.
    fn default() -> (args: Args)
        ensures
            args.config_loc@ == "config/config.yml"@,
            args.log_level@ == "INFO"@,
            args.out_dir is None,
    {
        Args {
            config_loc: String::from_str("config/config.yml"),
            log_level: String::from_str("INFO"),
            out_dir: None,
        }
    }
}

impl Args {
    /// The level that the arguments ask for: the one that `log_level` names
    /// once it is put in lower case. `None` where it names none.
    pub fn level(&self) -> (level: Option<LogLevel>)
        ensures
            level == level_of(lowercase_of(self.log_level@)),
    {
        let lowered = lowercase(self.log_level.as_str());
        LogLevel::parse(lowered.as_str())
    }
}

} // verus!

//! The command-line surface: where the two configuration files are looked
//! for.

use vstd::prelude::*;
use vstd::string::StringExecFns;

verus! {

/// The paths given on the command line, each with its default.
#[derive(Debug)]
pub struct Options {
    config: String,
    log_config: String,
}

/// The path of the gateway configuration where none is given.
pub open spec fn default_config_path() -> Seq<char> {
    "configuration/enma.yaml"@
}

/// The path of the log configuration where none is given.
pub open spec fn default_log_config_path() -> Seq<char> {
    "configuration/log4rs.yaml"@
}

/// The path in effect: the one given, or the default.
pub open spec fn path_or(given: Option<String>, default: Seq<char>) -> Seq<char> {
    match given {
        Some(path) => path@,
        None => default,
    }
}

impl Options {
    /// The path of the gateway configuration.
    pub closed spec fn config_path(&self) -> Seq<char> {
        self.config@
    }

    /// The path of the log configuration.
    pub closed spec fn log_config_path(&self) -> Seq<char> {
        self.log_config@
    }

    /// The options for the values of the two path arguments, `None` for one
    /// that was not given.
    pub fn new(config: Option<String>, log_config: Option<String>) -> (options: Self)
        ensures
            options.config_path() == path_or(config, default_config_path()),
            options.log_config_path() == path_or(log_config, default_log_config_path()),
    {
        let config = match config {
            Some(path) => path,
            None => String::from_str("configuration/enma.yaml"),
        };
        let log_config = match log_config {
            Some(path) => path,
            None => String::from_str("configuration/log4rs.yaml"),
        };
        Options { config, log_config }
    }

    pub fn get_config_path(&self) -> (path: &str)
        ensures
            path@ == self.config_path(),
    {
        self.config.as_str()
    }

    pub fn get_log_config_path(&self) -> (path: &str)
        ensures
            path@ == self.log_config_path(),
    {
        self.log_config.as_str()
    }
}

} // verus!

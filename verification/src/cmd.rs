//! The command line.
use std::path::PathBuf;

use vstd::prelude::*;

verus! {

/// `std::path::PathBuf`, carried and never looked into.
#[verifier::external_type_specification]
#[verifier::external_body]
pub struct ExPathBuf(PathBuf);

/// A level of verbosity.
#[derive(Clone, Copy, Debug, PartialEq, Eq, Structural)]
pub enum LevelFilter {
    Off,
    Error,
    Warn,
    Info,
    Debug,
    Trace,
}

/// The interval, in seconds, between background refreshes of the discovery cache, if none is
/// given.
pub const DEFAULT_DISCOVERY_INTERVAL_SECS: u64 = 300;

/// How long to wait for answers to a discovery, in seconds, if no time is given.
pub const DEFAULT_DISCOVERY_TIMEOUT_SECS: u64 = 10;

/// How long to wait for answers to a discovery, in seconds, if the given time is one that a
/// discovery can be run with: a second at least, and a minute at most.
pub fn discovery_timeout(secs: u64) -> (r: Option<u64>)
    ensures
        r == (if 1 <= secs <= 60 {
            Some(secs)
        } else {
            None
        }),
{
    if 1 <= secs && secs <= 60 {
        Some(secs)
    } else {
        None
    }
}

/// The arguments of the program.
#[derive(Debug)]
pub struct Cmd {
    /// Path to the configuration file.
    pub config_path: PathBuf,
    /// Port to serve on.
    pub port: u16,
    /// Level of verbosity.
    pub verbosity: LevelFilter,
    /// Interval, in seconds, between background refreshes of the discovery cache.
    pub discovery_interval_secs: u64,
    /// How long to wait for answers to a discovery, in seconds.
    pub discovery_timeout_secs: u64,
}

/// The name of a level.
pub open spec fn level_name(level: LevelFilter) -> Seq<char> {
    match level {
        LevelFilter::Off => "OFF"@,
        LevelFilter::Error => "ERROR"@,
        LevelFilter::Warn => "WARN"@,
        LevelFilter::Info => "INFO"@,
        LevelFilter::Debug => "DEBUG"@,
        LevelFilter::Trace => "TRACE"@,
    }
}

/// `log::LevelFilter::as_str` gives the level's name in capital letters, which is also what its
/// `Display` writes.
#[verifier::external_body]
pub(crate) fn level_text(level: LevelFilter) -> (r: &'static str)
    ensures
        r@ == level_name(level),
{
    let level = match level {
        LevelFilter::Off => log::LevelFilter::Off,
        LevelFilter::Error => log::LevelFilter::Error,
        LevelFilter::Warn => log::LevelFilter::Warn,
        LevelFilter::Info => log::LevelFilter::Info,
        LevelFilter::Debug => log::LevelFilter::Debug,
        LevelFilter::Trace => log::LevelFilter::Trace,
    };
    level.as_str()
}

} // verus!

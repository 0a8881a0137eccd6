//! The configuration: where events go and which devices are watched.

use vstd::prelude::*;

use crate::pattern::Pattern;

verus! {

/// A credential, written into the configuration or kept in a file.
#[derive(Debug)]
pub enum Secret {
    /// The path of the file that holds the credential.
    Reference(String),
    /// The credential itself.
    Literal(String),
}

impl Secret {
    /// The file that has to be read to learn the credential, if any.
    pub open spec fn spec_path(&self) -> Option<Seq<char>> {
        match self {
            Secret::Reference(path) => Some(path@),
            Secret::Literal(_) => None,
        }
    }

    /// The credential, given what the referenced file holds (`None` where
    /// it could not be read, or where nothing was read).
    pub open spec fn spec_read(&self, file: Option<Seq<char>>) -> Option<Seq<char>> {
        match self {
            Secret::Literal(secret) => Some(secret@),
            Secret::Reference(_) => file,
        }
    }

    /// The file that has to be read to learn the credential, if any.
    pub fn path(&self) -> (r: Option<&String>)
        ensures
            r is Some <==> self.spec_path() is Some,
            r matches Some(p) ==> Some(p@) == self.spec_path(),
    {
        match self {
            Secret::Reference(path) => Some(path),
            Secret::Literal(_) => None,
        }
    }

    /// The credential. A literal is the credential whatever `file` holds; a
    /// reference yields the contents of its file, handed in by the caller.
    pub fn read(&self, file: Option<String>) -> (r: Option<String>)
        ensures
            r is Some <==> self.spec_read(opt_view(file)) is Some,
            r matches Some(s) ==> Some(s@) == self.spec_read(opt_view(file)),
    {
        match self {
            Secret::Literal(secret) => Some(secret.clone()),
            Secret::Reference(_) => file,
        }
    }
}

/// The view of an optional string.
pub open spec fn opt_view(s: Option<String>) -> Option<Seq<char>> {
    match s {
        Some(text) => Some(text@),
        None => None,
    }
}

/// Where events are delivered, and the credential presented there.
pub struct HomeAssistantConfig {
    pub url: String,
    pub token: Secret,
}

/// Whether a device is read exclusively or shared with other readers.
#[derive(Debug, Clone, Copy, PartialEq, Eq, Structural)]
pub enum GrabConfig {
    Exclusive,
    Shared,
}

impl Default for GrabConfig {
    fn default() -> (r: Self)
        ensures
            r == GrabConfig::Exclusive,
    {
        GrabConfig::Exclusive
    }
}

/// One pair of a filter rule: a property key and the pattern its value has
/// to match. A pair without a pattern never matches.
pub struct FilterEntry {
    pub key: String,
    pub pattern: Option<Pattern>,
}

/// A declared device: its logical name and the rule that selects it.
pub struct DeviceConfig {
    pub name: String,
    pub filter: Vec<FilterEntry>,
    pub grab: GrabConfig,
}

/// The whole configuration. The order of `devices` decides which name a
/// device gets when several rules match it.
pub struct Config {
    pub home_assistant: HomeAssistantConfig,
    pub devices: Vec<DeviceConfig>,
}

/// How much the program reports about its own work.
#[derive(Debug, Clone, Copy, PartialEq, Eq, Structural)]
pub enum LogLevel {
    Warn,
    Info,
    Debug,
    Trace,
}

/// The level that a number of `--verbose` flags asks for.
pub open spec fn level_of(verbose: u8) -> LogLevel {
    if verbose == 0 {
        LogLevel::Warn
    } else if verbose == 1 {
        LogLevel::Info
    } else if verbose == 2 {
        LogLevel::Debug
    } else {
        LogLevel::Trace
    }
}

/// The level that a number of `--verbose` flags asks for: warnings
/// without any, then information, then debugging, and everything from the
/// third flag on.
pub fn verbosity_level(verbose: u8) -> (level: LogLevel)
    ensures
        level == level_of(verbose),
{
    match verbose {
        0 => LogLevel::Warn,
        1 => LogLevel::Info,
        2 => LogLevel::Debug,
        _ => LogLevel::Trace,
    }
}

} // verus!

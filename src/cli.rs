use vstd::prelude::*;

use crate::config::{OptionsConfig, RepositoryConfig};

verus! {

/// The most detailed kind of log message to show.
#[derive(Debug, Clone, Copy, PartialEq, Eq, Structural)]
pub enum LogLevel {
    Trace,
    Debug,
    Info,
    Warn,
    Error,
}

/// The log level chosen by its number: 0 is `Trace` up to 4, `Error`;
/// any other number means `Info`.
pub fn log_level(n: u8) -> (r: LogLevel)
    ensures
        r == (if n == 0 {
            LogLevel::Trace
        } else if n == 1 {
            LogLevel::Debug
        } else if n == 3 {
            LogLevel::Warn
        } else if n == 4 {
            LogLevel::Error
        } else {
            LogLevel::Info
        }),
{
    match n {
        0 => LogLevel::Trace,
        1 => LogLevel::Debug,
        2 => LogLevel::Info,
        3 => LogLevel::Warn,
        4 => LogLevel::Error,
        _ => LogLevel::Info,
    }
}

/// How to obtain the repository to analyse.
pub enum RepositorySource {
    /// Clone from `url` into the directory `into`.
    Clone { url: String, into: String },
    /// Open the local repository at `path`.
    Open { path: String },
}

/// The directory that a clone goes into when the options name none.
pub open spec fn default_clone_dir() -> Seq<char> {
    "cloned_repository"@
}

/// A URL takes precedence over a path; with neither there is nothing to
/// analyse.
pub fn repository_source(repository: &RepositoryConfig, options: &OptionsConfig) -> (r: Option<
    RepositorySource,
>)
    ensures
        match repository.url {
            Some(url) => r is Some && match r->Some_0 {
                RepositorySource::Clone { url: u, into } => u@ == url@ && into@ == match options.clone_into {
                    Some(dir) => dir@,
                    None => default_clone_dir(),
                },
                RepositorySource::Open { .. } => false,
            },
            None => match repository.path {
                Some(path) => r is Some && match r->Some_0 {
                    RepositorySource::Open { path: p } => p@ == path@,
                    RepositorySource::Clone { .. } => false,
                },
                None => r is None,
            },
        },
{
    match &repository.url {
        Some(url) => {
            let into = match &options.clone_into {
                Some(dir) => dir.clone(),
                None => String::from_str("cloned_repository"),
            };
            Some(RepositorySource::Clone { url: url.clone(), into })
        },
        None => match &repository.path {
            Some(path) => Some(RepositorySource::Open { path: path.clone() }),
            None => None,
        },
    }
}

} // verus!

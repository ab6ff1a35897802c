//! Server configuration, as plain values.
//!
//! How the values are obtained (command line, environment) is the embedding
//! program's business; the library only records them and derives the
//! fallback-document path.

use vstd::prelude::*;
use vstd::string::StringExecFns;

use crate::paths::join_path;
use crate::paths::spec_join;

verus! {

/// A configuration value that names an unusable location.
pub enum ConfigError {
    /// The directory to serve cannot be opened: the path, and the
    /// operating system's complaint.
    InvalidBaseDir(String, String),
    /// The fallback document cannot be opened: the path, and the
    /// operating system's complaint.
    InvalidFallbackPath(String, String),
}

impl ConfigError {
    /// A human-readable description of the error.
    pub fn message(&self) -> (r: String)
        ensures
            r@ == (match self {
                ConfigError::InvalidBaseDir(p, e) => "Could not open base dir \""@ + p@ + "\": "@
                    + e@,
                ConfigError::InvalidFallbackPath(p, e) => "Could not open fallback path \""@ + p@
                    + "\": "@ + e@,
            }),
    {
        match self {
            ConfigError::InvalidBaseDir(p, e) => {
                let mut s = String::from_str("Could not open base dir \"");
                s.append(p.as_str());
                s.append("\": ");
                s.append(e.as_str());
                s
            },
            ConfigError::InvalidFallbackPath(p, e) => {
                let mut s = String::from_str("Could not open fallback path \"");
                s.append(p.as_str());
                s.append("\": ");
                s.append(e.as_str());
                s
            },
        }
    }
}

/// What the server is told at startup: the directory to serve, and optional
/// overrides for the fallback document, the bind address and the port.
pub struct Config {
    /// The directory to serve to the world.
    pub base_dir: String,
    /// The file served when no asset matches; when absent,
    /// `index.html` under the base directory.
    pub fallback_path: Option<String>,
    /// The address to bind to, when given.
    pub address: Option<String>,
    /// The port to bind to, when given (overrides the address's port).
    pub port: Option<u16>,
}

/// The fallback-document path a configuration denotes: the configured one,
/// or `index.html` under the base directory.
pub open spec fn spec_fallback_path(base_dir: Seq<char>, fallback: Option<Seq<char>>) -> Seq<
    char,
> {
    match fallback {
        Some(p) => p,
        None => spec_join(base_dir, "index.html"@),
    }
}

/// The per-request state of the server: its configuration and the resolved
/// fallback-document path.  The file cache lives beside it, shared behind a
/// reader/writer lock.
pub struct ServerState {
    /// The configuration the server was started with.
    pub config: Config,
    /// The resolved path of the fallback document.
    pub fallback_path: String,
}

impl ServerState {
    /// Builds the state for a configuration, resolving the fallback-document
    /// path.
    pub fn from_config(config: Config) -> (r: Self)
        ensures
            r.fallback_path@ == spec_fallback_path(
                config.base_dir@,
                match config.fallback_path {
                    Some(p) => Some(p@),
                    None => None,
                },
            ),
            r.config == config,
    {
        let fallback_path = match &config.fallback_path {
            Some(p) => p.clone(),
            None => join_path(config.base_dir.as_str(), "index.html"),
        };
        ServerState { config, fallback_path }
    }
}

} // verus!

//! The `valiforge.toml` configuration model and the settings taken from it.
//!
//! Every documented key is accepted; only `schema.path` and `target.base_url`
//! are used so far.

use vstd::prelude::*;
use std::path::PathBuf;

verus! {

/// The `[schema]` table.
#[derive(Debug)]
pub struct SchemaConfig {
    pub path: Option<PathBuf>,
    pub format: Option<String>,
}

/// The `[target]` table.
#[derive(Debug, Clone)]
pub struct TargetConfig {
    pub base_url: Option<String>,
    pub timeout: Option<String>,
}

/// The `[validation]` table.
#[derive(Debug, Clone)]
pub struct ValidationConfig {
    pub fail_on: Option<Vec<String>>,
    pub ignore_paths: Option<Vec<String>>,
}

/// The `[reporting]` table.
#[derive(Debug, Clone)]
pub struct ReportingConfig {
    pub formats: Option<Vec<String>>,
}

/// A whole `valiforge.toml`.
#[derive(Debug)]
pub struct Config {
    pub schema: Option<SchemaConfig>,
    pub target: Option<TargetConfig>,
    pub validation: Option<ValidationConfig>,
    pub reporting: Option<ReportingConfig>,
}

impl Default for Config {
    /// A configuration with no table.
    fn default() -> (c: Self)
        ensures
            c.schema is None,
            c.target is None,
            c.validation is None,
            c.reporting is None,
    {
        Config { schema: None, target: None, validation: None, reporting: None }
    }
}

/// The settings the CLI takes from a configuration file.
#[derive(Debug)]
pub struct ResolvedConfig {
    pub schema_path: Option<PathBuf>,
    pub target_url: Option<String>,
}

/// `schema.path` of a configuration, where both the table and the key are present.
pub open spec fn configured_schema_path(c: Config) -> Option<PathBuf> {
    match c.schema {
        Some(s) => s.path,
        None => None,
    }
}

/// `target.base_url` of a configuration, where both the table and the key are present.
pub open spec fn configured_target_url(c: Config) -> Option<String> {
    match c.target {
        Some(t) => t.base_url,
        None => None,
    }
}

impl Config {
    /// The settings a configuration gives: its schema path and target URL.
    pub fn resolve(self) -> (r: ResolvedConfig)
        ensures
            r.schema_path == configured_schema_path(self),
            r.target_url == configured_target_url(self),
    {
        let schema_path = match self.schema {
            Some(s) => s.path,
            None => None,
        };
        let target_url = match self.target {
            Some(t) => t.base_url,
            None => None,
        };
        ResolvedConfig { schema_path, target_url }
    }
}

impl ResolvedConfig {
    /// The settings when there is no configuration file: none.
    pub fn unset() -> (r: ResolvedConfig)
        ensures
            r.schema_path is None,
            r.target_url is None,
    {
        ResolvedConfig { schema_path: None, target_url: None }
    }
}

} // verus!

//! Settings read from the configuration file.
use std::collections::HashMap;

use vstd::prelude::*;

use crate::paths::{joined_path, path_join};
use crate::text::text;

verus! {

/// The settings; every part has a default when the file leaves it out.
#[derive(Debug)]
pub struct Config {
    pub defaults: DefaultsConfig,
    pub transfer: TransferConfig,
    pub bookmarks: HashMap<String, String>,
}

/// Start-up values that the command line can override.
#[derive(Debug)]
pub struct DefaultsConfig {
    pub android_path: Option<String>,
    pub local_path: Option<String>,
    pub serial: Option<String>,
}

/// How transfers are made.
#[derive(Debug)]
pub struct TransferConfig {
    pub use_tar_streaming: bool,
}

impl Default for DefaultsConfig {
    fn default() -> (r: DefaultsConfig)
        ensures
            r.android_path is None,
            r.local_path is None,
            r.serial is None,
    {
        DefaultsConfig { android_path: None, local_path: None, serial: None }
    }
}

impl Default for TransferConfig {
    fn default() -> (r: TransferConfig)
        ensures
            r.use_tar_streaming,
    {
        TransferConfig { use_tar_streaming: default_true() }
    }
}

impl Default for Config {
    fn default() -> (r: Config)
        ensures
            r.defaults.android_path is None,
            r.defaults.local_path is None,
            r.defaults.serial is None,
            r.transfer.use_tar_streaming,
            r.bookmarks@ == Map::<String, String>::empty(),
    {
        Config {
            defaults: DefaultsConfig::default(),
            transfer: TransferConfig::default(),
            bookmarks: HashMap::new(),
        }
    }
}

/// The value a missing `use_tar_streaming` takes.
pub fn default_true() -> (r: bool)
    ensures
        r,
{
    true
}

/// Where the configuration file lies: `abdrose/config.toml` under the
/// user's configuration directory, or under the current directory (`.`)
/// when there is none.
pub open spec fn config_file(config_dir: Option<Seq<char>>) -> Seq<char> {
    let base = match config_dir {
        Some(d) => d,
        None => "."@,
    };
    joined_path(joined_path(base, "abdrose"@), "config.toml"@)
}

/// The path of the configuration file, given the user's configuration
/// directory if the system has one.
pub fn config_path(config_dir: Option<String>) -> (r: String)
    ensures
        r@ == config_file(
            match config_dir {
                Some(d) => Some(d@),
                None => None,
            },
        ),
{
    let base = match config_dir {
        Some(d) => d,
        None => text("."),
    };
    let dir = path_join(base.as_str(), "abdrose");
    path_join(dir.as_str(), "config.toml")
}

} // verus!

//! The command line.
use vstd::prelude::*;

use crate::text::text;

verus! {

/// The options given on the command line; each is optional.
#[derive(Debug)]
pub struct Cli {
    pub android_path: Option<String>,
    pub local_path: Option<String>,
    pub serial: Option<String>,
    pub log_file: Option<String>,
}

/// The device directory shown first when none is given.
pub open spec fn default_android_path() -> Seq<char> {
    "/sdcard"@
}

impl Cli {
    /// The device directory to start in: the one given, else `/sdcard`.
    pub fn start_android_path(&self) -> (r: String)
        ensures
            r@ == match self.android_path {
                Some(p) => p@,
                None => default_android_path(),
            },
    {
        match &self.android_path {
            Some(p) => p.clone(),
            None => text("/sdcard"),
        }
    }

    /// The local directory to start in: the one given, else the current
    /// directory, else `.`.
    pub fn start_local_path(&self, current_dir: Option<String>) -> (r: String)
        ensures
            r@ == match self.local_path {
                Some(p) => p@,
                None => match current_dir {
                    Some(d) => d@,
                    None => "."@,
                },
            },
    {
        match &self.local_path {
            Some(p) => p.clone(),
            None => match current_dir {
                Some(d) => d,
                None => text("."),
            },
        }
    }
}

} // verus!

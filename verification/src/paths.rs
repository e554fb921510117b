//! The application's on-disk layout, derived from its data directory.
//!
//! Where the data directory itself lives is platform business the
//! surrounding binary settles (and it creates the directory); from there on
//! every path is a pure function of it.

use vstd::prelude::*;
use vstd::string::StringExecFns;

verus! {

/// The application's directories and well-known file paths.
#[derive(Clone, Debug)]
pub struct AppPaths {
    data_dir: String,
}

impl AppPaths {
    /// The data directory every other path is derived from.
    pub closed spec fn spec_data_dir(self) -> Seq<char> {
        self.data_dir@
    }

    /// Build the layout over an already-determined data directory.
    pub fn from_data_dir(data_dir: String) -> (p: AppPaths)
        ensures
            p.spec_data_dir() == data_dir@,
    {
        AppPaths { data_dir }
    }

    /// The local data directory.
    pub fn dir_data(&self) -> (d: String)
        ensures
            d@ == self.spec_data_dir(),
    {
        self.data_dir.clone()
    }

    /// The directory log files are written to.
    pub fn dir_logs(&self) -> (d: String)
        ensures
            d@ == self.spec_data_dir() + "/logs"@,
    {
        let mut d = self.data_dir.clone();
        d.append("/logs");
        d
    }

    /// The path of the settings overrides file.
    pub fn path_settings(&self) -> (d: String)
        ensures
            d@ == self.spec_data_dir() + "/settings.json"@,
    {
        let mut d = self.data_dir.clone();
        d.append("/settings.json");
        d
    }
}

} // verus!

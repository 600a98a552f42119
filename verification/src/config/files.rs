//! Where the configuration file lives.
use std::path::PathBuf;
use vstd::prelude::*;

use crate::config::paths::{join_path, spec_join_path};

verus! {

/// The program's configuration directory and the configuration file within it.
#[derive(Debug)]
pub struct ConfigPaths {
    pub directory: PathBuf,
    pub filename: PathBuf,
}

impl ConfigPaths {
    /// Under the user's configuration directory `base`: the directory `tyde`, holding
    /// `config.toml`.
    pub fn in_config_dir(base: PathBuf) -> (r: ConfigPaths)
        ensures
            r.directory == spec_join_path(base, "tyde"@),
            r.filename == spec_join_path(r.directory, "config.toml"@),
    {
        let directory = join_path(&base, "tyde");
        let filename = join_path(&directory, "config.toml");
        ConfigPaths { directory, filename }
    }
}

} // verus!

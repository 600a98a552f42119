//! Where the log files live.
use std::path::PathBuf;
use vstd::prelude::*;

use crate::config::paths::{join_path, spec_join_path};

verus! {

/// The log directory and the log file within it.
#[derive(Debug)]
pub struct LogPaths {
    pub directory: PathBuf,
    pub filepath: PathBuf,
}

impl LogPaths {
    /// Under the user's state directory `base`: `tyde/logs`, holding `tyde.log`.
    pub fn in_state_dir(base: PathBuf) -> (r: LogPaths)
        ensures
            r.directory == spec_join_path(spec_join_path(base, "tyde"@), "logs"@),
            r.filepath == spec_join_path(r.directory, "tyde.log"@),
    {
        let app = join_path(&base, "tyde");
        let directory = join_path(&app, "logs");
        let filepath = join_path(&directory, "tyde.log");
        LogPaths { directory, filepath }
    }
}

} // verus!

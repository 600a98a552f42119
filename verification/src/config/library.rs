//! Where the library lives on disk.
use std::path::PathBuf;
use vstd::prelude::*;

use crate::config::paths::{join_path, spec_join_path};

verus! {

/// The library's music directory and the database file within it.
#[derive(Debug)]
pub struct LibraryConfig {
    pub directory: PathBuf,
    pub db_path: PathBuf,
}

impl LibraryConfig {
    /// The library kept in `directory`, with its database as `library.db` there.
    pub fn for_directory(directory: PathBuf) -> (r: LibraryConfig)
        ensures
            r.directory == directory,
            r.db_path == spec_join_path(directory, "library.db"@),
    {
        let db_path = join_path(&directory, "library.db");
        LibraryConfig { directory, db_path }
    }
}

} // verus!

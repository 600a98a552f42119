//! Verified core of `tyde`, a command-line catalogue of a music library's artists.
//!
//! The library holds what the program decides: how the `--name` / `--variant`
//! arguments are read, how names are normalised and compared, which rows an
//! artist entry writes and in what order, and which schema migrations run.
//! Everything that touches the terminal, the file system or the database is
//! driven from the binary around it.
pub mod text;
pub mod utils;
pub mod cli;
pub mod config;
pub mod db;
pub mod language;
pub mod library;
pub mod logging;

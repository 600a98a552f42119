use std::path::PathBuf;

use tyde::config::data::{AppConfig, ConfigData};
use tyde::config::files::ConfigPaths;
use tyde::config::library::LibraryConfig;
use tyde::logging::LogPaths;
use tyde::db::library::MigrationStep::{Done, NormalizeNames, RunBatch, SetVersion};
use tyde::db::library::{MigrationStep, Migrator};
use tyde::db::types::datetime_stamp::{DateTimeStamp, TimestampError};
use tyde::utils::verbose::{is_verbose, set_verbose, Verbosity};

fn run(stored: Option<i32>, total: usize) -> Vec<MigrationStep> {
    let mut migrator = Migrator::start(stored, total);
    let mut steps = Vec::new();
    while !migrator.is_finished() {
        steps.push(migrator.next());
    }
    steps
}

#[test]
fn migrations_from_scratch() {
    assert_eq!(
        run(None, 5),
        vec![
            RunBatch(0),
            SetVersion(1),
            RunBatch(1),
            SetVersion(2),
            RunBatch(2),
            SetVersion(3),
            NormalizeNames,
            RunBatch(3),
            SetVersion(4),
            RunBatch(4),
            SetVersion(5),
            Done { from: 0, to: 5, updated: true },
        ]
    );
}

#[test]
fn migrations_resume_after_normalisation() {
    assert_eq!(
        run(Some(3), 5),
        vec![RunBatch(3), SetVersion(4), RunBatch(4), SetVersion(5), Done { from: 3, to: 5, updated: true }]
    );
}

#[test]
fn migrations_up_to_date() {
    assert_eq!(run(Some(5), 5), vec![Done { from: 5, to: 5, updated: false }]);
    assert_eq!(run(Some(7), 5), vec![Done { from: 7, to: 7, updated: false }]);
    assert_eq!(run(Some(0), 0), vec![Done { from: 0, to: 0, updated: false }]);
}

#[test]
fn migrations_from_version_two_normalise_once() {
    assert_eq!(
        run(Some(2), 3),
        vec![RunBatch(2), SetVersion(3), NormalizeNames, Done { from: 2, to: 3, updated: true }]
    );
}

#[test]
fn timestamps_are_read_in_utc() {
    let stamp = DateTimeStamp::column_result(Some("2024-01-01T01:00:00+01:00")).unwrap();
    assert_eq!(stamp.to_sql(), "2024-01-01T00:00:00+00:00");
    assert_eq!(stamp.to_string(), "2024-01-01T00:00:00+00:00");
    let back = DateTimeStamp::column_result(Some(&stamp.to_sql())).unwrap();
    assert_eq!(back.to_sql(), stamp.to_sql());
}

#[test]
fn timestamps_refuse_other_values() {
    assert_eq!(DateTimeStamp::column_result(None).unwrap_err(), TimestampError::InvalidType);
    assert_eq!(DateTimeStamp::column_result(Some("yesterday")).unwrap_err(), TimestampError::InvalidType);
    assert_eq!(DateTimeStamp::column_result(Some("2024-13-01T00:00:00Z")).unwrap_err(), TimestampError::InvalidType);
}

#[test]
fn verbosity_follows_the_last_setting() {
    let mut verbosity = Verbosity::new();
    assert!(!is_verbose(&verbosity));
    assert_eq!(set_verbose(&mut verbosity, true), Some("Verbosity enabled".to_string()));
    assert!(is_verbose(&verbosity));
    assert_eq!(set_verbose(&mut verbosity, false), None);
    assert!(!is_verbose(&verbosity));
}

#[test]
fn default_settings() {
    assert_eq!(AppConfig::default().name, "tyde");
    assert_eq!(ConfigData::default().app.name, "tyde");
}

#[test]
fn library_database_lives_in_its_directory() {
    let config = LibraryConfig::for_directory(PathBuf::from("/music"));
    assert_eq!(config.directory, PathBuf::from("/music"));
    assert_eq!(config.db_path, PathBuf::from("/music/library.db"));
}

#[test]
fn configuration_file_location() {
    let paths = ConfigPaths::in_config_dir(PathBuf::from("/home/u/.config"));
    assert_eq!(paths.directory, PathBuf::from("/home/u/.config/tyde"));
    assert_eq!(paths.filename, PathBuf::from("/home/u/.config/tyde/config.toml"));
}

#[test]
fn log_file_location() {
    let paths = LogPaths::in_state_dir(PathBuf::from("/home/u/.local/state"));
    assert_eq!(paths.directory, PathBuf::from("/home/u/.local/state/tyde/logs"));
    assert_eq!(paths.filepath, PathBuf::from("/home/u/.local/state/tyde/logs/tyde.log"));
}

use tyde::db::types::datetime_stamp::{DateTimeStamp, TimestampError};
use tyde::library::artists::model::{ArtistName, NameKind, NameKindParseError};
use tyde::library::artists::repository::{
    artist_name_from_columns, find_artist_by_primary_name, RowError, kind_from_column, name_row, names_match, normalize_name,
    variant_label_for,
};
use tyde::cli::commands::artist::NameRecord;
use tyde::language::Language;

fn stamp() -> DateTimeStamp {
    DateTimeStamp::column_result(Some("2024-05-01T12:00:00Z")).unwrap()
}

fn row(id: i64, name: &str) -> ArtistName {
    ArtistName {
        id,
        artist_id: id,
        name: name.to_string(),
        normalized_name: normalize_name(name),
        kind: None,
        locale: None,
        created_at: stamp(),
        updated_at: stamp(),
    }
}

#[test]
fn normalize_lowercases_and_keeps_alphanumerics() {
    assert_eq!(normalize_name("AC/DC"), "acdc");
    assert_eq!(normalize_name("Guns N' Roses"), "gunsnroses");
    assert_eq!(normalize_name("  "), "");
    assert_eq!(normalize_name("Sigur Rós"), "sigurrós");
}

#[test]
fn normalize_applies_compatibility_forms() {
    // Full-width letters and the "fi" ligature fold to their plain forms.
    assert_eq!(normalize_name("ＡＢＣ"), "abc");
    assert_eq!(normalize_name("\u{FB01}ve"), "five");
    // A decomposed accent is composed again.
    assert_eq!(normalize_name("Beyonce\u{301}"), "beyoncé");
}

#[test]
fn names_compare_without_case_or_width() {
    assert!(names_match("Björk", "BJÖRK"));
    assert!(names_match("ＡＢＣ", "abc"));
    assert!(names_match("\u{FB01}ve", "FIVE"));
    assert!(!names_match("a b", "ab"));
    assert!(!names_match("abc", "abd"));
    assert!(names_match("", ""));
}

#[test]
fn primary_name_search_keeps_matches_in_order() {
    let rows = vec![row(1, "Queen"), row(2, "The Queen"), row(3, "QUEEN"), row(4, "Ｑｕｅｅｎ")];
    let found = find_artist_by_primary_name(rows, "queen");
    let ids: Vec<i64> = found.iter().map(|r| r.id).collect();
    assert_eq!(ids, vec![1, 3, 4]);
    assert!(find_artist_by_primary_name(vec![row(1, "Abba")], "queen").is_empty());
}

#[test]
fn kind_column_reading() {
    assert_eq!(kind_from_column(None), Ok(None));
    assert_eq!(kind_from_column(Some("stage".to_string())), Ok(Some(NameKind::Stage)));
    assert_eq!(kind_from_column(Some("Band".to_string())), Err(NameKindParseError::VariantNotFound));
}

#[test]
fn name_row_columns() {
    let record = NameRecord::new("Ｍｏｂｙ!".into(), Language::from_639_1("en"), Some(NameKind::Stage));
    let r = name_row(3, &record);
    assert_eq!(r.artist_id, 3);
    assert_eq!(r.name, "Ｍｏｂｙ!");
    assert_eq!(r.normalized_name, "moby");
    assert_eq!(r.kind.as_deref(), Some("stage"));
    assert_eq!(r.locale.as_deref(), Some("en"));
}

#[test]
fn variant_labels() {
    assert_eq!(variant_label_for(0), "");
    assert_eq!(variant_label_for(1), "(with 1 variant)");
    assert_eq!(variant_label_for(2), "(with 2 variants)");
    assert_eq!(variant_label_for(12), "(with 12 variants)");
    assert_eq!(variant_label_for(1000), "(with 1000 variants)");
}

#[test]
fn name_rows_are_read_from_columns() {
    let row = artist_name_from_columns(
        4,
        2,
        "Moby".into(),
        "moby".into(),
        Some("stage".into()),
        Some("en".into()),
        Some("2024-05-01T12:00:00+02:00"),
        Some("2024-05-02T00:00:00Z"),
    )
    .unwrap();
    assert_eq!((row.id, row.artist_id), (4, 2));
    assert_eq!(row.name, "Moby");
    assert_eq!(row.kind, Some(NameKind::Stage));
    assert_eq!(row.locale.as_deref(), Some("en"));
    assert_eq!(row.created_at.to_sql(), "2024-05-01T10:00:00+00:00");
    assert_eq!(row.updated_at.to_sql(), "2024-05-02T00:00:00+00:00");
}

#[test]
fn name_rows_with_bad_columns_are_refused() {
    let bad_kind = artist_name_from_columns(
        1, 1, "A".into(), "a".into(), Some("band".into()), None, None, None,
    );
    assert_eq!(bad_kind.unwrap_err(), RowError::Kind(NameKindParseError::VariantNotFound));
    let bad_stamp = artist_name_from_columns(
        1, 1, "A".into(), "a".into(), None, None, Some("2024-05-01T12:00:00Z"), Some("soon"),
    );
    assert_eq!(bad_stamp.unwrap_err(), RowError::Timestamp(TimestampError::InvalidType));
    let no_stamp = artist_name_from_columns(1, 1, "A".into(), "a".into(), None, None, None, None);
    assert_eq!(no_stamp.unwrap_err(), RowError::Timestamp(TimestampError::InvalidType));
}

#[test]
fn normalizing_twice_changes_nothing() {
    for name in ["AC/DC", "Guns N' Roses", "Sigur Rós", "ＡＢＣ", "\u{FB01}ve", "Beyonce\u{301}", ""] {
        let once = normalize_name(name);
        assert_eq!(normalize_name(&once), once);
    }
}

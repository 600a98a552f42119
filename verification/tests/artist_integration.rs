use tyde::cli::commands::artist::{NameRecord, NameVariantRecord};
use tyde::language::Language;
use tyde::library::artists::model::NameKind;
use tyde::library::artists::repository::{AddAction, AddArtist};

/// A name row as the `artist_names` table holds it.
struct NameRowStored {
    artist_id: i64,
    name: String,
    kind: Option<String>,
    locale: Option<String>,
}

/// Stand-in for the `artists` and `artist_names` tables of a new, empty library: row ids
/// are handed out from 1 in each table, as SQLite does.
#[derive(Default)]
struct Tables {
    artists: Vec<Option<i64>>,
    names: Vec<NameRowStored>,
}

impl Tables {
    fn primary_name_id(&self, artist_id: i64) -> Option<i64> {
        self.artists[(artist_id - 1) as usize]
    }

    fn name_by_artist(&self, artist_id: i64) -> &NameRowStored {
        self.names.iter().find(|row| row.artist_id == artist_id).unwrap()
    }

    fn name_by_name(&self, name: &str) -> &NameRowStored {
        self.names.iter().find(|row| row.name == name).unwrap()
    }
}

/// Carries out an artist entry on `tables`, statement by statement.
fn add(tables: &mut Tables, name: &NameRecord, variants: &Vec<NameVariantRecord>) -> i64 {
    let mut entry = AddArtist::new(name, variants);
    let mut last_row_id: i64 = 0;
    loop {
        match entry.next(last_row_id) {
            AddAction::InsertArtist => {
                tables.artists.push(None);
                last_row_id = tables.artists.len() as i64;
            }
            AddAction::InsertName(row) => {
                tables.names.push(NameRowStored {
                    artist_id: row.artist_id,
                    name: row.name,
                    kind: row.kind,
                    locale: row.locale,
                });
                last_row_id = tables.names.len() as i64;
            }
            AddAction::SetPrimary { name_id, artist_id } => {
                tables.artists[(artist_id - 1) as usize] = Some(name_id);
            }
            AddAction::Done { artist_id, .. } => return artist_id,
        }
    }
}

#[test]
fn add_creates_name_and_sets_primary() {
    let mut tables = Tables::default();

    let record = NameRecord::new("Test Artist".into(), None, None);
    let variant: Vec<NameVariantRecord> = Vec::new();
    let result = add(&mut tables, &record, &variant);

    // Assert the row was created in artists table.
    assert_eq!(result, 1);

    let primary_name_id = tables.primary_name_id(result).unwrap();
    assert_eq!(primary_name_id, result);

    let name = &tables.name_by_artist(result).name;
    assert_eq!(&record.name, name);
}

#[test]
fn add_sets_kind_and_locale() {
    let mut tables = Tables::default();

    let locale = Language::from_639_1("en");
    let kind = Some(NameKind::Alias);
    let record = NameRecord::new("Test Artist Name".into(), locale, kind);

    let variant: Vec<NameVariantRecord> = Vec::new();
    let result = add(&mut tables, &record, &variant);

    assert_eq!(result, 1);

    let primary_name_id = tables.primary_name_id(result).unwrap();
    assert_eq!(primary_name_id, result);

    let row = tables.name_by_artist(result);
    let row_kind = row.kind.clone().unwrap();
    let row_locale = row.locale.clone().unwrap();

    assert_eq!(record.name_type.unwrap().to_string(), row_kind);
    assert_eq!(record.locale.as_ref().unwrap().to_639_1().unwrap(), row_locale);
}

#[test]
fn add_apply_all_variants() {
    let mut tables = Tables::default();

    let locale = Language::from_639_1("en");
    let kind = Some(NameKind::Alias);
    let record = NameRecord::new("Test Artist Name".into(), locale, kind);
    let mut variants: Vec<NameVariantRecord> = Vec::new();

    for i in 0..5 {
        let variant_name = format!("Name Variant {i}");
        let variant_locale = Language::from_639_1("en");
        let variant_kind = Some(NameKind::Alias);
        let variant_record = NameRecord::new(variant_name, variant_locale, variant_kind);
        variants.push(NameVariantRecord::new(variant_record));
    }

    let result = add(&mut tables, &record, &variants);

    assert_eq!(result, 1);

    let primary_name_id = tables.primary_name_id(result).unwrap();
    assert_eq!(primary_name_id, result);

    for i in 0..variants.len() {
        let variant_name = format!("Name Variant {i}");
        let row = tables.name_by_name(&variant_name);
        let (artist_id, row_kind, row_locale) =
            (row.artist_id, row.kind.clone().unwrap(), row.locale.clone().unwrap());

        assert_eq!(result, artist_id);
        assert_eq!(record.name_type.unwrap().to_string(), row_kind);
        assert_eq!(record.locale.as_ref().unwrap().to_639_1().unwrap(), row_locale);
    }
}

#[test]
fn add_issues_statements_in_order() {
    let record = NameRecord::new("Björk".into(), Language::from_639_1("is"), Some(NameKind::Stage));
    let variants = vec![NameVariantRecord::new(NameRecord::new(
        "Björk Guðmundsdóttir".into(),
        None,
        Some(NameKind::Legal),
    ))];
    let mut entry = AddArtist::new(&record, &variants);
    assert!(matches!(entry.next(0), AddAction::InsertArtist));
    match entry.next(7) {
        AddAction::InsertName(row) => {
            assert_eq!(row.artist_id, 7);
            assert_eq!(row.name, "Björk");
            assert_eq!(row.normalized_name, "björk");
            assert_eq!(row.kind.as_deref(), Some("stage"));
            assert_eq!(row.locale.as_deref(), Some("is"));
        }
        other => panic!("unexpected {:?}", other),
    }
    match entry.next(11) {
        AddAction::SetPrimary { name_id, artist_id } => {
            assert_eq!((name_id, artist_id), (11, 7));
        }
        other => panic!("unexpected {:?}", other),
    }
    match entry.next(0) {
        AddAction::InsertName(row) => {
            assert_eq!(row.artist_id, 7);
            assert_eq!(row.normalized_name, "björkguðmundsdóttir");
            assert_eq!(row.kind.as_deref(), Some("legal"));
            assert_eq!(row.locale, None);
        }
        other => panic!("unexpected {:?}", other),
    }
    assert!(!entry.is_finished());
    match entry.next(12) {
        AddAction::Done { artist_id, variant_label } => {
            assert_eq!(artist_id, 7);
            assert_eq!(variant_label, "(with 1 variant)");
        }
        other => panic!("unexpected {:?}", other),
    }
    assert!(entry.is_finished());
}

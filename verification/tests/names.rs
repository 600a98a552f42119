use tyde::cli::commands::artist::{
    add_command_preview, confirm_outcome, format_record, validate_name, validate_name_variant,
    AddArgs, NameRecord, NameVariantRecord,
};
use tyde::language::Language;
use tyde::library::artists::model::{NameKind, NameKindParseError};

#[test]
fn name_argument_with_type_and_lang() {
    let record = validate_name("John Doe;type=legal;lang=en").unwrap();
    assert_eq!(record.name, "John Doe");
    assert_eq!(record.name_type, Some(NameKind::Legal));
    assert_eq!(record.locale.unwrap().to_639_1().unwrap(), "en");
}

#[test]
fn name_argument_with_locale_key() {
    let record = validate_name("Jane;locale=fr").unwrap();
    assert_eq!(record.name, "Jane");
    assert_eq!(record.name_type, None);
    assert_eq!(record.locale.unwrap().to_string(), "French");
}

#[test]
fn name_argument_without_fields() {
    let record = validate_name("Plain Name").unwrap();
    assert_eq!(record.name, "Plain Name");
    assert!(record.locale.is_none());
    assert!(record.name_type.is_none());
}

#[test]
fn name_argument_empty() {
    let record = validate_name("").unwrap();
    assert_eq!(record.name, "");
}

#[test]
fn name_argument_unknown_language_is_refused() {
    let err = validate_name("Jane;lang=zz").unwrap_err();
    assert_eq!(err, "Ensure the value provided is ISO-639-1 compliant.");
    let err = validate_name("Jane;type=stage;locale=eng").unwrap_err();
    assert_eq!(err, "Ensure the value provided is ISO-639-1 compliant.");
}

#[test]
fn name_argument_unknown_type_gives_no_kind() {
    let record = validate_name("Jane;type=band").unwrap();
    assert!(record.name_type.is_none());
    let record = validate_name("Jane;type=Legal").unwrap();
    assert!(record.name_type.is_none());
}

#[test]
fn name_argument_last_field_counts() {
    let record = validate_name("Jane;type=legal;type=alias;lang=de;lang=en").unwrap();
    assert_eq!(record.name_type, Some(NameKind::Alias));
    assert_eq!(record.locale.unwrap().to_639_1().unwrap(), "en");
    let record = validate_name("Jane;type=legal;type=nonsense").unwrap();
    assert_eq!(record.name_type, None);
}

#[test]
fn name_argument_ignores_other_fields() {
    let record = validate_name("Jane;note=x;flag;=;type=stage=extra;lang=en").unwrap();
    assert_eq!(record.name, "Jane");
    assert_eq!(record.name_type, None);
    assert_eq!(record.locale.unwrap().to_639_1().unwrap(), "en");
}

#[test]
fn name_argument_name_may_hold_equals() {
    let record = validate_name("a=b;type=alias").unwrap();
    assert_eq!(record.name, "a=b");
    assert_eq!(record.name_type, Some(NameKind::Alias));
}

#[test]
fn variant_argument_reads_like_a_name() {
    let variant = validate_name_variant("Alias Name;type=alias").unwrap();
    assert_eq!(variant.record.name, "Alias Name");
    assert_eq!(variant.record.name_type, Some(NameKind::Alias));
    assert!(validate_name_variant("x;lang=q").is_err());
}

#[test]
fn record_display_forms() {
    let plain = NameRecord::new("John Doe".into(), None, None);
    assert_eq!(format_record(&plain), "John Doe");
    let kind_only = NameRecord::new("John Doe".into(), None, Some(NameKind::Stage));
    assert_eq!(kind_only.to_string(), "John Doe (Stage)");
    let lang_only = NameRecord::new("John Doe".into(), Language::from_639_1("en"), None);
    assert_eq!(lang_only.to_string(), "John Doe (English)");
    let both = NameRecord::new("John Doe".into(), Language::from_639_1("en"), Some(NameKind::Legal));
    assert_eq!(both.to_string(), "John Doe (Legal, English)");
    let variant = NameVariantRecord::new(both.clone());
    assert_eq!(variant.to_string(), "John Doe (Legal, English)");
}

#[test]
fn preview_lists_name_and_variants() {
    let args = AddArgs {
        name: NameRecord::new("John Doe".into(), None, Some(NameKind::Legal)),
        variant: vec![
            NameVariantRecord::new(NameRecord::new("JD".into(), None, Some(NameKind::Alias))),
            NameVariantRecord::new(NameRecord::new("Johnny".into(), None, None)),
        ],
    };
    let lines = add_command_preview(&args);
    assert_eq!(lines, vec!["Artist: John Doe (Legal)".to_string(), "Variants:\n  JD (Alias)\n  Johnny".to_string()]);

    let alone = AddArgs { name: NameRecord::new("Solo".into(), None, None), variant: Vec::new() };
    assert_eq!(add_command_preview(&alone), vec!["Artist: Solo".to_string()]);
}

#[test]
fn confirmation_outcomes() {
    assert_eq!(confirm_outcome(Some(true)), None);
    assert_eq!(confirm_outcome(Some(false)), Some("Cancelled".to_string()));
    assert_eq!(confirm_outcome(None), Some("Error or aborted".to_string()));
}

#[test]
fn name_kind_words() {
    assert_eq!(NameKind::Legal.to_string(), "legal");
    assert_eq!(NameKind::Stage.to_string(), "stage");
    assert_eq!(NameKind::Alias.to_string(), "alias");
    assert_eq!(NameKind::Alias.as_title(), "Alias");
    for kind in [NameKind::Legal, NameKind::Stage, NameKind::Alias] {
        assert_eq!(NameKind::from_str(&kind.to_string()), Ok(kind));
    }
    assert_eq!(NameKind::from_str("Legal"), Err(NameKindParseError::VariantNotFound));
    assert_eq!(NameKind::from_str(""), Err(NameKindParseError::VariantNotFound));
}

#[test]
fn language_lookup() {
    let english = Language::from_639_1("en").unwrap();
    assert_eq!(english.to_string(), "English");
    assert_eq!(english.to_639_1().unwrap(), "en");
    assert!(Language::from_639_1("xx").is_none());
    assert!(Language::from_639_1("eng").is_none());
    assert!(Language::from_639_1("").is_none());
}

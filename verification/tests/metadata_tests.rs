//! Tests of the metadata validation and cleanup engine.

use vaultrs::fields::FieldDefinitionDto;
use vaultrs::fields::FieldOptions;
use vaultrs::fields::FieldType;
use vaultrs::meta::MetaValue;
use vaultrs::metadata::MetadataService;

fn field(
    id: i32,
    name: &str,
    field_type: FieldType,
    options: Option<FieldOptions>,
    required: bool,
) -> FieldDefinitionDto {
    FieldDefinitionDto {
        id,
        vault_id: 1,
        name: name.to_string(),
        field_type,
        options,
        position: 0,
        required,
        created_at: "2024-01-01 00:00:00".to_string(),
        updated_at: "2024-01-01 00:00:00".to_string(),
    }
}

fn options() -> FieldOptions {
    FieldOptions::default()
}

#[test]
fn test_parse_metadata() {
    let json = r#"{"1": "value1", "2": 42, "3": true}"#;
    let result = MetadataService::parse_metadata(Some(json));

    assert_eq!(result.len(), 3);
    assert!(result.iter().any(|(id, v)| *id == 1 && matches!(v, MetaValue::Str(s) if s == "value1")));
    assert!(result.iter().any(|(id, v)| *id == 2 && matches!(v, MetaValue::Int(42))));
    assert!(result.iter().any(|(id, v)| *id == 3 && matches!(v, MetaValue::Bool(true))));
}

#[test]
fn test_parse_metadata_invalid_keys() {
    let json = r#"{"invalid": "value", "1": "valid"}"#;
    let result = MetadataService::parse_metadata(Some(json));

    assert_eq!(result.len(), 1);
    assert!(result.iter().any(|(id, _)| *id == 1));
}

#[test]
fn test_build_metadata_json() {
    let values = vec![
        (1, MetaValue::Str("test".to_string())),
        (2, MetaValue::Int(42)),
    ];

    let json = MetadataService::build_metadata_json(values);

    let parsed = MetadataService::parse_metadata(Some(&json));
    assert!(parsed.iter().any(|(id, _)| *id == 1));
    assert!(parsed.iter().any(|(id, _)| *id == 2));
    assert_eq!(json, r#"{"1":"test","2":42}"#);
}

#[test]
fn test_required_field_missing() {
    let fields = vec![field(7, "Director", FieldType::Text, None, true)];

    let absent = MetadataService::validate_metadata(&fields, Some(r#"{"2": "x"}"#));
    assert!(!absent.is_valid);
    assert!(absent.errors.contains(&"Field 'Director' is required".to_string()));

    let null = MetadataService::validate_metadata(&fields, Some(r#"{"7": null}"#));
    assert!(!null.is_valid);
    assert!(null.errors.contains(&"Field 'Director' is required".to_string()));

    let present = MetadataService::validate_metadata(&fields, Some(r#"{"7": "Nolan"}"#));
    assert!(present.is_valid);
    assert!(present.errors.is_empty());
}

#[test]
fn test_invalid_key_warning() {
    let fields = vec![field(1, "Title", FieldType::Text, None, false)];

    let r = MetadataService::validate_metadata(&fields, Some(r#"{"oops": "x", "1": "y"}"#));
    assert!(r.is_valid);
    assert!(r
        .warnings
        .contains(&"Invalid metadata key 'oops': not a valid field ID".to_string()));
}

#[test]
fn test_orphan_cleanup() {
    let fields = vec![field(1, "Kept", FieldType::Text, None, false)];

    let r = MetadataService::validate_metadata(&fields, Some(r#"{"1": "x", "99": "y"}"#));
    assert!(r.is_valid);
    assert!(r
        .warnings
        .contains(&"Orphan data detected: field ID 99 no longer exists".to_string()));

    let cleaned = MetadataService::cleanup_orphan_data(&fields, r#"{"1": "x", "99": "y"}"#);
    assert_eq!(cleaned, r#"{"1":"x"}"#);
}

#[test]
fn test_cleanup_unparseable_returns_input() {
    let fields = vec![field(1, "Kept", FieldType::Text, None, false)];
    let cleaned = MetadataService::cleanup_orphan_data(&fields, "not valid json");
    assert_eq!(cleaned, "not valid json");
}

#[test]
fn test_cleanup_idempotent() {
    let fields = vec![
        field(1, "A", FieldType::Text, None, false),
        field(3, "B", FieldType::Number, None, false),
    ];
    let raw = r#"{"1": "x", "2": 5, "3": 9, "junk": true}"#;
    let once = MetadataService::cleanup_orphan_data(&fields, raw);
    let twice = MetadataService::cleanup_orphan_data(&fields, &once);
    assert_eq!(once, twice);
    assert_eq!(once, r#"{"1":"x","3":9}"#);
}

#[test]
fn test_number_bounds() {
    let opts = FieldOptions { min: Some(0), max: Some(10), ..options() };
    let fields = vec![field(1, "Rating", FieldType::Number, Some(opts), false)];

    let ok = MetadataService::validate_metadata(&fields, Some(r#"{"1": 5}"#));
    assert!(ok.is_valid);

    let low = MetadataService::validate_metadata(&fields, Some(r#"{"1": -1}"#));
    assert!(!low.is_valid);
    assert!(low
        .errors
        .contains(&"Field 'Rating': value -1 is below minimum 0".to_string()));

    let high = MetadataService::validate_metadata(&fields, Some(r#"{"1": 11}"#));
    assert!(!high.is_valid);
    assert!(high
        .errors
        .contains(&"Field 'Rating': value 11 exceeds maximum 10".to_string()));

    let not_number = MetadataService::validate_metadata(&fields, Some(r#"{"1": "five"}"#));
    assert!(!not_number.is_valid);
    assert!(not_number
        .errors
        .contains(&"Field 'Rating': expected number value".to_string()));
}

#[test]
fn test_select_choices() {
    let opts = FieldOptions {
        choices: Some(vec!["a".to_string(), "b".to_string()]),
        ..options()
    };
    let fields = vec![field(1, "Genre", FieldType::Select, Some(opts), false)];

    let ok = MetadataService::validate_metadata(&fields, Some(r#"{"1": "a"}"#));
    assert!(ok.is_valid);

    let bad = MetadataService::validate_metadata(&fields, Some(r#"{"1": "c"}"#));
    assert!(!bad.is_valid);
    assert!(bad
        .errors
        .contains(&"Field 'Genre': 'c' is not a valid choice".to_string()));

    let not_string = MetadataService::validate_metadata(&fields, Some(r#"{"1": 5}"#));
    assert!(!not_string.is_valid);
    assert!(not_string
        .errors
        .contains(&"Field 'Genre': expected string value for select".to_string()));
}

#[test]
fn test_text_max_length() {
    let opts = FieldOptions { max_length: Some(3), ..options() };
    let fields = vec![field(1, "Tag", FieldType::Text, Some(opts), false)];

    assert!(MetadataService::validate_metadata(&fields, Some(r#"{"1": "abc"}"#)).is_valid);

    let long = MetadataService::validate_metadata(&fields, Some(r#"{"1": "abcd"}"#));
    assert!(!long.is_valid);
    assert!(long
        .errors
        .contains(&"Field 'Tag': text exceeds maximum length of 3".to_string()));

    let not_text = MetadataService::validate_metadata(&fields, Some(r#"{"1": 7}"#));
    assert!(!not_text.is_valid);
    assert!(not_text
        .errors
        .contains(&"Field 'Tag': expected text value".to_string()));
}

#[test]
fn test_date_validation() {
    let fields = vec![field(1, "Released", FieldType::Date, None, false)];

    assert!(MetadataService::validate_metadata(&fields, Some(r#"{"1": "2024-01-15"}"#)).is_valid);

    let bad = MetadataService::validate_metadata(&fields, Some(r#"{"1": "not-a-date"}"#));
    assert!(!bad.is_valid);
    assert!(bad
        .errors
        .contains(&"Invalid date format 'not-a-date': expected YYYY-MM-DD".to_string()));

    let impossible = MetadataService::validate_metadata(&fields, Some(r#"{"1": "2024-13-45"}"#));
    assert!(!impossible.is_valid);

    let not_string = MetadataService::validate_metadata(&fields, Some(r#"{"1": 20240115}"#));
    assert!(!not_string.is_valid);
    assert!(not_string
        .errors
        .contains(&"Date field: expected string value".to_string()));
}

#[test]
fn test_url_validation() {
    let fields = vec![field(1, "Link", FieldType::Url, None, false)];

    assert!(MetadataService::validate_metadata(&fields, Some(r#"{"1": "http://x.org"}"#)).is_valid);
    assert!(
        MetadataService::validate_metadata(&fields, Some(r#"{"1": "https://x.org"}"#)).is_valid
    );

    let bad = MetadataService::validate_metadata(&fields, Some(r#"{"1": "ftp://x.org"}"#));
    assert!(!bad.is_valid);
    assert!(bad
        .errors
        .contains(&"Invalid URL 'ftp://x.org': must start with http:// or https://".to_string()));
}

#[test]
fn test_boolean_validation() {
    let fields = vec![field(1, "Seen", FieldType::Boolean, None, false)];

    assert!(MetadataService::validate_metadata(&fields, Some(r#"{"1": true}"#)).is_valid);
    assert!(MetadataService::validate_metadata(&fields, Some(r#"{"1": false}"#)).is_valid);

    let bad = MetadataService::validate_metadata(&fields, Some(r#"{"1": "yes"}"#));
    assert!(!bad.is_valid);
    assert!(bad
        .errors
        .contains(&"Boolean field: expected true or false".to_string()));
}

#[test]
fn test_relation_validation() {
    let opts = FieldOptions { target_vault_id: Some(2), ..options() };
    let fields = vec![field(1, "Author", FieldType::Relation, Some(opts), false)];

    let ok = MetadataService::validate_metadata(
        &fields,
        Some(r#"{"1": {"entry_id": 5, "vault_id": 2}}"#),
    );
    assert!(ok.is_valid);

    let mismatch = MetadataService::validate_metadata(
        &fields,
        Some(r#"{"1": {"entry_id": 5, "vault_id": 3}}"#),
    );
    assert!(!mismatch.is_valid);
    assert!(mismatch
        .errors
        .contains(&"Field 'Author': vault_id 3 does not match target vault 2".to_string()));

    let negative = MetadataService::validate_metadata(
        &fields,
        Some(r#"{"1": {"entry_id": -5, "vault_id": 2}}"#),
    );
    assert!(!negative.is_valid);
    assert!(negative
        .errors
        .contains(&"Field 'Author': entry_id must be positive".to_string()));

    let missing = MetadataService::validate_metadata(&fields, Some(r#"{"1": {"vault_id": 2}}"#));
    assert!(!missing.is_valid);
    assert!(missing
        .errors
        .contains(&"Field 'Author': missing or invalid entry_id".to_string()));

    let not_object = MetadataService::validate_metadata(&fields, Some(r#"{"1": 5}"#));
    assert!(!not_object.is_valid);
    assert!(not_object
        .errors
        .contains(&"Field 'Author': expected object with entry_id and vault_id".to_string()));
}

#[test]
fn test_null_value_skipped() {
    let fields = vec![field(1, "Rating", FieldType::Number, None, false)];
    let r = MetadataService::validate_metadata(&fields, Some(r#"{"1": null}"#));
    assert!(r.is_valid);
    assert!(r.errors.is_empty());
    assert!(r.warnings.is_empty());
}

#[test]
fn test_invalid_metadata_json() {
    let fields = vec![field(1, "Title", FieldType::Text, None, false)];
    let r = MetadataService::validate_metadata(&fields, Some("{broken"));
    assert!(!r.is_valid);
    assert_eq!(r.errors.len(), 1);
    assert!(r.errors[0].starts_with("Invalid metadata JSON: "));
    assert!(r.warnings.is_empty());
}

#[test]
fn test_validate_required_fields_quick() {
    let fields = vec![
        field(1, "Title", FieldType::Text, None, true),
        field(2, "Note", FieldType::Text, None, false),
    ];

    let absent = MetadataService::validate_required_fields(&fields, None);
    assert!(!absent.is_valid);
    assert_eq!(absent.errors, vec!["Field 'Title' is required".to_string()]);

    let unparseable = MetadataService::validate_required_fields(&fields, Some("oops"));
    assert!(!unparseable.is_valid);

    let present = MetadataService::validate_required_fields(&fields, Some(r#"{"1": "x"}"#));
    assert!(present.is_valid);
}

#[test]
fn test_out_of_range_key_warning() {
    let fields = vec![field(1, "Title", FieldType::Text, None, false)];

    let r = MetadataService::validate_metadata(&fields, Some(r#"{"2147483648": "x"}"#));
    assert!(r.is_valid);
    assert!(r
        .warnings
        .contains(&"Invalid metadata key '2147483648': not a valid field ID".to_string()));

    let signed = MetadataService::validate_metadata(&fields, Some(r#"{"+1": "x"}"#));
    assert!(signed.is_valid);
    assert!(signed.warnings.is_empty());
}

//! Tests of the entry, vault, field and image service decision logic.

use vaultrs::entries::CreateEntryDto;
use vaultrs::entries::EntryDto;
use vaultrs::entries::EntryService;
use vaultrs::entries::UpdateEntryDto;
use vaultrs::errors::AppError;
use vaultrs::errors::IpcError;
use vaultrs::fields::CreateFieldDto;
use vaultrs::fields::FieldDefinitionDto;
use vaultrs::fields::FieldService;
use vaultrs::fields::FieldType;
use vaultrs::fields::UpdateFieldDto;
use vaultrs::images::ImageProcessor;
use vaultrs::images::ImageStorage;
use vaultrs::images::THUMBNAIL_JPEG_QUALITY;
use vaultrs::images::THUMBNAIL_MAX_SIZE;
use vaultrs::vaults::CreateVaultDto;
use vaultrs::vaults::UpdateVaultDto;
use vaultrs::vaults::VaultDto;
use vaultrs::vaults::VaultService;

fn now() -> String {
    "2024-06-01 12:00:00".to_string()
}

fn field_def(id: i32, vault_id: i32, name: &str, position: i32) -> FieldDefinitionDto {
    FieldDefinitionDto {
        id,
        vault_id,
        name: name.to_string(),
        field_type: FieldType::Text,
        options: None,
        position,
        required: false,
        created_at: now(),
        updated_at: now(),
    }
}

fn vault_dto(id: i32, name: &str) -> VaultDto {
    VaultDto {
        id,
        name: name.to_string(),
        description: None,
        icon: None,
        color: None,
        created_at: now(),
        updated_at: now(),
    }
}

fn entry_dto(id: i32, vault_id: i32, title: &str) -> EntryDto {
    EntryDto {
        id,
        vault_id,
        title: title.to_string(),
        description: None,
        metadata: None,
        cover_image_path: None,
        created_at: now(),
        updated_at: now(),
    }
}

#[test]
fn test_create_entry() {
    let dto = CreateEntryDto {
        vault_id: 1,
        title: "Inception".to_string(),
        description: Some("A mind-bending thriller".to_string()),
        metadata: None,
    };

    let row = EntryService::create(true, dto, now()).unwrap();

    assert_eq!(row.title, "Inception");
    assert_eq!(row.vault_id, 1);
    assert_eq!(row.description, Some("A mind-bending thriller".to_string()));
}

#[test]
fn test_create_entry_empty_title() {
    let dto = CreateEntryDto {
        vault_id: 1,
        title: "   ".to_string(),
        description: None,
        metadata: None,
    };

    let result = EntryService::create(true, dto, now());

    assert!(result.is_err());
}

#[test]
fn test_create_entry_invalid_vault() {
    let dto = CreateEntryDto {
        vault_id: 999,
        title: "Test".to_string(),
        description: None,
        metadata: None,
    };

    let result = EntryService::create(false, dto, now());

    assert!(matches!(result, Err(AppError::VaultNotFound(999))));
}

#[test]
fn test_count_entries() {
    let entries = vec![
        entry_dto(1, 1, "A"),
        entry_dto(2, 1, "B"),
        entry_dto(3, 2, "C"),
        entry_dto(4, 1, "D"),
        entry_dto(5, 1, "E"),
        entry_dto(6, 1, "F"),
    ];

    assert_eq!(EntryService::count(&entries, 1), 5);
    assert_eq!(EntryService::count(&entries, 2), 1);
    assert_eq!(EntryService::count(&entries, 3), 0);
}

#[test]
fn test_update_entry() {
    let existing = entry_dto(7, 1, "Inception");

    let updated = EntryService::update(
        7,
        Some(existing),
        UpdateEntryDto {
            title: Some("Inception (2010)".to_string()),
            description: None,
            metadata: None,
        },
        now(),
    )
    .unwrap();

    assert_eq!(updated.title, "Inception (2010)");
}

#[test]
fn test_delete_entry() {
    let existing = entry_dto(7, 1, "Inception");
    assert!(EntryService::delete(7, Some(&existing)).is_ok());
    assert!(matches!(
        EntryService::delete(7, None),
        Err(AppError::EntryNotFound(7))
    ));
    assert!(matches!(
        EntryService::get(7, None),
        Err(AppError::EntryNotFound(7))
    ));
}

#[test]
fn test_create_field_definition() {
    let dto = CreateFieldDto {
        vault_id: 1,
        name: "Director".to_string(),
        field_type: FieldType::Text,
        options: None,
        required: false,
    };

    let row = FieldService::create(true, &vec![], dto, now()).unwrap();

    assert_eq!(row.name, "Director");
    assert_eq!(row.vault_id, 1);
    assert_eq!(row.field_type, FieldType::Text);
    assert_eq!(row.position, 0);
    assert!(!row.required);
}

#[test]
fn test_create_field_duplicate_name() {
    let existing = vec![field_def(1, 1, "Director", 0)];

    let dto = CreateFieldDto {
        vault_id: 1,
        name: "Director".to_string(),
        field_type: FieldType::Text,
        options: None,
        required: false,
    };

    let result = FieldService::create(true, &existing, dto, now());
    assert!(result.is_err());
}

#[test]
fn test_create_field_positions() {
    let existing = vec![field_def(1, 1, "Director", 0), field_def(2, 1, "Year", 1)];

    let dto = CreateFieldDto {
        vault_id: 1,
        name: "Genre".to_string(),
        field_type: FieldType::Text,
        options: None,
        required: false,
    };

    let row = FieldService::create(true, &existing, dto, now()).unwrap();
    assert_eq!(row.position, 2);
}

#[test]
fn test_update_field() {
    let existing = field_def(3, 1, "Director", 0);

    let updated = FieldService::update(
        3,
        Some(existing),
        &vec![],
        UpdateFieldDto {
            name: Some("Film Director".to_string()),
            options: None,
            required: Some(true),
        },
        now(),
    )
    .unwrap();

    assert_eq!(updated.name, "Film Director");
    assert!(updated.required);
}

#[test]
fn test_delete_field() {
    let existing = field_def(3, 1, "Director", 0);
    assert!(FieldService::delete(3, Some(&existing)).is_ok());
    assert!(matches!(
        FieldService::delete(3, None),
        Err(AppError::FieldNotFound(3))
    ));
    assert!(matches!(
        FieldService::get(3, None),
        Err(AppError::FieldNotFound(3))
    ));
}

#[test]
fn test_reorder_fields() {
    let a = field_def(10, 1, "A", 0);
    let b = field_def(11, 1, "B", 1);
    let c = field_def(12, 1, "C", 2);

    let ids = vec![12, 11, 10];
    let fetched = vec![Some(c), Some(b), Some(a)];

    let assigns = FieldService::reorder(true, 1, &ids, &fetched).unwrap();
    assert_eq!(assigns, vec![(12, 0), (11, 1), (10, 2)]);
}

#[test]
fn test_reorder_foreign_field() {
    let other = field_def(10, 2, "A", 0);
    let ids = vec![10];
    let fetched = vec![Some(other)];

    let result = FieldService::reorder(true, 1, &ids, &fetched);
    match result {
        Err(AppError::Validation(m)) => {
            assert_eq!(m, "Field 10 does not belong to vault 1");
        }
        _ => panic!("expected a validation error"),
    }
}

#[test]
fn test_create_vault() {
    let dto = CreateVaultDto {
        name: "Test Vault".to_string(),
        description: Some("A test vault".to_string()),
        icon: None,
        color: None,
    };

    let row = VaultService::create(dto, now()).unwrap();

    assert_eq!(row.name, "Test Vault");
    assert_eq!(row.description, Some("A test vault".to_string()));
}

#[test]
fn test_create_vault_empty_name() {
    let dto = CreateVaultDto {
        name: "   ".to_string(),
        description: None,
        icon: None,
        color: None,
    };

    let result = VaultService::create(dto, now());

    assert!(result.is_err());
}

#[test]
fn test_get_vault() {
    let v = vault_dto(4, "Movies");
    let fetched = VaultService::get(4, Some(v)).unwrap();
    assert_eq!(fetched.id, 4);
    assert_eq!(fetched.name, "Movies");
    assert!(matches!(
        VaultService::get(4, None),
        Err(AppError::VaultNotFound(4))
    ));
}

#[test]
fn test_update_vault() {
    let v = vault_dto(4, "Movies");

    let updated = VaultService::update(
        4,
        Some(v),
        UpdateVaultDto {
            name: Some("Films".to_string()),
            description: None,
            icon: None,
            color: None,
        },
        now(),
    )
    .unwrap();

    assert_eq!(updated.name, "Films");
}

#[test]
fn test_delete_vault() {
    let v = vault_dto(4, "Movies");
    assert!(VaultService::delete(4, Some(&v)).is_ok());
    assert!(matches!(
        VaultService::delete(4, None),
        Err(AppError::VaultNotFound(4))
    ));
}

#[test]
fn test_error_codes() {
    let err = AppError::VaultNotFound(3);
    assert_eq!(err.code(), "VAULT_NOT_FOUND");
    assert_eq!(err.message(), "Vault not found: 3");

    let ipc = IpcError::from_app_error(&AppError::Validation("bad input".to_string()));
    assert_eq!(ipc.code, "VALIDATION_ERROR");
    assert_eq!(ipc.message, "Validation error: bad input");

    let db = IpcError::from_app_error(&AppError::Database("locked".to_string()));
    assert_eq!(db.code, "DATABASE_ERROR");
    assert_eq!(db.message, "Database error: locked");
}

#[test]
fn test_field_type_strings() {
    assert_eq!(FieldType::Text.as_str(), "text");
    assert_eq!(FieldType::Relation.as_str(), "relation");
    assert_eq!(FieldType::from_str("number"), Some(FieldType::Number));
    assert_eq!(FieldType::from_str("boolean"), Some(FieldType::Boolean));
    assert_eq!(FieldType::from_str("unknown"), None);
}

#[test]
fn test_thumbnail_max_size() {
    assert_eq!(THUMBNAIL_MAX_SIZE, 300);
    assert_eq!(THUMBNAIL_JPEG_QUALITY, 85);
}

#[test]
fn test_to_data_url() {
    let url = ImageProcessor::to_data_url(&[0xFF, 0xEE]);
    assert_eq!(url, "data:image/jpeg;base64,/+4=");
}

#[test]
fn test_get_image_path() {
    let storage = ImageStorage::new("data");

    let path = storage.get_image_path(1, 42, "jpg");
    assert!(path.contains("images"));
    assert!(path.contains("1"));
    assert!(path.contains("42.jpg"));
    assert_eq!(path, "data/images/1/42.jpg");
    assert_eq!(storage.get_vault_dir(1), "data/images/1");
    assert_eq!(storage.get_full_path("1/42.jpg"), "data/images/1/42.jpg");
}

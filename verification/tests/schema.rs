use ledgerr_mcp::schema::{KindInfo, SchemaFile, SchemaStore, LoadOutcome};
use ledgerr_mcp::StringMap;

#[test]
fn schema_default_has_all_built_in_kinds() {
    let store = SchemaStore::default();
    assert_eq!(store.kinds.built_in.len(), 17);
    assert!(store.kinds.custom.is_empty());
    assert!(store.is_known_kind("document"));
    assert!(store.is_known_kind("transaction"));
}

#[test]
fn schema_register_custom_kind() {
    let mut store = SchemaStore::default();
    let mut schema = StringMap::new();
    schema.insert("currency".to_string(), "string".to_string());

    store
        .register_kind("custom_asset", "A custom financial asset", schema)
        .unwrap();
    assert_eq!(store.kinds.custom.len(), 1);
    assert_eq!(store.kinds.custom[0].name, "custom_asset");
    assert!(store.is_known_kind("custom_asset"));
}

#[test]
fn schema_register_duplicate_rejected() {
    let mut store = SchemaStore::default();
    store.register_kind("my_kind", "test", StringMap::new()).unwrap();
    let result = store.register_kind("my_kind", "duplicate", StringMap::new());
    assert!(result.is_err());
}

#[test]
fn schema_register_built_in_rejected() {
    let mut store = SchemaStore::default();
    let result = store.register_kind("document", "trying to override", StringMap::new());
    assert!(result.is_err());
    assert!(result.unwrap_err().message().contains("built-in ArtifactKind"));
}

#[test]
fn schema_remove_custom_kind() {
    let mut store = SchemaStore::default();
    store.register_kind("temp_kind", "temporary", StringMap::new()).unwrap();
    store.remove_kind("temp_kind").unwrap();
    assert!(store.kinds.custom.is_empty());
}

#[test]
fn schema_remove_built_in_rejected() {
    let mut store = SchemaStore::default();
    let result = store.remove_kind("document");
    assert!(result.is_err());
}

#[test]
fn schema_get_kind() {
    let mut store = SchemaStore::default();
    store.register_kind("custom_thing", "My thing", StringMap::new()).unwrap();

    let built_in = store.get_kind("document");
    assert!(matches!(built_in, Some(KindInfo::BuiltIn(_))));

    let custom = store.get_kind("custom_thing");
    assert!(matches!(custom, Some(KindInfo::Custom(_))));

    let unknown = store.get_kind("nonexistent");
    assert!(unknown.is_none());
}

#[test]
fn schema_load_rejects_path_traversal() {
    let result = SchemaStore::load("../outside.json", SchemaFile::Missing, SchemaFile::Missing);
    assert!(result.is_err());
    assert!(result.unwrap_err().message().contains("path traversal"));

    let result = SchemaStore::load(
        "subdir/../../outside.json",
        SchemaFile::Missing,
        SchemaFile::Missing,
    );
    assert!(result.is_err());
    assert!(result.unwrap_err().message().contains("path traversal"));
}

#[test]
fn schema_load_missing_file_gives_defaults() {
    let result = SchemaStore::load("schema.json", SchemaFile::Missing, SchemaFile::Missing).unwrap();
    match result {
        LoadOutcome::Use(store) => {
            assert_eq!(store.kinds.built_in.len(), 17);
            assert!(store.kinds.custom.is_empty());
        }
        LoadOutcome::RestoredFromBackup(_) => panic!("no backup was given"),
    }
}

#[test]
fn schema_load_falls_back_to_backup() {
    let mut backup = SchemaStore::default();
    backup.register_kind("saved_kind", "kept in the backup", StringMap::new()).unwrap();
    let result = SchemaStore::load(
        "schema.json",
        SchemaFile::Corrupt("expected value at line 1".to_string()),
        SchemaFile::Loaded(backup),
    )
    .unwrap();
    match result {
        LoadOutcome::RestoredFromBackup(store) => assert!(store.is_known_kind("saved_kind")),
        LoadOutcome::Use(_) => panic!("the backup should be used"),
    }
}

#[test]
fn schema_load_both_corrupt_gives_defaults() {
    let result = SchemaStore::load(
        "schema.json",
        SchemaFile::Corrupt("bad".to_string()),
        SchemaFile::Corrupt("also bad".to_string()),
    )
    .unwrap();
    match result {
        LoadOutcome::Use(store) => assert!(store.kinds.custom.is_empty()),
        LoadOutcome::RestoredFromBackup(_) => panic!("the backup is corrupt"),
    }
}

#[test]
fn schema_register_normalizes_name() {
    let mut store = SchemaStore::default();
    store.register_kind("  Fancy_Kind ", "trimmed and lowered", StringMap::new()).unwrap();
    assert_eq!(store.kinds.custom[0].name, "fancy_kind");
    assert!(store.is_known_kind("FANCY_KIND"));
    let again = store.register_kind("fancy_kind", "duplicate", StringMap::new());
    assert_eq!(again.unwrap_err().message(), "invalid input: kind 'fancy_kind' is already registered");
}

#[test]
fn schema_register_empty_name_rejected() {
    let mut store = SchemaStore::default();
    let result = store.register_kind("   ", "nothing", StringMap::new());
    assert_eq!(result.unwrap_err().message(), "invalid input: kind name must not be empty");
}

#[test]
fn schema_remove_unknown_kind_rejected() {
    let mut store = SchemaStore::default();
    let result = store.remove_kind("ghost_kind");
    assert_eq!(result.unwrap_err().message(), "invalid input: custom kind 'ghost_kind' not found");
}

#[test]
fn schema_registered_kind_is_stamped_in_rfc3339() {
    let mut store = SchemaStore::new();
    store.register_kind(" Vendor_Note ", "notes", ledgerr_mcp::StringMap::new()).unwrap();
    let k = store.kinds.custom.last().unwrap();
    assert_eq!(k.name, "vendor_note");
    assert!(k.created_at.contains('T'));
    assert!(k.created_at.starts_with("20"));
    assert!(store.is_known_kind("VENDOR_NOTE"));
}

#[test]
fn schema_register_kind_at_stamps_the_given_time() {
    let mut store = SchemaStore::new();
    store
        .register_kind_at(" Receipt_Batch ", "batches", StringMap::new(), "2024-05-01T00:00:00+00:00".to_string())
        .unwrap();
    let k = store.kinds.custom.last().unwrap();
    assert_eq!(k.name, "receipt_batch");
    assert_eq!(k.created_at, "2024-05-01T00:00:00+00:00");
    match store.register_kind_at("receipt_batch", "again", StringMap::new(), "t".to_string()) {
        Err(e) => assert_eq!(e.message(), "invalid input: kind 'receipt_batch' is already registered"),
        Ok(()) => panic!("expected a refusal"),
    }
    match store.register_kind_at("Document", "x", StringMap::new(), "t".to_string()) {
        Err(e) => assert_eq!(e.message(), "invalid input: kind 'document' is already a built-in ArtifactKind"),
        Ok(()) => panic!("expected a refusal"),
    }
    assert_eq!(store.kinds.custom.len(), 1);
}

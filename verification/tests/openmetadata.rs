use ledgerr_mcp::ontology::OntologyEntityKind;
use ledgerr_mcp::openmetadata::{
    import_snapshot, OpenMetadataEntitySnapshot, OpenMetadataImportSnapshot, OpenMetadataRelationshipSnapshot,
};

fn table(fqn: &str) -> OpenMetadataEntitySnapshot {
    OpenMetadataEntitySnapshot {
        entity_type: "table".to_string(),
        fully_qualified_name: fqn.to_string(),
        openmetadata_id: None,
        href: None,
        service: Some("pg".to_string()),
        database: Some("ledger".to_string()),
        database_schema: Some("public".to_string()),
        table: Some("tx".to_string()),
        columns: vec!["amount".to_string(), "date".to_string()],
        tags: vec!["PII".to_string()],
        glossary_terms: vec![],
        owners: vec!["alice".to_string()],
    }
}

fn get<'a>(m: &'a ledgerr_mcp::StringMap, k: &str) -> Option<&'a str> {
    m.get(k).map(|s| s.as_str())
}

#[test]
fn import_snapshot_brings_entities_items_and_containment() {
    let snap = OpenMetadataImportSnapshot {
        source_ref: "om-export.json".to_string(),
        schema_version: "1.2".to_string(),
        entities: vec![table("pg.ledger.public.tx")],
        relationships: vec![OpenMetadataRelationshipSnapshot {
            from_entity_type: "table".to_string(),
            from_fqn: "pg.ledger.public.tx".to_string(),
            to_entity_type: "table".to_string(),
            to_fqn: "pg.ledger.public.summary".to_string(),
            relation: "downstream".to_string(),
            relationship_source: None,
        }],
    };
    let import = import_snapshot(&snap);
    let names: Vec<&str> = import
        .entities
        .iter()
        .map(|e| get(&e.attrs, "fully_qualified_name").unwrap())
        .collect();
    assert_eq!(
        names,
        vec![
            "pg.ledger.public.tx",
            "pg.ledger.public.tx.amount",
            "pg.ledger.public.tx.date",
            "PII",
            "alice",
            "pg",
            "pg.ledger",
            "pg.ledger",
            "pg.ledger.public",
            "pg.ledger.public",
            "pg.ledger.public.tx",
            "pg.ledger.public.tx",
            "pg.ledger.public.summary",
        ]
    );
    assert!(import.entities.iter().all(|e| e.kind == OntologyEntityKind::EvidenceReference));
    assert_eq!(import.entities[1].custom_kind.as_deref(), Some("openmetadata_column"));
    assert_eq!(get(&import.entities[3].attrs, "entity_type"), Some("tag"));
    assert_eq!(get(&import.entities[0].attrs, "source_system"), Some("openmetadata"));

    let relations: Vec<&str> = import.edges.iter().map(|e| e.relation.as_str()).collect();
    assert_eq!(
        relations,
        vec!["has_column", "has_column", "tagged_as", "owned_by", "contains", "contains", "contains", "lineage_downstream_of"]
    );
    let first = &import.edges[0];
    assert_eq!(get(&first.provenance, "relationship_source"), Some("table.columns"));
    assert_eq!(get(&first.provenance, "schema_version"), Some("1.2"));
    assert_eq!(get(&first.provenance, "source_ref"), Some("om-export.json"));
    assert_eq!(
        first.from,
        "entity|openmetadata_table|entity_type=table|fully_qualified_name=pg.ledger.public.tx|source_system=openmetadata"
    );
    assert_eq!(get(&import.edges[7].provenance, "relationship_source"), None);
}

#[test]
fn import_snapshot_without_schema_version_leaves_it_out() {
    let mut e = table("");
    e.columns.clear();
    e.tags.clear();
    e.owners.clear();
    e.service = None;
    let snap = OpenMetadataImportSnapshot {
        source_ref: "s".to_string(),
        schema_version: String::new(),
        entities: vec![e],
        relationships: vec![],
    };
    let import = import_snapshot(&snap);
    let names: Vec<&str> = import
        .entities
        .iter()
        .map(|e| get(&e.attrs, "fully_qualified_name").unwrap())
        .collect();
    assert_eq!(names, vec!["", "ledger", "ledger.public", "ledger.public", "ledger.public.tx"]);
    assert_eq!(import.edges.len(), 2);
    assert_eq!(get(&import.edges[0].provenance, "schema_version"), None);
}

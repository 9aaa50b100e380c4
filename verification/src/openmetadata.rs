//! Mapping of OpenMetadata entity types and relations onto the ontology.
use vstd::prelude::*;

use crate::ontology::{
    entity_hash_input, entity_hash_input_spec, EdgeInputView, EntityInputView, OntologyEdgeInput,
    OntologyEntityInput, OntologyEntityKind,
};
use crate::strmap::{entries_insert, StringMap};
use crate::text::{concat3, owned, str_eq};

verus! {

pub const SOURCE_SYSTEM: &'static str = "openmetadata";
pub const KIND_SERVICE: &'static str = "openmetadata_service";
pub const KIND_DATABASE: &'static str = "openmetadata_database";
pub const KIND_DATABASE_SCHEMA: &'static str = "openmetadata_database_schema";
pub const KIND_TABLE: &'static str = "openmetadata_table";
pub const KIND_COLUMN: &'static str = "openmetadata_column";
pub const KIND_TAG: &'static str = "openmetadata_tag";
pub const KIND_GLOSSARY_TERM: &'static str = "openmetadata_glossary_term";
pub const KIND_OWNER: &'static str = "openmetadata_owner";

/// One OpenMetadata entity of an import snapshot.
#[derive(Debug, Clone)]
pub struct OpenMetadataEntitySnapshot {
    pub entity_type: String,
    pub fully_qualified_name: String,
    pub openmetadata_id: Option<String>,
    pub href: Option<String>,
    pub service: Option<String>,
    pub database: Option<String>,
    pub database_schema: Option<String>,
    pub table: Option<String>,
    pub columns: Vec<String>,
    pub tags: Vec<String>,
    pub glossary_terms: Vec<String>,
    pub owners: Vec<String>,
}

/// One OpenMetadata relationship of an import snapshot.
#[derive(Debug, Clone)]
pub struct OpenMetadataRelationshipSnapshot {
    pub from_entity_type: String,
    pub from_fqn: String,
    pub to_entity_type: String,
    pub to_fqn: String,
    pub relation: String,
    pub relationship_source: Option<String>,
}

/// A snapshot exported from OpenMetadata.
#[derive(Debug, Clone)]
pub struct OpenMetadataImportSnapshot {
    pub source_ref: String,
    pub schema_version: String,
    pub entities: Vec<OpenMetadataEntitySnapshot>,
    pub relationships: Vec<OpenMetadataRelationshipSnapshot>,
}

/// The ontology kind an OpenMetadata entity type maps to; unknown types
/// count as tables.
pub open spec fn entity_kind_spec(t: Seq<char>) -> Seq<char> {
    if t == "service"@ || t == "databaseService"@ || t == "messagingService"@ || t
        == "apiService"@ || t == "dashboardService"@ || t == "pipelineService"@ || t
        == "storageService"@ || t == "mlmodelService"@ || t == "metadataService"@ || t
        == "searchService"@ {
        KIND_SERVICE@
    } else if t == "database"@ {
        KIND_DATABASE@
    } else if t == "databaseSchema"@ {
        KIND_DATABASE_SCHEMA@
    } else if t == "table"@ {
        KIND_TABLE@
    } else if t == "column"@ {
        KIND_COLUMN@
    } else if t == "tag"@ {
        KIND_TAG@
    } else if t == "glossaryTerm"@ {
        KIND_GLOSSARY_TERM@
    } else if t == "owner"@ || t == "user"@ || t == "team"@ {
        KIND_OWNER@
    } else {
        KIND_TABLE@
    }
}

/// The ontology kind of an OpenMetadata entity type.
pub fn openmetadata_entity_kind(entity_type: &str) -> (r: &'static str)
    ensures
        r@ == entity_kind_spec(entity_type@),
{
    let t = entity_type;
    if str_eq(t, "service") || str_eq(t, "databaseService") || str_eq(t, "messagingService")
        || str_eq(t, "apiService") || str_eq(t, "dashboardService") || str_eq(t, "pipelineService")
        || str_eq(t, "storageService") || str_eq(t, "mlmodelService") || str_eq(
        t,
        "metadataService",
    ) || str_eq(t, "searchService") {
        KIND_SERVICE
    } else if str_eq(t, "database") {
        KIND_DATABASE
    } else if str_eq(t, "databaseSchema") {
        KIND_DATABASE_SCHEMA
    } else if str_eq(t, "table") {
        KIND_TABLE
    } else if str_eq(t, "column") {
        KIND_COLUMN
    } else if str_eq(t, "tag") {
        KIND_TAG
    } else if str_eq(t, "glossaryTerm") {
        KIND_GLOSSARY_TERM
    } else if str_eq(t, "owner") || str_eq(t, "user") || str_eq(t, "team") {
        KIND_OWNER
    } else {
        KIND_TABLE
    }
}

/// The canonical name of a relation: lineage and ownership synonyms are
/// folded, anything else is kept.
pub open spec fn normalize_relation_spec(r: Seq<char>) -> Seq<char> {
    if r == "upstream"@ || r == "lineage_upstream_of"@ {
        "lineage_upstream_of"@
    } else if r == "downstream"@ || r == "lineage_downstream_of"@ {
        "lineage_downstream_of"@
    } else if r == "owns"@ || r == "owner"@ || r == "owned_by"@ {
        "owned_by"@
    } else {
        r
    }
}

/// The canonical name of a relation.
pub fn normalize_relation(relation: &str) -> (r: String)
    ensures
        r@ == normalize_relation_spec(relation@),
{
    if str_eq(relation, "upstream") || str_eq(relation, "lineage_upstream_of") {
        owned("lineage_upstream_of")
    } else if str_eq(relation, "downstream") || str_eq(relation, "lineage_downstream_of") {
        owned("lineage_downstream_of")
    } else if str_eq(relation, "owns") || str_eq(relation, "owner") || str_eq(relation, "owned_by") {
        owned("owned_by")
    } else {
        owned(relation)
    }
}

/// The attributes of an imported entity: the source system, the
/// OpenMetadata entity type and the fully qualified name.
pub open spec fn om_attrs(et: Seq<char>, fqn: Seq<char>) -> Seq<(Seq<char>, Seq<char>)> {
    let a0 = entries_insert(Seq::empty(), "source_system"@, SOURCE_SYSTEM@);
    let a1 = entries_insert(a0, "entity_type"@, et);
    entries_insert(a1, "fully_qualified_name"@, fqn)
}

/// An imported entity: an evidence reference under the custom kind `kind`.
pub open spec fn om_entity(kind: Seq<char>, et: Seq<char>, fqn: Seq<char>) -> EntityInputView {
    (OntologyEntityKind::EvidenceReference, Some(kind), om_attrs(et, fqn))
}

/// The canonical text of the entity an edge end names: that of an entity
/// of the type's kind with the type and name as attributes.
pub open spec fn om_endpoint(et: Seq<char>, fqn: Seq<char>) -> Seq<char> {
    entity_hash_input_spec(entity_kind_spec(et), om_attrs(et, fqn))
}

/// The provenance of an imported edge: the source system and reference,
/// the schema version where there is one, and where the relationship came
/// from, where that is known.
pub open spec fn om_provenance(
    source_ref: Seq<char>,
    schema_version: Seq<char>,
    src: Option<Seq<char>>,
) -> Seq<(Seq<char>, Seq<char>)> {
    let p0 = entries_insert(entries_insert(Seq::empty(), "source_system"@, SOURCE_SYSTEM@), "source_ref"@, source_ref);
    let p1 = if schema_version.len() == 0 {
        p0
    } else {
        entries_insert(p0, "schema_version"@, schema_version)
    };
    match src {
        Some(s) => entries_insert(p1, "relationship_source"@, s),
        None => p1,
    }
}

/// An imported edge between two entities named by type and name.
pub open spec fn om_edge(
    fet: Seq<char>,
    ffqn: Seq<char>,
    tet: Seq<char>,
    tfqn: Seq<char>,
    rel: Seq<char>,
    snap: OpenMetadataImportSnapshot,
    src: Option<Seq<char>>,
) -> EdgeInputView {
    (om_endpoint(fet, ffqn), om_endpoint(tet, tfqn), rel, om_provenance(snap.source_ref@, snap.schema_version@, src))
}

/// The name of a listed item of an entity: a column is named under the
/// entity, `entity.column`; a tag, term or owner by itself.
pub open spec fn item_name(fqn: Seq<char>, x: Seq<char>, dotted: bool) -> Seq<char> {
    if dotted {
        fqn + "."@ + x
    } else {
        x
    }
}

/// The texts of a list of strings.
pub open spec fn names_view(v: Seq<String>) -> Seq<Seq<char>> {
    v.map_values(|s: String| s@)
}

/// The entities a list of an entity's items adds: one per item.
pub open spec fn list_entities(fqn: Seq<char>, items: Seq<Seq<char>>, kind: Seq<char>, ty: Seq<char>, dotted: bool) -> Seq<
    EntityInputView,
> {
    Seq::new(items.len(), |i: int| om_entity(kind, ty, item_name(fqn, items[i], dotted)))
}

/// The edges a list of an entity's items adds: one from the entity to each
/// item.
pub open spec fn list_edges(
    e_type: Seq<char>,
    fqn: Seq<char>,
    items: Seq<Seq<char>>,
    ty: Seq<char>,
    rel: Seq<char>,
    snap: OpenMetadataImportSnapshot,
    src: Seq<char>,
    dotted: bool,
) -> Seq<EdgeInputView> {
    Seq::new(items.len(), |i: int| om_edge(e_type, fqn, ty, item_name(fqn, items[i], dotted), rel, snap, Some(src)))
}

/// The name of the database under its service, where the service is known.
pub open spec fn database_fqn(e: OpenMetadataEntitySnapshot, d: Seq<char>) -> Seq<char> {
    match e.service {
        Some(s) => s@ + "."@ + d,
        None => d,
    }
}

/// The name of the schema under its database and service, as far as they
/// are known.
pub open spec fn schema_fqn(e: OpenMetadataEntitySnapshot, sc: Seq<char>) -> Seq<char> {
    match (e.service, e.database) {
        (Some(s), Some(d)) => s@ + "."@ + d@ + "."@ + sc,
        (_, Some(d)) => d@ + "."@ + sc,
        _ => sc,
    }
}

/// The containment of a database in its service, where both are known.
pub open spec fn service_part(e: OpenMetadataEntitySnapshot, snap: OpenMetadataImportSnapshot) -> (
    Seq<EntityInputView>,
    Seq<EdgeInputView>,
) {
    match (e.service, e.database) {
        (Some(s), Some(d)) => (
            seq![om_entity(KIND_SERVICE@, "service"@, s@), om_entity(KIND_DATABASE@, "database"@, s@ + "."@ + d@)],
            seq![om_edge("service"@, s@, "database"@, s@ + "."@ + d@, "contains"@, snap, Some("entityReference"@))],
        ),
        _ => (Seq::empty(), Seq::empty()),
    }
}

/// The containment of a schema in its database, where both are known.
pub open spec fn database_part(e: OpenMetadataEntitySnapshot, snap: OpenMetadataImportSnapshot) -> (
    Seq<EntityInputView>,
    Seq<EdgeInputView>,
) {
    match (e.database, e.database_schema) {
        (Some(d), Some(sc)) => {
            let dbf = database_fqn(e, d@);
            (
                seq![om_entity(KIND_DATABASE@, "database"@, dbf), om_entity(KIND_DATABASE_SCHEMA@, "databaseSchema"@, dbf + "."@ + sc@)],
                seq![om_edge("database"@, dbf, "databaseSchema"@, dbf + "."@ + sc@, "contains"@, snap, Some("entityReference"@))],
            )
        },
        _ => (Seq::empty(), Seq::empty()),
    }
}

/// The containment of a table in its schema, where both are known; the
/// table keeps its own name where it has one.
pub open spec fn schema_part(e: OpenMetadataEntitySnapshot, snap: OpenMetadataImportSnapshot) -> (
    Seq<EntityInputView>,
    Seq<EdgeInputView>,
) {
    match (e.database_schema, e.table) {
        (Some(sc), Some(tb)) => {
            let sf = schema_fqn(e, sc@);
            let tf = if e.fully_qualified_name@.len() == 0 {
                sf + "."@ + tb@
            } else {
                e.fully_qualified_name@
            };
            (
                seq![om_entity(KIND_DATABASE_SCHEMA@, "databaseSchema"@, sf), om_entity(KIND_TABLE@, "table"@, tf)],
                seq![om_edge("databaseSchema"@, sf, "table"@, tf, "contains"@, snap, Some("entityReference"@))],
            )
        },
        _ => (Seq::empty(), Seq::empty()),
    }
}

/// The containment of an entity in its service, database and schema: the
/// entities and edges each known pair adds.
pub open spec fn hierarchy_block(e: OpenMetadataEntitySnapshot, snap: OpenMetadataImportSnapshot) -> (
    Seq<EntityInputView>,
    Seq<EdgeInputView>,
) {
    let b1 = service_part(e, snap);
    let b2 = database_part(e, snap);
    let b3 = schema_part(e, snap);
    (b1.0 + b2.0 + b3.0, b1.1 + b2.1 + b3.1)
}

/// What one entity of a snapshot adds: itself, its columns, tags, glossary
/// terms and owners, each with an edge from it, then its containment.
pub open spec fn entity_block(e: OpenMetadataEntitySnapshot, snap: OpenMetadataImportSnapshot) -> (
    Seq<EntityInputView>,
    Seq<EdgeInputView>,
) {
    let t = e.entity_type@;
    let f = e.fully_qualified_name@;
    let h = hierarchy_block(e, snap);
    (
        seq![om_entity(entity_kind_spec(t), t, f)]
            + list_entities(f, names_view(e.columns@), KIND_COLUMN@, "column"@, true)
            + list_entities(f, names_view(e.tags@), KIND_TAG@, "tag"@, false)
            + list_entities(f, names_view(e.glossary_terms@), KIND_GLOSSARY_TERM@, "glossaryTerm"@, false)
            + list_entities(f, names_view(e.owners@), KIND_OWNER@, "owner"@, false) + h.0,
        list_edges(t, f, names_view(e.columns@), "column"@, "has_column"@, snap, "table.columns"@, true)
            + list_edges(t, f, names_view(e.tags@), "tag"@, "tagged_as"@, snap, "tagLabel"@, false)
            + list_edges(t, f, names_view(e.glossary_terms@), "glossaryTerm"@, "has_glossary_term"@, snap, "glossaryTerm"@, false)
            + list_edges(t, f, names_view(e.owners@), "owner"@, "owned_by"@, snap, "entityReference"@, false) + h.1,
    )
}

/// What one relationship of a snapshot adds: its two ends and the edge
/// between them under the canonical relation.
pub open spec fn relationship_block(r: OpenMetadataRelationshipSnapshot, snap: OpenMetadataImportSnapshot) -> (
    Seq<EntityInputView>,
    Seq<EdgeInputView>,
) {
    (
        seq![
            om_entity(entity_kind_spec(r.from_entity_type@), r.from_entity_type@, r.from_fqn@),
            om_entity(entity_kind_spec(r.to_entity_type@), r.to_entity_type@, r.to_fqn@),
        ],
        seq![
            om_edge(
                r.from_entity_type@,
                r.from_fqn@,
                r.to_entity_type@,
                r.to_fqn@,
                normalize_relation_spec(r.relation@),
                snap,
                match r.relationship_source {
                    Some(s) => Some(s@),
                    None => None,
                },
            ),
        ],
    )
}

/// What the first entities of a snapshot add, in order.
pub open spec fn entities_import(es: Seq<OpenMetadataEntitySnapshot>, snap: OpenMetadataImportSnapshot) -> (
    Seq<EntityInputView>,
    Seq<EdgeInputView>,
)
    decreases es.len(),
{
    if es.len() == 0 {
        (Seq::empty(), Seq::empty())
    } else {
        let p = entities_import(es.drop_last(), snap);
        let b = entity_block(es.last(), snap);
        (p.0 + b.0, p.1 + b.1)
    }
}

/// What the first relationships of a snapshot add, in order.
pub open spec fn relationships_import(rs: Seq<OpenMetadataRelationshipSnapshot>, snap: OpenMetadataImportSnapshot) -> (
    Seq<EntityInputView>,
    Seq<EdgeInputView>,
)
    decreases rs.len(),
{
    if rs.len() == 0 {
        (Seq::empty(), Seq::empty())
    } else {
        let p = relationships_import(rs.drop_last(), snap);
        let b = relationship_block(rs.last(), snap);
        (p.0 + b.0, p.1 + b.1)
    }
}

/// What a snapshot imports: its entities' blocks, then its relationships'.
pub open spec fn import_spec(snap: OpenMetadataImportSnapshot) -> (Seq<EntityInputView>, Seq<EdgeInputView>) {
    let a = entities_import(snap.entities@, snap);
    let b = relationships_import(snap.relationships@, snap);
    (a.0 + b.0, a.1 + b.1)
}

/// The entity inputs as values.
pub open spec fn entity_inputs_view(v: Seq<OntologyEntityInput>) -> Seq<EntityInputView> {
    v.map_values(|x: OntologyEntityInput| x@)
}

/// The edge inputs as values.
pub open spec fn edge_inputs_view(v: Seq<OntologyEdgeInput>) -> Seq<EdgeInputView> {
    v.map_values(|x: OntologyEdgeInput| x@)
}

/// The entities and edges an OpenMetadata snapshot brings into the ontology.
#[derive(Debug, Clone)]
pub struct OpenMetadataOntologyImport {
    pub entities: Vec<OntologyEntityInput>,
    pub edges: Vec<OntologyEdgeInput>,
}

/// An imported entity.
fn entity_input(custom_kind: &str, entity_type: &str, fully_qualified_name: &str) -> (r: OntologyEntityInput)
    ensures
        r@ == om_entity(custom_kind@, entity_type@, fully_qualified_name@),
{
    let mut attrs = StringMap::new();
    attrs.insert(owned("source_system"), owned(SOURCE_SYSTEM));
    attrs.insert(owned("entity_type"), owned(entity_type));
    attrs.insert(owned("fully_qualified_name"), owned(fully_qualified_name));
    OntologyEntityInput {
        kind: OntologyEntityKind::EvidenceReference,
        attrs,
        custom_kind: Some(owned(custom_kind)),
    }
}

/// The canonical text of the entity named by type and name.
fn endpoint(entity_type: &str, fully_qualified_name: &str) -> (r: String)
    ensures
        r@ == om_endpoint(entity_type@, fully_qualified_name@),
{
    let input = entity_input(openmetadata_entity_kind(entity_type), entity_type, fully_qualified_name);
    entity_hash_input(openmetadata_entity_kind(entity_type), &input.attrs)
}

/// An imported edge.
fn edge_input(
    from_entity_type: &str,
    from_fqn: &str,
    to_entity_type: &str,
    to_fqn: &str,
    relation: &str,
    snapshot: &OpenMetadataImportSnapshot,
    relationship_source: Option<&str>,
) -> (r: OntologyEdgeInput)
    ensures
        r@ == om_edge(
            from_entity_type@,
            from_fqn@,
            to_entity_type@,
            to_fqn@,
            relation@,
            *snapshot,
            match relationship_source {
                Some(s) => Some(s@),
                None => None,
            },
        ),
{
    let mut provenance = StringMap::new();
    provenance.insert(owned("source_system"), owned(SOURCE_SYSTEM));
    provenance.insert(owned("source_ref"), snapshot.source_ref.clone());
    if snapshot.schema_version.unicode_len() != 0 {
        provenance.insert(owned("schema_version"), snapshot.schema_version.clone());
    }
    match relationship_source {
        Some(s) => provenance.insert(owned("relationship_source"), owned(s)),
        None => {},
    }
    OntologyEdgeInput {
        from: endpoint(from_entity_type, from_fqn),
        to: endpoint(to_entity_type, to_fqn),
        relation: owned(relation),
        provenance,
    }
}

/// Adds the entities and edges of a list of an entity's items.
fn push_list(
    entities: &mut Vec<OntologyEntityInput>,
    edges: &mut Vec<OntologyEdgeInput>,
    e: &OpenMetadataEntitySnapshot,
    items: &Vec<String>,
    kind: &str,
    ty: &str,
    rel: &str,
    src: &str,
    dotted: bool,
    snapshot: &OpenMetadataImportSnapshot,
)
    ensures
        entity_inputs_view(final(entities)@) == entity_inputs_view(old(entities)@) + list_entities(
            e.fully_qualified_name@,
            names_view(items@),
            kind@,
            ty@,
            dotted,
        ),
        edge_inputs_view(final(edges)@) == edge_inputs_view(old(edges)@) + list_edges(
            e.entity_type@,
            e.fully_qualified_name@,
            names_view(items@),
            ty@,
            rel@,
            *snapshot,
            src@,
            dotted,
        ),
{
    let ghost e0 = entity_inputs_view(entities@);
    let ghost d0 = edge_inputs_view(edges@);
    let ghost nv = names_view(items@);
    let ghost le = list_entities(e.fully_qualified_name@, nv, kind@, ty@, dotted);
    let ghost ld = list_edges(e.entity_type@, e.fully_qualified_name@, nv, ty@, rel@, *snapshot, src@, dotted);
    let mut i: usize = 0;
    assert(le.take(0) =~= Seq::<EntityInputView>::empty());
    assert(ld.take(0) =~= Seq::<EdgeInputView>::empty());
    assert(e0 + le.take(0) =~= e0);
    assert(d0 + ld.take(0) =~= d0);
    while i < items.len()
        invariant
            i <= items@.len(),
            nv == names_view(items@),
            le == list_entities(e.fully_qualified_name@, nv, kind@, ty@, dotted),
            ld == list_edges(e.entity_type@, e.fully_qualified_name@, nv, ty@, rel@, *snapshot, src@, dotted),
            entity_inputs_view(entities@) == e0 + le.take(i as int),
            edge_inputs_view(edges@) == d0 + ld.take(i as int),
        decreases items.len() - i,
    {
        let name = if dotted {
            concat3(e.fully_qualified_name.as_str(), ".", items[i].as_str())
        } else {
            items[i].clone()
        };
        assert(nv[i as int] == items@[i as int]@);
        assert(name@ == item_name(e.fully_qualified_name@, nv[i as int], dotted));
        let ent = entity_input(kind, ty, name.as_str());
        let ed = edge_input(
            e.entity_type.as_str(),
            e.fully_qualified_name.as_str(),
            ty,
            name.as_str(),
            rel,
            snapshot,
            Some(src),
        );
        let ghost ev_before = entity_inputs_view(entities@);
        let ghost dv_before = edge_inputs_view(edges@);
        entities.push(ent);
        edges.push(ed);
        proof {
            assert(entity_inputs_view(entities@) =~= ev_before.push(le[i as int]));
            assert(edge_inputs_view(edges@) =~= dv_before.push(ld[i as int]));
            assert(le.take(i + 1) =~= le.take(i as int).push(le[i as int]));
            assert(ld.take(i + 1) =~= ld.take(i as int).push(ld[i as int]));
            assert(e0 + le.take(i + 1) =~= (e0 + le.take(i as int)).push(le[i as int]));
            assert(d0 + ld.take(i + 1) =~= (d0 + ld.take(i as int)).push(ld[i as int]));
        }
        i = i + 1;
    }
    assert(le.take(items@.len() as int) =~= le);
    assert(ld.take(items@.len() as int) =~= ld);
}

/// Adds the containment of an entity in its service, database and schema.
fn push_hierarchy(
    entities: &mut Vec<OntologyEntityInput>,
    edges: &mut Vec<OntologyEdgeInput>,
    e: &OpenMetadataEntitySnapshot,
    snapshot: &OpenMetadataImportSnapshot,
)
    ensures
        entity_inputs_view(final(entities)@) == entity_inputs_view(old(entities)@) + hierarchy_block(*e, *snapshot).0,
        edge_inputs_view(final(edges)@) == edge_inputs_view(old(edges)@) + hierarchy_block(*e, *snapshot).1,
{
    let ghost e0 = entity_inputs_view(entities@);
    let ghost d0 = edge_inputs_view(edges@);
    let ghost h = hierarchy_block(*e, *snapshot);
    let ghost b1 = service_part(*e, *snapshot);
    if let (Some(service), Some(database)) = (&e.service, &e.database) {
        let database_name = concat3(service.as_str(), ".", database.as_str());
        entities.push(entity_input(KIND_SERVICE, "service", service.as_str()));
        entities.push(entity_input(KIND_DATABASE, "database", database_name.as_str()));
        edges.push(
            edge_input(
                "service",
                service.as_str(),
                "database",
                database_name.as_str(),
                "contains",
                snapshot,
                Some("entityReference"),
            ),
        );
    }
    assert(entity_inputs_view(entities@) =~= e0 + b1.0);
    assert(edge_inputs_view(edges@) =~= d0 + b1.1);
    let ghost e1 = entity_inputs_view(entities@);
    let ghost d1 = edge_inputs_view(edges@);
    let ghost b2 = database_part(*e, *snapshot);
    if let (Some(database), Some(database_schema)) = (&e.database, &e.database_schema) {
        let database_name = match &e.service {
            Some(service) => concat3(service.as_str(), ".", database.as_str()),
            None => database.clone(),
        };
        let schema_name = concat3(database_name.as_str(), ".", database_schema.as_str());
        entities.push(entity_input(KIND_DATABASE, "database", database_name.as_str()));
        entities.push(entity_input(KIND_DATABASE_SCHEMA, "databaseSchema", schema_name.as_str()));
        edges.push(
            edge_input(
                "database",
                database_name.as_str(),
                "databaseSchema",
                schema_name.as_str(),
                "contains",
                snapshot,
                Some("entityReference"),
            ),
        );
    }
    assert(entity_inputs_view(entities@) =~= e1 + b2.0);
    assert(edge_inputs_view(edges@) =~= d1 + b2.1);
    let ghost e2 = entity_inputs_view(entities@);
    let ghost d2 = edge_inputs_view(edges@);
    let ghost b3 = schema_part(*e, *snapshot);
    if let (Some(database_schema), Some(table)) = (&e.database_schema, &e.table) {
        let schema_name = match (&e.service, &e.database) {
            (Some(service), Some(database)) => {
                let d = concat3(service.as_str(), ".", database.as_str());
                concat3(d.as_str(), ".", database_schema.as_str())
            },
            (_, Some(database)) => concat3(database.as_str(), ".", database_schema.as_str()),
            _ => database_schema.clone(),
        };
        let table_name = if e.fully_qualified_name.unicode_len() == 0 {
            concat3(schema_name.as_str(), ".", table.as_str())
        } else {
            e.fully_qualified_name.clone()
        };
        entities.push(entity_input(KIND_DATABASE_SCHEMA, "databaseSchema", schema_name.as_str()));
        entities.push(entity_input(KIND_TABLE, "table", table_name.as_str()));
        edges.push(
            edge_input(
                "databaseSchema",
                schema_name.as_str(),
                "table",
                table_name.as_str(),
                "contains",
                snapshot,
                Some("entityReference"),
            ),
        );
    }
    assert(entity_inputs_view(entities@) =~= e2 + b3.0);
    assert(edge_inputs_view(edges@) =~= d2 + b3.1);
    assert(h.0 =~= b1.0 + b2.0 + b3.0);
    assert(h.1 =~= b1.1 + b2.1 + b3.1);
    assert(entity_inputs_view(entities@) =~= e0 + h.0);
    assert(edge_inputs_view(edges@) =~= d0 + h.1);
}

/// Adds what one entity of a snapshot brings.
fn push_entity_block(
    entities: &mut Vec<OntologyEntityInput>,
    edges: &mut Vec<OntologyEdgeInput>,
    e: &OpenMetadataEntitySnapshot,
    snapshot: &OpenMetadataImportSnapshot,
)
    ensures
        entity_inputs_view(final(entities)@) == entity_inputs_view(old(entities)@) + entity_block(*e, *snapshot).0,
        edge_inputs_view(final(edges)@) == edge_inputs_view(old(edges)@) + entity_block(*e, *snapshot).1,
{
    let ghost e0 = entity_inputs_view(entities@);
    let ghost d0 = edge_inputs_view(edges@);
    let t = e.entity_type.as_str();
    let f = e.fully_qualified_name.as_str();
    entities.push(entity_input(openmetadata_entity_kind(t), t, f));
    let ghost e1 = entity_inputs_view(entities@);
    assert(e1 =~= e0 + seq![om_entity(entity_kind_spec(t@), t@, f@)]);
    push_list(entities, edges, e, &e.columns, KIND_COLUMN, "column", "has_column", "table.columns", true, snapshot);
    push_list(entities, edges, e, &e.tags, KIND_TAG, "tag", "tagged_as", "tagLabel", false, snapshot);
    push_list(
        entities,
        edges,
        e,
        &e.glossary_terms,
        KIND_GLOSSARY_TERM,
        "glossaryTerm",
        "has_glossary_term",
        "glossaryTerm",
        false,
        snapshot,
    );
    push_list(entities, edges, e, &e.owners, KIND_OWNER, "owner", "owned_by", "entityReference", false, snapshot);
    push_hierarchy(entities, edges, e, snapshot);
    let ghost b = entity_block(*e, *snapshot);
    assert(entity_inputs_view(entities@) =~= e0 + b.0);
    assert(edge_inputs_view(edges@) =~= d0 + b.1);
}

/// Adds what one relationship of a snapshot brings.
fn push_relationship_block(
    entities: &mut Vec<OntologyEntityInput>,
    edges: &mut Vec<OntologyEdgeInput>,
    r: &OpenMetadataRelationshipSnapshot,
    snapshot: &OpenMetadataImportSnapshot,
)
    ensures
        entity_inputs_view(final(entities)@) == entity_inputs_view(old(entities)@) + relationship_block(*r, *snapshot).0,
        edge_inputs_view(final(edges)@) == edge_inputs_view(old(edges)@) + relationship_block(*r, *snapshot).1,
{
    let ghost e0 = entity_inputs_view(entities@);
    let ghost d0 = edge_inputs_view(edges@);
    let ft = r.from_entity_type.as_str();
    let tt = r.to_entity_type.as_str();
    entities.push(entity_input(openmetadata_entity_kind(ft), ft, r.from_fqn.as_str()));
    entities.push(entity_input(openmetadata_entity_kind(tt), tt, r.to_fqn.as_str()));
    let relation = normalize_relation(r.relation.as_str());
    let source = match &r.relationship_source {
        Some(s) => Some(s.as_str()),
        None => None,
    };
    edges.push(
        edge_input(ft, r.from_fqn.as_str(), tt, r.to_fqn.as_str(), relation.as_str(), snapshot, source),
    );
    let ghost b = relationship_block(*r, *snapshot);
    assert(entity_inputs_view(entities@) =~= e0 + b.0);
    assert(edge_inputs_view(edges@) =~= d0 + b.1);
}

/// The entities and edges an OpenMetadata snapshot brings into the
/// ontology: for each entity in order, itself, its columns (named under it),
/// tags, glossary terms and owners with an edge from it to each, and its
/// containment in its service, database and schema; then for each
/// relationship, its two ends and the edge between them under the
/// canonical relation. Entities are evidence references under the
/// OpenMetadata custom kinds; edges carry the snapshot's provenance.
pub fn import_snapshot(snapshot: &OpenMetadataImportSnapshot) -> (r: OpenMetadataOntologyImport)
    ensures
        entity_inputs_view(r.entities@) == import_spec(*snapshot).0,
        edge_inputs_view(r.edges@) == import_spec(*snapshot).1,
{
    let mut entities: Vec<OntologyEntityInput> = Vec::new();
    let mut edges: Vec<OntologyEdgeInput> = Vec::new();
    let ghost es = snapshot.entities@;
    let mut i: usize = 0;
    assert(entity_inputs_view(entities@) =~= Seq::<EntityInputView>::empty());
    assert(edge_inputs_view(edges@) =~= Seq::<EdgeInputView>::empty());
    assert(es.take(0) =~= Seq::<OpenMetadataEntitySnapshot>::empty());
    while i < snapshot.entities.len()
        invariant
            i <= es.len(),
            es == snapshot.entities@,
            entity_inputs_view(entities@) == entities_import(es.take(i as int), *snapshot).0,
            edge_inputs_view(edges@) == entities_import(es.take(i as int), *snapshot).1,
        decreases es.len() - i,
    {
        push_entity_block(&mut entities, &mut edges, &snapshot.entities[i], snapshot);
        proof {
            assert(es.take(i + 1).drop_last() =~= es.take(i as int));
            assert(es.take(i + 1).last() == es[i as int]);
        }
        i = i + 1;
    }
    assert(es.take(es.len() as int) =~= es);
    let ghost a = entities_import(es, *snapshot);
    let ghost rs = snapshot.relationships@;
    let mut j: usize = 0;
    assert(rs.take(0) =~= Seq::<OpenMetadataRelationshipSnapshot>::empty());
    assert(a.0 + Seq::<EntityInputView>::empty() =~= a.0);
    assert(a.1 + Seq::<EdgeInputView>::empty() =~= a.1);
    while j < snapshot.relationships.len()
        invariant
            j <= rs.len(),
            rs == snapshot.relationships@,
            a == entities_import(snapshot.entities@, *snapshot),
            entity_inputs_view(entities@) == a.0 + relationships_import(rs.take(j as int), *snapshot).0,
            edge_inputs_view(edges@) == a.1 + relationships_import(rs.take(j as int), *snapshot).1,
        decreases rs.len() - j,
    {
        push_relationship_block(&mut entities, &mut edges, &snapshot.relationships[j], snapshot);
        proof {
            let rt = rs.take(j + 1);
            assert(rt.drop_last() =~= rs.take(j as int));
            assert(rt.last() == rs[j as int]);
            let p = relationships_import(rs.take(j as int), *snapshot);
            let b = relationship_block(rs[j as int], *snapshot);
            assert(a.0 + (p.0 + b.0) =~= (a.0 + p.0) + b.0);
            assert(a.1 + (p.1 + b.1) =~= (a.1 + p.1) + b.1);
        }
        j = j + 1;
    }
    assert(rs.take(rs.len() as int) =~= rs);
    OpenMetadataOntologyImport { entities, edges }
}

} // verus!

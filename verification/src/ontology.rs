//! Entity kinds of the ontology, the results of its writes and queries, and
//! the text an entity's content hash is taken over.
use vstd::prelude::*;

use crate::strmap::StringMap;
use crate::text::{owned, push_char, push_str};

verus! {

/// The kinds of entity the ontology holds.
#[derive(Debug, Clone, Copy, PartialEq, Eq, Structural)]
pub enum OntologyEntityKind {
    Document,
    Account,
    Institution,
    Transaction,
    TaxCategory,
    EvidenceReference,
    XeroContact,
    XeroBankAccount,
    XeroInvoice,
    WorkflowTag,
    ModelJob,
    ModelProposal,
    WorkbookRow,
    AuditEvent,
    ValidationIssue,
    DocumentChunk,
    ClassificationOutcome,
}

/// An entity to put in the ontology: its kind, its attributes, and the
/// name of a custom kind that stands in for the kind where it is set.
#[derive(Debug, Clone)]
pub struct OntologyEntityInput {
    pub kind: OntologyEntityKind,
    pub attrs: StringMap,
    pub custom_kind: Option<String>,
}

/// An entity input as values: kind, custom kind, attributes.
pub type EntityInputView = (OntologyEntityKind, Option<Seq<char>>, Seq<(Seq<char>, Seq<char>)>);

impl View for OntologyEntityInput {
    type V = EntityInputView;

    open spec fn view(&self) -> EntityInputView {
        (
            self.kind,
            match self.custom_kind {
                Some(c) => Some(c@),
                None => None,
            },
            self.attrs@,
        )
    }
}

/// An edge to put in the ontology: the canonical texts of the entities it
/// joins (the texts whose content hashes are their ids), its relation and
/// its provenance.
#[derive(Debug, Clone)]
pub struct OntologyEdgeInput {
    pub from: String,
    pub to: String,
    pub relation: String,
    pub provenance: StringMap,
}

/// An edge input as values: from, to, relation, provenance.
pub type EdgeInputView = (Seq<char>, Seq<char>, Seq<char>, Seq<(Seq<char>, Seq<char>)>);

impl View for OntologyEdgeInput {
    type V = EdgeInputView;

    open spec fn view(&self) -> EdgeInputView {
        (self.from@, self.to@, self.relation@, self.provenance@)
    }
}

/// What an upsert of entities reports: how many were new, and the ids of all
/// that were given.
#[derive(Debug, Clone, PartialEq, Eq)]
pub struct OntologyUpsertEntitiesResponse {
    pub inserted_count: usize,
    pub entity_ids: Vec<String>,
}

/// What an upsert of edges reports: how many were new, and the ids of all
/// that were given.
#[derive(Debug, Clone, PartialEq, Eq)]
pub struct OntologyUpsertEdgesResponse {
    pub inserted_count: usize,
    pub edge_ids: Vec<String>,
}

/// A walk of the ontology from one entity, to at most `max_depth` edges.
#[derive(Debug, Clone, PartialEq, Eq)]
pub struct OntologyQueryPathRequest {
    pub ontology_path: String,
    pub from_entity_id: String,
    pub max_depth: Option<usize>,
}

/// The attributes of an entity as text: `|key=value` for each, in key order.
pub open spec fn attrs_text(entries: Seq<(Seq<char>, Seq<char>)>) -> Seq<char>
    decreases entries.len(),
{
    if entries.len() == 0 {
        Seq::empty()
    } else {
        let (k, v) = entries.last();
        attrs_text(entries.drop_last()) + "|"@ + k + "="@ + v
    }
}

/// The canonical text of an entity: `entity|` and its kind name, then its
/// attributes.
pub open spec fn entity_hash_input_spec(kind_name: Seq<char>, attrs: Seq<(Seq<char>, Seq<char>)>) -> Seq<char> {
    "entity|"@ + kind_name + attrs_text(attrs)
}

/// The text whose content hash identifies an entity of kind `kind_name`
/// with attributes `attrs`; equal kinds and attributes give equal texts.
pub fn entity_hash_input(kind_name: &str, attrs: &StringMap) -> (r: String)
    ensures
        r@ == entity_hash_input_spec(kind_name@, attrs@),
{
    let mut text = owned("entity|");
    push_str(&mut text, kind_name);
    let n = attrs.len();
    let mut i: usize = 0;
    while i < n
        invariant
            n == attrs@.len(),
            i <= n,
            text@ == "entity|"@ + kind_name@ + attrs_text(attrs@.take(i as int)),
        decreases n - i,
    {
        proof {
            assert(attrs@.take(i as int + 1).drop_last() =~= attrs@.take(i as int));
        }
        push_char(&mut text, '|');
        push_str(&mut text, attrs.key_at(i).as_str());
        push_char(&mut text, '=');
        push_str(&mut text, attrs.value_at(i).as_str());
        i = i + 1;
        proof {
            assert(seq!['|'] =~= "|"@) by {
                reveal_strlit("|");
            }
            assert(seq!['='] =~= "="@) by {
                reveal_strlit("=");
            }
        }
    }
    proof {
        assert(attrs@.take(n as int) =~= attrs@);
    }
    text
}

} // verus!

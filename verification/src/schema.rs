//! Runtime schema registry: the built-in entity kinds and the custom kinds
//! registered at run time.
use vstd::prelude::*;

use crate::clock::{rfc3339_of, utc_now_rfc3339};
use crate::error::ToolError;
use crate::strmap::{texts_view, StringMap};
use crate::text::{
    ascii_lower_seq, eq_ignore_ascii_case, eq_ignore_ascii_case_spec, is_ascii_text, lemma_trim_plain,
    owned, push_str, str_eq, to_lowercase, trim, trim_spec, unicode_lowercase,
};

verus! {

/// A custom entity kind registered at run time.
#[derive(Debug)]
pub struct CustomKind {
    pub name: String,
    pub description: String,
    pub created_at: String,
    /// Per-attribute type hints, e.g. `amount` to `decimal`.
    pub attrs_schema: StringMap,
}

/// A custom kind as mathematical values: name, description, creation time
/// and attribute hints.
pub type CustomKindView = (Seq<char>, Seq<char>, Seq<char>, Seq<(Seq<char>, Seq<char>)>);

impl View for CustomKind {
    type V = CustomKindView;

    open spec fn view(&self) -> CustomKindView {
        (self.name@, self.description@, self.created_at@, self.attrs_schema@)
    }
}

impl CustomKind {
    /// A copy of the kind.
    pub fn duplicate(&self) -> (r: CustomKind)
        ensures
            r@ == self@,
            self.attrs_schema.wf() ==> r.attrs_schema.wf(),
    {
        CustomKind {
            name: self.name.clone(),
            description: self.description.clone(),
            created_at: self.created_at.clone(),
            attrs_schema: self.attrs_schema.duplicate(),
        }
    }
}

/// The views of a list of custom kinds.
pub open spec fn customs_view(v: Seq<CustomKind>) -> Seq<CustomKindView> {
    v.map_values(|c: CustomKind| c@)
}

/// The registry: built-in kind names and custom kinds.
#[derive(Debug)]
pub struct SchemaKinds {
    pub built_in: Vec<String>,
    pub custom: Vec<CustomKind>,
}

/// The entity kinds built into the ontology.
pub open spec fn built_in_kinds_spec() -> Seq<Seq<char>> {
    seq![
        "document"@,
        "account"@,
        "institution"@,
        "transaction"@,
        "tax_category"@,
        "evidence_reference"@,
        "xero_contact"@,
        "xero_bank_account"@,
        "xero_invoice"@,
        "workflow_tag"@,
        "model_job"@,
        "model_proposal"@,
        "workbook_row"@,
        "audit_event"@,
        "validation_issue"@,
        "document_chunk"@,
        "classification_outcome"@,
    ]
}

/// The names of the built-in entity kinds.
pub fn built_in_kind_names() -> (r: Vec<String>)
    ensures
        texts_view(r@) == built_in_kinds_spec(),
{
    let names: Vec<&str> = vec![
        "document",
        "account",
        "institution",
        "transaction",
        "tax_category",
        "evidence_reference",
        "xero_contact",
        "xero_bank_account",
        "xero_invoice",
        "workflow_tag",
        "model_job",
        "model_proposal",
        "workbook_row",
        "audit_event",
        "validation_issue",
        "document_chunk",
        "classification_outcome",
    ];
    let mut out: Vec<String> = Vec::new();
    let mut i: usize = 0;
    while i < names.len()
        invariant
            0 <= i <= names@.len(),
            names@.len() == 17,
            forall|k: int| 0 <= k < names@.len() ==> #[trigger] names@[k]@ == built_in_kinds_spec()[k],
            texts_view(out@) == built_in_kinds_spec().take(i as int),
        decreases names@.len() - i,
    {
        let ghost prev = texts_view(out@);
        out.push(owned(names[i]));
        proof {
            assert(texts_view(out@) =~= prev.push(names@[i as int]@));
            assert(texts_view(out@) =~= built_in_kinds_spec().take(i + 1));
        }
        i = i + 1;
    }
    assert(built_in_kinds_spec().take(17) =~= built_in_kinds_spec());
    out
}

impl SchemaKinds {
    /// The built-in kinds and no custom kinds.
    pub fn default_kinds() -> (r: SchemaKinds)
        ensures
            texts_view(r.built_in@) == built_in_kinds_spec(),
            r.custom@.len() == 0,
    {
        SchemaKinds { built_in: built_in_kind_names(), custom: Vec::new() }
    }
}

impl Default for SchemaKinds {
    fn default() -> (r: SchemaKinds)
        ensures
            texts_view(r.built_in@) == built_in_kinds_spec(),
            r.custom@.len() == 0,
    {
        SchemaKinds::default_kinds()
    }
}

/// Runtime schema store for entity kinds.
#[derive(Debug)]
pub struct SchemaStore {
    pub kinds: SchemaKinds,
}

/// What reading one schema file found.
#[derive(Debug)]
pub enum SchemaFile {
    /// No file at the path.
    Missing,
    /// The file held a store.
    Loaded(SchemaStore),
    /// The file could not be read or parsed, for the reason given.
    Corrupt(String),
}

/// The store a load settled on.
#[derive(Debug)]
pub enum LoadOutcome {
    /// Use this store.
    Use(SchemaStore),
    /// Use this store, read from the backup; the main file should be
    /// rewritten from it.
    RestoredFromBackup(SchemaStore),
}

/// Whether `p` has a `..` component: a `..` between separators `/` or the
/// ends of the text.
pub open spec fn is_parent_segment(p: Seq<char>, i: int) -> bool {
    &&& 0 <= i
    &&& i + 2 <= p.len()
    &&& p[i] == '.'
    &&& p[i + 1] == '.'
    &&& (i == 0 || p[i - 1] == '/')
    &&& (i + 2 == p.len() || p[i + 2] == '/')
}

/// Whether the path climbs to a parent directory anywhere.
pub open spec fn has_parent_component(p: Seq<char>) -> bool {
    exists|i: int| #[trigger] is_parent_segment(p, i)
}

/// Whether a path has a `..` component.
pub fn path_has_parent_component(path: &str) -> (r: bool)
    ensures
        r == has_parent_component(path@),
{
    let n = path.unicode_len();
    let mut i: usize = 0;
    while n >= 2 && i <= n - 2
        invariant
            n == path@.len(),
            forall|j: int| 0 <= j < i ==> !#[trigger] is_parent_segment(path@, j),
        decreases n - i,
    {
        let a = path.get_char(i);
        let b = path.get_char(i + 1);
        let before_ok = i == 0 || path.get_char(i - 1) == '/';
        let after_ok = i + 2 == n || path.get_char(i + 2) == '/';
        if a == '.' && b == '.' && before_ok && after_ok {
            assert(is_parent_segment(path@, i as int));
            return true;
        }
        i = i + 1;
    }
    assert forall|j: int| !#[trigger] is_parent_segment(path@, j) by {
        if j >= i && j >= 0 {
            assert(!(j + 2 <= path@.len()));
        }
    }
    false
}

/// A kind name trimmed and lowercased.
pub open spec fn kind_key(name: Seq<char>) -> Seq<char> {
    unicode_lowercase(trim_spec(name))
}

/// A name of small ASCII letters and `_` is its own key.
pub proof fn lemma_plain_name_is_key(n: Seq<char>)
    requires
        n.len() > 0,
        forall|j: int| 0 <= j < n.len() ==> ('a' <= #[trigger] n[j] <= 'z' || n[j] == '_'),
    ensures
        kind_key(n) == n,
{
    lemma_trim_plain(n);
    assert(is_ascii_text(n));
    assert(ascii_lower_seq(n) =~= n);
}

/// Every built-in kind, named as written, is its own key, and so is known
/// to a store that holds the built-in list, as the default store does.
pub proof fn law_built_in_kinds_known(s: SchemaStore, i: int)
    requires
        s.built_in_view() == built_in_kinds_spec(),
        0 <= i < built_in_kinds_spec().len(),
    ensures
        kind_key(built_in_kinds_spec()[i]) == built_in_kinds_spec()[i],
        s.knows(built_in_kinds_spec()[i]),
{
    if i == 0 {
        reveal_strlit("document");
        assert(built_in_kinds_spec()[0] == "document"@);
        lemma_plain_name_is_key("document"@);
    } else if i == 1 {
        reveal_strlit("account");
        assert(built_in_kinds_spec()[1] == "account"@);
        lemma_plain_name_is_key("account"@);
    } else if i == 2 {
        reveal_strlit("institution");
        assert(built_in_kinds_spec()[2] == "institution"@);
        lemma_plain_name_is_key("institution"@);
    } else if i == 3 {
        reveal_strlit("transaction");
        assert(built_in_kinds_spec()[3] == "transaction"@);
        lemma_plain_name_is_key("transaction"@);
    } else if i == 4 {
        reveal_strlit("tax_category");
        assert(built_in_kinds_spec()[4] == "tax_category"@);
        lemma_plain_name_is_key("tax_category"@);
    } else if i == 5 {
        reveal_strlit("evidence_reference");
        assert(built_in_kinds_spec()[5] == "evidence_reference"@);
        lemma_plain_name_is_key("evidence_reference"@);
    } else if i == 6 {
        reveal_strlit("xero_contact");
        assert(built_in_kinds_spec()[6] == "xero_contact"@);
        lemma_plain_name_is_key("xero_contact"@);
    } else if i == 7 {
        reveal_strlit("xero_bank_account");
        assert(built_in_kinds_spec()[7] == "xero_bank_account"@);
        lemma_plain_name_is_key("xero_bank_account"@);
    } else if i == 8 {
        reveal_strlit("xero_invoice");
        assert(built_in_kinds_spec()[8] == "xero_invoice"@);
        lemma_plain_name_is_key("xero_invoice"@);
    } else if i == 9 {
        reveal_strlit("workflow_tag");
        assert(built_in_kinds_spec()[9] == "workflow_tag"@);
        lemma_plain_name_is_key("workflow_tag"@);
    } else if i == 10 {
        reveal_strlit("model_job");
        assert(built_in_kinds_spec()[10] == "model_job"@);
        lemma_plain_name_is_key("model_job"@);
    } else if i == 11 {
        reveal_strlit("model_proposal");
        assert(built_in_kinds_spec()[11] == "model_proposal"@);
        lemma_plain_name_is_key("model_proposal"@);
    } else if i == 12 {
        reveal_strlit("workbook_row");
        assert(built_in_kinds_spec()[12] == "workbook_row"@);
        lemma_plain_name_is_key("workbook_row"@);
    } else if i == 13 {
        reveal_strlit("audit_event");
        assert(built_in_kinds_spec()[13] == "audit_event"@);
        lemma_plain_name_is_key("audit_event"@);
    } else if i == 14 {
        reveal_strlit("validation_issue");
        assert(built_in_kinds_spec()[14] == "validation_issue"@);
        lemma_plain_name_is_key("validation_issue"@);
    } else if i == 15 {
        reveal_strlit("document_chunk");
        assert(built_in_kinds_spec()[15] == "document_chunk"@);
        lemma_plain_name_is_key("document_chunk"@);
    } else if i == 16 {
        reveal_strlit("classification_outcome");
        assert(built_in_kinds_spec()[16] == "classification_outcome"@);
        lemma_plain_name_is_key("classification_outcome"@);
    }
    assert(s.built_in_view()[i] == built_in_kinds_spec()[i]);
}

/// Whether some text in the list equals `k` when ASCII case is ignored.
pub open spec fn any_eq_ignore_case(names: Seq<Seq<char>>, k: Seq<char>) -> bool {
    exists|i: int| 0 <= i < names.len() && eq_ignore_ascii_case_spec(#[trigger] names[i], k)
}

/// The names of the custom kinds.
pub open spec fn custom_names(c: Seq<CustomKindView>) -> Seq<Seq<char>> {
    c.map_values(|k: CustomKindView| k.0)
}

/// The custom kinds without those whose name equals `k` ignoring ASCII case.
pub open spec fn remove_custom_spec(c: Seq<CustomKindView>, k: Seq<char>) -> Seq<CustomKindView>
    decreases c.len(),
{
    if c.len() == 0 {
        Seq::empty()
    } else if eq_ignore_ascii_case_spec(c.last().0, k) {
        remove_custom_spec(c.drop_last(), k)
    } else {
        remove_custom_spec(c.drop_last(), k).push(c.last())
    }
}

/// `prefix` followed by the kind and `suffix`, in quotes as the messages use.
pub open spec fn quoted(prefix: Seq<char>, k: Seq<char>, suffix: Seq<char>) -> Seq<char> {
    prefix + k + suffix
}

impl SchemaStore {
    /// The built-in names.
    pub open spec fn built_in_view(&self) -> Seq<Seq<char>> {
        texts_view(self.kinds.built_in@)
    }

    /// The custom kinds.
    pub open spec fn custom_view(&self) -> Seq<CustomKindView> {
        customs_view(self.kinds.custom@)
    }

    /// Whether the name, trimmed and lowercased, is a built-in or custom kind.
    pub open spec fn knows(&self, name: Seq<char>) -> bool {
        self.built_in_view().contains(kind_key(name)) || custom_names(self.custom_view()).contains(
            kind_key(name),
        )
    }

    /// A store with the built-in kinds and no custom kinds.
    pub fn new() -> (r: SchemaStore)
        ensures
            r.built_in_view() == built_in_kinds_spec(),
            r.custom_view().len() == 0,
    {
        SchemaStore { kinds: SchemaKinds::default_kinds() }
    }

    /// Refuses a path with a `..` component.
    pub fn validate_path_allowed(path: &str) -> (r: Result<(), ToolError>)
        ensures
            match r {
                Ok(()) => !has_parent_component(path@),
                Err(e) => has_parent_component(path@) && e == ToolError::InvalidInput(
                    e->InvalidInput_0,
                ) && e->InvalidInput_0@ == quoted(
                    "path '"@,
                    path@,
                    "' contains path traversal components (..)"@,
                ),
            },
    {
        if path_has_parent_component(path) {
            let mut msg = owned("path '");
            push_str(&mut msg, path);
            push_str(&mut msg, "' contains path traversal components (..)");
            return Err(ToolError::InvalidInput(msg));
        }
        Ok(())
    }

    /// Settles which store to use given what the main file and its backup
    /// held: a readable main file wins; where the main file is corrupt a
    /// readable backup is used (and should be written back); otherwise the
    /// built-in defaults. A loaded store gets the current built-in list.
    /// A path with a `..` component is refused before anything else.
    pub fn load(path: &str, main: SchemaFile, backup: SchemaFile) -> (r: Result<
        LoadOutcome,
        ToolError,
    >)
        ensures
            has_parent_component(path@) <==> r is Err,
            match r {
                Err(e) => e matches ToolError::InvalidInput(m) && m@ == quoted(
                    "path '"@,
                    path@,
                    "' contains path traversal components (..)"@,
                ),
                Ok(LoadOutcome::Use(s)) => {
                    &&& s.built_in_view() == built_in_kinds_spec()
                    &&& match main {
                        SchemaFile::Loaded(m) => s.custom_view() == m.custom_view(),
                        _ => s.custom_view().len() == 0 && (main is Missing || !(backup is Loaded)),
                    }
                },
                Ok(LoadOutcome::RestoredFromBackup(s)) => {
                    &&& main is Corrupt
                    &&& backup matches SchemaFile::Loaded(b) && s.custom_view() == b.custom_view()
                    &&& s.built_in_view() == built_in_kinds_spec()
                },
            },
    {
        match Self::validate_path_allowed(path) {
            Ok(()) => {},
            Err(e) => return Err(e),
        }
        match main {
            SchemaFile::Missing => Ok(LoadOutcome::Use(SchemaStore::new())),
            SchemaFile::Loaded(mut store) => {
                store.rebuild_built_in_list();
                Ok(LoadOutcome::Use(store))
            },
            SchemaFile::Corrupt(_) => match backup {
                SchemaFile::Loaded(mut store) => {
                    store.rebuild_built_in_list();
                    Ok(LoadOutcome::RestoredFromBackup(store))
                },
                _ => Ok(LoadOutcome::Use(SchemaStore::new())),
            },
        }
    }

    /// Whether some built-in name equals `normal` ignoring ASCII case.
    fn built_in_matches(&self, normal: &str) -> (r: bool)
        ensures
            r == any_eq_ignore_case(self.built_in_view(), normal@),
    {
        let mut i: usize = 0;
        while i < self.kinds.built_in.len()
            invariant
                0 <= i <= self.kinds.built_in@.len(),
                forall|j: int|
                    0 <= j < i ==> !eq_ignore_ascii_case_spec(
                        #[trigger] self.built_in_view()[j],
                        normal@,
                    ),
            decreases self.kinds.built_in@.len() - i,
        {
            if eq_ignore_ascii_case(self.kinds.built_in[i].as_str(), normal) {
                assert(eq_ignore_ascii_case_spec(self.built_in_view()[i as int], normal@));
                return true;
            }
            i = i + 1;
        }
        false
    }

    /// Whether some custom name equals `normal` ignoring ASCII case.
    fn custom_matches(&self, normal: &str) -> (r: bool)
        ensures
            r == any_eq_ignore_case(custom_names(self.custom_view()), normal@),
    {
        let mut i: usize = 0;
        while i < self.kinds.custom.len()
            invariant
                0 <= i <= self.kinds.custom@.len(),
                forall|j: int|
                    0 <= j < i ==> !eq_ignore_ascii_case_spec(
                        #[trigger] custom_names(self.custom_view())[j],
                        normal@,
                    ),
            decreases self.kinds.custom@.len() - i,
        {
            if eq_ignore_ascii_case(self.kinds.custom[i].name.as_str(), normal) {
                assert(eq_ignore_ascii_case_spec(
                    custom_names(self.custom_view())[i as int],
                    normal@,
                ));
                return true;
            }
            i = i + 1;
        }
        false
    }

    /// Why a name cannot be registered as a custom kind: its trimmed,
    /// lowercased form is empty, or equals a built-in or a custom kind when
    /// ASCII case is ignored. `None` where it can be.
    pub open spec fn kind_refusal(&self, name: Seq<char>) -> Option<Seq<char>> {
        let k = kind_key(name);
        if k.len() == 0 {
            Some("kind name must not be empty"@)
        } else if any_eq_ignore_case(self.built_in_view(), k) {
            Some(quoted("kind '"@, k, "' is already a built-in ArtifactKind"@))
        } else if any_eq_ignore_case(custom_names(self.custom_view()), k) {
            Some(quoted("kind '"@, k, "' is already registered"@))
        } else {
            None
        }
    }

    /// The refusal of a name, as the error it is answered with.
    fn refusal_of(&self, name: &str) -> (r: Option<ToolError>)
        ensures
            match self.kind_refusal(name@) {
                Some(m) => r matches Some(e) && (e matches ToolError::InvalidInput(t) && t@ == m),
                None => r is None,
            },
    {
        let normal = to_lowercase(trim(name));
        if normal.as_str().is_empty() {
            return Some(ToolError::InvalidInput(owned("kind name must not be empty")));
        }
        if self.built_in_matches(normal.as_str()) {
            let mut msg = owned("kind '");
            push_str(&mut msg, normal.as_str());
            push_str(&mut msg, "' is already a built-in ArtifactKind");
            return Some(ToolError::InvalidInput(msg));
        }
        if self.custom_matches(normal.as_str()) {
            let mut msg = owned("kind '");
            push_str(&mut msg, normal.as_str());
            push_str(&mut msg, "' is already registered");
            return Some(ToolError::InvalidInput(msg));
        }
        None
    }

    /// Registers a custom kind under the trimmed, lowercased name, created
    /// at `created_at`. Refused, with the store unchanged, when that name is
    /// empty, or equals a built-in or a custom kind when ASCII case is
    /// ignored; otherwise the kind is added after the others.
    pub fn register_kind_at(
        &mut self,
        name: &str,
        description: &str,
        attrs_schema: StringMap,
        created_at: String,
    ) -> (r: Result<(), ToolError>)
        ensures
            final(self).built_in_view() == old(self).built_in_view(),
            match old(self).kind_refusal(name@) {
                Some(m) => {
                    &&& r matches Err(e) && (e matches ToolError::InvalidInput(t) && t@ == m)
                    &&& final(self).custom_view() == old(self).custom_view()
                },
                None => {
                    &&& r is Ok
                    &&& final(self).custom_view() == old(self).custom_view().push(
                        (kind_key(name@), description@, created_at@, attrs_schema@),
                    )
                    &&& final(self).knows(name@)
                },
            },
    {
        match self.refusal_of(name) {
            Some(e) => {
                return Err(e);
            },
            None => {},
        }
        let normal = to_lowercase(trim(name));
        let ghost before = self.custom_view();
        self.kinds.custom.push(
            CustomKind { name: normal, description: owned(description), created_at, attrs_schema },
        );
        assert(self.custom_view() =~= before.push((kind_key(name@), description@, created_at@, attrs_schema@)));
        assert(custom_names(self.custom_view())[self.custom_view().len() - 1] == kind_key(name@));
        Ok(())
    }

    /// Registers a custom kind under the trimmed, lowercased name, stamped
    /// with the current time as chrono writes it in RFC 3339 (see
    /// `register_kind_at`). A refused name is answered as there; where the
    /// system clock reads a time before the Unix epoch the registration
    /// fails and the store is unchanged.
    pub fn register_kind(&mut self, name: &str, description: &str, attrs_schema: StringMap) -> (r:
        Result<(), ToolError>)
        ensures
            final(self).built_in_view() == old(self).built_in_view(),
            match old(self).kind_refusal(name@) {
                Some(m) => {
                    &&& r matches Err(e) && (e matches ToolError::InvalidInput(t) && t@ == m)
                    &&& final(self).custom_view() == old(self).custom_view()
                },
                None => match r {
                    Ok(()) => {
                        &&& final(self).knows(name@)
                        &&& final(self).custom_view().drop_last() == old(self).custom_view()
                        &&& final(self).custom_view().len() == old(self).custom_view().len() + 1
                        &&& ({
                            let c = final(self).custom_view().last();
                            &&& c.0 == kind_key(name@)
                            &&& c.1 == description@
                            &&& c.3 == attrs_schema@
                            &&& exists|secs: u64, nanos: u32| #[trigger] rfc3339_of(secs, nanos) == Some(c.2)
                        })
                    },
                    Err(e) => {
                        &&& e matches ToolError::Internal(m) && m@ == "system time before Unix epoch"@
                        &&& final(self).custom_view() == old(self).custom_view()
                    },
                },
            },
    {
        match self.refusal_of(name) {
            Some(e) => {
                return Err(e);
            },
            None => {},
        }
        let now = match utc_now_rfc3339() {
            Some(t) => t,
            None => {
                return Err(ToolError::Internal(owned("system time before Unix epoch")));
            },
        };
        let ghost t = now@;
        let r = self.register_kind_at(name, description, attrs_schema, now);
        assert(self.custom_view().last().2 == t);
        r
    }

    /// Removes the custom kinds whose name equals the trimmed, lowercased
    /// name ignoring ASCII case. Refused for a built-in kind, and when no
    /// custom kind matches.
    pub fn remove_kind(&mut self, name: &str) -> (r: Result<(), ToolError>)
        ensures
            ({
                let k = kind_key(name@);
                let builtin = any_eq_ignore_case(old(self).built_in_view(), k);
                let found = any_eq_ignore_case(custom_names(old(self).custom_view()), k);
                &&& r is Err <==> (builtin || !found)
                &&& final(self).built_in_view() == old(self).built_in_view()
                &&& r is Ok ==> !final(self).knows(name@)
                &&& match r {
                    Ok(()) => final(self).custom_view() == remove_custom_spec(
                        old(self).custom_view(),
                        k,
                    ),
                    Err(e) => {
                        &&& final(self).custom_view() == old(self).custom_view()
                        &&& e is InvalidInput
                        &&& e->InvalidInput_0@ == if builtin {
                            quoted("cannot remove built-in kind '"@, k, "'"@)
                        } else {
                            quoted("custom kind '"@, k, "' not found"@)
                        }
                    },
                }
            }),
    {
        let normal = to_lowercase(trim(name));
        if self.built_in_matches(normal.as_str()) {
            let mut msg = owned("cannot remove built-in kind '");
            push_str(&mut msg, normal.as_str());
            push_str(&mut msg, "'");
            return Err(ToolError::InvalidInput(msg));
        }
        let ghost old_c = self.custom_view();
        let before = self.kinds.custom.len();
        let mut kept: Vec<CustomKind> = Vec::new();
        let mut i: usize = 0;
        assert(old_c.take(0) =~= Seq::<CustomKindView>::empty());
        assert(customs_view(kept@) =~= Seq::<CustomKindView>::empty());
        while i < self.kinds.custom.len()
            invariant
                old_c == self.custom_view(),
                0 <= i <= old_c.len(),
                customs_view(kept@) == remove_custom_spec(old_c.take(i as int), normal@),
                kept@.len() <= i,
                kept@.len() == i <==> !any_eq_ignore_case(
                    custom_names(old_c.take(i as int)),
                    normal@,
                ),
            decreases old_c.len() - i,
        {
            let c = &self.kinds.custom[i];
            let ghost pre = old_c.take(i as int);
            proof {
                assert(old_c.take(i + 1).drop_last() =~= pre);
                assert(old_c.take(i + 1).last() == c@);
                assert(custom_names(old_c.take(i + 1)) =~= custom_names(pre).push(c@.0));
            }
            let matched = eq_ignore_ascii_case(c.name.as_str(), normal.as_str());
            if !matched {
                let ghost kb = customs_view(kept@);
                kept.push(c.duplicate());
                proof {
                    assert(customs_view(kept@) =~= kb.push(c@));
                }
            }
            proof {
                let names = custom_names(old_c.take(i + 1));
                if matched {
                    assert(eq_ignore_ascii_case_spec(names[i as int], normal@));
                } else if any_eq_ignore_case(names, normal@) {
                    let j = choose|j: int|
                        0 <= j < names.len() && eq_ignore_ascii_case_spec(#[trigger] names[j], normal@);
                    assert(j < i);
                    assert(custom_names(pre)[j] == names[j]);
                }
                if any_eq_ignore_case(custom_names(pre), normal@) {
                    let j = choose|j: int|
                        0 <= j < custom_names(pre).len() && eq_ignore_ascii_case_spec(
                            #[trigger] custom_names(pre)[j],
                            normal@,
                        );
                    assert(names[j] == custom_names(pre)[j]);
                }
            }
            i = i + 1;
        }
        assert(old_c.take(old_c.len() as int) =~= old_c);
        if kept.len() == before {
            let mut msg = owned("custom kind '");
            push_str(&mut msg, normal.as_str());
            push_str(&mut msg, "' not found");
            return Err(ToolError::InvalidInput(msg));
        }
        self.kinds.custom = kept;
        proof {
            lemma_removed_not_named(old_c, normal@);
            if self.built_in_view().contains(normal@) {
                let j = choose|j: int| 0 <= j < self.built_in_view().len() && self.built_in_view()[j] == normal@;
                assert(eq_ignore_ascii_case_spec(self.built_in_view()[j], normal@));
            }
        }
        Ok(())
    }

    /// The built-in names and the custom kinds.
    pub fn list_kinds(&self) -> (r: &SchemaKinds)
        ensures
            r == &self.kinds,
    {
        &self.kinds
    }

    /// The kind with the trimmed, lowercased name: a built-in one first,
    /// else the first custom kind of exactly that name.
    pub fn get_kind(&self, name: &str) -> (r: Option<KindInfo<'_>>)
        ensures
            ({
                let k = kind_key(name@);
                &&& (r is Some <==> self.knows(name@))
                &&& match r {
                    Some(KindInfo::BuiltIn(n)) => n@ == k && self.built_in_view().contains(k),
                    Some(KindInfo::Custom(c)) => {
                        &&& !self.built_in_view().contains(k)
                        &&& exists|i: int|
                            0 <= i < self.kinds.custom@.len() && self.kinds.custom@[i] == *c
                                && c.name@ == k && forall|j: int|
                                0 <= j < i ==> #[trigger] self.kinds.custom@[j].name@ != k
                    },
                    None => !self.knows(name@),
                }
            }),
    {
        let normal = to_lowercase(trim(name));
        let mut i: usize = 0;
        while i < self.kinds.built_in.len()
            invariant
                0 <= i <= self.kinds.built_in@.len(),
                forall|j: int| 0 <= j < i ==> #[trigger] self.built_in_view()[j] != normal@,
                normal@ == kind_key(name@),
            decreases self.kinds.built_in@.len() - i,
        {
            if str_eq(self.kinds.built_in[i].as_str(), normal.as_str()) {
                assert(self.built_in_view()[i as int] == normal@);
                assert(self.built_in_view().contains(normal@));
                assert(normal@ == kind_key(name@));
                assert(self.knows(name@));
                return Some(KindInfo::BuiltIn(normal));
            }
            i = i + 1;
        }
        assert(!self.built_in_view().contains(normal@)) by {
            if self.built_in_view().contains(normal@) {
                let k = choose|k: int|
                    0 <= k < self.built_in_view().len() && self.built_in_view()[k] == normal@;
                assert(self.built_in_view()[k] != normal@);
            }
        }
        let mut j: usize = 0;
        while j < self.kinds.custom.len()
            invariant
                0 <= j <= self.kinds.custom@.len(),
                !self.built_in_view().contains(normal@),
                normal@ == kind_key(name@),
                forall|k: int| 0 <= k < j ==> #[trigger] self.kinds.custom@[k].name@ != normal@,
            decreases self.kinds.custom@.len() - j,
        {
            if str_eq(self.kinds.custom[j].name.as_str(), normal.as_str()) {
                assert(custom_names(self.custom_view())[j as int] == normal@);
                assert(custom_names(self.custom_view()).contains(normal@));
                assert(normal@ == kind_key(name@));
                assert(self.knows(name@));
                assert(0 <= j < self.kinds.custom@.len() && self.kinds.custom@[j as int]
                    == self.kinds.custom[j as int]);
                return Some(KindInfo::Custom(&self.kinds.custom[j]));
            }
            j = j + 1;
        }
        assert(!custom_names(self.custom_view()).contains(normal@)) by {
            if custom_names(self.custom_view()).contains(normal@) {
                let k = choose|k: int|
                    0 <= k < custom_names(self.custom_view()).len() && custom_names(
                        self.custom_view(),
                    )[k] == normal@;
                assert(self.kinds.custom@[k].name@ == normal@);
            }
        }
        None
    }

    /// Whether the trimmed, lowercased name is a built-in or custom kind.
    pub fn is_known_kind(&self, name: &str) -> (r: bool)
        ensures
            r == self.knows(name@),
    {
        match self.get_kind(name) {
            Some(_) => true,
            None => false,
        }
    }

    /// Resets the built-in list to the kinds built into this version.
    pub fn rebuild_built_in_list(&mut self)
        ensures
            final(self).built_in_view() == built_in_kinds_spec(),
            final(self).custom_view() == old(self).custom_view(),
    {
        self.kinds.built_in = built_in_kind_names();
    }
}

impl Default for SchemaStore {
    fn default() -> (r: SchemaStore)
        ensures
            r.built_in_view() == built_in_kinds_spec(),
            r.custom_view().len() == 0,
    {
        SchemaStore::new()
    }
}

/// What `get_kind` found: a built-in kind by name, or a custom kind.
#[derive(Debug)]
pub enum KindInfo<'a> {
    BuiltIn(String),
    Custom(&'a CustomKind),
}

/// After removing the kinds named `k` ignoring ASCII case, no kind left is
/// named `k`.
proof fn lemma_removed_not_named(c: Seq<CustomKindView>, k: Seq<char>)
    ensures
        !custom_names(remove_custom_spec(c, k)).contains(k),
    decreases c.len(),
{
    if c.len() > 0 {
        lemma_removed_not_named(c.drop_last(), k);
        let r = remove_custom_spec(c, k);
        let p = remove_custom_spec(c.drop_last(), k);
        if !eq_ignore_ascii_case_spec(c.last().0, k) {
            assert forall|i: int| 0 <= i < custom_names(r).len() implies custom_names(r)[i] != k by {
                if i < p.len() {
                    assert(custom_names(r)[i] == custom_names(p)[i]);
                } else {
                    assert(custom_names(r)[i] == c.last().0);
                }
            }
        }
    }
}

/// Removing a kind just registered gives back the custom kinds there were:
/// registering `k` where no kind matches it, then removing `k`, restores
/// the list.
pub proof fn law_register_then_remove_restores(c: Seq<CustomKindView>, entry: CustomKindView, k: Seq<char>)
    requires
        !any_eq_ignore_case(custom_names(c), k),
        entry.0 == k,
    ensures
        remove_custom_spec(c.push(entry), k) == c,
{
    assert(c.push(entry).drop_last() =~= c);
    lemma_remove_absent(c, k);
}

/// Removing a name no kind matches changes nothing.
proof fn lemma_remove_absent(c: Seq<CustomKindView>, k: Seq<char>)
    requires
        !any_eq_ignore_case(custom_names(c), k),
    ensures
        remove_custom_spec(c, k) == c,
    decreases c.len(),
{
    if c.len() > 0 {
        let init = c.drop_last();
        assert forall|i: int| 0 <= i < custom_names(init).len() implies !eq_ignore_ascii_case_spec(
            #[trigger] custom_names(init)[i],
            k,
        ) by {
            assert(custom_names(init)[i] == custom_names(c)[i]);
        }
        lemma_remove_absent(init, k);
        assert(custom_names(c)[c.len() - 1] == c.last().0);
        assert(init.push(c.last()) =~= c);
    }
}

/// A built-in kind can never be removed, and the built-in list is left as
/// it is.
pub proof fn law_built_in_never_removed(built_in: Seq<Seq<char>>, name: Seq<char>)
    requires
        built_in.contains(kind_key(name)),
    ensures
        any_eq_ignore_case(built_in, kind_key(name)),
{
    let j = choose|j: int| 0 <= j < built_in.len() && built_in[j] == kind_key(name);
    assert(eq_ignore_ascii_case_spec(built_in[j], kind_key(name)));
}

} // verus!

//! Append-only lifecycle events and the replay that reconstructs state.
use vstd::prelude::*;
use vstd::multiset::Multiset;

use crate::error::ToolError;
use crate::hash::{blake3_hex, blake3_hex_of};
use crate::strmap::{
    entries_get, entries_insert, keys_ascending, lemma_entries_insert, lemma_text_lt_asymmetric,
    lemma_text_lt_irreflexive, lemma_text_lt_total, lemma_text_lt_transitive, sort_dedup,
    texts_ascending, texts_view, StringMap,
};
use crate::text::{
    ascii_graphic, lemma_trim_plain, u64_decimal, ascii_lower_seq, owned, push_char, push_str, str_eq, str_lt, text_lt, to_ascii_lowercase,
    trim, trim_spec, zero_padded, decimal_spec,
};

verus! {

/// The text of an optional text.
pub open spec fn opt_view(o: Option<String>) -> Option<Seq<char>> {
    match o {
        Some(s) => Some(s@),
        None => None,
    }
}

/// What a stored event holds, as mathematical values.
pub struct EventView {
    pub event_id: Seq<char>,
    pub sequence: u64,
    pub event_type: Seq<char>,
    pub tx_id: Option<Seq<char>>,
    pub document_ref: Option<Seq<char>>,
    pub occurred_at: Seq<char>,
    pub payload: Seq<(Seq<char>, Seq<char>)>,
    pub identity_inputs: Seq<(Seq<char>, Seq<char>)>,
}

/// One lifecycle event of a transaction or document.
#[derive(Debug)]
pub struct LifecycleEvent {
    pub event_id: String,
    pub sequence: u64,
    pub event_type: String,
    pub tx_id: Option<String>,
    pub document_ref: Option<String>,
    pub occurred_at: String,
    pub payload: StringMap,
    pub identity_inputs: StringMap,
}

impl View for LifecycleEvent {
    type V = EventView;

    open spec fn view(&self) -> EventView {
        EventView {
            event_id: self.event_id@,
            sequence: self.sequence,
            event_type: self.event_type@,
            tx_id: opt_view(self.tx_id),
            document_ref: opt_view(self.document_ref),
            occurred_at: self.occurred_at@,
            payload: self.payload@,
            identity_inputs: self.identity_inputs@,
        }
    }
}

impl LifecycleEvent {
    /// Both maps of the event keep their keys in order.
    pub open spec fn wf(&self) -> bool {
        self.payload.wf() && self.identity_inputs.wf()
    }

    /// A copy of the event.
    pub fn duplicate(&self) -> (r: LifecycleEvent)
        requires
            self.wf(),
        ensures
            r@ == self@,
            r.wf(),
    {
        LifecycleEvent {
            event_id: self.event_id.clone(),
            sequence: self.sequence,
            event_type: self.event_type.clone(),
            tx_id: copy_opt(&self.tx_id),
            document_ref: copy_opt(&self.document_ref),
            occurred_at: self.occurred_at.clone(),
            payload: self.payload.duplicate(),
            identity_inputs: self.identity_inputs.duplicate(),
        }
    }
}

/// A copy of an optional text.
pub fn copy_opt(o: &Option<String>) -> (r: Option<String>)
    ensures
        opt_view(r) == opt_view(*o),
{
    match o {
        Some(s) => Some(s.clone()),
        None => None,
    }
}

/// The id and sequence number an append gave an event.
#[derive(Debug, Clone)]
pub struct AppendEventResult {
    pub event_id: String,
    pub sequence: u64,
}

/// Which events a history query returns; every filter that is set must match.
#[derive(Debug, Clone)]
pub struct EventHistoryFilter {
    pub tx_id: Option<String>,
    pub document_ref: Option<String>,
    pub time_start: Option<String>,
    pub time_end: Option<String>,
}

/// The filter as mathematical values.
pub struct FilterView {
    pub tx_id: Option<Seq<char>>,
    pub document_ref: Option<Seq<char>>,
    pub time_start: Option<Seq<char>>,
    pub time_end: Option<Seq<char>>,
}

impl View for EventHistoryFilter {
    type V = FilterView;

    open spec fn view(&self) -> FilterView {
        FilterView {
            tx_id: opt_view(self.tx_id),
            document_ref: opt_view(self.document_ref),
            time_start: opt_view(self.time_start),
            time_end: opt_view(self.time_end),
        }
    }
}

/// The events a history query returned, in stored order.
#[derive(Debug)]
pub struct EventHistoryResponse {
    pub events: Vec<LifecycleEvent>,
}

/// The state a replay reconstructed and what it found wrong on the way.
#[derive(Debug, Clone)]
pub struct ReplayProjection {
    pub reconstructed_state: String,
    pub event_count: usize,
    pub diagnostics: Vec<String>,
}

// ---------------------------------------------------------------------------
// Normalisation
// ---------------------------------------------------------------------------

/// The event types the store accepts.
pub open spec fn is_event_type(s: Seq<char>) -> bool {
    ||| s == "ingest"@
    ||| s == "classification"@
    ||| s == "reconciliation"@
    ||| s == "adjustment"@
    ||| s == "b00t_cost"@
    ||| s == "b00t_delegate"@
}

/// The refusal of an unknown event type: it lists the accepted types.
pub open spec fn event_type_refusal() -> Seq<char> {
    "event_type must be one of: ingest,classification,reconciliation,adjustment,b00t_cost,b00t_delegate"@
}

/// The refusal of a time window that ends before it starts.
pub open spec fn window_refusal() -> Seq<char> {
    "time_start must be <= time_end"@
}

/// An event type trimmed and with ASCII letters lowered.
pub open spec fn event_type_norm(s: Seq<char>) -> Seq<char> {
    ascii_lower_seq(trim_spec(s))
}

/// The accepted event types are written plainly: visible ASCII at both
/// ends and nothing to lower.
pub proof fn lemma_event_type_plain(s: Seq<char>)
    requires
        is_event_type(s),
    ensures
        s.len() > 0,
        ascii_graphic(s[0]),
        ascii_graphic(s.last()),
        ascii_lower_seq(s) == s,
        event_type_norm(s) == s,
{
    reveal_strlit("ingest");
    reveal_strlit("classification");
    reveal_strlit("reconciliation");
    reveal_strlit("adjustment");
    reveal_strlit("b00t_cost");
    reveal_strlit("b00t_delegate");
    assert(ascii_lower_seq(s) =~= s);
    lemma_trim_plain(s);
}

/// The event an append of these inputs adds to a store whose last sequence
/// number is `last`.
pub open spec fn appended_event(
    last: u64,
    event_type: Seq<char>,
    tx_id: Option<Seq<char>>,
    document_ref: Option<Seq<char>>,
    payload: Seq<(Seq<char>, Seq<char>)>,
) -> EventView {
    let et = event_type_norm(event_type);
    let tx = normalize_optional_spec(tx_id);
    let doc = normalize_optional_spec(document_ref);
    let pl = normalize_entries(payload);
    let sq = next_sequence_spec(last);
    let id_in = identity_spec(et, tx, doc, pl);
    EventView {
        event_id: blake3_hex_of(canonical_entries(id_in)),
        sequence: sq,
        event_type: et,
        tx_id: tx,
        document_ref: doc,
        occurred_at: occurred_at_spec(pl, sq),
        payload: pl,
        identity_inputs: id_in,
    }
}

/// An optional text trimmed, and dropped where nothing is left.
pub open spec fn normalize_optional_spec(o: Option<Seq<char>>) -> Option<Seq<char>> {
    match o {
        Some(s) => if trim_spec(s).len() == 0 {
            None
        } else {
            Some(trim_spec(s))
        },
        None => None,
    }
}

/// Entries with keys and values trimmed, gathered into a map in order, so a
/// later entry whose trimmed key repeats an earlier one wins.
pub open spec fn normalize_entries(s: Seq<(Seq<char>, Seq<char>)>) -> Seq<(Seq<char>, Seq<char>)>
    decreases s.len(),
{
    if s.len() == 0 {
        Seq::empty()
    } else {
        entries_insert(
            normalize_entries(s.drop_last()),
            trim_spec(s.last().0),
            trim_spec(s.last().1),
        )
    }
}

/// `key=value`.
pub open spec fn entry_text(e: (Seq<char>, Seq<char>)) -> Seq<char> {
    e.0 + seq!['='] + e.1
}

/// The entries written as `key=value`, joined by `|`.
pub open spec fn canonical_entries(s: Seq<(Seq<char>, Seq<char>)>) -> Seq<char>
    decreases s.len(),
{
    if s.len() == 0 {
        Seq::empty()
    } else if s.len() == 1 {
        entry_text(s[0])
    } else {
        canonical_entries(s.drop_last()) + seq!['|'] + entry_text(s.last())
    }
}

/// The inputs an event id is derived from.
pub open spec fn identity_spec(
    event_type: Seq<char>,
    tx_id: Option<Seq<char>>,
    document_ref: Option<Seq<char>>,
    payload: Seq<(Seq<char>, Seq<char>)>,
) -> Seq<(Seq<char>, Seq<char>)> {
    let a = entries_insert(Seq::empty(), "event_type"@, event_type);
    let b = entries_insert(a, "tx_id"@, unwrap_or_empty(tx_id));
    let c = entries_insert(b, "document_ref"@, unwrap_or_empty(document_ref));
    entries_insert(c, "payload_hash"@, blake3_hex_of(canonical_entries(payload)))
}

/// The text, or the empty text.
pub open spec fn unwrap_or_empty(o: Option<Seq<char>>) -> Seq<char> {
    match o {
        Some(s) => s,
        None => Seq::empty(),
    }
}

/// `sequence:` followed by the number in twenty zero-padded digits.
pub open spec fn sequence_marker(n: u64) -> Seq<char> {
    "sequence:"@ + Seq::new(
        if decimal_spec(n as nat).len() < 20 { (20 - decimal_spec(n as nat).len()) as nat } else { 0 },
        |i: int| '0',
    ) + decimal_spec(n as nat)
}

/// When the event happened: the payload's `occurred_at`, else its `date`,
/// else a marker built from the sequence number.
pub open spec fn occurred_at_spec(payload: Seq<(Seq<char>, Seq<char>)>, sequence: u64) -> Seq<char> {
    match entries_get(payload, "occurred_at"@) {
        Some(v) => v,
        None => match entries_get(payload, "date"@) {
            Some(v) => v,
            None => sequence_marker(sequence),
        },
    }
}

/// The next sequence number: one more, saturating at the largest `u64`.
pub open spec fn next_sequence_spec(n: u64) -> u64 {
    if n < u64::MAX {
        (n + 1) as u64
    } else {
        n
    }
}

/// Normalised entries keep their keys in order.
pub proof fn lemma_normalize_entries_ascending(s: Seq<(Seq<char>, Seq<char>)>)
    ensures
        keys_ascending(normalize_entries(s)),
    decreases s.len(),
{
    if s.len() > 0 {
        lemma_normalize_entries_ascending(s.drop_last());
        lemma_entries_insert(
            normalize_entries(s.drop_last()),
            trim_spec(s.last().0),
            trim_spec(s.last().1),
        );
    }
}

/// Trims and lowers an event type and checks that the store accepts it.
pub fn normalize_event_type(event_type: &str) -> (r: Result<String, ToolError>)
    ensures
        match r {
            Ok(s) => s@ == event_type_norm(event_type@) && is_event_type(s@),
            Err(e) => !is_event_type(event_type_norm(event_type@)) && (e matches ToolError::InvalidInput(
                m,
            ) && m@ == event_type_refusal()),
        },
{
    let trimmed = trim(event_type);
    let normalized = to_ascii_lowercase(trimmed);
    let n = normalized.as_str();
    if str_eq(n, "ingest") || str_eq(n, "classification") || str_eq(n, "reconciliation")
        || str_eq(n, "adjustment") || str_eq(n, "b00t_cost") || str_eq(n, "b00t_delegate") {
        Ok(normalized)
    } else {
        Err(
            ToolError::InvalidInput(
                owned(
                    "event_type must be one of: ingest,classification,reconciliation,adjustment,b00t_cost,b00t_delegate",
                ),
            ),
        )
    }
}

/// Trims an optional text and drops it where nothing is left.
pub fn normalize_optional(value: Option<String>) -> (r: Option<String>)
    ensures
        opt_view(r) == normalize_optional_spec(opt_view(value)),
{
    match value {
        Some(v) => {
            let t = trim(v.as_str());
            if t.is_empty() {
                None
            } else {
                Some(owned(t))
            }
        },
        None => None,
    }
}

/// Trims every key and value of a payload.
pub fn normalize_payload(payload: StringMap) -> (r: StringMap)
    ensures
        r@ == normalize_entries(payload@),
        r.wf(),
{
    let ghost s = payload@;
    let mut out = StringMap::new();
    let mut i: usize = 0;
    assert(s.take(0) =~= Seq::<(Seq<char>, Seq<char>)>::empty());
    while i < payload.len()
        invariant
            s == payload@,
            0 <= i <= s.len(),
            out.wf(),
            out@ == normalize_entries(s.take(i as int)),
        decreases payload@.len() - i,
    {
        let k = trim(payload.key_at(i).as_str());
        let v = trim(payload.value_at(i).as_str());
        out.insert(owned(k), owned(v));
        proof {
            assert(s.take(i + 1).drop_last() =~= s.take(i as int));
        }
        i = i + 1;
    }
    assert(s.take(s.len() as int) =~= s);
    out
}

/// The entries of a map written as `key=value`, joined by `|`.
pub fn canonical_text(m: &StringMap) -> (r: String)
    ensures
        r@ == canonical_entries(m@),
{
    let ghost s = m@;
    let mut out = String::new();
    let mut i: usize = 0;
    while i < m.len()
        invariant
            s == m@,
            0 <= i <= s.len(),
            out@ == canonical_entries(s.take(i as int)),
        decreases m@.len() - i,
    {
        proof {
            assert(s.take(i + 1).drop_last() =~= s.take(i as int));
            assert(s.take(i + 1).last() == s[i as int]);
        }
        if i > 0 {
            push_char(&mut out, '|');
        }
        push_str(&mut out, m.key_at(i).as_str());
        push_char(&mut out, '=');
        push_str(&mut out, m.value_at(i).as_str());
        proof {
            if i == 0 {
                assert(out@ =~= entry_text(s.take(1)[0]));
            } else {
                assert(out@ =~= canonical_entries(s.take(i as int)) + seq!['|'] + entry_text(s[i as int]));
            }
        }
        i = i + 1;
    }
    assert(s.take(s.len() as int) =~= s);
    out
}

/// The inputs an event's id is derived from: its type, transaction,
/// document and the hash of its payload.
pub fn build_identity_inputs(
    event_type: &str,
    tx_id: Option<&str>,
    document_ref: Option<&str>,
    payload: &StringMap,
) -> (r: StringMap)
    requires
        payload.wf(),
    ensures
        r.wf(),
        r@ == identity_spec(
            event_type@,
            match tx_id {
                Some(t) => Some(t@),
                None => None,
            },
            match document_ref {
                Some(d) => Some(d@),
                None => None,
            },
            payload@,
        ),
{
    let mut inputs = StringMap::new();
    inputs.insert(owned("event_type"), owned(event_type));
    let tx = match tx_id {
        Some(t) => owned(t),
        None => String::new(),
    };
    inputs.insert(owned("tx_id"), tx);
    let doc = match document_ref {
        Some(d) => owned(d),
        None => String::new(),
    };
    inputs.insert(owned("document_ref"), doc);
    let canonical = canonical_text(payload);
    inputs.insert(owned("payload_hash"), blake3_hex(canonical.as_str()));
    inputs
}

/// The id of an event: the BLAKE3 hex digest of its identity inputs.
pub fn event_id_from_identity(identity_inputs: &StringMap) -> (r: String)
    ensures
        r@ == blake3_hex_of(canonical_entries(identity_inputs@)),
{
    let canonical = canonical_text(identity_inputs);
    blake3_hex(canonical.as_str())
}

/// The filter with every field trimmed and empty fields dropped.
pub open spec fn normalize_filter_spec(f: FilterView) -> FilterView {
    FilterView {
        tx_id: normalize_optional_spec(f.tx_id),
        document_ref: normalize_optional_spec(f.document_ref),
        time_start: normalize_optional_spec(f.time_start),
        time_end: normalize_optional_spec(f.time_end),
    }
}

/// A normalised filter is refused when its time window ends before it starts.
pub open spec fn filter_window_ok(f: FilterView) -> bool {
    match (f.time_start, f.time_end) {
        (Some(start), Some(end)) => !text_lt(end, start),
        _ => true,
    }
}

/// Whether an event passes every filter that is set.
pub open spec fn event_matches(f: FilterView, e: EventView) -> bool {
    &&& (f.tx_id matches Some(t) ==> e.tx_id == Some(t))
    &&& (f.document_ref matches Some(d) ==> e.document_ref == Some(d))
    &&& (f.time_start matches Some(start) ==> !text_lt(e.occurred_at, start))
    &&& (f.time_end matches Some(end) ==> !text_lt(end, e.occurred_at))
}

/// The events that pass the filter, in their order.
pub open spec fn filter_events(s: Seq<EventView>, f: FilterView) -> Seq<EventView>
    decreases s.len(),
{
    if s.len() == 0 {
        Seq::empty()
    } else if event_matches(f, s.last()) {
        filter_events(s.drop_last(), f).push(s.last())
    } else {
        filter_events(s.drop_last(), f)
    }
}

/// The views of a list of events.
pub open spec fn event_views(v: Seq<LifecycleEvent>) -> Seq<EventView> {
    v.map_values(|e: LifecycleEvent| e@)
}

/// Trims the filter fields and checks the time window.
pub fn normalize_filter(filter: EventHistoryFilter) -> (r: Result<EventHistoryFilter, ToolError>)
    ensures
        match r {
            Ok(f) => f@ == normalize_filter_spec(filter@) && filter_window_ok(f@),
            Err(e) => !filter_window_ok(normalize_filter_spec(filter@)) && (e matches ToolError::InvalidInput(
                m,
            ) && m@ == window_refusal()),
        },
{
    let normalized = EventHistoryFilter {
        tx_id: normalize_optional(filter.tx_id),
        document_ref: normalize_optional(filter.document_ref),
        time_start: normalize_optional(filter.time_start),
        time_end: normalize_optional(filter.time_end),
    };
    if let (Some(start), Some(end)) = (&normalized.time_start, &normalized.time_end) {
        if str_lt(end.as_str(), start.as_str()) {
            return Err(ToolError::InvalidInput(owned("time_start must be <= time_end")));
        }
    }
    Ok(normalized)
}

/// Whether the event passes the filter.
fn matches_filter(filter: &EventHistoryFilter, event: &LifecycleEvent) -> (r: bool)
    ensures
        r == event_matches(filter@, event@),
{
    let tx_ok = match &filter.tx_id {
        Some(t) => match &event.tx_id {
            Some(e) => str_eq(e.as_str(), t.as_str()),
            None => false,
        },
        None => true,
    };
    let doc_ok = match &filter.document_ref {
        Some(d) => match &event.document_ref {
            Some(e) => str_eq(e.as_str(), d.as_str()),
            None => false,
        },
        None => true,
    };
    let start_ok = match &filter.time_start {
        Some(start) => !str_lt(event.occurred_at.as_str(), start.as_str()),
        None => true,
    };
    let end_ok = match &filter.time_end {
        Some(end) => !str_lt(end.as_str(), event.occurred_at.as_str()),
        None => true,
    };
    tx_ok && doc_ok && start_ok && end_ok
}

/// A store of lifecycle events.
pub trait LifecycleEventStore {
    /// The events the store holds, oldest first.
    spec fn stored_events(&self) -> Seq<EventView>;

    /// Appends an event and reports its id and sequence number. An unknown
    /// event type is refused with the message that lists the accepted
    /// types; a refused append leaves the store as it was, and an accepted
    /// one adds one event of the normalised type, with the reported id and
    /// sequence number, after those already held.
    fn append_event(
        &mut self,
        event_type: &str,
        tx_id: Option<String>,
        document_ref: Option<String>,
        payload: StringMap,
    ) -> (r: Result<AppendEventResult, ToolError>)
        ensures
            !is_event_type(event_type_norm(event_type@)) ==> (r matches Err(e) && (e matches ToolError::InvalidInput(
                m,
            ) && m@ == event_type_refusal())),
            match r {
                Ok(res) => {
                    &&& is_event_type(event_type_norm(event_type@))
                    &&& final(self).stored_events().len() == old(self).stored_events().len() + 1
                    &&& final(self).stored_events().drop_last() == old(self).stored_events()
                    &&& final(self).stored_events().last().event_id == res.event_id@
                    &&& final(self).stored_events().last().sequence == res.sequence
                    &&& final(self).stored_events().last().event_type == event_type_norm(event_type@)
                },
                Err(_) => final(self).stored_events() == old(self).stored_events(),
            },
    ;

    /// The stored events, in order, that pass the trimmed filter; refused
    /// with its own message when the filter's time window ends before it
    /// starts.
    fn list_events(&self, filter: EventHistoryFilter) -> (r: Result<EventHistoryResponse, ToolError>)
        ensures
            match r {
                Ok(resp) => {
                    &&& filter_window_ok(normalize_filter_spec(filter@))
                    &&& event_views(resp.events@) == filter_events(
                        self.stored_events(),
                        normalize_filter_spec(filter@),
                    )
                },
                Err(e) => !filter_window_ok(normalize_filter_spec(filter@)) && (e matches ToolError::InvalidInput(
                    m,
                ) && m@ == window_refusal()),
            },
    ;
}

/// Lifecycle events kept in memory, in the order they were appended.
#[derive(Debug)]
pub struct InMemoryLifecycleEventStore {
    events: Vec<LifecycleEvent>,
    next_sequence: u64,
}

impl InMemoryLifecycleEventStore {
    /// Every stored event keeps its maps in key order.
    #[verifier::type_invariant]
    spec fn inv(self) -> bool {
        forall|i: int| 0 <= i < self.events@.len() ==> (#[trigger] self.events@[i]).wf()
    }

    /// The stored events, oldest first.
    pub closed spec fn events_view(&self) -> Seq<EventView> {
        event_views(self.events@)
    }

    /// The sequence number of the last append (0 before any).
    pub closed spec fn last_sequence(&self) -> u64 {
        self.next_sequence
    }

    /// An empty store.
    pub fn new() -> (r: InMemoryLifecycleEventStore)
        ensures
            r.events_view() == Seq::<EventView>::empty(),
            r.last_sequence() == 0,
    {
        let r = InMemoryLifecycleEventStore { events: Vec::new(), next_sequence: 0 };
        assert(r.events_view() =~= Seq::<EventView>::empty());
        r
    }

    /// How many events the store holds.
    pub fn len(&self) -> (n: usize)
        ensures
            n == self.events_view().len(),
    {
        self.events.len()
    }

    /// The sequence number of the last append (0 before any).
    pub fn sequence(&self) -> (s: u64)
        ensures
            s == self.last_sequence(),
    {
        self.next_sequence
    }

    /// Undoes the appends made since the store held `count` events and its
    /// last sequence number was `sequence`: keeps the first `count` events
    /// and sets the sequence number back.
    pub(crate) fn roll_back(&mut self, count: usize, sequence: u64)
        requires
            count <= old(self).events_view().len(),
        ensures
            final(self).events_view() == old(self).events_view().take(count as int),
            final(self).last_sequence() == sequence,
    {
        proof {
            use_type_invariant(&*self);
        }
        let mut events: Vec<LifecycleEvent> = Vec::new();
        std::mem::swap(&mut events, &mut self.events);
        let ghost before = events@;
        events.truncate(count);
        assert(events@ =~= before.take(count as int));
        self.events = events;
        self.next_sequence = sequence;
        proof {
            assert(self.events_view() =~= old(self).events_view().take(count as int));
        }
    }
}

impl LifecycleEventStore for InMemoryLifecycleEventStore {
    open spec fn stored_events(&self) -> Seq<EventView> {
        self.events_view()
    }

    /// Normalises the inputs, refuses an unknown event type, gives the event
    /// the next sequence number and an id derived from its identity inputs,
    /// and appends it.
    fn append_event(
        &mut self,
        event_type: &str,
        tx_id: Option<String>,
        document_ref: Option<String>,
        payload: StringMap,
    ) -> (r: Result<AppendEventResult, ToolError>)
        ensures
            ({
                let et = event_type_norm(event_type@);
                let tx = normalize_optional_spec(opt_view(tx_id));
                let doc = normalize_optional_spec(opt_view(document_ref));
                let pl = normalize_entries(payload@);
                let sq = next_sequence_spec(old(self).last_sequence());
                let id_in = identity_spec(et, tx, doc, pl);
                match r {
                    Ok(res) => {
                        &&& is_event_type(et)
                        &&& res.sequence == sq
                        &&& final(self).last_sequence() == sq
                        &&& res.event_id@ == blake3_hex_of(canonical_entries(id_in))
                        &&& final(self).events_view() == old(self).events_view().push(
                            EventView {
                                event_id: res.event_id@,
                                sequence: sq,
                                event_type: et,
                                tx_id: tx,
                                document_ref: doc,
                                occurred_at: occurred_at_spec(pl, sq),
                                payload: pl,
                                identity_inputs: id_in,
                            },
                        )
                    },
                    Err(e) => {
                        &&& !is_event_type(et)
                        &&& e matches ToolError::InvalidInput(m) && m@ == event_type_refusal()
                        &&& final(self).events_view() == old(self).events_view()
                        &&& final(self).last_sequence() == old(self).last_sequence()
                    },
                }
            }),
            r is Ok ==> final(self).events_view() == old(self).events_view().push(
                appended_event(old(self).last_sequence(), event_type@, opt_view(tx_id), opt_view(document_ref), payload@),
            ),
    {
        proof {
            use_type_invariant(&*self);
        }
        let normalized_event_type = match normalize_event_type(event_type) {
            Ok(t) => t,
            Err(e) => return Err(e),
        };
        let normalized_tx_id = normalize_optional(tx_id);
        let normalized_document_ref = normalize_optional(document_ref);
        let normalized_payload = normalize_payload(payload);

        let sequence = self.next_sequence.saturating_add(1);
        self.next_sequence = sequence;
        let identity_inputs = build_identity_inputs(
            normalized_event_type.as_str(),
            match &normalized_tx_id {
                Some(t) => Some(t.as_str()),
                None => None,
            },
            match &normalized_document_ref {
                Some(d) => Some(d.as_str()),
                None => None,
            },
            &normalized_payload,
        );
        let event_id = event_id_from_identity(&identity_inputs);
        let occurred_at = match normalized_payload.get("occurred_at") {
            Some(v) => v.clone(),
            None => match normalized_payload.get("date") {
                Some(v) => v.clone(),
                None => {
                    let mut marker = owned("sequence:");
                    let digits = zero_padded(sequence, 20);
                    push_str(&mut marker, digits.as_str());
                    marker
                },
            },
        };
        let event = LifecycleEvent {
            event_id: event_id.clone(),
            sequence,
            event_type: normalized_event_type,
            tx_id: normalized_tx_id,
            document_ref: normalized_document_ref,
            occurred_at,
            payload: normalized_payload,
            identity_inputs,
        };
        let ghost pl = normalize_entries(payload@);
        assert(normalized_payload@ == pl);
        assert(sequence == next_sequence_spec(old(self).last_sequence()));
        assert(occurred_at@ == occurred_at_spec(pl, sequence));
        assert(identity_inputs@ == identity_spec(
            event_type_norm(event_type@),
            normalize_optional_spec(opt_view(tx_id)),
            normalize_optional_spec(opt_view(document_ref)),
            pl,
        ));
        let mut events: Vec<LifecycleEvent> = Vec::new();
        std::mem::swap(&mut events, &mut self.events);
        events.push(event);
        self.events = events;
        proof {
            assert(self.events_view() =~= old(self).events_view().push(event@));
        }
        Ok(AppendEventResult { event_id, sequence })
    }

    /// The stored events, in order, that pass the trimmed filter; refused
    /// when the filter's time window ends before it starts.
    fn list_events(&self, filter: EventHistoryFilter) -> (r: Result<
        EventHistoryResponse,
        ToolError,
    >)
        ensures
            match r {
                Ok(resp) => {
                    &&& filter_window_ok(normalize_filter_spec(filter@))
                    &&& event_views(resp.events@) == filter_events(
                        self.events_view(),
                        normalize_filter_spec(filter@),
                    )
                },
                Err(e) => !filter_window_ok(normalize_filter_spec(filter@)) && (e matches ToolError::InvalidInput(
                    m,
                ) && m@ == window_refusal()),
            },
    {
        proof {
            use_type_invariant(self);
        }
        let normalized = match normalize_filter(filter) {
            Ok(f) => f,
            Err(e) => return Err(e),
        };
        let ghost all = self.events_view();
        let mut events: Vec<LifecycleEvent> = Vec::new();
        let mut i: usize = 0;
        assert(all.take(0) =~= Seq::<EventView>::empty());
        while i < self.events.len()
            invariant
                all == self.events_view(),
                all == event_views(self.events@),
                forall|j: int| 0 <= j < self.events@.len() ==> (#[trigger] self.events@[j]).wf(),
                0 <= i <= self.events@.len(),
                event_views(events@) == filter_events(all.take(i as int), normalized@),
            decreases self.events@.len() - i,
        {
            let event = &self.events[i];
            proof {
                assert(all.take(i + 1).drop_last() =~= all.take(i as int));
                assert(all.take(i + 1).last() == event@);
            }
            if matches_filter(&normalized, event) {
                let ghost before = events@;
                events.push(event.duplicate());
                proof {
                    assert(event_views(events@) =~= event_views(before).push(event@));
                }
            }
            i = i + 1;
        }
        assert(all.take(all.len() as int) =~= all);
        Ok(EventHistoryResponse { events })
    }
}

// ---------------------------------------------------------------------------
// Replay
// ---------------------------------------------------------------------------

/// The lifecycle moves the replay accepts: ingest first, then
/// classification, then reconciliation or adjustment, adjustments after that.
pub open spec fn transition_allowed_spec(previous: Option<Seq<char>>, next: Seq<char>) -> bool {
    ||| previous is None && next == "ingest"@
    ||| previous == Some("ingest"@) && next == "classification"@
    ||| previous == Some("classification"@) && next == "reconciliation"@
    ||| previous == Some("classification"@) && next == "adjustment"@
    ||| previous == Some("reconciliation"@) && next == "adjustment"@
    ||| previous == Some("adjustment"@) && next == "adjustment"@
}

/// Whether a lifecycle may move from `previous` to `next`.
pub fn transition_allowed(previous: Option<&str>, next: &str) -> (r: bool)
    ensures
        r == transition_allowed_spec(
            match previous {
                Some(p) => Some(p@),
                None => None,
            },
            next@,
        ),
{
    match previous {
        None => str_eq(next, "ingest"),
        Some(p) => {
            (str_eq(p, "ingest") && str_eq(next, "classification")) || (str_eq(p, "classification")
                && str_eq(next, "reconciliation")) || (str_eq(p, "classification") && str_eq(
                next,
                "adjustment",
            )) || (str_eq(p, "reconciliation") && str_eq(next, "adjustment")) || (str_eq(
                p,
                "adjustment",
            ) && str_eq(next, "adjustment"))
        },
    }
}

/// Replay order: by sequence number, then by event id.
pub open spec fn replay_before(a: EventView, b: EventView) -> bool {
    a.sequence < b.sequence || (a.sequence == b.sequence && text_lt(a.event_id, b.event_id))
}

/// The first position in `s` whose event comes after `e`.
pub open spec fn insertion_point(s: Seq<EventView>, e: EventView) -> int
    decreases s.len(),
{
    if s.len() == 0 {
        0
    } else if replay_before(e, s[0]) {
        0
    } else {
        1 + insertion_point(s.drop_first(), e)
    }
}

/// The events in replay order; events that tie keep their given order.
pub open spec fn replay_order(s: Seq<EventView>) -> Seq<EventView>
    decreases s.len(),
{
    if s.len() == 0 {
        Seq::empty()
    } else {
        let o = replay_order(s.drop_last());
        o.insert(insertion_point(o, s.last()), s.last())
    }
}

/// What a replay has built after some events.
pub struct ReplayState {
    pub expected: u64,
    pub stages: Seq<(Seq<char>, Seq<char>)>,
    pub categories: Seq<(Seq<char>, Seq<char>)>,
    pub diagnostics: Seq<Seq<char>>,
}

/// The lifecycle stream an event belongs to: its transaction, else `_stream`.
pub open spec fn stream_of(e: EventView) -> Seq<char> {
    match e.tx_id {
        Some(t) => t,
        None => "_stream"@,
    }
}

/// One event replayed onto the state.
pub open spec fn replay_step(st: ReplayState, e: EventView) -> ReplayState {
    let gap = e.sequence != st.expected;
    let d1 = if gap {
        st.diagnostics.push(
            "sequence_gap:expected="@ + decimal_spec(st.expected as nat) + ",actual="@
                + decimal_spec(e.sequence as nat),
        )
    } else {
        st.diagnostics
    };
    let expected = if gap {
        next_sequence_spec(e.sequence)
    } else {
        next_sequence_spec(st.expected)
    };
    let tx = stream_of(e);
    let current = entries_get(st.stages, tx);
    let d2 = if current is None && e.event_type != "ingest"@ {
        d1.push("missing_predecessor:tx_id="@ + tx + ",event_type="@ + e.event_type)
    } else {
        d1
    };
    let d3 = if !transition_allowed_spec(current, e.event_type) {
        d2.push(
            "invalid_transition:tx_id="@ + tx + ",from="@ + match current {
                Some(c) => c,
                None => "none"@,
            } + ",to="@ + e.event_type,
        )
    } else {
        d2
    };
    let categories = match entries_get(e.payload, "category"@) {
        Some(c) => entries_insert(st.categories, tx, c),
        None => st.categories,
    };
    ReplayState {
        expected,
        stages: entries_insert(st.stages, tx, e.event_type),
        categories,
        diagnostics: d3,
    }
}

/// The state after replaying the events in the given order.
pub open spec fn replay(s: Seq<EventView>) -> ReplayState
    decreases s.len(),
{
    if s.len() == 0 {
        ReplayState {
            expected: 1,
            stages: Seq::empty(),
            categories: Seq::empty(),
            diagnostics: Seq::empty(),
        }
    } else {
        replay_step(replay(s.drop_last()), s.last())
    }
}

/// `tx_id=..;stage=..;category=..` for one stream.
pub open spec fn state_line(
    e: (Seq<char>, Seq<char>),
    categories: Seq<(Seq<char>, Seq<char>)>,
) -> Seq<char> {
    "tx_id="@ + e.0 + ";stage="@ + e.1 + ";category="@ + unwrap_or_empty(
        entries_get(categories, e.0),
    )
}

/// The state lines of all streams joined by `|`.
pub open spec fn render_state(
    stages: Seq<(Seq<char>, Seq<char>)>,
    categories: Seq<(Seq<char>, Seq<char>)>,
) -> Seq<char>
    decreases stages.len(),
{
    if stages.len() == 0 {
        Seq::empty()
    } else if stages.len() == 1 {
        state_line(stages[0], categories)
    } else {
        render_state(stages.drop_last(), categories) + seq!['|'] + state_line(
            stages.last(),
            categories,
        )
    }
}

/// The reconstructed state as text: the state lines, or `empty`.
pub open spec fn reconstructed_state_spec(st: ReplayState) -> Seq<char> {
    let r = render_state(st.stages, st.categories);
    if r.len() == 0 {
        "empty"@
    } else {
        r
    }
}

/// Replay keeps the stream maps in key order.
pub proof fn lemma_replay_ascending(s: Seq<EventView>)
    requires
        forall|i: int| 0 <= i < s.len() ==> keys_ascending(#[trigger] s[i].payload),
    ensures
        keys_ascending(replay(s).stages),
        keys_ascending(replay(s).categories),
    decreases s.len(),
{
    if s.len() > 0 {
        lemma_replay_ascending(s.drop_last());
        let st = replay(s.drop_last());
        lemma_entries_insert(st.stages, stream_of(s.last()), s.last().event_type);
        if let Some(c) = entries_get(s.last().payload, "category"@) {
            lemma_entries_insert(st.categories, stream_of(s.last()), c);
        }
    }
}

/// A copy of the events in replay order.
fn order_for_replay(events: &[LifecycleEvent]) -> (r: Vec<LifecycleEvent>)
    requires
        forall|i: int| 0 <= i < events@.len() ==> (#[trigger] events@[i]).wf(),
    ensures
        event_views(r@) == replay_order(event_views(events@)),
        forall|i: int| 0 <= i < r@.len() ==> (#[trigger] r@[i]).wf(),
{
    let ghost input = event_views(events@);
    let mut ordered: Vec<LifecycleEvent> = Vec::new();
    let mut i: usize = 0;
    assert(input.take(0) =~= Seq::<EventView>::empty());
    while i < events.len()
        invariant
            input == event_views(events@),
            forall|k: int| 0 <= k < events@.len() ==> (#[trigger] events@[k]).wf(),
            forall|k: int| 0 <= k < ordered@.len() ==> (#[trigger] ordered@[k]).wf(),
            0 <= i <= events@.len(),
            event_views(ordered@) == replay_order(input.take(i as int)),
        decreases events@.len() - i,
    {
        let e = &events[i];
        let ghost o = event_views(ordered@);
        let mut j: usize = 0;
        assert(o.subrange(0, o.len() as int) =~= o);
        while j < ordered.len()
            invariant
                o == event_views(ordered@),
                0 <= j <= o.len(),
                insertion_point(o, e@) == j + insertion_point(o.subrange(j as int, o.len() as int), e@),
            ensures
                j == insertion_point(o, e@),
            decreases ordered@.len() - j,
        {
            let o_j = &ordered[j];
            let before = e.sequence < o_j.sequence || (e.sequence == o_j.sequence && str_lt(
                e.event_id.as_str(),
                o_j.event_id.as_str(),
            ));
            proof {
                let rest = o.subrange(j as int, o.len() as int);
                assert(rest[0] == o_j@);
                assert(rest.drop_first() =~= o.subrange(j + 1, o.len() as int));
            }
            if before {
                break;
            }
            j = j + 1;
        }
        proof {
            assert(input.take(i + 1).drop_last() =~= input.take(i as int));
            assert(input.take(i + 1).last() == e@);
        }
        let copy = e.duplicate();
        ordered.insert(j, copy);
        proof {
            assert(event_views(ordered@) =~= o.insert(j as int, e@));
        }
        i = i + 1;
    }
    assert(input.take(events@.len() as int) =~= input);
    ordered
}

/// Replays events in sequence order and reports the state of every stream
/// (`tx_id=..;stage=..;category=..`, joined by `|`, or `empty`), the
/// number of events, and the sorted distinct diagnostics: sequence gaps,
/// streams that do not start with an ingest, and disallowed transitions.
pub fn reconstruct_lifecycle(events: &[LifecycleEvent]) -> (r: ReplayProjection)
    requires
        forall|i: int| 0 <= i < events@.len() ==> (#[trigger] events@[i]).wf(),
    ensures
        ({
            let st = replay(replay_order(event_views(events@)));
            &&& r.event_count == events@.len()
            &&& r.reconstructed_state@ == reconstructed_state_spec(st)
            &&& texts_ascending(texts_view(r.diagnostics@))
            &&& texts_view(r.diagnostics@).to_set() == st.diagnostics.to_set()
        }),
{
    let ordered = order_for_replay(events);
    let ghost os = event_views(ordered@);
    proof {
        lemma_replay_order_len(event_views(events@));
        assert forall|k: int| 0 <= k < os.len() implies keys_ascending(#[trigger] os[k].payload) by {
            assert(ordered@[k].wf());
        }
    }

    let mut expected_sequence: u64 = 1;
    let mut diagnostics: Vec<String> = Vec::new();
    let mut stage_by_tx = StringMap::new();
    let mut category_by_tx = StringMap::new();

    let mut i: usize = 0;
    assert(os.take(0) =~= Seq::<EventView>::empty());
    assert(texts_view(diagnostics@) =~= Seq::<Seq<char>>::empty());
    while i < ordered.len()
        invariant
            os == event_views(ordered@),
            forall|k: int| 0 <= k < ordered@.len() ==> (#[trigger] ordered@[k]).wf(),
            forall|k: int| 0 <= k < os.len() ==> keys_ascending(#[trigger] os[k].payload),
            0 <= i <= ordered@.len(),
            stage_by_tx.wf(),
            category_by_tx.wf(),
            ({
                let st = replay(os.take(i as int));
                &&& expected_sequence == st.expected
                &&& stage_by_tx@ == st.stages
                &&& category_by_tx@ == st.categories
                &&& texts_view(diagnostics@) == st.diagnostics
            }),
        decreases ordered@.len() - i,
    {
        let event = &ordered[i];
        proof {
            assert(os.take(i + 1).drop_last() =~= os.take(i as int));
            assert(os.take(i + 1).last() == event@);
            lemma_replay_ascending(os.take(i as int));
        }
        let ghost d0 = texts_view(diagnostics@);
        if event.sequence != expected_sequence {
            let mut msg = owned("sequence_gap:expected=");
            push_str(&mut msg, u64_decimal(expected_sequence).as_str());
            push_str(&mut msg, ",actual=");
            push_str(&mut msg, u64_decimal(event.sequence).as_str());
            diagnostics.push(msg);
            expected_sequence = event.sequence.saturating_add(1);
        } else {
            expected_sequence = expected_sequence.saturating_add(1);
        }
        proof {
            assert(texts_view(diagnostics@) =~= if event.sequence != replay(os.take(i as int)).expected {
                d0.push(
                    "sequence_gap:expected="@ + decimal_spec(replay(os.take(i as int)).expected as nat)
                        + ",actual="@ + decimal_spec(event.sequence as nat),
                )
            } else {
                d0
            });
        }

        let tx_id = match &event.tx_id {
            Some(t) => t.clone(),
            None => owned("_stream"),
        };
        let current_stage: Option<String> = match stage_by_tx.get(tx_id.as_str()) {
            Some(s) => Some(s.clone()),
            None => None,
        };
        let ghost d1 = texts_view(diagnostics@);
        if current_stage.is_none() && !str_eq(event.event_type.as_str(), "ingest") {
            let mut msg = owned("missing_predecessor:tx_id=");
            push_str(&mut msg, tx_id.as_str());
            push_str(&mut msg, ",event_type=");
            push_str(&mut msg, event.event_type.as_str());
            diagnostics.push(msg);
            proof {
                assert(texts_view(diagnostics@) =~= d1.push(msg@));
            }
        }
        let ghost d2 = texts_view(diagnostics@);
        let allowed = transition_allowed(
            match &current_stage {
                Some(c) => Some(c.as_str()),
                None => None,
            },
            event.event_type.as_str(),
        );
        if !allowed {
            let mut msg = owned("invalid_transition:tx_id=");
            push_str(&mut msg, tx_id.as_str());
            push_str(&mut msg, ",from=");
            match &current_stage {
                Some(c) => push_str(&mut msg, c.as_str()),
                None => push_str(&mut msg, "none"),
            }
            push_str(&mut msg, ",to=");
            push_str(&mut msg, event.event_type.as_str());
            diagnostics.push(msg);
            proof {
                assert(texts_view(diagnostics@) =~= d2.push(msg@));
            }
        }

        stage_by_tx.insert(tx_id.clone(), event.event_type.clone());
        match event.payload.get("category") {
            Some(category) => {
                category_by_tx.insert(tx_id, category.clone());
            },
            None => {},
        }
        i = i + 1;
    }
    assert(os.take(os.len() as int) =~= os);

    let diagnostics = sort_dedup(diagnostics);

    let mut state = String::new();
    let mut k: usize = 0;
    let ghost stages = stage_by_tx@;
    let ghost cats = category_by_tx@;
    assert(stages.take(0) =~= Seq::<(Seq<char>, Seq<char>)>::empty());
    while k < stage_by_tx.len()
        invariant
            stages == stage_by_tx@,
            cats == category_by_tx@,
            category_by_tx.wf(),
            0 <= k <= stages.len(),
            state@ == render_state(stages.take(k as int), cats),
        decreases stages.len() - k,
    {
        proof {
            assert(stages.take(k + 1).drop_last() =~= stages.take(k as int));
            assert(stages.take(k + 1).last() == stages[k as int]);
        }
        let ghost before = state@;
        if k > 0 {
            push_char(&mut state, '|');
        }
        let tx = stage_by_tx.key_at(k);
        push_str(&mut state, "tx_id=");
        push_str(&mut state, tx.as_str());
        push_str(&mut state, ";stage=");
        push_str(&mut state, stage_by_tx.value_at(k).as_str());
        push_str(&mut state, ";category=");
        match category_by_tx.get(tx.as_str()) {
            Some(c) => push_str(&mut state, c.as_str()),
            None => {},
        }
        proof {
            if k == 0 {
                assert(state@ =~= state_line(stages[0], cats));
            } else {
                assert(state@ =~= before + seq!['|'] + state_line(stages[k as int], cats));
            }
        }
        k = k + 1;
    }
    assert(stages.take(stages.len() as int) =~= stages);

    let reconstructed_state = if state.as_str().is_empty() {
        owned("empty")
    } else {
        state
    };

    ReplayProjection { reconstructed_state, event_count: ordered.len(), diagnostics }
}

/// Putting events in replay order keeps their number.
pub proof fn lemma_replay_order_len(s: Seq<EventView>)
    ensures
        replay_order(s).len() == s.len(),
    decreases s.len(),
{
    if s.len() > 0 {
        lemma_replay_order_len(s.drop_last());
        lemma_insertion_point_bound(replay_order(s.drop_last()), s.last());
    }
}

/// An insertion point lies within the sequence.
pub proof fn lemma_insertion_point_bound(s: Seq<EventView>, e: EventView)
    ensures
        0 <= insertion_point(s, e) <= s.len(),
    decreases s.len(),
{
    if s.len() > 0 {
        lemma_insertion_point_bound(s.drop_first(), e);
    }
}

/// With no filter set, every stored event is listed, in order.
pub proof fn law_empty_filter_lists_all(s: Seq<EventView>)
    ensures
        filter_events(s, FilterView { tx_id: None, document_ref: None, time_start: None, time_end: None })
            == s,
    decreases s.len(),
{
    if s.len() > 0 {
        law_empty_filter_lists_all(s.drop_last());
        assert(s.drop_last().push(s.last()) =~= s);
    }
}

/// Every listed event passes the filter, and every stored event that passes
/// it is listed.
pub proof fn law_filter_sound_and_complete(s: Seq<EventView>, f: FilterView)
    ensures
        forall|i: int|
            0 <= i < filter_events(s, f).len() ==> event_matches(f, #[trigger] filter_events(s, f)[i]),
        forall|i: int| 0 <= i < s.len() && event_matches(f, #[trigger] s[i]) ==> filter_events(s, f).contains(s[i]),
    decreases s.len(),
{
    if s.len() > 0 {
        let init = s.drop_last();
        law_filter_sound_and_complete(init, f);
        let p = filter_events(init, f);
        let r = filter_events(s, f);
        assert forall|i: int| 0 <= i < r.len() implies event_matches(f, #[trigger] r[i]) by {
            if i < p.len() {
                assert(r[i] == p[i]);
            }
        }
        assert forall|i: int| 0 <= i < s.len() && event_matches(f, #[trigger] s[i]) implies r.contains(s[i]) by {
            if i < s.len() - 1 {
                assert(s[i] == init[i]);
                assert(p.contains(init[i]));
                let j = choose|j: int| 0 <= j < p.len() && p[j] == init[i];
                assert(r[j] == p[j]);
            } else {
                assert(r[r.len() - 1] == s.last());
            }
        }
    }
}

/// Two appends whose inputs agree once normalised (trimmed and lowercased
/// type, trimmed transaction and document, trimmed payload) give events
/// with the same id, whatever the store.
pub proof fn law_event_id_deterministic(
    type1: Seq<char>,
    tx1: Option<Seq<char>>,
    doc1: Option<Seq<char>>,
    payload1: Seq<(Seq<char>, Seq<char>)>,
    type2: Seq<char>,
    tx2: Option<Seq<char>>,
    doc2: Option<Seq<char>>,
    payload2: Seq<(Seq<char>, Seq<char>)>,
)
    requires
        event_type_norm(type1) == event_type_norm(type2),
        normalize_optional_spec(tx1) == normalize_optional_spec(tx2),
        normalize_optional_spec(doc1) == normalize_optional_spec(doc2),
        normalize_entries(payload1) == normalize_entries(payload2),
    ensures
        blake3_hex_of(
            canonical_entries(
                identity_spec(
                    event_type_norm(type1),
                    normalize_optional_spec(tx1),
                    normalize_optional_spec(doc1),
                    normalize_entries(payload1),
                ),
            ),
        ) == blake3_hex_of(
            canonical_entries(
                identity_spec(
                    event_type_norm(type2),
                    normalize_optional_spec(tx2),
                    normalize_optional_spec(doc2),
                    normalize_entries(payload2),
                ),
            ),
        ),
{
}

/// Whether no two of the events share a sequence number and an id.
pub open spec fn replay_keys_distinct(s: Seq<EventView>) -> bool {
    forall|i: int, j: int|
        #![trigger s[i], s[j]]
        0 <= i < j < s.len() ==> !(s[i].sequence == s[j].sequence && s[i].event_id == s[j].event_id)
}

/// Whether each event comes strictly before the next in replay order.
pub open spec fn replay_sorted(s: Seq<EventView>) -> bool {
    forall|i: int, j: int| #![trigger s[i], s[j]] 0 <= i < j < s.len() ==> replay_before(s[i], s[j])
}

/// Replay order is a strict order on events, total on events whose
/// sequence number or id differ.
proof fn lemma_replay_before_order(a: EventView, b: EventView, c: EventView)
    ensures
        !replay_before(a, a),
        replay_before(a, b) ==> !replay_before(b, a),
        replay_before(a, b) && replay_before(b, c) ==> replay_before(a, c),
        !(a.sequence == b.sequence && a.event_id == b.event_id) ==> replay_before(a, b) || replay_before(b, a),
{
    lemma_text_lt_irreflexive(a.event_id);
    if text_lt(a.event_id, b.event_id) {
        lemma_text_lt_asymmetric(a.event_id, b.event_id);
    }
    if text_lt(a.event_id, b.event_id) && text_lt(b.event_id, c.event_id) {
        lemma_text_lt_transitive(a.event_id, b.event_id, c.event_id);
    }
    if a.event_id != b.event_id {
        lemma_text_lt_total(a.event_id, b.event_id);
    }
}

/// In a sorted sequence, the insertion point of an event with a key of its
/// own splits the events before it from those after it.
proof fn lemma_insertion_point_splits(o: Seq<EventView>, e: EventView)
    requires
        replay_sorted(o),
        forall|k: int| 0 <= k < o.len() ==> !((#[trigger] o[k]).sequence == e.sequence && o[k].event_id == e.event_id),
    ensures
        0 <= insertion_point(o, e) <= o.len(),
        forall|k: int| 0 <= k < insertion_point(o, e) ==> replay_before(#[trigger] o[k], e),
        forall|k: int| insertion_point(o, e) <= k < o.len() ==> replay_before(e, #[trigger] o[k]),
    decreases o.len(),
{
    if o.len() == 0 {
        return;
    }
    if replay_before(e, o[0]) {
        assert forall|k: int| 0 <= k < o.len() implies replay_before(e, #[trigger] o[k]) by {
            if k > 0 {
                assert(replay_before(o[0], o[k]));
                lemma_replay_before_order(e, o[0], o[k]);
            }
        }
    } else {
        lemma_replay_before_order(o[0], e, e);
        let r = o.drop_first();
        assert forall|i: int, j: int| #![trigger r[i], r[j]] 0 <= i < j < r.len() implies replay_before(r[i], r[j]) by {
            assert(o[i + 1] == r[i] && o[j + 1] == r[j]);
        }
        assert forall|k: int| 0 <= k < r.len() implies !((#[trigger] r[k]).sequence == e.sequence && r[k].event_id == e.event_id) by {
            assert(o[k + 1] == r[k]);
        }
        lemma_insertion_point_splits(r, e);
        assert forall|k: int| 0 <= k < insertion_point(o, e) implies replay_before(#[trigger] o[k], e) by {
            if k > 0 {
                assert(o[k] == r[k - 1]);
            }
        }
        assert forall|k: int| insertion_point(o, e) <= k < o.len() implies replay_before(e, #[trigger] o[k]) by {
            assert(o[k] == r[k - 1]);
        }
    }
}

/// Replay order sorts events with distinct keys strictly, and keeps every
/// event as often as it was given.
proof fn lemma_replay_order_sorted(s: Seq<EventView>)
    requires
        replay_keys_distinct(s),
    ensures
        replay_sorted(replay_order(s)),
        replay_order(s).to_multiset() == s.to_multiset(),
    decreases s.len(),
{
    broadcast use vstd::seq_lib::group_to_multiset_ensures;

    if s.len() == 0 {
        assert(s.to_multiset() =~= Multiset::<EventView>::empty());
        assert(replay_order(s).to_multiset() =~= Multiset::<EventView>::empty());
        return;
    }
    let init = s.drop_last();
    let e = s.last();
    assert forall|i: int, j: int| #![trigger init[i], init[j]] 0 <= i < j < init.len() implies !(init[i].sequence == init[j].sequence && init[i].event_id == init[j].event_id) by {
        assert(s[i] == init[i] && s[j] == init[j]);
    }
    lemma_replay_order_sorted(init);
    let o = replay_order(init);
    assert forall|k: int| 0 <= k < o.len() implies !((#[trigger] o[k]).sequence == e.sequence && o[k].event_id == e.event_id) by {
        assert(o.contains(o[k]));
        assert(o.to_multiset().count(o[k]) > 0);
        assert(init.to_multiset().count(o[k]) > 0);
        assert(init.contains(o[k]));
        let j = choose|j: int| 0 <= j < init.len() && init[j] == o[k];
        assert(s[j] == o[k] && s[s.len() - 1] == e);
    }
    lemma_insertion_point_splits(o, e);
    let p = insertion_point(o, e);
    let n = o.insert(p, e);
    assert(replay_order(s) == n);
    assert forall|i: int, j: int| #![trigger n[i], n[j]] 0 <= i < j < n.len() implies replay_before(n[i], n[j]) by {
        if i < p && j < p {
            assert(n[i] == o[i] && n[j] == o[j]);
        } else if i < p && j == p {
            assert(n[i] == o[i]);
        } else if i < p {
            assert(n[i] == o[i] && n[j] == o[j - 1]);
            lemma_replay_before_order(o[i], e, o[j - 1]);
        } else if i == p {
            assert(n[j] == o[j - 1]);
        } else {
            assert(n[i] == o[i - 1] && n[j] == o[j - 1]);
        }
    }
    assert(s =~= init.push(e));
    vstd::seq_lib::to_multiset_build(init, e);
    vstd::seq_lib::to_multiset_insert(o, p, e);
}

/// Two strictly sorted sequences that hold the same events are equal.
proof fn lemma_sorted_same_events_equal(a: Seq<EventView>, b: Seq<EventView>)
    requires
        replay_sorted(a),
        replay_sorted(b),
        a.to_multiset() == b.to_multiset(),
    ensures
        a == b,
    decreases a.len(),
{
    broadcast use vstd::seq_lib::group_to_multiset_ensures;
    broadcast use vstd::multiset::group_multiset_axioms;

    assert(a.len() == a.to_multiset().len());
    assert(b.len() == b.to_multiset().len());
    if a.len() == 0 {
        assert(a =~= b);
        return;
    }
    let n = a.len() as int;
    let x = a.last();
    let y = b.last();
    if x != y {
        assert(a.contains(x));
        assert(a.to_multiset().count(x) > 0);
        assert(b.contains(x));
        let p = choose|p: int| 0 <= p < n && b[p] == x;
        assert(b.contains(y));
        assert(b.to_multiset().count(y) > 0);
        assert(a.contains(y));
        let q = choose|q: int| 0 <= q < n && a[q] == y;
        assert(p < n - 1 && q < n - 1);
        assert(replay_before(b[p], b[n - 1]));
        assert(replay_before(a[q], a[n - 1]));
        lemma_replay_before_order(x, y, x);
    }
    let a0 = a.drop_last();
    let b0 = b.drop_last();
    assert(a =~= a0.push(x));
    assert(b =~= b0.push(x));
    vstd::seq_lib::to_multiset_build(a0, x);
    vstd::seq_lib::to_multiset_build(b0, x);
    assert(a0.to_multiset() =~= b0.to_multiset()) by {
        assert forall|v: EventView| a0.to_multiset().count(v) == b0.to_multiset().count(v) by {
            assert(a0.to_multiset().insert(x).count(v) == b0.to_multiset().insert(x).count(v));
        }
    }
    assert forall|i: int, j: int| #![trigger a0[i], a0[j]] 0 <= i < j < a0.len() implies replay_before(a0[i], a0[j]) by {
        assert(a[i] == a0[i] && a[j] == a0[j]);
    }
    assert forall|i: int, j: int| #![trigger b0[i], b0[j]] 0 <= i < j < b0.len() implies replay_before(b0[i], b0[j]) by {
        assert(b[i] == b0[i] && b[j] == b0[j]);
    }
    lemma_sorted_same_events_equal(a0, b0);
}

/// Events with distinct keys keep them when given in another order.
proof fn lemma_keys_distinct_permuted(s1: Seq<EventView>, s2: Seq<EventView>)
    requires
        s1.to_multiset() == s2.to_multiset(),
        replay_keys_distinct(s1),
    ensures
        replay_keys_distinct(s2),
{
    broadcast use vstd::seq_lib::group_to_multiset_ensures;
    broadcast use vstd::multiset::group_multiset_axioms;

    assert forall|i: int, j: int| #![trigger s2[i], s2[j]] 0 <= i < j < s2.len() implies !(s2[i].sequence
        == s2[j].sequence && s2[i].event_id == s2[j].event_id) by {
        let u = s2[i];
        let w = s2[j];
        if u.sequence == w.sequence && u.event_id == w.event_id {
            assert(s2.contains(u) && s2.contains(w));
            assert(s2.to_multiset().count(u) > 0 && s2.to_multiset().count(w) > 0);
            assert(s1.contains(u) && s1.contains(w));
            let p = choose|p: int| 0 <= p < s1.len() && s1[p] == u;
            if u == w {
                let r2 = s2.remove(j);
                assert(r2[i] == u);
                assert(r2.contains(u));
                assert(r2.to_multiset().count(u) > 0);
                assert(s2.to_multiset().count(u) > 1);
                let r1 = s1.remove(p);
                assert(r1.to_multiset().count(u) > 0);
                assert(r1.contains(u));
                let q = choose|q: int| 0 <= q < r1.len() && r1[q] == u;
                if q < p {
                    assert(s1[q] == u);
                    assert(s1[q] == s1[q] && s1[p] == s1[p]);
                } else {
                    assert(s1[q + 1] == u);
                    assert(s1[p] == s1[p] && s1[q + 1] == s1[q + 1]);
                }
            } else {
                let q = choose|q: int| 0 <= q < s1.len() && s1[q] == w;
                assert(p != q);
                if p < q {
                    assert(s1[p] == s1[p] && s1[q] == s1[q]);
                } else {
                    assert(s1[q] == s1[q] && s1[p] == s1[p]);
                }
            }
        }
    }
}

/// The order in which events are handed to the replay does not matter:
/// the same events, where no two share a sequence number and an id, are put
/// in the same replay order and so reconstruct the same state with the
/// same diagnostics.
pub proof fn law_replay_order_independent(s1: Seq<EventView>, s2: Seq<EventView>)
    requires
        s1.to_multiset() == s2.to_multiset(),
        replay_keys_distinct(s1),
    ensures
        replay_order(s1) == replay_order(s2),
        replay(replay_order(s1)) == replay(replay_order(s2)),
{
    lemma_keys_distinct_permuted(s1, s2);
    lemma_replay_order_sorted(s1);
    lemma_replay_order_sorted(s2);
    lemma_sorted_same_events_equal(replay_order(s1), replay_order(s2));
}

} // verus!

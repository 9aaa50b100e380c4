//! The unified work queue: review flags and manual changes as queue items,
//! filtered by status and time, newest first, paged.
use crate::contract::{FetchQueueRequest, QueueItemType, QueueProvenance, QueueSeverity, QueueStatus};
use crate::events::{copy_opt, opt_view, EventView, LifecycleEvent};
use crate::hash::{blake3_hex, blake3_hex_of};
use crate::strmap::{entries_get, StringMap};
use crate::text::{concat, decimal_spec, owned, str_eq, str_lt, text_lt, u64_decimal};
use crate::types::FlagStatusRequest;
use vstd::prelude::*;

verus! {

/// The parts of a review flag the queue reads.
#[derive(Debug, Clone)]
pub struct ReviewFlag {
    pub tx_id: String,
    pub year: i32,
    pub status: FlagStatusRequest,
    pub reason: String,
}

/// One item of the work queue.
#[derive(Debug)]
pub struct QueueItem {
    pub id: String,
    pub item_type: QueueItemType,
    pub severity: QueueSeverity,
    pub created_at: String,
    pub status: QueueStatus,
    pub provenance: QueueProvenance,
    pub related_tx_ids: Vec<String>,
    pub summary: String,
    pub tx_id: Option<String>,
    pub document_ref: Option<String>,
    pub metadata: StringMap,
}

/// A queue item as mathematical values.
pub struct QueueItemView {
    pub id: Seq<char>,
    pub item_type: QueueItemType,
    pub severity: QueueSeverity,
    pub created_at: Seq<char>,
    pub status: QueueStatus,
    pub provenance: QueueProvenance,
    pub related_tx_ids: Seq<Seq<char>>,
    pub summary: Seq<char>,
    pub tx_id: Option<Seq<char>>,
    pub document_ref: Option<Seq<char>>,
    pub metadata: Seq<(Seq<char>, Seq<char>)>,
}

impl View for QueueItem {
    type V = QueueItemView;

    open spec fn view(&self) -> QueueItemView {
        QueueItemView {
            id: self.id@,
            item_type: self.item_type,
            severity: self.severity,
            created_at: self.created_at@,
            status: self.status,
            provenance: self.provenance,
            related_tx_ids: self.related_tx_ids@.map_values(|s: String| s@),
            summary: self.summary@,
            tx_id: opt_view(self.tx_id),
            document_ref: opt_view(self.document_ref),
            metadata: self.metadata@,
        }
    }
}

/// The views of a list of queue items.
pub open spec fn items_view(v: Seq<QueueItem>) -> Seq<QueueItemView> {
    v.map_values(|i: QueueItem| i@)
}

/// A page of the work queue.
#[derive(Debug)]
pub struct FetchQueueResponse {
    pub items: Vec<QueueItem>,
    pub total_count: u64,
    pub offset: u32,
    pub limit: u32,
}

/// An integer as `{}` writes it.
pub open spec fn int_text(y: i32) -> Seq<char> {
    if y >= 0 {
        decimal_spec(y as nat)
    } else {
        seq!['-'] + decimal_spec((-y) as nat)
    }
}

/// A review flag as a queue item: its id hashes the transaction and year;
/// open flags are severe and open, resolved ones mild and resolved.
pub open spec fn flag_item_spec(f: ReviewFlag) -> QueueItemView {
    QueueItemView {
        id: blake3_hex_of("flag:"@ + f.tx_id@ + ":"@ + int_text(f.year)),
        item_type: QueueItemType::Flag,
        severity: match f.status {
            FlagStatusRequest::Open => QueueSeverity::High,
            FlagStatusRequest::Resolved => QueueSeverity::Low,
        },
        created_at: "1970-01-01T00:00:00Z"@,
        status: match f.status {
            FlagStatusRequest::Open => QueueStatus::Open,
            FlagStatusRequest::Resolved => QueueStatus::Resolved,
        },
        provenance: QueueProvenance::ReviewTool,
        related_tx_ids: seq![f.tx_id@],
        summary: f.reason@,
        tx_id: Some(f.tx_id@),
        document_ref: None,
        metadata: seq![],
    }
}

/// A manual change as a queue item: resolved and mild, dated when the
/// event occurred.
pub open spec fn manual_item_spec(e: EventView) -> QueueItemView {
    QueueItemView {
        id: "manual:"@ + e.event_id,
        item_type: QueueItemType::ManualChange,
        severity: QueueSeverity::Low,
        created_at: e.occurred_at,
        status: QueueStatus::Resolved,
        provenance: QueueProvenance::AuditTool,
        related_tx_ids: match e.tx_id {
            Some(t) => seq![t],
            None => seq![],
        },
        summary: "Manual change: "@ + e.event_type,
        tx_id: e.tx_id,
        document_ref: e.document_ref,
        metadata: seq![],
    }
}

/// Whether an event is a manual change: a classification or an adjustment
/// whose actor (`unknown` where none is given) is not the agent.
pub open spec fn is_manual_change(e: EventView) -> bool {
    let actor = match entries_get(e.payload, "actor"@) {
        Some(a) => a,
        None => "unknown"@,
    };
    actor != "agent"@ && (e.event_type == "adjustment"@ || e.event_type == "classification"@)
}

/// Whether the request asks for items of a type: it does where it names
/// no types.
pub open spec fn type_wanted(types: Option<Seq<QueueItemType>>, t: QueueItemType) -> bool {
    match types {
        None => true,
        Some(v) => v.len() == 0 || v.contains(t),
    }
}

/// The manual changes among the events, as queue items, in order.
pub open spec fn manual_items(es: Seq<EventView>) -> Seq<QueueItemView>
    decreases es.len(),
{
    if es.len() == 0 {
        seq![]
    } else {
        let p = manual_items(es.drop_last());
        if is_manual_change(es.last()) {
            p.push(manual_item_spec(es.last()))
        } else {
            p
        }
    }
}

/// The items gathered for a request: flags, then manual changes.
pub open spec fn gathered_items(flags: Seq<ReviewFlag>, es: Seq<EventView>, types: Option<Seq<QueueItemType>>) -> Seq<
    QueueItemView,
> {
    (if type_wanted(types, QueueItemType::Flag) {
        flags.map_values(|f: ReviewFlag| flag_item_spec(f))
    } else {
        seq![]
    }) + (if type_wanted(types, QueueItemType::ManualChange) {
        manual_items(es)
    } else {
        seq![]
    })
}

/// Whether an item passes the status filter (where it names statuses) and
/// is dated strictly after `after`.
pub open spec fn item_kept(i: QueueItemView, statuses: Option<Seq<QueueStatus>>, after: Option<Seq<char>>) -> bool {
    &&& (statuses matches Some(v) ==> (v.len() > 0 ==> v.contains(i.status)))
    &&& (after matches Some(a) ==> text_lt(a, i.created_at))
}

/// The items that pass the filters, in order.
pub open spec fn kept_items(s: Seq<QueueItemView>, statuses: Option<Seq<QueueStatus>>, after: Option<Seq<char>>) -> Seq<
    QueueItemView,
>
    decreases s.len(),
{
    if s.len() == 0 {
        seq![]
    } else {
        let p = kept_items(s.drop_last(), statuses, after);
        if item_kept(s.last(), statuses, after) {
            p.push(s.last())
        } else {
            p
        }
    }
}

/// Where a stable insertion puts an item among items sorted newest first.
pub open spec fn newest_first_point(o: Seq<QueueItemView>, e: QueueItemView) -> int
    decreases o.len(),
{
    if o.len() == 0 {
        0
    } else if text_lt(o[0].created_at, e.created_at) {
        0
    } else {
        1 + newest_first_point(o.drop_first(), e)
    }
}

/// Items sorted newest first, ties keeping their order.
pub open spec fn newest_first(s: Seq<QueueItemView>) -> Seq<QueueItemView>
    decreases s.len(),
{
    if s.len() == 0 {
        seq![]
    } else {
        let o = newest_first(s.drop_last());
        o.insert(newest_first_point(o, s.last()), s.last())
    }
}

/// A page: at most `limit` items after skipping `offset`.
pub open spec fn queue_page(s: Seq<QueueItemView>, offset: int, limit: int) -> Seq<QueueItemView> {
    if offset < s.len() {
        s.subrange(offset, if offset + limit < s.len() { offset + limit } else { s.len() as int })
    } else {
        seq![]
    }
}

/// The contents of an optional list.
pub open spec fn vec_option_view<T>(o: Option<Vec<T>>) -> Option<Seq<T>> {
    match o {
        Some(v) => Some(v@),
        None => None,
    }
}

/// An integer as `{}` writes it.
fn int_digits(y: i32) -> (r: String)
    ensures
        r@ == int_text(y),
{
    if y >= 0 {
        let r = u64_decimal(y as u64);
        assert((y as u64) as nat == y as nat);
        r
    } else {
        let m: i64 = -(y as i64);
        let d = u64_decimal(m as u64);
        assert((m as u64) as nat == (-y) as nat);
        proof {
            reveal_strlit("-");
        }
        let r = concat("-", d.as_str());
        assert(r@ =~= seq!['-'] + decimal_spec((-y) as nat));
        r
    }
}

/// A review flag as a queue item.
pub fn flag_to_queue_item(flag: &ReviewFlag) -> (r: QueueItem)
    ensures
        r@ == flag_item_spec(*flag),
{
    let mut key = concat("flag:", flag.tx_id.as_str());
    key = concat(key.as_str(), ":");
    let year = int_digits(flag.year);
    key = concat(key.as_str(), year.as_str());
    let id = blake3_hex(key.as_str());
    let (severity, status) = match flag.status {
        FlagStatusRequest::Open => (QueueSeverity::High, QueueStatus::Open),
        FlagStatusRequest::Resolved => (QueueSeverity::Low, QueueStatus::Resolved),
    };
    let mut related: Vec<String> = Vec::new();
    related.push(flag.tx_id.clone());
    let r = QueueItem {
        id,
        item_type: QueueItemType::Flag,
        severity,
        created_at: owned("1970-01-01T00:00:00Z"),
        status,
        provenance: QueueProvenance::ReviewTool,
        related_tx_ids: related,
        summary: flag.reason.clone(),
        tx_id: Some(flag.tx_id.clone()),
        document_ref: None,
        metadata: StringMap::new(),
    };
    assert(r@.related_tx_ids =~= seq![flag.tx_id@]);
    assert(r@.metadata =~= seq![]);
    r
}

/// A manual change as a queue item.
pub fn manual_change_to_queue_item(event: &LifecycleEvent) -> (r: QueueItem)
    ensures
        r@ == manual_item_spec(event@),
{
    let mut related: Vec<String> = Vec::new();
    match &event.tx_id {
        Some(t) => related.push(t.clone()),
        None => {},
    }
    let r = QueueItem {
        id: concat("manual:", event.event_id.as_str()),
        item_type: QueueItemType::ManualChange,
        severity: QueueSeverity::Low,
        created_at: event.occurred_at.clone(),
        status: QueueStatus::Resolved,
        provenance: QueueProvenance::AuditTool,
        related_tx_ids: related,
        summary: concat("Manual change: ", event.event_type.as_str()),
        tx_id: copy_opt(&event.tx_id),
        document_ref: copy_opt(&event.document_ref),
        metadata: StringMap::new(),
    };
    assert(r@.related_tx_ids =~= match event@.tx_id {
        Some(t) => seq![t],
        None => seq![],
    });
    assert(r@.metadata =~= seq![]);
    r
}

/// A copy of a queue item.
fn copy_item(i: &QueueItem) -> (r: QueueItem)
    ensures
        r@ == i@,
{
    let mut related: Vec<String> = Vec::new();
    let mut k: usize = 0;
    while k < i.related_tx_ids.len()
        invariant
            k <= i.related_tx_ids@.len(),
            related@.len() == k,
            forall|q: int| 0 <= q < k ==> #[trigger] related@[q]@ == i.related_tx_ids@[q]@,
        decreases i.related_tx_ids@.len() - k,
    {
        related.push(owned(i.related_tx_ids[k].as_str()));
        k = k + 1;
    }
    let r = QueueItem {
        id: i.id.clone(),
        item_type: i.item_type,
        severity: i.severity,
        created_at: i.created_at.clone(),
        status: i.status,
        provenance: i.provenance,
        related_tx_ids: related,
        summary: i.summary.clone(),
        tx_id: copy_opt(&i.tx_id),
        document_ref: copy_opt(&i.document_ref),
        metadata: i.metadata.duplicate(),
    };
    assert(r@.related_tx_ids =~= i@.related_tx_ids);
    r
}

/// Whether the list holds the item type.
fn has_type(v: &Vec<QueueItemType>, t: QueueItemType) -> (r: bool)
    ensures
        r == v@.contains(t),
{
    let mut k: usize = 0;
    while k < v.len()
        invariant
            k <= v@.len(),
            forall|q: int| 0 <= q < k ==> v@[q] != t,
        decreases v@.len() - k,
    {
        if v[k] == t {
            assert(v@[k as int] == t);
            return true;
        }
        k = k + 1;
    }
    false
}

/// Whether the list holds the status.
fn has_status(v: &Vec<QueueStatus>, s: QueueStatus) -> (r: bool)
    ensures
        r == v@.contains(s),
{
    let mut k: usize = 0;
    while k < v.len()
        invariant
            k <= v@.len(),
            forall|q: int| 0 <= q < k ==> v@[q] != s,
        decreases v@.len() - k,
    {
        if v[k] == s {
            assert(v@[k as int] == s);
            return true;
        }
        k = k + 1;
    }
    false
}

/// Whether the request asks for items of a type.
fn wants(types: &Option<Vec<QueueItemType>>, t: QueueItemType) -> (r: bool)
    ensures
        r == type_wanted(
            match types {
                Some(v) => Some(v@),
                None => None,
            },
            t,
        ),
{
    match types {
        None => true,
        Some(v) => v.len() == 0 || has_type(v, t),
    }
}

/// Builds a page of the work queue from the review flags (in the order the
/// review engine lists them) and the stored events: the flags and the
/// manual changes asked for, kept by status and time, newest first, paged.
pub fn assemble_work_queue(flags: &Vec<ReviewFlag>, events: &Vec<LifecycleEvent>, request: &FetchQueueRequest) -> (r:
    FetchQueueResponse)
    requires
        forall|i: int| 0 <= i < events@.len() ==> (#[trigger] events@[i]).wf(),
    ensures
        ({
            let types = match request.item_types {
                Some(v) => Some(v@),
                None => None,
            };
            let statuses = match request.statuses {
                Some(v) => Some(v@),
                None => None,
            };
            let after = match request.updated_after {
                Some(a) => Some(a@),
                None => None,
            };
            let es = events@.map_values(|e: LifecycleEvent| e@);
            let kept = kept_items(gathered_items(flags@, es, types), statuses, after);
            &&& r.total_count == kept.len()
            &&& items_view(r.items@) == queue_page(
                newest_first(kept),
                request.offset as int,
                request.limit as int,
            )
            &&& r.offset == request.offset as u32
            &&& r.limit == request.limit as u32
        }),
{
    let ghost types = vec_option_view(request.item_types);
    let ghost statuses = vec_option_view(request.statuses);
    let ghost after = opt_view(request.updated_after);
    let ghost es = events@.map_values(|e: LifecycleEvent| e@);
    let mut items: Vec<QueueItem> = Vec::new();
    // Flags.
    let want_flags = wants(&request.item_types, QueueItemType::Flag);
    let ghost fl = if want_flags {
        flags@.map_values(|f: ReviewFlag| flag_item_spec(f))
    } else {
        seq![]
    };
    assert(items_view(items@) =~= seq![]);
    if want_flags {
        let mut i: usize = 0;
        while i < flags.len()
            invariant
                i <= flags@.len(),
                items@.len() == i,
                items_view(items@) == flags@.take(i as int).map_values(|f: ReviewFlag| flag_item_spec(f)),
            decreases flags@.len() - i,
        {
            let ghost before = items_view(items@);
            let item = flag_to_queue_item(&flags[i]);
            items.push(item);
            assert(items_view(items@) =~= before.push(flag_item_spec(flags@[i as int])));
            assert(flags@.take(i + 1).map_values(|f: ReviewFlag| flag_item_spec(f)) =~= flags@.take(
                i as int,
            ).map_values(|f: ReviewFlag| flag_item_spec(f)).push(flag_item_spec(flags@[i as int])));
            i = i + 1;
        }
        assert(flags@.take(flags@.len() as int) =~= flags@);
    }
    assert(items_view(items@) == fl);
    // Manual changes.
    let want_manual = wants(&request.item_types, QueueItemType::ManualChange);
    if want_manual {
        let mut i: usize = 0;
        assert(es.take(0) =~= Seq::<EventView>::empty());
        assert(fl + manual_items(es.take(0)) =~= fl);
        while i < events.len()
            invariant
                i <= events@.len(),
                es == events@.map_values(|e: LifecycleEvent| e@),
                forall|k: int| 0 <= k < events@.len() ==> (#[trigger] events@[k]).wf(),
                items_view(items@) == fl + manual_items(es.take(i as int)),
            decreases events@.len() - i,
        {
            let e = &events[i];
            assert(es.take(i + 1).drop_last() =~= es.take(i as int));
            assert(es.take(i + 1).last() == e@);
            let agent_actor = match e.payload.get("actor") {
                Some(a) => str_eq(a.as_str(), "agent"),
                None => false,
            };
            let manual = !agent_actor && (str_eq(e.event_type.as_str(), "adjustment") || str_eq(
                e.event_type.as_str(),
                "classification",
            ));
            proof {
                reveal_strlit("unknown");
                reveal_strlit("agent");
                assert("unknown"@.len() != "agent"@.len());
            }
            let ghost before = items_view(items@);
            assert(manual_items(es.take(i + 1)) == if is_manual_change(e@) {
                manual_items(es.take(i as int)).push(manual_item_spec(e@))
            } else {
                manual_items(es.take(i as int))
            });
            assert(manual == is_manual_change(e@));
            if manual {
                items.push(manual_change_to_queue_item(e));
                assert(items_view(items@) =~= before.push(manual_item_spec(e@)));
                assert(before.push(manual_item_spec(e@)) =~= fl + manual_items(es.take(i as int)).push(
                    manual_item_spec(e@),
                ));
            }
            i = i + 1;
        }
        assert(es.take(events@.len() as int) =~= es);
    }
    let ghost gathered = gathered_items(flags@, es, types);
    assert(items_view(items@) =~= gathered);
    // Status and time filters.
    let mut kept: Vec<QueueItem> = Vec::new();
    let mut i: usize = 0;
    assert(gathered.take(0) =~= Seq::<QueueItemView>::empty());
    assert(items_view(kept@) =~= seq![]);
    while i < items.len()
        invariant
            i <= items@.len(),
            gathered == items_view(items@),
            items_view(kept@) == kept_items(gathered.take(i as int), statuses, after),
            statuses == match request.statuses {
                Some(v) => Some(v@),
                None => None,
            },
            after == match request.updated_after {
                Some(a) => Some(a@),
                None => None,
            },
        decreases items@.len() - i,
    {
        let it = &items[i];
        assert(gathered.take(i + 1).drop_last() =~= gathered.take(i as int));
        assert(gathered.take(i + 1).last() == it@);
        let status_ok = match &request.statuses {
            Some(v) => v.len() == 0 || has_status(v, it.status),
            None => true,
        };
        let time_ok = match &request.updated_after {
            Some(a) => str_lt(a.as_str(), it.created_at.as_str()),
            None => true,
        };
        let ghost before = items_view(kept@);
        if status_ok && time_ok {
            kept.push(copy_item(it));
            assert(items_view(kept@) =~= before.push(it@));
        }
        i = i + 1;
    }
    assert(gathered.take(items@.len() as int) =~= gathered);
    let ghost kv = items_view(kept@);
    // Newest first, ties keeping their order.
    let mut ordered: Vec<QueueItem> = Vec::new();
    let mut j: usize = 0;
    assert(kv.take(0) =~= Seq::<QueueItemView>::empty());
    assert(items_view(ordered@) =~= seq![]);
    while j < kept.len()
        invariant
            j <= kept@.len(),
            kv == items_view(kept@),
            items_view(ordered@) == newest_first(kv.take(j as int)),
        decreases kept@.len() - j,
    {
        let e = &kept[j];
        let ghost o = items_view(ordered@);
        let mut k: usize = 0;
        assert(o.subrange(0, o.len() as int) =~= o);
        while k < ordered.len()
            invariant
                o == items_view(ordered@),
                j < kv.len(),
                e@ == kv[j as int],
                0 <= k <= o.len(),
                newest_first_point(o, e@) == k + newest_first_point(o.subrange(k as int, o.len() as int), e@),
            ensures
                k == newest_first_point(o, e@),
            decreases ordered@.len() - k,
        {
            let before = str_lt(ordered[k].created_at.as_str(), e.created_at.as_str());
            proof {
                let rest = o.subrange(k as int, o.len() as int);
                assert(rest[0] == o[k as int]);
                assert(o[k as int] == ordered@[k as int]@);
                assert(rest.drop_first() =~= o.subrange(k + 1, o.len() as int));
            }
            if before {
                break;
            }
            k = k + 1;
        }
        proof {
            assert(kv.take(j + 1).drop_last() =~= kv.take(j as int));
            assert(kv.take(j + 1).last() == e@);
        }
        ordered.insert(k, copy_item(e));
        assert(items_view(ordered@) =~= o.insert(k as int, e@));
        j = j + 1;
    }
    assert(kv.take(kept@.len() as int) =~= kv);
    let ghost sorted = items_view(ordered@);
    // The page.
    let total_count = kept.len() as u64;
    let n = ordered.len();
    let off = request.offset;
    let end: usize = if off < n {
        if request.limit < n - off {
            off + request.limit
        } else {
            n
        }
    } else {
        off
    };
    let mut page: Vec<QueueItem> = Vec::new();
    let mut q: usize = off;
    assert(items_view(page@) =~= seq![]);
    while q < end
        invariant
            sorted == items_view(ordered@),
            n == ordered@.len(),
            off <= q <= end <= n || (off >= n && q == off && end == off),
            off < n ==> items_view(page@) == sorted.subrange(off as int, q as int),
            page@.len() == q - off,
        decreases end - q,
    {
        let ghost before = items_view(page@);
        page.push(copy_item(&ordered[q]));
        assert(sorted[q as int] == ordered@[q as int]@);
        assert(items_view(page@) =~= before.push(sorted[q as int]));
        assert(sorted.subrange(off as int, q + 1) =~= sorted.subrange(off as int, q as int).push(
            sorted[q as int],
        ));
        q = q + 1;
    }
    assert(off < n ==> items_view(page@) == queue_page(sorted, off as int, request.limit as int));
    assert(off >= n ==> items_view(page@) =~= queue_page(sorted, off as int, request.limit as int));
    FetchQueueResponse {
        items: page,
        total_count,
        offset: request.offset as u32,
        limit: request.limit as u32,
    }
}

/// Every kept item passes the filters.
proof fn lemma_kept_pass(s: Seq<QueueItemView>, statuses: Option<Seq<QueueStatus>>, after: Option<Seq<char>>)
    ensures
        forall|k: int|
            0 <= k < kept_items(s, statuses, after).len() ==> item_kept(
                #[trigger] kept_items(s, statuses, after)[k],
                statuses,
                after,
            ),
    decreases s.len(),
{
    if s.len() > 0 {
        lemma_kept_pass(s.drop_last(), statuses, after);
        let p = kept_items(s.drop_last(), statuses, after);
        let r = kept_items(s, statuses, after);
        assert forall|k: int| 0 <= k < r.len() implies item_kept(#[trigger] r[k], statuses, after) by {
            if k < p.len() {
                assert(r[k] == p[k]);
            }
        }
    }
}

/// Sorting newest first keeps the same items, as many as there were.
proof fn lemma_newest_first_keeps(s: Seq<QueueItemView>)
    ensures
        newest_first(s).len() == s.len(),
        forall|x: QueueItemView| #[trigger] newest_first(s).contains(x) ==> s.contains(x),
    decreases s.len(),
{
    if s.len() > 0 {
        let init = s.drop_last();
        lemma_newest_first_keeps(init);
        let o = newest_first(init);
        lemma_newest_first_point_bound(o, s.last());
        let k = newest_first_point(o, s.last());
        let r = o.insert(k, s.last());
        assert forall|x: QueueItemView| #[trigger] r.contains(x) implies s.contains(x) by {
            let j = choose|j: int| 0 <= j < r.len() && r[j] == x;
            if j < k {
                assert(o[j] == x);
                assert(o.contains(x));
                let q = choose|q: int| 0 <= q < init.len() && init[q] == x;
                assert(s[q] == x);
            } else if j > k {
                assert(o[j - 1] == x);
                assert(o.contains(x));
                let q = choose|q: int| 0 <= q < init.len() && init[q] == x;
                assert(s[q] == x);
            } else {
                assert(s[s.len() - 1] == x);
            }
        }
    }
}

/// A newest-first insertion point lies within the sorted items.
proof fn lemma_newest_first_point_bound(o: Seq<QueueItemView>, e: QueueItemView)
    ensures
        0 <= newest_first_point(o, e) <= o.len(),
    decreases o.len(),
{
    if o.len() > 0 {
        lemma_newest_first_point_bound(o.drop_first(), e);
    }
}

/// Every item of a queue page passes the status and time filters, and a
/// page holds at most `limit` items.
pub proof fn law_queue_page_passes_filters(
    s: Seq<QueueItemView>,
    statuses: Option<Seq<QueueStatus>>,
    after: Option<Seq<char>>,
    offset: int,
    limit: int,
)
    requires
        0 <= offset,
        0 <= limit,
    ensures
        ({
            let page = queue_page(newest_first(kept_items(s, statuses, after)), offset, limit);
            &&& page.len() <= limit
            &&& forall|k: int| 0 <= k < page.len() ==> item_kept(#[trigger] page[k], statuses, after)
        }),
{
    let kept = kept_items(s, statuses, after);
    let sorted = newest_first(kept);
    let page = queue_page(sorted, offset, limit);
    lemma_kept_pass(s, statuses, after);
    lemma_newest_first_keeps(kept);
    assert forall|k: int| 0 <= k < page.len() implies item_kept(#[trigger] page[k], statuses, after) by {
        assert(page[k] == sorted[offset + k]);
        assert(sorted.contains(sorted[offset + k]));
        assert(kept.contains(page[k]));
        let j = choose|j: int| 0 <= j < kept.len() && kept[j] == page[k];
        assert(kept[j] == page[k]);
    }
}

} // verus!

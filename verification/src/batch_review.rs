//! Classifying many transactions at once: each id of a batch is classified
//! in turn, with the batch's category, confidence, note and actor.
use vstd::prelude::*;

use crate::clock::{duration_as_millis, instant_elapsed, instant_now};
use crate::contract::{
    ApplyMappingBulkRequest, ApplyMappingBulkResponse, BatchResolveFlagsRequest, BulkResolveFlagsResponse,
    SimilarityMatchType,
    BatchClassifyRequest, BatchClassifyResponse, BatchItemResult, BatchItemStatus, BatchMode,
    BatchSummary,
};
use crate::error::{tool_error_message, ToolError};
use crate::events::{opt_view, InMemoryLifecycleEventStore};
use crate::ledger::{
    classification_of, find_index, find_transaction, lemma_first_index_value, transaction_of,
    apply_classification_action, audit_views, classification_recorded, confidence_spec,
    parse_confidence, stored_views, ClassificationLedger, ClassificationOutcome, LedgerTransaction,
    StoredClassification, tx_ids_ascending,
};
use crate::strmap::{sort_dedup, sorted_texts, texts_view};
use crate::text::{concat, contains_spec, decimal_spec, owned, str_contains, str_eq, to_lowercase, unicode_lowercase};
use crate::types::{AuditEntryResponse, ClassifyTransactionRequest};

verus! {

/// A classification request as values: transaction, category, confidence,
/// note and actor.
pub open spec fn request_view(r: ClassifyTransactionRequest) -> (
    Seq<char>,
    Seq<char>,
    Seq<char>,
    Option<Seq<char>>,
    Seq<char>,
) {
    (r.tx_id@, r.category@, r.confidence@, opt_view(r.note), r.actor@)
}

/// What every classification of a batch shares: category, confidence,
/// note and actor.
pub type TemplateView = (Seq<char>, Seq<char>, Option<Seq<char>>, Seq<char>);

/// A ledger as values: its stored classifications and its audit trail.
pub open spec fn ledger_view(l: ClassificationLedger) -> (
    Seq<(Seq<char>, Seq<char>, crate::decimal::Dec)>,
    Seq<crate::ledger::AuditView>,
) {
    (stored_views(l.classifications@), audit_views(l.audit_log@))
}

/// One classification of a batch: the ledger before it and after it, the
/// time stamp of its audit entries, its request and its answer.
pub type BatchStep = (
    ClassificationLedger,
    ClassificationLedger,
    Seq<char>,
    ClassifyTransactionRequest,
    Result<ClassificationOutcome, ToolError>,
);

/// Whether `steps` is a run of a batch over `ids` from a ledger like
/// `start`: step `j` classifies `ids[j]` with the shared values `t`, at
/// some time of the clock, starting where the step before ended; under
/// all-or-nothing the run ends at the first failure, otherwise it takes
/// every id.
pub open spec fn batch_run_valid(
    start: ClassificationLedger,
    ts: Seq<LedgerTransaction>,
    ids: Seq<Seq<char>>,
    t: TemplateView,
    mode: BatchMode,
    steps: Seq<BatchStep>,
) -> bool {
    &&& steps.len() <= ids.len()
    &&& steps.len() > 0 ==> ledger_view(steps[0].0) == ledger_view(start)
    &&& forall|j: int| 0 < j < steps.len() ==> (#[trigger] steps[j]).0 == steps[j - 1].1
    &&& forall|j: int|
        0 <= j < steps.len() ==> {
            &&& exists|n: nat| (#[trigger] steps[j]).2 == #[trigger] decimal_spec(n)
            &&& request_view(steps[j].3) == (ids[j], t.0, t.1, t.2, t.3)
            &&& classification_recorded(steps[j].0, steps[j].1, ts, steps[j].3, steps[j].2, steps[j].4)
        }
    &&& mode == BatchMode::AllOrNothing ==> forall|j: int|
        0 <= j < steps.len() - 1 ==> (#[trigger] steps[j]).4 is Ok
    &&& steps.len() == ids.len() || (mode == BatchMode::AllOrNothing && steps.len() > 0 && steps.last().4 is Err)
}

/// The number of steps that succeeded.
pub open spec fn count_ok(steps: Seq<BatchStep>) -> nat
    decreases steps.len(),
{
    if steps.len() == 0 {
        0
    } else {
        count_ok(steps.drop_last()) + if steps.last().4 is Ok {
            1nat
        } else {
            0nat
        }
    }
}

/// Whether a reported item tells what a step did for the transaction `id`.
pub open spec fn batch_item_reports(
    item: BatchItemResult,
    id: Seq<char>,
    res: Result<ClassificationOutcome, ToolError>,
) -> bool {
    &&& item.tx_id@ == id
    &&& match res {
        Ok(o) => item.status is Succeeded && audit_views(item.audit_entries@) == audit_views(
            o.response.audit_entries@,
        ),
        Err(e) => (item.status matches BatchItemStatus::Failed { error } && error@ == tool_error_message(e))
            && item.audit_entries@.len() == 0,
    }
}

/// Whether a reported item says the transaction `id` was skipped by a dry
/// run.
pub open spec fn batch_item_skipped(item: BatchItemResult, id: Seq<char>) -> bool {
    &&& item.tx_id@ == id
    &&& item.status matches BatchItemStatus::Skipped { reason } && reason@ == "dry_run"@
    &&& item.audit_entries@.len() == 0
}

/// What running a batch did: some valid run whose steps `items` tell one by
/// one and `succeeded` and `failed` count; the ledger ends where the run
/// ended, except that an all-or-nothing run that failed leaves it as it was.
pub open spec fn batch_run_outcome(
    before: ClassificationLedger,
    after: ClassificationLedger,
    ts: Seq<LedgerTransaction>,
    ids: Seq<Seq<char>>,
    t: TemplateView,
    mode: BatchMode,
    items: Seq<BatchItemResult>,
    succeeded: nat,
    failed: nat,
) -> bool {
    exists|steps: Seq<BatchStep>|
        {
            &&& #[trigger] batch_run_valid(before, ts, ids, t, mode, steps)
            &&& items.len() == steps.len()
            &&& forall|i: int| 0 <= i < steps.len() ==> batch_item_reports(#[trigger] items[i], ids[i], steps[i].4)
            &&& succeeded == count_ok(steps)
            &&& failed == steps.len() - count_ok(steps)
            &&& if (mode == BatchMode::AllOrNothing && steps.len() > 0 && steps.last().4 is Err) {
                after == before
            } else if steps.len() == 0 {
                ledger_view(after) == ledger_view(before)
            } else {
                ledger_view(after) == ledger_view(steps.last().1)
            }
        }
}

/// A copy of an optional text.
fn clone_text_opt(o: &Option<String>) -> (r: Option<String>)
    ensures
        r == *o,
{
    match o {
        Some(s) => Some(s.clone()),
        None => None,
    }
}

/// A copy of an audit entry.
fn copy_audit_entry(e: &AuditEntryResponse) -> (r: AuditEntryResponse)
    ensures
        r == *e,
{
    AuditEntryResponse {
        timestamp: e.timestamp.clone(),
        actor: e.actor.clone(),
        tx_id: e.tx_id.clone(),
        field: e.field.clone(),
        old_value: clone_text_opt(&e.old_value),
        new_value: e.new_value.clone(),
        note: clone_text_opt(&e.note),
    }
}

/// A copy of a ledger.
fn copy_ledger(l: &ClassificationLedger) -> (r: ClassificationLedger)
    ensures
        r.classifications@ == l.classifications@,
        r.audit_log@ == l.audit_log@,
{
    let mut cs: Vec<StoredClassification> = Vec::new();
    let mut i: usize = 0;
    while i < l.classifications.len()
        invariant
            i <= l.classifications@.len(),
            cs@ == l.classifications@.take(i as int),
        decreases l.classifications.len() - i,
    {
        let c = &l.classifications[i];
        cs.push(StoredClassification { tx_id: c.tx_id.clone(), category: c.category.clone(), confidence: c.confidence });
        i = i + 1;
        assert(cs@ =~= l.classifications@.take(i as int));
    }
    assert(l.classifications@.take(l.classifications@.len() as int) =~= l.classifications@);
    let mut log: Vec<AuditEntryResponse> = Vec::new();
    let mut k: usize = 0;
    while k < l.audit_log.len()
        invariant
            k <= l.audit_log@.len(),
            log@ == l.audit_log@.take(k as int),
        decreases l.audit_log.len() - k,
    {
        log.push(copy_audit_entry(&l.audit_log[k]));
        k = k + 1;
        assert(log@ =~= l.audit_log@.take(k as int));
    }
    assert(l.audit_log@.take(l.audit_log@.len() as int) =~= l.audit_log@);
    ClassificationLedger { classifications: cs, audit_log: log }
}

/// Classifies the transactions `ids` in turn, each with `category`,
/// `confidence`, `note` and `actor`, at the time of the clock; under
/// all-or-nothing it stops at the first failure and leaves the ledger as it
/// was, with the lifecycle events it appended undone. Answers the items and
/// the numbers that succeeded and failed; otherwise one lifecycle event is
/// appended for each that succeeded.
fn classify_each(
    ledger: &mut ClassificationLedger,
    events: &mut InMemoryLifecycleEventStore,
    transactions: &Vec<LedgerTransaction>,
    ids: &Vec<String>,
    category: &String,
    confidence: &String,
    note: &Option<String>,
    actor: &String,
    mode: BatchMode,
) -> (r: (Vec<BatchItemResult>, usize, usize))
    requires
        old(ledger).wf(),
    ensures
        final(ledger).wf(),
        mode == BatchMode::AllOrNothing && r.2 > 0 ==> final(events).events_view() == old(
            events,
        ).events_view() && final(events).last_sequence() == old(events).last_sequence(),
        !(mode == BatchMode::AllOrNothing && r.2 > 0) ==> old(events).events_view().is_prefix_of(
            final(events).events_view(),
        ) && final(events).events_view().len() == old(events).events_view().len() + r.1,
        batch_run_outcome(
            *old(ledger),
            *final(ledger),
            transactions@,
            ids@.map_values(|s: String| s@),
            (category@, confidence@, opt_view(*note), actor@),
            mode,
            r.0@,
            r.1 as nat,
            r.2 as nat,
        ),
{
    let ghost idv = ids@.map_values(|s: String| s@);
    let ghost tv: TemplateView = (category@, confidence@, opt_view(*note), actor@);
    let n = ids.len();
    let ghost orig = *ledger;
    let mut work = copy_ledger(ledger);
    let ghost start = work;
    assert(ledger_view(start) == ledger_view(orig));
    let ghost mut steps: Seq<BatchStep> = Seq::empty();
    let mut items: Vec<BatchItemResult> = Vec::new();
    let mut succeeded: usize = 0;
    let mut failed: usize = 0;
    let mut stop = false;
    let mark_len = events.len();
    let mark_seq = events.sequence();
    let mut i: usize = 0;
    while i < n && !stop
        invariant
            i <= n,
            n == ids@.len(),
            idv == ids@.map_values(|s: String| s@),
            tv == (category@, confidence@, opt_view(*note), actor@),
            *ledger == orig,
            orig.wf(),
            work.wf(),
            ledger_view(start) == ledger_view(orig),
            steps.len() == i,
            items@.len() == i,
            i == 0 ==> work == start,
            i > 0 ==> work == steps.last().1,
            i > 0 ==> steps[0].0 == start,
            forall|j: int| 0 < j < steps.len() ==> (#[trigger] steps[j]).0 == steps[j - 1].1,
            forall|j: int|
                0 <= j < steps.len() ==> {
                    &&& exists|m: nat| (#[trigger] steps[j]).2 == #[trigger] decimal_spec(m)
                    &&& request_view(steps[j].3) == (idv[j], tv.0, tv.1, tv.2, tv.3)
                    &&& classification_recorded(steps[j].0, steps[j].1, transactions@, steps[j].3, steps[j].2, steps[j].4)
                },
            mode == BatchMode::AllOrNothing ==> forall|j: int|
                0 <= j < steps.len() - 1 ==> (#[trigger] steps[j]).4 is Ok,
            stop == (mode == BatchMode::AllOrNothing && i > 0 && steps.last().4 is Err),
            forall|j: int| 0 <= j < i ==> batch_item_reports(#[trigger] items@[j], idv[j], steps[j].4),
            succeeded == count_ok(steps),
            failed == i - count_ok(steps),
            count_ok(steps) <= i,
            old(events).events_view().is_prefix_of(events.events_view()),
            events.events_view().len() == old(events).events_view().len() + succeeded,
            mode == BatchMode::AllOrNothing ==> (failed > 0 <==> stop),
            mark_len == old(events).events_view().len(),
            mark_seq == old(events).last_sequence(),
        decreases n - i,
    {
        let item_request = ClassifyTransactionRequest {
            tx_id: ids[i].clone(),
            category: category.clone(),
            confidence: confidence.clone(),
            note: clone_text_opt(note),
            actor: actor.clone(),
        };
        let ghost before = work;
        let ghost events_before = events.events_view();
        let result = apply_classification_action(&mut work, events, transactions, &item_request, "classification");
        proof {
            let ov = old(events).events_view();
            assert(events.events_view().subrange(0, ov.len() as int) =~= events_before.subrange(0, ov.len() as int));
        }
        let ghost m = choose|m: nat|
            #[trigger] classification_recorded(before, work, transactions@, item_request, decimal_spec(m), result);
        let ghost step: BatchStep = (before, work, decimal_spec(m), item_request, result);
        let ghost old_steps = steps;
        proof {
            steps = steps.push(step);
            assert(steps[i as int] == step);
            assert(idv[i as int] == ids@[i as int]@);
            assert forall|j: int| 0 < j < steps.len() implies (#[trigger] steps[j]).0 == steps[j - 1].1 by {
                if j < i {
                    assert(steps[j] == old_steps[j] && steps[j - 1] == old_steps[j - 1]);
                }
            }
            assert forall|j: int| 0 <= j < steps.len() implies {
                &&& exists|m2: nat| (#[trigger] steps[j]).2 == #[trigger] decimal_spec(m2)
                &&& request_view(steps[j].3) == (idv[j], tv.0, tv.1, tv.2, tv.3)
                &&& classification_recorded(steps[j].0, steps[j].1, transactions@, steps[j].3, steps[j].2, steps[j].4)
            } by {
                if j < i {
                    assert(steps[j] == old_steps[j]);
                } else {
                    assert(steps[j].2 == decimal_spec(m));
                }
            }
            if i > 0 {
                assert(steps[0] == old_steps[0]);
            }
            assert(steps.drop_last() =~= old_steps);
        }
        match result {
            Ok(o) => {
                succeeded = succeeded + 1;
                items.push(
                    BatchItemResult {
                        tx_id: o.response.tx_id,
                        status: BatchItemStatus::Succeeded,
                        audit_entries: o.response.audit_entries,
                    },
                );
            },
            Err(e) => {
                failed = failed + 1;
                items.push(
                    BatchItemResult {
                        tx_id: ids[i].clone(),
                        status: BatchItemStatus::Failed { error: e.message() },
                        audit_entries: Vec::new(),
                    },
                );
                if mode == BatchMode::AllOrNothing {
                    stop = true;
                }
            },
        }
        proof {
            assert forall|j: int| 0 <= j < i + 1 implies batch_item_reports(
                #[trigger] items@[j],
                idv[j],
                steps[j].4,
            ) by {
                if j < i {
                    assert(steps[j] == old_steps[j]);
                }
            }
            if mode == BatchMode::AllOrNothing {
                assert forall|j: int| 0 <= j < steps.len() - 1 implies (#[trigger] steps[j]).4 is Ok by {
                    if j < i as int - 1 {
                        assert(steps[j] == old_steps[j]);
                    } else {
                        assert(steps[j] == old_steps.last());
                    }
                }
            }
        }
        i = i + 1;
    }
    if !stop {
        *ledger = work;
    } else {
        proof {
            let ov = old(events).events_view();
            assert(ov =~= events.events_view().take(ov.len() as int));
        }
        events.roll_back(mark_len, mark_seq);
    }
    proof {
        assert(batch_run_valid(orig, transactions@, idv, tv, mode, steps));
    }
    (items, succeeded, failed)
}

/// The values a batch classification shares: its category, confidence,
/// note and actor.
pub open spec fn batch_template(req: BatchClassifyRequest) -> TemplateView {
    (req.category@, req.confidence@, opt_view(req.note), req.actor@)
}

/// What a dry run reports: every id skipped, nothing counted as done, the
/// ledger untouched.
pub open spec fn dry_run_reported(
    before: ClassificationLedger,
    after: ClassificationLedger,
    req: BatchClassifyRequest,
    resp: BatchClassifyResponse,
) -> bool {
    &&& after == before
    &&& resp.items@.len() == req.tx_ids@.len()
    &&& forall|i: int| 0 <= i < resp.items@.len() ==> batch_item_skipped(#[trigger] resp.items@[i], req.tx_ids@[i]@)
    &&& resp.summary.succeeded == 0 && resp.summary.failed == 0
    &&& resp.summary.skipped == req.tx_ids@.len() && resp.summary.batch_duration_ms == 0
}

/// Classifies the transactions of a batch, in order, with the batch's
/// category, confidence, note and actor, each at the time of the clock.
/// A confidence that is not a fraction refuses the whole batch. A dry run
/// changes nothing and reports every id skipped. Otherwise every id is
/// tried, except that under all-or-nothing the batch stops at the first
/// failure and reverts every change: the ledger and the lifecycle events
/// are as they were. Otherwise each transaction classified appends its
/// `classification` lifecycle event.
pub fn batch_classify(
    ledger: &mut ClassificationLedger,
    events: &mut InMemoryLifecycleEventStore,
    transactions: &Vec<LedgerTransaction>,
    request: &BatchClassifyRequest,
) -> (r: Result<BatchClassifyResponse, ToolError>)
    requires
        old(ledger).wf(),
    ensures
        final(ledger).wf(),
        old(events).events_view().is_prefix_of(final(events).events_view()),
        match r {
            Ok(resp) => if request.batch_mode == BatchMode::AllOrNothing && resp.summary.failed > 0 {
                final(events).events_view() == old(events).events_view() && final(events).last_sequence()
                    == old(events).last_sequence()
            } else {
                final(events).events_view().len() == old(events).events_view().len() + resp.summary.succeeded
            },
            Err(_) => final(events).events_view() == old(events).events_view(),
        },
        match confidence_spec(request.confidence@) {
            Err(m) => r matches Err(e) && (e matches ToolError::InvalidInput(t) && t@ == m) && *final(ledger)
                == *old(ledger),
            Ok(_) => r matches Ok(resp) && resp.summary.total_requested == request.tx_ids@.len()
                && resp.summary.succeeded + resp.summary.failed + resp.summary.skipped == resp.items@.len()
                && (if request.dry_run {
                dry_run_reported(*old(ledger), *final(ledger), *request, resp)
            } else {
                resp.summary.skipped == 0 && batch_run_outcome(
                    *old(ledger),
                    *final(ledger),
                    transactions@,
                    request.tx_ids@.map_values(|s: String| s@),
                    batch_template(*request),
                    request.batch_mode,
                    resp.items@,
                    resp.summary.succeeded as nat,
                    resp.summary.failed as nat,
                )
            }),
        },
{
    match parse_confidence(request.confidence.as_str()) {
        Ok(_) => {},
        Err(e) => return Err(e),
    }
    let n = request.tx_ids.len();
    if request.dry_run {
        let mut items: Vec<BatchItemResult> = Vec::new();
        let mut i: usize = 0;
        while i < n
            invariant
                i <= n,
                n == request.tx_ids@.len(),
                items@.len() == i,
                forall|j: int| 0 <= j < i ==> batch_item_skipped(#[trigger] items@[j], request.tx_ids@[j]@),
            decreases n - i,
        {
            items.push(
                BatchItemResult {
                    tx_id: request.tx_ids[i].clone(),
                    status: BatchItemStatus::Skipped { reason: owned("dry_run") },
                    audit_entries: Vec::new(),
                },
            );
            i = i + 1;
        }
        let summary = BatchSummary {
            total_requested: n,
            succeeded: 0,
            failed: 0,
            skipped: n,
            batch_duration_ms: 0,
        };
        return Ok(BatchClassifyResponse { summary, items });
    }
    let start_clock = instant_now();
    let (items, succeeded, failed) = classify_each(
        ledger,
        events,
        transactions,
        &request.tx_ids,
        &request.category,
        &request.confidence,
        &request.note,
        &request.actor,
        request.batch_mode,
    );
    proof {
        lemma_outcome_counts(*old(ledger), *ledger, transactions@, request.tx_ids@.map_values(|s: String| s@), batch_template(*request), request.batch_mode, items@, succeeded as nat, failed as nat);
    }
    let elapsed = instant_elapsed(&start_clock);
    let millis = duration_as_millis(&elapsed);
    let summary = BatchSummary {
        total_requested: n,
        succeeded,
        failed,
        skipped: 0,
        batch_duration_ms: millis as u64,
    };
    Ok(BatchClassifyResponse { summary, items })
}

/// The items of a run are as many as it succeeded and failed.
proof fn lemma_outcome_counts(
    before: ClassificationLedger,
    after: ClassificationLedger,
    ts: Seq<LedgerTransaction>,
    ids: Seq<Seq<char>>,
    t: TemplateView,
    mode: BatchMode,
    items: Seq<BatchItemResult>,
    succeeded: nat,
    failed: nat,
)
    requires
        batch_run_outcome(before, after, ts, ids, t, mode, items, succeeded, failed),
    ensures
        succeeded + failed == items.len(),
        items.len() <= ids.len(),
{
    let steps = choose|steps: Seq<BatchStep>|
        {
            &&& #[trigger] batch_run_valid(before, ts, ids, t, mode, steps)
            &&& items.len() == steps.len()
            &&& forall|i: int| 0 <= i < steps.len() ==> batch_item_reports(#[trigger] items[i], ids[i], steps[i].4)
            &&& succeeded == count_ok(steps)
            &&& failed == steps.len() - count_ok(steps)
            &&& if (mode == BatchMode::AllOrNothing && steps.len() > 0 && steps.last().4 is Err) {
                after == before
            } else if steps.len() == 0 {
                ledger_view(after) == ledger_view(before)
            } else {
                ledger_view(after) == ledger_view(steps.last().1)
            }
        };
    lemma_count_ok_all(steps);
}

/// Where every step succeeded, every step is `Ok`, and the last one too.
proof fn lemma_count_ok_all(steps: Seq<BatchStep>)
    ensures
        count_ok(steps) <= steps.len(),
        count_ok(steps) == steps.len() ==> forall|j: int| 0 <= j < steps.len() ==> (#[trigger] steps[j]).4 is Ok,
    decreases steps.len(),
{
    if steps.len() > 0 {
        lemma_count_ok_all(steps.drop_last());
        if count_ok(steps) == steps.len() {
            assert forall|j: int| 0 <= j < steps.len() implies (#[trigger] steps[j]).4 is Ok by {
                if j < steps.len() - 1 {
                    assert(steps[j] == steps.drop_last()[j]);
                }
            }
        }
    }
}

/// The shape of a run of a batch: continue-on-error tries every id;
/// all-or-nothing fails at most at its last step; a run in which nothing
/// failed has tried every id; at most as many steps succeed as were taken.
pub proof fn law_batch_run_shape(
    start: ClassificationLedger,
    ts: Seq<LedgerTransaction>,
    ids: Seq<Seq<char>>,
    t: TemplateView,
    mode: BatchMode,
    steps: Seq<BatchStep>,
)
    requires
        batch_run_valid(start, ts, ids, t, mode, steps),
    ensures
        mode == BatchMode::ContinueOnError ==> steps.len() == ids.len(),
        mode == BatchMode::AllOrNothing ==> forall|j: int| 0 <= j < steps.len() - 1 ==> (#[trigger] steps[j]).4 is Ok,
        count_ok(steps) <= steps.len(),
        count_ok(steps) == steps.len() ==> steps.len() == ids.len(),
{
    lemma_count_ok_all(steps);
    if count_ok(steps) == steps.len() && steps.len() > 0 {
        assert(steps[steps.len() - 1].4 is Ok);
    }
}

/// Whether a target text is like the source's once both are lowercased:
/// equal to it, containing it, or starting with it.
pub open spec fn text_similar(mt: SimilarityMatchType, target: Seq<char>, source: Seq<char>) -> bool {
    let t = unicode_lowercase(target);
    let s = unicode_lowercase(source);
    match mt {
        SimilarityMatchType::Exact => t == s,
        SimilarityMatchType::Substring => contains_spec(t, s),
        SimilarityMatchType::Prefix => s.is_prefix_of(t),
    }
}

/// Whether a transaction is like the source transaction by one field: its
/// description, its amount as written, or its category (where both are
/// classified) is like the source's. Other fields match nothing.
pub open spec fn field_similar(
    field: Seq<char>,
    mt: SimilarityMatchType,
    t: LedgerTransaction,
    src: LedgerTransaction,
    cs: Seq<StoredClassification>,
) -> bool {
    if field == "description"@ {
        text_similar(mt, t.description@, src.description@)
    } else if field == "amount"@ {
        text_similar(mt, t.amount@, src.amount@)
    } else if field == "category"@ {
        match (classification_of(cs, t.tx_id@), classification_of(cs, src.tx_id@)) {
            (Some(a), Some(b)) => text_similar(mt, a.category@, b.category@),
            _ => false,
        }
    } else {
        false
    }
}

/// Whether a transaction is like the source by any of the fields.
pub open spec fn row_similar(
    fields: Seq<Seq<char>>,
    mt: SimilarityMatchType,
    t: LedgerTransaction,
    src: LedgerTransaction,
    cs: Seq<StoredClassification>,
) -> bool
    decreases fields.len(),
{
    if fields.len() == 0 {
        false
    } else {
        field_similar(fields[0], mt, t, src, cs) || row_similar(fields.drop_first(), mt, t, src, cs)
    }
}

/// The ids of the transactions, other than the source's, that are like the
/// source, in the order given.
pub open spec fn mapping_candidates(
    ts: Seq<LedgerTransaction>,
    src: LedgerTransaction,
    fields: Seq<Seq<char>>,
    mt: SimilarityMatchType,
    cs: Seq<StoredClassification>,
) -> Seq<Seq<char>>
    decreases ts.len(),
{
    if ts.len() == 0 {
        Seq::empty()
    } else {
        let prev = mapping_candidates(ts.drop_last(), src, fields, mt, cs);
        let t = ts.last();
        if t.tx_id@ != src.tx_id@ && row_similar(fields, mt, t, src, cs) {
            prev.push(t.tx_id@)
        } else {
            prev
        }
    }
}

/// Whether `p` begins `s`.
fn text_starts_with(s: &str, p: &str) -> (r: bool)
    ensures
        r == p@.is_prefix_of(s@),
{
    let n = p.unicode_len();
    if n > s.unicode_len() {
        return false;
    }
    let mut i: usize = 0;
    while i < n
        invariant
            n == p@.len(),
            n <= s@.len(),
            i <= n,
            forall|j: int| 0 <= j < i ==> p@[j] == s@[j],
        decreases n - i,
    {
        if p.get_char(i) != s.get_char(i) {
            assert(!(p@ =~= s@.subrange(0, n as int))) by {
                assert(p@[i as int] != s@.subrange(0, n as int)[i as int]);
            }
            return false;
        }
        i = i + 1;
    }
    assert(p@ =~= s@.subrange(0, n as int));
    true
}

/// Whether a target text is like the source's.
fn text_similar_exec(mt: SimilarityMatchType, target: &str, source: &str) -> (r: bool)
    ensures
        r == text_similar(mt, target@, source@),
{
    let t = to_lowercase(target);
    let s = to_lowercase(source);
    match mt {
        SimilarityMatchType::Exact => str_eq(t.as_str(), s.as_str()),
        SimilarityMatchType::Substring => str_contains(t.as_str(), s.as_str()),
        SimilarityMatchType::Prefix => text_starts_with(t.as_str(), s.as_str()),
    }
}

/// The category stored for a transaction, if it is classified.
fn stored_category<'a>(cs: &'a Vec<StoredClassification>, tx_id: &str) -> (r: Option<&'a String>)
    ensures
        match r {
            Some(c) => classification_of(cs@, tx_id@) matches Some(k) && k.category == *c,
            None => classification_of(cs@, tx_id@) is None,
        },
{
    let k = find_index(cs, tx_id);
    proof {
        lemma_first_index_value(cs@, tx_id@);
    }
    match k {
        Some(k) => Some(&cs[k].category),
        None => None,
    }
}

/// Whether a transaction is like the source by one field.
fn field_similar_exec(
    field: &str,
    mt: SimilarityMatchType,
    t: &LedgerTransaction,
    src: &LedgerTransaction,
    cs: &Vec<StoredClassification>,
) -> (r: bool)
    ensures
        r == field_similar(field@, mt, *t, *src, cs@),
{
    if str_eq(field, "description") {
        text_similar_exec(mt, t.description.as_str(), src.description.as_str())
    } else if str_eq(field, "amount") {
        text_similar_exec(mt, t.amount.as_str(), src.amount.as_str())
    } else if str_eq(field, "category") {
        match (stored_category(cs, t.tx_id.as_str()), stored_category(cs, src.tx_id.as_str())) {
            (Some(a), Some(b)) => text_similar_exec(mt, a.as_str(), b.as_str()),
            _ => false,
        }
    } else {
        false
    }
}

/// Whether a transaction is like the source by any of the fields.
fn row_similar_exec(
    fields: &Vec<String>,
    mt: SimilarityMatchType,
    t: &LedgerTransaction,
    src: &LedgerTransaction,
    cs: &Vec<StoredClassification>,
) -> (r: bool)
    ensures
        r == row_similar(texts_view(fields@), mt, *t, *src, cs@),
{
    let ghost fv = texts_view(fields@);
    let mut i: usize = 0;
    assert(fv.skip(0) =~= fv);
    while i < fields.len()
        invariant
            i <= fields@.len(),
            fv == texts_view(fields@),
            row_similar(fv, mt, *t, *src, cs@) == row_similar(fv.skip(i as int), mt, *t, *src, cs@),
        decreases fields.len() - i,
    {
        proof {
            assert(fv.skip(i as int)[0] == fields@[i as int]@);
            assert(fv.skip(i as int).drop_first() =~= fv.skip(i + 1));
        }
        if field_similar_exec(fields[i].as_str(), mt, t, src, cs) {
            return true;
        }
        i = i + 1;
    }
    assert(fv.skip(i as int) =~= Seq::<Seq<char>>::empty());
    false
}

/// The ids of the transactions, other than the source's, that are like the
/// source `src` by `fields`, in the order given.
pub fn find_mapping_candidates(
    transactions: &Vec<LedgerTransaction>,
    src: &LedgerTransaction,
    fields: &Vec<String>,
    mt: SimilarityMatchType,
    classifications: &Vec<StoredClassification>,
) -> (r: Vec<String>)
    ensures
        texts_view(r@) == mapping_candidates(transactions@, *src, texts_view(fields@), mt, classifications@),
{
    let ghost fv = texts_view(fields@);
    let mut out: Vec<String> = Vec::new();
    let mut i: usize = 0;
    assert(transactions@.take(0) =~= Seq::<LedgerTransaction>::empty());
    while i < transactions.len()
        invariant
            i <= transactions@.len(),
            fv == texts_view(fields@),
            mapping_candidates(transactions@.take(i as int), *src, fv, mt, classifications@) == texts_view(out@),
        decreases transactions.len() - i,
    {
        proof {
            assert(transactions@.take(i as int + 1).drop_last() =~= transactions@.take(i as int));
        }
        let t = &transactions[i];
        if !str_eq(t.tx_id.as_str(), src.tx_id.as_str()) && row_similar_exec(fields, mt, t, src, classifications) {
            let ghost before = texts_view(out@);
            out.push(t.tx_id.clone());
            assert(texts_view(out@) =~= before.push(t.tx_id@));
        }
        i = i + 1;
    }
    assert(transactions@.take(transactions@.len() as int) =~= transactions@);
    out
}

/// The first `max` items of a list, or all of them where there are fewer.
pub open spec fn first_at_most(s: Seq<Seq<char>>, max: usize) -> Seq<Seq<char>> {
    if s.len() <= max {
        s
    } else {
        s.take(max as int)
    }
}

/// The values the classifications of a bulk mapping share: the target
/// category and confidence, a note naming the source, and the actor.
pub open spec fn mapping_template(req: ApplyMappingBulkRequest) -> TemplateView {
    (req.target_category@, req.target_confidence@, Some("bulk applied from "@ + req.source_tx_id@), req.actor@)
}

/// The ids a bulk mapping picks: those of the transactions like the source,
/// ascending and each once, at most `max_matches` of them.
pub open spec fn mapping_matches(
    ts: Seq<LedgerTransaction>,
    cs: Seq<StoredClassification>,
    req: ApplyMappingBulkRequest,
) -> Seq<Seq<char>> {
    let src = transaction_of(ts, req.source_tx_id@)->Some_0;
    first_at_most(
        sorted_texts(mapping_candidates(ts, src, texts_view(req.match_fields@), req.similarity_type, cs).to_set()),
        req.max_matches,
    )
}

/// What a bulk mapping does: refused where the source is not classified or
/// not present; otherwise the transactions like the source are picked and
/// classified as a batch (or all skipped by a dry run), and the response
/// names them.
pub open spec fn mapping_outcome(
    before: ClassificationLedger,
    after: ClassificationLedger,
    ts: Seq<LedgerTransaction>,
    req: ApplyMappingBulkRequest,
    r: Result<ApplyMappingBulkResponse, ToolError>,
) -> bool {
    if classification_of(before.classifications@, req.source_tx_id@) is None {
        (r matches Err(e) && (e matches ToolError::InvalidInput(m) && m@ == "source_tx_id not classified"@))
            && after == before
    } else if transaction_of(ts, req.source_tx_id@) is None {
        (r matches Err(e) && (e matches ToolError::InvalidInput(m) && m@ == "source_tx_id not found"@))
            && after == before
    } else {
        let matched = mapping_matches(ts, before.classifications@, req);
        r matches Ok(resp) && {
            &&& texts_view(resp.matched_tx_ids@) == matched
            &&& resp.items@.len() == 0
            &&& resp.classification_summary.total_requested == matched.len()
            &&& if req.dry_run {
                &&& after == before
                &&& resp.classification_summary.succeeded == 0
                &&& resp.classification_summary.failed == 0
                &&& resp.classification_summary.skipped == matched.len()
                &&& resp.classification_summary.batch_duration_ms == 0
            } else {
                &&& resp.classification_summary.skipped == 0
                &&& matched.len() == 0 ==> resp.classification_summary.batch_duration_ms == 0
                &&& exists|items: Seq<BatchItemResult>|
                    #[trigger] batch_run_outcome(
                        before,
                        after,
                        ts,
                        matched,
                        mapping_template(req),
                        req.batch_mode,
                        items,
                        resp.classification_summary.succeeded as nat,
                        resp.classification_summary.failed as nat,
                    )
            }
        }
    }
}

/// A bulk mapping that ran its batch over the picked ids reports what
/// `mapping_outcome` says.
proof fn lemma_mapping_ran(
    before: ClassificationLedger,
    after: ClassificationLedger,
    ts: Seq<LedgerTransaction>,
    req: ApplyMappingBulkRequest,
    r: Result<ApplyMappingBulkResponse, ToolError>,
    items: Seq<BatchItemResult>,
)
    requires
        classification_of(before.classifications@, req.source_tx_id@) is Some,
        transaction_of(ts, req.source_tx_id@) is Some,
        !req.dry_run,
        r matches Ok(resp) && {
            let matched = mapping_matches(ts, before.classifications@, req);
            &&& texts_view(resp.matched_tx_ids@) == matched
            &&& resp.items@.len() == 0
            &&& resp.classification_summary.total_requested == matched.len()
            &&& resp.classification_summary.skipped == 0
            &&& matched.len() == 0 ==> resp.classification_summary.batch_duration_ms == 0
            &&& batch_run_outcome(
                before,
                after,
                ts,
                matched,
                mapping_template(req),
                req.batch_mode,
                items,
                resp.classification_summary.succeeded as nat,
                resp.classification_summary.failed as nat,
            )
        },
    ensures
        mapping_outcome(before, after, ts, req, r),
{
}

/// Classifies the transactions (kept as the ledger keeps them: each id
/// once, in ascending order) like a classified source transaction with the
/// request's target category and confidence. The source is the
/// template: each listed field of another transaction is compared with the
/// same field of the source. Each transaction classified appends its
/// `classification` lifecycle event; an all-or-nothing run that fails
/// reverts the ledger and the events.
pub fn apply_mapping_bulk(
    ledger: &mut ClassificationLedger,
    events: &mut InMemoryLifecycleEventStore,
    transactions: &Vec<LedgerTransaction>,
    request: &ApplyMappingBulkRequest,
) -> (r: Result<ApplyMappingBulkResponse, ToolError>)
    requires
        old(ledger).wf(),
        tx_ids_ascending(transactions@),
    ensures
        final(ledger).wf(),
        old(events).events_view().is_prefix_of(final(events).events_view()),
        match r {
            Ok(resp) => if request.batch_mode == BatchMode::AllOrNothing && resp.classification_summary.failed > 0 {
                final(events).events_view() == old(events).events_view() && final(events).last_sequence()
                    == old(events).last_sequence()
            } else {
                final(events).events_view().len() == old(events).events_view().len() + resp.classification_summary.succeeded
            },
            Err(_) => final(events).events_view() == old(events).events_view(),
        },
        mapping_outcome(*old(ledger), *final(ledger), transactions@, *request, r),
{
    let ghost orig_ledger = *ledger;
    let source = request.source_tx_id.as_str();
    if stored_category(&ledger.classifications, source).is_none() {
        return Err(ToolError::InvalidInput(owned("source_tx_id not classified")));
    }
    let k = match find_transaction(transactions, source) {
        Some(k) => k,
        None => {
            return Err(ToolError::InvalidInput(owned("source_tx_id not found")));
        },
    };
    let src = &transactions[k];
    let found = find_mapping_candidates(
        transactions,
        src,
        &request.match_fields,
        request.similarity_type,
        &ledger.classifications,
    );
    let mut matches = sort_dedup(found);
    let ghost sorted = texts_view(matches@);
    matches.truncate(request.max_matches);
    assert(texts_view(matches@) =~= first_at_most(sorted, request.max_matches));
    assert(texts_view(matches@) == mapping_matches(transactions@, orig_ledger.classifications@, *request));
    let match_count = matches.len();
    if request.dry_run {
        let summary = BatchSummary {
            total_requested: match_count,
            succeeded: 0,
            failed: 0,
            skipped: match_count,
            batch_duration_ms: 0,
        };
        return Ok(ApplyMappingBulkResponse { classification_summary: summary, matched_tx_ids: matches, items: Vec::new() });
    }
    let start_clock = instant_now();
    let note = Some(concat("bulk applied from ", source));
    let ghost picked = texts_view(matches@);
    let (items, succeeded, failed) = classify_each(
        ledger,
        events,
        transactions,
        &matches,
        &request.target_category,
        &request.target_confidence,
        &note,
        &request.actor,
        request.batch_mode,
    );
    assert(matches@.map_values(|s: String| s@) =~= picked);
    let ghost item_views = items@;
    let duration = if match_count == 0 {
        0
    } else {
        let elapsed = instant_elapsed(&start_clock);
        let millis = duration_as_millis(&elapsed);
        millis as u64
    };
    let summary = BatchSummary {
        total_requested: match_count,
        succeeded,
        failed,
        skipped: 0,
        batch_duration_ms: duration,
    };
    let r = Ok(ApplyMappingBulkResponse { classification_summary: summary, matched_tx_ids: matches, items: Vec::new() });
    proof {
        assert(opt_view(note) == Some("bulk applied from "@ + request.source_tx_id@));
        let resp = r->Ok_0;
        assert(batch_run_outcome(
            orig_ledger,
            *ledger,
            transactions@,
            mapping_matches(transactions@, orig_ledger.classifications@, *request),
            mapping_template(*request),
            request.batch_mode,
            item_views,
            resp.classification_summary.succeeded as nat,
            resp.classification_summary.failed as nat,
        ));
        lemma_mapping_ran(orig_ledger, *ledger, transactions@, *request, r, item_views);
    }
    r
}

/// Resolves review flags in bulk. Only a dry run can be made: it reports
/// every id skipped. Any other request is refused, as no flag can be
/// resolved through the classification engine.
pub fn bulk_resolve_flags(request: &BatchResolveFlagsRequest) -> (r: Result<BulkResolveFlagsResponse, ToolError>)
    ensures
        !request.dry_run ==> (r matches Err(e) && (e matches ToolError::Internal(m)
            && m@ == "bulk_resolve_flags requires ledger-core update: ClassificationEngine needs a public flag resolution method"@)),
        request.dry_run ==> (r matches Ok(resp) && {
            &&& resp.items@.len() == request.tx_ids@.len()
            &&& forall|i: int|
                0 <= i < resp.items@.len() ==> batch_item_skipped(#[trigger] resp.items@[i], request.tx_ids@[i]@)
            &&& resp.summary == BatchSummary {
                total_requested: request.tx_ids@.len() as usize,
                succeeded: 0,
                failed: 0,
                skipped: request.tx_ids@.len() as usize,
                batch_duration_ms: 0,
            }
        }),
{
    if !request.dry_run {
        return Err(
            ToolError::Internal(
                owned(
                    "bulk_resolve_flags requires ledger-core update: ClassificationEngine needs a public flag resolution method",
                ),
            ),
        );
    }
    let n = request.tx_ids.len();
    let mut items: Vec<BatchItemResult> = Vec::new();
    let mut i: usize = 0;
    while i < n
        invariant
            i <= n,
            n == request.tx_ids@.len(),
            items@.len() == i,
            forall|j: int| 0 <= j < i ==> batch_item_skipped(#[trigger] items@[j], request.tx_ids@[j]@),
        decreases n - i,
    {
        items.push(
            BatchItemResult {
                tx_id: request.tx_ids[i].clone(),
                status: BatchItemStatus::Skipped { reason: owned("dry_run") },
                audit_entries: Vec::new(),
            },
        );
        i = i + 1;
    }
    let summary = BatchSummary { total_requested: n, succeeded: 0, failed: 0, skipped: n, batch_duration_ms: 0 };
    Ok(BulkResolveFlagsResponse { summary, items })
}

} // verus!

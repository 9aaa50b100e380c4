//! Batch execution of review operations over a list of transaction ids,
//! stopping at the first error or continuing past errors.
use vstd::prelude::*;

use crate::clock::{duration_as_millis, instant_elapsed, instant_now};
use crate::contract::{BatchItemResult, BatchMode, BatchSummary};
use crate::error::ToolError;

verus! {

/// The number of `true` entries.
pub open spec fn count_true(s: Seq<bool>) -> nat
    decreases s.len(),
{
    if s.len() == 0 {
        0
    } else {
        count_true(s.drop_last()) + if s.last() {
            1nat
        } else {
            0nat
        }
    }
}

/// Whether `oks`, the success of each attempted item in order, is a run the
/// mode allows over `n` items: every item under continue-on-error; under
/// all-or-nothing, items up to and including the first failure.
pub open spec fn batch_run_allowed(mode: BatchMode, oks: Seq<bool>, n: nat) -> bool {
    &&& oks.len() <= n
    &&& match mode {
        BatchMode::ContinueOnError => oks.len() == n,
        BatchMode::AllOrNothing => {
            &&& forall|i: int| 0 <= i < oks.len() - 1 ==> #[trigger] oks[i]
            &&& oks.len() == n || (oks.len() > 0 && !oks.last())
        },
    }
}

/// Whether `op` may have answered `ok` for the item with text `id`.
pub open spec fn op_outcome<F: Fn(&str) -> Result<BatchItemResult, ToolError>>(
    op: F,
    id: Seq<char>,
    ok: bool,
) -> bool {
    exists|s: &str, res: Result<BatchItemResult, ToolError>|
        s@ == id && #[trigger] call_ensures(op, (s,), res) && res.is_ok() == ok
}

/// Applies batch operations.
pub struct BatchExecutor;

impl BatchExecutor {
    /// Applies `operation` to each id in turn and counts the outcomes.
    /// Under `dry_run` nothing is called and every id counts as skipped;
    /// under all-or-nothing the run stops at the first error.
    pub fn execute_batch(
        tx_ids: Vec<String>,
        batch_mode: BatchMode,
        dry_run: bool,
        operation: impl Fn(&str) -> Result<BatchItemResult, ToolError>,
    ) -> (r: Result<BatchSummary, ToolError>)
        requires
            forall|s: &str| call_requires(operation, (s,)),
        ensures
            r.is_ok(),
            r matches Ok(summary) && {
                &&& summary.total_requested == tx_ids.len()
                &&& tx_ids.len() == 0 ==> summary.batch_duration_ms == 0
                &&& dry_run ==> summary.skipped == tx_ids.len() && summary.succeeded == 0
                    && summary.failed == 0
                &&& !dry_run ==> summary.skipped == 0 && exists|oks: Seq<bool>|
                    {
                        &&& batch_run_allowed(batch_mode, oks, tx_ids.len() as nat)
                        &&& forall|i: int|
                            0 <= i < oks.len() ==> op_outcome(
                                operation,
                                tx_ids@[i]@,
                                #[trigger] oks[i],
                            )
                        &&& summary.succeeded == count_true(oks)
                        &&& summary.failed == oks.len() - count_true(oks)
                    }
            },
    {
        let start = instant_now();
        let total_requested = tx_ids.len();

        if total_requested == 0 {
            let summary = BatchSummary {
                total_requested: 0,
                succeeded: 0,
                failed: 0,
                skipped: 0,
                batch_duration_ms: 0,
            };
            proof {
                if !dry_run {
                    let oks = Seq::<bool>::empty();
                    assert(batch_run_allowed(batch_mode, oks, 0));
                    assert(summary.succeeded == count_true(oks));
                    assert(summary.failed == oks.len() - count_true(oks));
                    assert(forall|i: int|
                        0 <= i < oks.len() ==> op_outcome(
                            operation,
                            tx_ids@[i]@,
                            #[trigger] oks[i],
                        ));
                }
            }
            return Ok(summary);
        }

        let mut succeeded: usize = 0;
        let mut failed: usize = 0;
        let mut skipped: usize = 0;
        let ghost mut oks: Seq<bool> = Seq::empty();

        let mut i: usize = 0;
        while i < tx_ids.len()
            invariant_except_break
                forall|s: &str| call_requires(operation, (s,)),
                0 <= i <= tx_ids.len(),
                dry_run ==> skipped == i && succeeded == 0 && failed == 0 && oks.len() == 0,
                !dry_run ==> skipped == 0 && oks.len() == i,
                !dry_run && batch_mode == BatchMode::AllOrNothing ==> forall|j: int|
                    0 <= j < oks.len() ==> #[trigger] oks[j],
                forall|j: int|
                    0 <= j < oks.len() ==> op_outcome(operation, tx_ids@[j]@, #[trigger] oks[j]),
                succeeded == count_true(oks),
                failed == oks.len() - count_true(oks),
                count_true(oks) <= oks.len(),
            ensures
                0 <= i <= tx_ids.len(),
                dry_run ==> skipped == tx_ids.len() && succeeded == 0 && failed == 0,
                !dry_run ==> skipped == 0 && batch_run_allowed(
                    batch_mode,
                    oks,
                    tx_ids.len() as nat,
                ),
                forall|j: int|
                    0 <= j < oks.len() ==> op_outcome(operation, tx_ids@[j]@, #[trigger] oks[j]),
                succeeded == count_true(oks),
                failed == oks.len() - count_true(oks),
            decreases tx_ids.len() - i,
        {
            if dry_run {
                skipped = skipped + 1;
            } else {
                let id: &str = tx_ids[i].as_str();
                let res = operation(id);
                let ok = res.is_ok();
                proof {
                    assert(op_outcome(operation, tx_ids@[i as int]@, ok));
                    let old_oks = oks;
                    oks = oks.push(ok);
                    assert(oks.drop_last() =~= old_oks);
                }
                if ok {
                    succeeded = succeeded + 1;
                } else {
                    failed = failed + 1;
                    if batch_mode == BatchMode::AllOrNothing {
                        proof {
                            assert forall|j: int| 0 <= j < oks.len() - 1 implies #[trigger] oks[j] by {
                                assert(oks[j] == oks.drop_last()[j]);
                            }
                        }
                        break;
                    }
                }
            }
            i = i + 1;
            proof {
                if !dry_run && i == tx_ids.len() {
                    assert(batch_run_allowed(batch_mode, oks, tx_ids.len() as nat));
                }
            }
        }

        let elapsed = instant_elapsed(&start);
        let millis = duration_as_millis(&elapsed);
        let duration = millis as u64;

        Ok(
            BatchSummary {
                total_requested,
                succeeded,
                failed,
                skipped,
                batch_duration_ms: duration,
            },
        )
    }
}

} // verus!

//! Schedule summaries: the transactions of a year grouped into the lines of
//! a tax schedule.
use crate::decimal::{add_exact, checked_add, decimal_checked_add, decimal_from_str, less_than, parse_decimal, Dec};
use crate::ledger::{classification_of, find_classification, LedgerTransaction, StoredClassification};
use crate::service::{derive_year, derive_year_spec, schedule_for_category, schedule_for_category_spec};
use crate::strmap::{lemma_text_lt_total, lemma_text_lt_transitive};
use crate::text::{owned, str_eq, str_lt, text_lt, trim, trim_spec};
use crate::types::ScheduleKindRequest;
use vstd::prelude::*;

verus! {

/// One line of a schedule: its key and its total.
#[derive(Debug, Clone)]
pub struct ScheduleLine {
    pub key: String,
    pub total: Dec,
}

/// The lines as key and total, keys ascending.
pub type LinesView = Seq<(Seq<char>, Dec)>;

/// The views of a list of lines.
pub open spec fn lines_view(v: Seq<ScheduleLine>) -> LinesView {
    v.map_values(|l: ScheduleLine| (l.key@, l.total))
}

/// The amount a transaction brings to a line, if it counts for the year
/// and the schedule: its amount (trimmed) must be a decimal; for FBAR the
/// line is its account, otherwise its category (`Uncategorized` where it
/// has none), which must belong to the schedule.
pub open spec fn line_entry(
    t: LedgerTransaction,
    cs: Seq<StoredClassification>,
    year: i32,
    schedule: ScheduleKindRequest,
) -> Option<(Seq<char>, Dec)> {
    if derive_year_spec(t.date@) != year {
        None
    } else {
        match decimal_from_str(trim_spec(t.amount@)) {
            None => None,
            Some(amount) => if schedule == ScheduleKindRequest::Fbar {
                Some((t.account_id@, amount))
            } else {
                let category = match classification_of(cs, t.tx_id@) {
                    Some(c) => c.category@,
                    None => "Uncategorized"@,
                };
                if schedule_for_category_spec(category) == Some(schedule) {
                    Some((category, amount))
                } else {
                    None
                }
            },
        }
    }
}

/// The value of a line after an amount: for FBAR the largest magnitude so
/// far (from zero), otherwise the running sum; `None` where a sum
/// overflows.
pub open spec fn line_step(current: Dec, amount: Dec, fbar: bool) -> Option<Dec> {
    if fbar {
        let a = Dec { negative: false, ..amount };
        if a.v28() > current.v28() {
            Some(a)
        } else {
            Some(current)
        }
    } else {
        decimal_checked_add(current, amount)
    }
}

/// The lines with an amount brought to the line of `key`, keys kept
/// ascending; a new line starts from zero.
pub open spec fn apply_entry(lines: LinesView, key: Seq<char>, amount: Dec, fbar: bool) -> Option<LinesView>
    decreases lines.len(),
{
    if lines.len() == 0 {
        match line_step(Dec::whole_spec(0), amount, fbar) {
            Some(v) => Some(seq![(key, v)]),
            None => None,
        }
    } else if lines[0].0 == key {
        match line_step(lines[0].1, amount, fbar) {
            Some(v) => Some(lines.update(0, (key, v))),
            None => None,
        }
    } else if text_lt(key, lines[0].0) {
        match line_step(Dec::whole_spec(0), amount, fbar) {
            Some(v) => Some(seq![(key, v)] + lines),
            None => None,
        }
    } else {
        match apply_entry(lines.drop_first(), key, amount, fbar) {
            Some(rest) => Some(seq![lines[0]] + rest),
            None => None,
        }
    }
}

/// The lines of a schedule over the transactions in order; `None` where a
/// sum overflows.
pub open spec fn schedule_lines_spec(
    ts: Seq<LedgerTransaction>,
    cs: Seq<StoredClassification>,
    year: i32,
    schedule: ScheduleKindRequest,
) -> Option<LinesView>
    decreases ts.len(),
{
    if ts.len() == 0 {
        Some(seq![])
    } else {
        match schedule_lines_spec(ts.drop_last(), cs, year, schedule) {
            None => None,
            Some(lines) => match line_entry(ts.last(), cs, year, schedule) {
                None => Some(lines),
                Some((key, amount)) => apply_entry(lines, key, amount, schedule == ScheduleKindRequest::Fbar),
            },
        }
    }
}

/// The line amount of a transaction, if it counts.
fn entry_of(
    t: &LedgerTransaction,
    cs: &Vec<StoredClassification>,
    year: i32,
    schedule: ScheduleKindRequest,
) -> (r: Option<(String, Dec)>)
    ensures
        match r {
            None => line_entry(*t, cs@, year, schedule) is None,
            Some((k, a)) => line_entry(*t, cs@, year, schedule) == Some((k@, a)) && a.wf(),
        },
{
    if derive_year(t.date.as_str()) != year {
        return None;
    }
    let amount = match parse_decimal(trim(t.amount.as_str())) {
        Some(a) => a,
        None => {
            return None;
        },
    };
    if schedule == ScheduleKindRequest::Fbar {
        return Some((t.account_id.clone(), amount));
    }
    let category = match find_classification(cs, t.tx_id.as_str()) {
        Some(k) => cs[k].category.clone(),
        None => owned("Uncategorized"),
    };
    let wanted = match schedule_for_category(category.as_str()) {
        Some(s) => s == schedule,
        None => false,
    };
    if wanted {
        Some((category, amount))
    } else {
        None
    }
}

/// Brings an amount to the line of `key`.
fn apply_to_lines(lines: &mut Vec<ScheduleLine>, key: String, amount: Dec, fbar: bool) -> (ok: bool)
    requires
        amount.wf(),
        forall|i: int| 0 <= i < old(lines)@.len() ==> (#[trigger] old(lines)@[i]).total.wf(),
    ensures
        forall|i: int| 0 <= i < final(lines)@.len() ==> (#[trigger] final(lines)@[i]).total.wf(),
        match apply_entry(lines_view(old(lines)@), key@, amount, fbar) {
            None => !ok,
            Some(l) => ok && lines_view(final(lines)@) == l,
        },
{
    let ghost s = lines_view(lines@);
    let mut j: usize = 0;
    assert(s.take(0) + s.skip(0) =~= s);
    while j < lines.len()
        invariant
            s == lines_view(lines@),
            j <= s.len(),
            forall|i: int| 0 <= i < lines@.len() ==> (#[trigger] lines@[i]).total.wf(),
            forall|i: int| 0 <= i < j ==> s[i].0 != key@ && !text_lt(key@, s[i].0),
            apply_entry(s, key@, amount, fbar) == match apply_entry(s.skip(j as int), key@, amount, fbar) {
                Some(rest) => Some(s.take(j as int) + rest),
                None => None,
            },
        ensures
            s == lines_view(lines@),
            j <= s.len(),
            forall|i: int| 0 <= i < lines@.len() ==> (#[trigger] lines@[i]).total.wf(),
            apply_entry(s, key@, amount, fbar) == match apply_entry(s.skip(j as int), key@, amount, fbar) {
                Some(rest) => Some(s.take(j as int) + rest),
                None => None,
            },
            j < s.len() ==> (s[j as int].0 == key@ || text_lt(key@, s[j as int].0)),
        decreases s.len() - j,
    {
        assert(s[j as int] == (lines@[j as int].key@, lines@[j as int].total));
        if str_eq(lines[j].key.as_str(), key.as_str()) || str_lt(key.as_str(), lines[j].key.as_str()) {
            break;
        }
        assert(s.skip(j as int)[0] == s[j as int]);
        assert(s.skip(j as int).drop_first() =~= s.skip(j + 1));
        proof {
            match apply_entry(s.skip(j + 1), key@, amount, fbar) {
                Some(rest) => {
                    assert(s.take(j as int) + (seq![s[j as int]] + rest) =~= s.take(j + 1) + rest);
                },
                None => {},
            }
        }
        j = j + 1;
    }
    let zero = Dec::whole(0);
    let existing = j < lines.len() && str_eq(lines[j].key.as_str(), key.as_str());
    let current = if existing {
        lines[j].total
    } else {
        zero
    };
    let next = if fbar {
        let a = amount.abs();
        if less_than(current, a) {
            a
        } else {
            current
        }
    } else {
        match checked_add(current, amount) {
            Some(v) => v,
            None => {
                proof {
                    if j < s.len() {
                        assert(s.skip(j as int)[0] == s[j as int]);
                    } else {
                        assert(s.skip(j as int) =~= Seq::<(Seq<char>, Dec)>::empty());
                    }
                }
                return false;
            },
        }
    };
    proof {
        if j < s.len() {
            assert(s.skip(j as int)[0] == s[j as int]);
        } else {
            assert(s.skip(j as int) =~= Seq::<(Seq<char>, Dec)>::empty());
        }
    }
    if existing {
        let old_key = lines[j].key.clone();
        lines.set(j, ScheduleLine { key: old_key, total: next });
        proof {
            assert(lines_view(lines@) =~= s.take(j as int) + s.skip(j as int).update(0, (key@, next)));
        }
    } else {
        lines.insert(j, ScheduleLine { key, total: next });
        proof {
            assert(lines_view(lines@) =~= s.take(j as int) + (seq![(key@, next)] + s.skip(j as int)));
        }
    }
    true
}

/// The lines of a schedule for a year, keys ascending: for FBAR the largest
/// magnitude per account, otherwise the sum per category of the schedule.
/// `None` exactly where a sum overflows.
pub fn schedule_lines(
    transactions: &Vec<LedgerTransaction>,
    classifications: &Vec<StoredClassification>,
    year: i32,
    schedule: ScheduleKindRequest,
) -> (r: Option<Vec<ScheduleLine>>)
    ensures
        match r {
            None => schedule_lines_spec(transactions@, classifications@, year, schedule) is None,
            Some(lines) => schedule_lines_spec(transactions@, classifications@, year, schedule) == Some(
                lines_view(lines@),
            ),
        },
{
    let mut lines: Vec<ScheduleLine> = Vec::new();
    let fbar = schedule == ScheduleKindRequest::Fbar;
    let mut i: usize = 0;
    assert(lines_view(lines@) =~= seq![]);
    while i < transactions.len()
        invariant
            i <= transactions@.len(),
            fbar == (schedule == ScheduleKindRequest::Fbar),
            forall|k: int| 0 <= k < lines@.len() ==> (#[trigger] lines@[k]).total.wf(),
            schedule_lines_spec(transactions@.take(i as int), classifications@, year, schedule) == Some(
                lines_view(lines@),
            ),
        decreases transactions@.len() - i,
    {
        assert(transactions@.take(i + 1).drop_last() =~= transactions@.take(i as int));
        assert(transactions@.take(i + 1).last() == transactions@[i as int]);
        match entry_of(&transactions[i], classifications, year, schedule) {
            None => {},
            Some((key, amount)) => {
                if !apply_to_lines(&mut lines, key, amount, fbar) {
                    proof {
                        lemma_lines_none_extends(transactions@, classifications@, year, schedule, i + 1);
                    }
                    return None;
                }
            },
        }
        i = i + 1;
    }
    assert(transactions@.take(transactions@.len() as int) =~= transactions@);
    Some(lines)
}

/// Once the lines of some transactions overflow, so do those of more.
proof fn lemma_lines_none_extends(
    ts: Seq<LedgerTransaction>,
    cs: Seq<StoredClassification>,
    year: i32,
    schedule: ScheduleKindRequest,
    k: int,
)
    requires
        0 <= k <= ts.len(),
        schedule_lines_spec(ts.take(k), cs, year, schedule) is None,
    ensures
        schedule_lines_spec(ts, cs, year, schedule) is None,
    decreases ts.len() - k,
{
    if k < ts.len() {
        assert(ts.take(k + 1).drop_last() =~= ts.take(k));
        lemma_lines_none_extends(ts, cs, year, schedule, k + 1);
    } else {
        assert(ts.take(k) =~= ts);
    }
}

/// Keys strictly ascending.
pub open spec fn keys_ascending(l: LinesView) -> bool {
    forall|i: int, j: int| 0 <= i < j < l.len() ==> text_lt(#[trigger] l[i].0, #[trigger] l[j].0)
}

/// Bringing an amount to a line keeps the keys ascending, and the keys are
/// those there were and the line's.
proof fn lemma_apply_entry(lines: LinesView, key: Seq<char>, amount: Dec, fbar: bool)
    requires
        keys_ascending(lines),
        apply_entry(lines, key, amount, fbar) is Some,
    ensures
        keys_ascending(apply_entry(lines, key, amount, fbar).unwrap()),
        forall|i: int|
            0 <= i < apply_entry(lines, key, amount, fbar).unwrap().len() ==> {
                let k = #[trigger] apply_entry(lines, key, amount, fbar).unwrap()[i].0;
                k == key || exists|j: int| 0 <= j < lines.len() && lines[j].0 == k
            },
    decreases lines.len(),
{
    let r = apply_entry(lines, key, amount, fbar).unwrap();
    if lines.len() == 0 {
    } else if lines[0].0 == key {
        assert forall|i: int| 0 <= i < r.len() implies {
            let k = #[trigger] r[i].0;
            k == key || exists|j: int| 0 <= j < lines.len() && lines[j].0 == k
        } by {
            if i > 0 {
                assert(r[i] == lines[i]);
            }
        }
        assert forall|i: int, j: int| 0 <= i < j < r.len() implies text_lt(#[trigger] r[i].0, #[trigger] r[j].0) by {
            assert(r[j].0 == lines[j].0);
            assert(r[i].0 == lines[i].0);
        }
    } else if text_lt(key, lines[0].0) {
        assert forall|i: int| 0 <= i < r.len() implies {
            let k = #[trigger] r[i].0;
            k == key || exists|j: int| 0 <= j < lines.len() && lines[j].0 == k
        } by {
            if i > 0 {
                assert(r[i] == lines[i - 1]);
            }
        }
        assert forall|i: int, j: int| 0 <= i < j < r.len() implies text_lt(#[trigger] r[i].0, #[trigger] r[j].0) by {
            assert(r[j] == lines[j - 1]);
            if i > 0 {
                assert(r[i] == lines[i - 1]);
            } else if j > 1 {
                lemma_text_lt_transitive(key, lines[0].0, lines[j - 1].0);
            }
        }
    } else {
        lemma_text_lt_total(key, lines[0].0);
        let rest = lines.drop_first();
        assert(keys_ascending(rest)) by {
            assert forall|i: int, j: int| 0 <= i < j < rest.len() implies text_lt(#[trigger] rest[i].0, #[trigger] rest[j].0) by {
                assert(rest[i] == lines[i + 1] && rest[j] == lines[j + 1]);
            }
        }
        lemma_apply_entry(rest, key, amount, fbar);
        let rr = apply_entry(rest, key, amount, fbar).unwrap();
        assert(r == seq![lines[0]] + rr);
        assert forall|i: int| 0 <= i < r.len() implies {
            let k = #[trigger] r[i].0;
            k == key || exists|j: int| 0 <= j < lines.len() && lines[j].0 == k
        } by {
            if i > 0 {
                assert(r[i] == rr[i - 1]);
                let k = rr[i - 1].0;
                if k != key {
                    let j = choose|j: int| 0 <= j < rest.len() && rest[j].0 == k;
                    assert(lines[j + 1].0 == k);
                }
            }
        }
        assert forall|i: int, j: int| 0 <= i < j < r.len() implies text_lt(#[trigger] r[i].0, #[trigger] r[j].0) by {
            if i > 0 {
                assert(r[i] == rr[i - 1] && r[j] == rr[j - 1]);
            } else {
                assert(r[j] == rr[j - 1]);
                let k = rr[j - 1].0;
                if k != key {
                    let q = choose|q: int| 0 <= q < rest.len() && rest[q].0 == k;
                    assert(lines[q + 1].0 == k);
                }
            }
        }
    }
}

/// The lines of a schedule have strictly ascending keys: each account or
/// category appears on one line only.
pub proof fn law_schedule_lines_ascending(
    ts: Seq<LedgerTransaction>,
    cs: Seq<StoredClassification>,
    year: i32,
    schedule: ScheduleKindRequest,
)
    requires
        schedule_lines_spec(ts, cs, year, schedule) is Some,
    ensures
        keys_ascending(schedule_lines_spec(ts, cs, year, schedule).unwrap()),
    decreases ts.len(),
{
    if ts.len() > 0 {
        law_schedule_lines_ascending(ts.drop_last(), cs, year, schedule);
        let lines = schedule_lines_spec(ts.drop_last(), cs, year, schedule).unwrap();
        match line_entry(ts.last(), cs, year, schedule) {
            None => {},
            Some((key, amount)) => {
                lemma_apply_entry(lines, key, amount, schedule == ScheduleKindRequest::Fbar);
            },
        }
    }
}

/// What a transaction brings to a schedule of a year: nothing where its date
/// is in another year or its amount (trimmed) is not a decimal; for FBAR its
/// amount on the line of its account; otherwise its amount on the line of
/// its stored category (`Uncategorized` where it has none), and only where
/// that category is reported on the schedule asked for.
pub proof fn law_line_entry_meaning(
    t: LedgerTransaction,
    cs: Seq<StoredClassification>,
    year: i32,
    schedule: ScheduleKindRequest,
)
    ensures
        derive_year_spec(t.date@) != year ==> line_entry(t, cs, year, schedule) is None,
        decimal_from_str(trim_spec(t.amount@)) is None ==> line_entry(t, cs, year, schedule) is None,
        (derive_year_spec(t.date@) == year && decimal_from_str(trim_spec(t.amount@)) is Some) ==> {
            let amount = decimal_from_str(trim_spec(t.amount@))->Some_0;
            let category = match classification_of(cs, t.tx_id@) {
                Some(c) => c.category@,
                None => "Uncategorized"@,
            };
            &&& schedule == ScheduleKindRequest::Fbar ==> line_entry(t, cs, year, schedule) == Some(
                (t.account_id@, amount),
            )
            &&& schedule != ScheduleKindRequest::Fbar ==> (line_entry(t, cs, year, schedule) is Some
                <==> schedule_for_category_spec(category) == Some(schedule))
            &&& (schedule != ScheduleKindRequest::Fbar && line_entry(t, cs, year, schedule) is Some)
                ==> line_entry(t, cs, year, schedule) == Some((category, amount))
        },
{
}

/// An FBAR line keeps the largest magnitude it has seen, starting from
/// zero; any other line adds the amount (exactly, where `rust_decimal` adds
/// exactly).
pub proof fn law_line_step_meaning(current: Dec, amount: Dec)
    ensures
        line_step(current, amount, true) matches Some(v) && v.v28() == if (Dec { negative: false, ..amount }).v28()
            > current.v28() {
            (Dec { negative: false, ..amount }).v28()
        } else {
            current.v28()
        },
        add_exact(current, amount) ==> (line_step(current, amount, false) matches Some(v) && v.v28()
            == current.v28() + amount.v28()),
{
}

} // verus!

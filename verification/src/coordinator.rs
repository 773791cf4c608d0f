//! Decisions of the durable run coordinator: budgets, attempts, retries and
//! handoffs, each a pure step over the durable status.

use vstd::prelude::*;
use vstd::string::*;

use crate::invocation::{category_of, failure_category, InvocationFailure, NormalizedInvocationResult, TokenUsage};
use crate::grant::{action_views, permits_spec, route_views, same_grant, ExecutionGrantV1, GrantLimits, GrantOperation};
use crate::handoff::{checkpoint_json, files_relative, same_draft, HandoffCheckpoint, HandoffDraft, HandoffError};
use crate::json::{push_text, utf8};
use crate::journal::{check_journal, is_terminal, journal_monotonic, next_event, RunJournalEventV2, RunJournalKindV2, RunPhaseV2};
use crate::health::HealthOutcomeV2;
use crate::ledger::{charged_of, dim, has_entry, marked_unknown, BudgetAmount, BudgetError, LedgerStatus, ReservationEntry};
use crate::util::{copy_opt_string, duplicate_all, first_problem, lemma_first_problem_at};
use crate::policy::ExecutionPolicyV2;
use crate::receipt::{RunReceiptDraftV2, RunReceiptReferenceV2, RunRequestRef, RunCandidateReceiptV2, RunConsumptionReceiptV2, RunDecisionReceiptV2, RunReservationKindV2, RunReservationReceiptV2, RunResultReceiptV2};
use crate::route::RouteRef;
use crate::run_model::{attempts_numbered, expected_number, RunAttemptV2, RunCoordinatorError, RunNextActionV2, RunStatusV2};
use crate::text::{decimal, decimal_string, hex_encode, hex_lower, is_blank, is_blank_text, is_safe_id, is_safe_identifier, sha256};

verus! {

/// The maximum reserved for one attempt: one request, the predicted tokens (at
/// least one) each way, and the task's timeout as wall time.
pub open spec fn attempt_amount(predicted_tokens: u64, timeout_seconds: u32) -> BudgetAmount {
    let tokens = if predicted_tokens == 0 { 1u64 } else { predicted_tokens };
    BudgetAmount {
        requests: 1,
        input_tokens: tokens,
        output_tokens: tokens,
        wall_time_ms: (timeout_seconds as u64 * 1000) as u64,
    }
}

/// Reservation made before each attempt of a request.
pub fn reservation_for(predicted_tokens: u64, timeout_seconds: u32) -> (a: BudgetAmount)
    ensures
        a == attempt_amount(predicted_tokens, timeout_seconds),
{
    let tokens = if predicted_tokens == 0 { 1 } else { predicted_tokens };
    let wall_time_ms = timeout_seconds as u64 * 1000;
    BudgetAmount { requests: 1, input_tokens: tokens, output_tokens: tokens, wall_time_ms }
}

/// Marker letter of a reservation kind inside its id.
pub open spec fn kind_letter(k: RunReservationKindV2) -> char {
    match k {
        RunReservationKindV2::Attempt => 'a',
        RunReservationKindV2::Wait => 'w',
    }
}

/// Reservation id: `r-`, the first 32 hex digits of the run id's SHA-256, the kind letter and the attempt.
pub open spec fn reservation_id_spec(run_id: Seq<char>, kind: RunReservationKindV2, attempt: u32) -> Seq<char> {
    seq!['r', '-'] + hex_lower(sha256(vstd::utf8::encode_utf8(run_id))).subrange(0, 32) + seq![kind_letter(kind)]
        + decimal(attempt as nat)
}

/// Deterministic reservation id of an attempt or wait of a run.
pub fn reservation_id(run_id: &str, kind: RunReservationKindV2, attempt: u32) -> (id: String)
    ensures
        id@ == reservation_id_spec(run_id@, kind, attempt),
        is_safe_id(id@),
{
    let bytes = run_id.as_bytes();
    let digest = crate::text::sha256_of(bytes);
    let hex = hex_encode(digest.as_slice());
    proof {
        crate::text::lemma_hex_lower_len(digest@);
        reveal_strlit("r-");
        reveal_strlit("a");
        reveal_strlit("w");
    }
    assert(hex.is_ascii()) by {
        assert forall|i: int| 0 <= i < hex@.len() implies '\0' <= #[trigger] hex@[i] <= '\u{7f}' by {
            assert(crate::text::is_lower_hex_char(hex@[i]));
        }
    }
    let head = hex.as_str().substring_ascii(0, 32);
    let mut id = String::from_str("r-");
    id.append(head);
    match kind {
        RunReservationKindV2::Attempt => id.append("a"),
        RunReservationKindV2::Wait => id.append("w"),
    }
    let n = decimal_string(attempt as u64);
    id.append(n.as_str());
    assert(id@ =~= reservation_id_spec(run_id@, kind, attempt));
    proof {
        crate::text::lemma_decimal_is_id(attempt as nat);
        assert(crate::text::pow10(10) == 10000000000) by {
            reveal_with_fuel(crate::text::pow10, 11);
        }
        crate::text::lemma_decimal_len(attempt as nat, 10);
        assert forall|i: int| 0 <= i < id@.len() implies #[trigger] crate::text::is_id_char(id@[i]) by {
            if i < 2 {
            } else if i < 34 {
                assert(id@[i] == hex@[i - 2]);
                assert(crate::text::is_lower_hex_char(hex@[i - 2]));
            } else if i == 34 {
            } else {
                assert(id@[i] == decimal(attempt as nat)[i - 35]);
            }
        }
    }
    id
}


fn invalid(message: &str) -> (e: RunCoordinatorError)
    ensures
        e matches RunCoordinatorError::Invalid(m) && m@ == message@,
{
    RunCoordinatorError::Invalid(String::from_str(message))
}

fn budget(message: &str) -> (e: RunCoordinatorError)
    ensures
        e matches RunCoordinatorError::Budget(m) && m@ == message@,
{
    RunCoordinatorError::Budget(String::from_str(message))
}

/// Two consumption receipts with the same contents.
pub open spec fn same_consumption(a: RunConsumptionReceiptV2, b: RunConsumptionReceiptV2) -> bool {
    a.id@ == b.id@ && a.amount == b.amount && a.known == b.known
}

/// Position of the first consumption with an id, or -1.
pub open spec fn first_consumption(cs: Seq<RunConsumptionReceiptV2>, id: Seq<char>) -> int
    decreases cs.len(),
{
    if cs.len() == 0 {
        -1
    } else {
        let f = first_consumption(cs.drop_last(), id);
        if f >= 0 {
            f
        } else if cs.last().id@ == id {
            cs.len() - 1
        } else {
            -1
        }
    }
}

proof fn lemma_first_consumption(cs: Seq<RunConsumptionReceiptV2>, id: Seq<char>)
    ensures
        -1 <= first_consumption(cs, id) < cs.len(),
        first_consumption(cs, id) >= 0 ==> cs[first_consumption(cs, id)].id@ == id,
        first_consumption(cs, id) >= 0 ==> forall|j: int| 0 <= j < first_consumption(cs, id) ==> #[trigger] cs[j].id@ != id,
        first_consumption(cs, id) < 0 ==> forall|j: int| 0 <= j < cs.len() ==> #[trigger] cs[j].id@ != id,
    decreases cs.len(),
{
    if cs.len() > 0 {
        let p = cs.drop_last();
        lemma_first_consumption(p, id);
        assert forall|j: int| 0 <= j < cs.len() - 1 implies #[trigger] cs[j] == p[j] by {}
        let f = first_consumption(p, id);
        if f >= 0 {
            assert(first_consumption(cs, id) == f);
            assert forall|j: int| 0 <= j < f implies #[trigger] cs[j].id@ != id by {
                assert(cs[j] == p[j]);
            }
        } else {
            assert forall|j: int| 0 <= j < cs.len() - 1 implies #[trigger] cs[j].id@ != id by {
                assert(cs[j] == p[j]);
            }
        }
    }
}

fn find_consumption(cs: &Vec<RunConsumptionReceiptV2>, id: &String) -> (r: Option<usize>)
    ensures
        r matches Some(k) ==> k == first_consumption(cs@, id@) && k < cs@.len() && cs@[k as int].id@ == id@,
        r is None ==> first_consumption(cs@, id@) < 0,
{
    proof {
        lemma_first_consumption(cs@, id@);
    }
    let mut i: usize = 0;
    while i < cs.len()
        invariant
            i <= cs@.len(),
            -1 <= first_consumption(cs@, id@) < cs@.len(),
            first_consumption(cs@, id@) >= 0 ==> cs@[first_consumption(cs@, id@)].id@ == id@,
            first_consumption(cs@, id@) >= 0 ==> forall|j: int| 0 <= j < first_consumption(cs@, id@) ==> #[trigger] cs@[j].id@ != id@,
            first_consumption(cs@, id@) < 0 ==> forall|j: int| 0 <= j < cs@.len() ==> #[trigger] cs@[j].id@ != id@,
            forall|j: int| 0 <= j < i ==> #[trigger] cs@[j].id@ != id@,
        decreases cs@.len() - i,
    {
        if cs[i].id == *id {
            proof {
                let f = first_consumption(cs@, id@);
                if f < 0 {
                    assert(cs@[i as int].id@ != id@);
                } else if f > i {
                    assert(cs@[i as int].id@ != id@);
                } else if f < i {
                    assert(cs@[f].id@ != id@);
                }
            }
            return Some(i);
        }
        i = i + 1;
    }
    proof {
        let f = first_consumption(cs@, id@);
        if f >= 0 {
            assert(cs@[f].id@ != id@);
        }
    }
    None
}

/// Records the consumption of a reservation once; the same consumption may be
/// recorded again, a different one for the same reservation is refused.
pub fn upsert_consumption(consumptions: &mut Vec<RunConsumptionReceiptV2>, c: RunConsumptionReceiptV2) -> (r: Result<(), RunCoordinatorError>)
    ensures
        ({
            let f = first_consumption(old(consumptions)@, c.id@);
            &&& f < 0 ==> r is Ok && final(consumptions)@ == old(consumptions)@.push(c)
            &&& f >= 0 ==> final(consumptions)@ == old(consumptions)@
            &&& f >= 0 ==> (r is Ok <==> same_consumption(old(consumptions)@[f], c))
        }),
        r matches Err(e) ==> (e matches RunCoordinatorError::Invalid(m) && m@ == "durable consumption changed"@),
{
    proof {
        reveal_strlit("durable consumption changed");
    }
    match find_consumption(consumptions, &c.id) {
        Some(k) => {
            let e = &consumptions[k];
            if e.amount != c.amount || e.known != c.known {
                return Err(invalid("durable consumption changed"));
            }
            Ok(())
        },
        None => {
            consumptions.push(c);
            Ok(())
        },
    }
}

/// Position of the first ledger entry with an id, or -1.
pub open spec fn first_entry(entries: Seq<ReservationEntry>, id: Seq<char>) -> int
    decreases entries.len(),
{
    if entries.len() == 0 {
        -1
    } else {
        let f = first_entry(entries.drop_last(), id);
        if f >= 0 {
            f
        } else if entries.last().id@ == id {
            entries.len() - 1
        } else {
            -1
        }
    }
}

proof fn lemma_first_entry(entries: Seq<ReservationEntry>, id: Seq<char>)
    ensures
        -1 <= first_entry(entries, id) < entries.len(),
        first_entry(entries, id) >= 0 ==> entries[first_entry(entries, id)].id@ == id,
        first_entry(entries, id) >= 0 ==> forall|j: int| 0 <= j < first_entry(entries, id) ==> #[trigger] entries[j].id@ != id,
        first_entry(entries, id) < 0 ==> forall|j: int| 0 <= j < entries.len() ==> #[trigger] entries[j].id@ != id,
    decreases entries.len(),
{
    if entries.len() > 0 {
        let p = entries.drop_last();
        lemma_first_entry(p, id);
        assert forall|j: int| 0 <= j < entries.len() - 1 implies #[trigger] entries[j] == p[j] by {}
        let f = first_entry(p, id);
        if f >= 0 {
            assert(first_entry(entries, id) == f);
            assert forall|j: int| 0 <= j < f implies #[trigger] entries[j].id@ != id by {
                assert(entries[j] == p[j]);
            }
        } else {
            assert forall|j: int| 0 <= j < entries.len() - 1 implies #[trigger] entries[j].id@ != id by {
                assert(entries[j] == p[j]);
            }
        }
    }
}

fn find_entry(entries: &Vec<ReservationEntry>, id: &String) -> (r: Option<usize>)
    ensures
        r matches Some(k) ==> k == first_entry(entries@, id@) && k < entries@.len() && entries@[k as int].id@ == id@,
        r is None ==> first_entry(entries@, id@) < 0,
{
    proof {
        lemma_first_entry(entries@, id@);
    }
    let mut i: usize = 0;
    while i < entries.len()
        invariant
            i <= entries@.len(),
            -1 <= first_entry(entries@, id@) < entries@.len(),
            first_entry(entries@, id@) >= 0 ==> entries@[first_entry(entries@, id@)].id@ == id@,
            first_entry(entries@, id@) >= 0 ==> forall|j: int| 0 <= j < first_entry(entries@, id@) ==> #[trigger] entries@[j].id@ != id@,
            first_entry(entries@, id@) < 0 ==> forall|j: int| 0 <= j < entries@.len() ==> #[trigger] entries@[j].id@ != id@,
            forall|j: int| 0 <= j < i ==> #[trigger] entries@[j].id@ != id@,
        decreases entries@.len() - i,
    {
        if entries[i].id == *id {
            proof {
                let f = first_entry(entries@, id@);
                if f < 0 {
                    assert(entries@[i as int].id@ != id@);
                } else if f > i {
                    assert(entries@[i as int].id@ != id@);
                } else if f < i {
                    assert(entries@[f].id@ != id@);
                }
            }
            return Some(i);
        }
        i = i + 1;
    }
    proof {
        let f = first_entry(entries@, id@);
        if f >= 0 {
            assert(entries@[f].id@ != id@);
        }
    }
    None
}

/// Every reservation of the run has an entry in the ledger.
pub open spec fn all_in_ledger(recs: Seq<RunReservationReceiptV2>, entries: Seq<ReservationEntry>) -> bool {
    forall|i: int| 0 <= i < recs.len() ==> first_entry(entries, (#[trigger] recs[i]).id@) >= 0
}

/// Sum of the run's reserved maxima in one dimension.
pub open spec fn run_reserved(recs: Seq<RunReservationReceiptV2>, d: int) -> int
    decreases recs.len(),
{
    if recs.len() == 0 {
        0
    } else {
        run_reserved(recs.drop_last(), d) + dim(recs.last().amount, d)
    }
}

/// Sum, in one dimension, of what the ledger charges for the run's reservations.
pub open spec fn run_charged(recs: Seq<RunReservationReceiptV2>, entries: Seq<ReservationEntry>, d: int) -> int
    decreases recs.len(),
{
    if recs.len() == 0 {
        0
    } else {
        run_charged(recs.drop_last(), entries, d) + dim(
            charged_of(entries[first_entry(entries, recs.last().id@)].reservation),
            d,
        )
    }
}

/// Both totals fit in `u64` in every dimension.
pub open spec fn run_totals_representable(recs: Seq<RunReservationReceiptV2>, entries: Seq<ReservationEntry>) -> bool {
    forall|d: int| 0 <= d < 4 ==> #[trigger] run_reserved(recs, d) <= u64::MAX && run_charged(recs, entries, d) <= u64::MAX
}

proof fn lemma_run_sums_prefix(recs: Seq<RunReservationReceiptV2>, entries: Seq<ReservationEntry>, k: int, d: int)
    requires
        0 <= k <= recs.len(),
        all_in_ledger(recs, entries),
    ensures
        run_reserved(recs.subrange(0, k), d) <= run_reserved(recs, d),
        run_charged(recs.subrange(0, k), entries, d) <= run_charged(recs, entries, d),
    decreases recs.len(),
{
    if recs.len() > 0 {
        let p = recs.drop_last();
        assert(all_in_ledger(p, entries)) by {
            assert forall|i: int| 0 <= i < p.len() implies first_entry(entries, (#[trigger] p[i]).id@) >= 0 by {
                assert(p[i] == recs[i]);
            }
        }
        lemma_first_entry(entries, recs.last().id@);
        assert(first_entry(entries, recs[recs.len() - 1].id@) >= 0);
        if k == recs.len() {
            assert(recs.subrange(0, k) =~= recs);
        } else {
            assert(p.subrange(0, k) =~= recs.subrange(0, k));
            lemma_run_sums_prefix(p, entries, k, d);
        }
    }
}

/// What stops the run's totals at reservation `i`: the ledger does not hold
/// it, or adding it overflows a dimension.
pub open spec fn budget_problem_at(recs: Seq<RunReservationReceiptV2>, entries: Seq<ReservationEntry>, i: int) -> Option<Seq<char>> {
    if first_entry(entries, recs[i].id@) < 0 {
        Some("ledger has no reservation '"@ + recs[i].id@ + "'"@)
    } else if exists|d: int| 0 <= d < 4 && (#[trigger] run_reserved(recs.subrange(0, i + 1), d) > u64::MAX
        || run_charged(recs.subrange(0, i + 1), entries, d) > u64::MAX) {
        Some("budget overflow"@)
    } else {
        None
    }
}

/// [`budget_problem_at`] at each position.
pub open spec fn budget_check(recs: Seq<RunReservationReceiptV2>, entries: Seq<ReservationEntry>) -> spec_fn(int) -> Option<Seq<char>> {
    |i: int| budget_problem_at(recs, entries, i)
}

/// The first reason the run's totals cannot be recomputed against a ledger, as its message.
pub open spec fn budget_problem(recs: Seq<RunReservationReceiptV2>, entries: Seq<ReservationEntry>) -> Option<Seq<char>> {
    first_problem(budget_check(recs, entries), recs.len() as int)
}

/// Recomputes what the run reserved and what the ledger charges for it.
pub fn refresh_budget(recs: &Vec<RunReservationReceiptV2>, ledger: &LedgerStatus) -> (r: Result<(BudgetAmount, BudgetAmount), RunCoordinatorError>)
    ensures
        r is Ok <==> all_in_ledger(recs@, ledger.reservations@) && run_totals_representable(recs@, ledger.reservations@),
        r matches Ok(t) ==> forall|d: int| 0 <= d < 4 ==> #[trigger] dim(t.0, d) == run_reserved(recs@, d)
            && dim(t.1, d) == run_charged(recs@, ledger.reservations@, d),
        r is Ok <==> budget_problem(recs@, ledger.reservations@) is None,
        r matches Err(e) ==> (e matches RunCoordinatorError::Budget(m) && Some(m@) == budget_problem(recs@, ledger.reservations@)),
{
    proof {
        reveal_strlit("ledger has no reservation '");
        reveal_strlit("'");
        reveal_strlit("budget overflow");
    }
    let ghost entries = ledger.reservations@;
    let ghost f = budget_check(recs@, entries);
    let mut total = BudgetAmount::zero();
    let mut consumed = BudgetAmount::zero();
    let mut i: usize = 0;
    while i < recs.len()
        invariant
            i <= recs@.len(),
            entries == ledger.reservations@,
            all_in_ledger(recs@.subrange(0, i as int), entries),
            forall|d: int| 0 <= d < 4 ==> #[trigger] dim(total, d) == run_reserved(recs@.subrange(0, i as int), d),
            forall|d: int| 0 <= d < 4 ==> #[trigger] dim(consumed, d) == run_charged(recs@.subrange(0, i as int), entries, d),
            f == budget_check(recs@, entries),
            first_problem(f, i as int) is None,
        decreases recs@.len() - i,
    {
        let ghost before = recs@.subrange(0, i as int);
        let ghost after = recs@.subrange(0, i + 1);
        assert(after.drop_last() =~= before);
        let rec = &recs[i];
        let k = match find_entry(&ledger.reservations, &rec.id) {
            Some(k) => k,
            None => {
                proof {
                    assert(!all_in_ledger(recs@, entries)) by {
                        assert(first_entry(entries, (recs@[i as int]).id@) < 0);
                    }
                    lemma_first_problem_at(f, i as int, recs@.len() as int);
                }
                let mut m = String::from_str("ledger has no reservation '");
                m.append(rec.id.as_str());
                m.append("'");
                return Err(RunCoordinatorError::Budget(m));
            },
        };
        proof {
            lemma_first_entry(entries, rec.id@);
        }
        let charged = ledger.reservations[k].reservation.charged();
        assert(all_in_ledger(after, entries)) by {
            assert forall|x: int| 0 <= x < after.len() implies first_entry(entries, (#[trigger] after[x]).id@) >= 0 by {
                if x < i {
                    assert(after[x] == before[x]);
                }
            }
        }
        match (total.checked_add(rec.amount), consumed.checked_add(charged)) {
            (Some(t), Some(c)) => {
                total = t;
                consumed = c;
            },
            (t, _) => {
                proof {
                    if t is None {
                        let d = choose|d: int| 0 <= d < 4 && #[trigger] dim(total, d) + dim(rec.amount, d) > u64::MAX;
                        if all_in_ledger(recs@, entries) {
                            lemma_run_sums_prefix(recs@, entries, i + 1, d);
                        }
                        assert(run_reserved(after, d) > u64::MAX);
                    } else {
                        let d = choose|d: int| 0 <= d < 4 && #[trigger] dim(consumed, d) + dim(charged, d) > u64::MAX;
                        if all_in_ledger(recs@, entries) {
                            lemma_run_sums_prefix(recs@, entries, i + 1, d);
                        }
                        assert(run_charged(after, entries, d) > u64::MAX);
                    }
                    lemma_first_problem_at(f, i as int, recs@.len() as int);
                }
                return Err(budget("budget overflow"));
            },
        }
        proof {
            assert forall|d: int| 0 <= d < 4 implies !(#[trigger] run_reserved(after, d) > u64::MAX
                || run_charged(after, entries, d) > u64::MAX) by {
                assert(dim(total, d) == run_reserved(after, d));
                assert(dim(consumed, d) == run_charged(after, entries, d));
            }
            assert(budget_problem_at(recs@, entries, i as int) is None);
            assert(first_problem(f, i + 1) is None);
        }
        i = i + 1;
    }
    assert(recs@.subrange(0, recs@.len() as int) =~= recs@);
    proof {
        assert forall|d: int| 0 <= d < 4 implies #[trigger] run_reserved(recs@, d) <= u64::MAX && run_charged(recs@, entries, d) <= u64::MAX by {
            assert(dim(total, d) == run_reserved(recs@, d));
            assert(dim(consumed, d) == run_charged(recs@, entries, d));
        }
    }
    Ok((total, consumed))
}

/// The run's totals agree with its reservations and with what the ledger charges for them.
pub open spec fn totals_match(s: RunStatusV2, ledger: LedgerStatus) -> bool {
    forall|d: int| 0 <= d < 4 ==> #[trigger] dim(s.total_reserved, d) == run_reserved(s.reservations@, d)
        && dim(s.consumed, d) == run_charged(s.reservations@, ledger.reservations@, d)
}

/// Recording `c` and recomputing the totals against `ledger` succeeds.
pub open spec fn settle_ok(s: RunStatusV2, ledger: LedgerStatus, c: RunConsumptionReceiptV2) -> bool {
    let f = first_consumption(s.consumptions@, c.id@);
    &&& f >= 0 ==> same_consumption(s.consumptions@[f], c)
    &&& all_in_ledger(s.reservations@, ledger.reservations@)
    &&& run_totals_representable(s.reservations@, ledger.reservations@)
}

/// What a failure of the coordinator says: whether it is a budget failure, and its text.
pub open spec fn fault(e: RunCoordinatorError) -> Option<(bool, Seq<char>)> {
    match e {
        RunCoordinatorError::Invalid(m) => Some((false, m@)),
        RunCoordinatorError::Budget(m) => Some((true, m@)),
        _ => None,
    }
}

/// Why recording `c` and recomputing the totals against `ledger` fails: a
/// different consumption of the same reservation, or the totals themselves.
pub open spec fn settle_problem(s: RunStatusV2, ledger: LedgerStatus, c: RunConsumptionReceiptV2) -> Option<(bool, Seq<char>)> {
    let f = first_consumption(s.consumptions@, c.id@);
    if f >= 0 && !same_consumption(s.consumptions@[f], c) {
        Some((false, "durable consumption changed"@))
    } else {
        match budget_problem(s.reservations@, ledger.reservations@) {
            Some(m) => Some((true, m)),
            None => None,
        }
    }
}

/// The consumptions after recording `c` once.
pub open spec fn with_consumption(cs: Seq<RunConsumptionReceiptV2>, c: RunConsumptionReceiptV2) -> Seq<RunConsumptionReceiptV2> {
    if first_consumption(cs, c.id@) < 0 { cs.push(c) } else { cs }
}

/// Records a consumption and recomputes what the run reserved and consumed.
fn settle(status: &mut RunStatusV2, ledger: &LedgerStatus, c: RunConsumptionReceiptV2) -> (r: Result<(), RunCoordinatorError>)
    ensures
        r is Ok <==> settle_ok(*old(status), *ledger, c),
        r matches Err(e) ==> fault(e) == settle_problem(*old(status), *ledger, c),
        r is Ok <==> settle_problem(*old(status), *ledger, c) is None,
        r is Ok ==> final(status).consumptions@ == with_consumption(old(status).consumptions@, c),
        r is Ok ==> totals_match(*final(status), *ledger),
        r is Ok ==> *final(status) == (RunStatusV2 {
            consumptions: final(status).consumptions,
            total_reserved: final(status).total_reserved,
            consumed: final(status).consumed,
            ..*old(status)
        }),
{
    upsert_consumption(&mut status.consumptions, c)?;
    let (total, consumed) = refresh_budget(&status.reservations, ledger)?;
    status.total_reserved = total;
    status.consumed = consumed;
    assert forall|d: int| 0 <= d < 4 implies #[trigger] dim(status.total_reserved, d) == run_reserved(status.reservations@, d)
        && dim(status.consumed, d) == run_charged(status.reservations@, ledger.reservations@, d) by {
        assert(dim(total, d) == run_reserved(status.reservations@, d));
        assert(dim(consumed, d) == run_charged(status.reservations@, ledger.reservations@, d));
    }
    assert(totals_match(*status, *ledger));
    Ok(())
}

/// What a known result charges: one request, the observed tokens and the latency.
pub open spec fn actual_amount(result: NormalizedInvocationResult) -> BudgetAmount {
    BudgetAmount {
        requests: 1,
        input_tokens: result.usage.input_tokens,
        output_tokens: result.usage.output_tokens,
        wall_time_ms: result.latency_ms,
    }
}

/// Result receipt of a known result.
pub open spec fn known_receipt(number: u32, route: RouteRef, result: NormalizedInvocationResult) -> RunResultReceiptV2 {
    RunResultReceiptV2 {
        attempt: number as u64,
        route,
        output: if result.failure is None { Some(result.output) } else { None },
        usage: result.usage,
        latency_ms: result.latency_ms,
        provenance: result.provenance,
        provider_manifest_hash: result.manifest_hash,
        failure: result.failure,
        outcome_unknown: false,
    }
}

/// Phase after a known result.
pub open spec fn known_phase(result: NormalizedInvocationResult) -> RunPhaseV2 {
    if result.failure is None { RunPhaseV2::Completed } else { RunPhaseV2::AttemptFailed }
}

/// Journal kind of a known result.
pub open spec fn known_kind(result: NormalizedInvocationResult) -> RunJournalKindV2 {
    if result.failure is None { RunJournalKindV2::InvocationSucceeded } else { RunJournalKindV2::InvocationFailed }
}

/// The run after a known result was applied: the consumption recorded, the
/// totals recomputed against the ledger, the result receipt appended, the
/// attempt closed, and the phase and journal those of the result.
pub open spec fn known_applied(
    s0: RunStatusV2,
    s1: RunStatusV2,
    ledger: LedgerStatus,
    reservation_id: String,
    number: u32,
    result: NormalizedInvocationResult,
    now_ms: u64,
) -> bool {
    let c = RunConsumptionReceiptV2 { id: reservation_id, amount: actual_amount(result), known: true };
    let route = s0.route->0;
    &&& s1.consumptions@ == with_consumption(s0.consumptions@, c)
    &&& totals_match(s1, ledger)
    &&& s1.results@ == s0.results@.push(known_receipt(number, route, result))
    &&& s1.attempts@ == s0.attempts@.drop_last().push(RunAttemptV2 {
        finished_at_ms: Some(now_ms),
        failure: result.failure,
        provider_manifest_hash: result.manifest_hash,
        ..s0.attempts@.last()
    })
    &&& s1.failure == result.failure
    &&& s1.output == (if result.failure is None { Some(result.output) } else { None })
    &&& s1.phase == known_phase(result)
    &&& s1.journal@ == s0.journal@.push(next_event(s0.journal@.len(), now_ms, known_kind(result), Some(route)))
    &&& s1 == (RunStatusV2 {
        consumptions: s1.consumptions,
        total_reserved: s1.total_reserved,
        consumed: s1.consumed,
        results: s1.results,
        attempts: s1.attempts,
        failure: s1.failure,
        output: s1.output,
        phase: s1.phase,
        journal: s1.journal,
        ..s0
    })
}

/// Closes the current attempt with a result the harness reported, after the
/// ledger confirmed the actual charge of its reservation.
pub fn apply_known_result(
    status: &mut RunStatusV2,
    ledger: &LedgerStatus,
    reservation_id: String,
    number: u32,
    result: NormalizedInvocationResult,
    now_ms: u64,
) -> (r: Result<(), RunCoordinatorError>)
    ensures
        ({
            let c = RunConsumptionReceiptV2 { id: reservation_id, amount: actual_amount(result), known: true };
            r is Ok <==> settle_ok(*old(status), *ledger, c) && old(status).route is Some && old(status).attempts@.len() > 0
        }),
        r matches Err(e) ==> ({
            let c = RunConsumptionReceiptV2 { id: reservation_id, amount: actual_amount(result), known: true };
            fault(e) == if settle_problem(*old(status), *ledger, c) is Some {
                settle_problem(*old(status), *ledger, c)
            } else if old(status).route is None {
                Some((false, "known result has no route"@))
            } else {
                Some((false, "known result has no attempt"@))
            }
        }),
        r is Ok ==> known_applied(*old(status), *final(status), *ledger, reservation_id, number, result, now_ms),
{
    let actual = BudgetAmount {
        requests: 1,
        input_tokens: result.usage.input_tokens,
        output_tokens: result.usage.output_tokens,
        wall_time_ms: result.latency_ms,
    };
    proof {
        reveal_strlit("known result has no route");
        reveal_strlit("known result has no attempt");
    }
    let c = RunConsumptionReceiptV2 { id: reservation_id, amount: actual, known: true };
    settle(status, ledger, c)?;
    let route = match &status.route {
        Some(route) => route.clone(),
        None => {
            return Err(RunCoordinatorError::Invalid(String::from_str("known result has no route")));
        },
    };
    if status.attempts.len() == 0 {
        return Err(RunCoordinatorError::Invalid(String::from_str("known result has no attempt")));
    }
    let failure = result.failure;
    let output = if failure.is_none() { Some(result.output.clone()) } else { None };
    status.results.push(RunResultReceiptV2 {
        attempt: number as u64,
        route: route.clone(),
        output,
        usage: result.usage,
        latency_ms: result.latency_ms,
        provenance: copy_opt_string(&result.provenance),
        provider_manifest_hash: copy_opt_string(&result.manifest_hash),
        failure,
        outcome_unknown: false,
    });
    let mut attempt = status.attempts.pop().unwrap();
    attempt.finished_at_ms = Some(now_ms);
    attempt.failure = failure;
    attempt.provider_manifest_hash = result.manifest_hash;
    status.attempts.push(attempt);
    status.failure = failure;
    if failure.is_none() {
        status.output = Some(result.output);
        status.phase = RunPhaseV2::Completed;
        status.push(now_ms, RunJournalKindV2::InvocationSucceeded, Some(route));
    } else {
        status.output = None;
        status.phase = RunPhaseV2::AttemptFailed;
        status.push(now_ms, RunJournalKindV2::InvocationFailed, Some(route));
    }
    Ok(())
}

/// Result receipt of an invocation whose outcome is unknown: nothing observed,
/// the whole reserved wall time assumed.
pub open spec fn unknown_receipt(a: RunAttemptV2) -> RunResultReceiptV2 {
    RunResultReceiptV2 {
        attempt: a.number as u64,
        route: a.route,
        output: None,
        usage: TokenUsage { input_tokens: 0, output_tokens: 0 },
        latency_ms: a.reserved.wall_time_ms,
        provenance: None,
        provider_manifest_hash: None,
        failure: None,
        outcome_unknown: true,
    }
}

/// The run after an unknown outcome was applied: the whole reservation kept
/// as consumed, the totals recomputed against the ledger, an ambiguous result
/// receipt appended, the attempt closed, and the run ended with no pending action.
pub open spec fn unknown_applied(s0: RunStatusV2, s1: RunStatusV2, ledger: LedgerStatus, now_ms: u64) -> bool {
    let a = s0.attempts@.last();
    let c = RunConsumptionReceiptV2 { id: a.reservation_id, amount: a.reserved, known: false };
    &&& s1.consumptions@ == with_consumption(s0.consumptions@, c)
    &&& totals_match(s1, ledger)
    &&& s1.results@ == s0.results@.push(unknown_receipt(a))
    &&& s1.attempts@ == s0.attempts@.drop_last().push(RunAttemptV2 {
        finished_at_ms: Some(now_ms),
        outcome_unknown: true,
        ..a
    })
    &&& s1.phase == RunPhaseV2::OutcomeUnknown
    &&& s1.outcome_unknown
    &&& s1.next_action is None
    &&& s1.next_action_at is None
    &&& s1.output is None
    &&& s1.failure is None
    &&& s1.journal@ == s0.journal@.push(next_event(s0.journal@.len(), now_ms, RunJournalKindV2::OutcomeUnknown, Some(a.route)))
    &&& s1 == (RunStatusV2 {
        consumptions: s1.consumptions,
        total_reserved: s1.total_reserved,
        consumed: s1.consumed,
        results: s1.results,
        attempts: s1.attempts,
        phase: s1.phase,
        outcome_unknown: s1.outcome_unknown,
        next_action: s1.next_action,
        next_action_at: s1.next_action_at,
        output: s1.output,
        failure: s1.failure,
        journal: s1.journal,
        ..s0
    })
}

/// Closes the current attempt as ambiguous, after the ledger kept its whole
/// reservation charged: the run ends without retry or fallback.
pub fn apply_unknown_result(status: &mut RunStatusV2, ledger: &LedgerStatus, now_ms: u64) -> (r: Result<(), RunCoordinatorError>)
    ensures
        r is Ok <==> old(status).attempts@.len() > 0 && ({
            let a = old(status).attempts@.last();
            settle_ok(*old(status), *ledger, RunConsumptionReceiptV2 { id: a.reservation_id, amount: a.reserved, known: false })
        }),
        r matches Err(e) ==> fault(e) == if old(status).attempts@.len() == 0 {
            Some((false, "ambiguous result has no attempt"@))
        } else {
            let a = old(status).attempts@.last();
            settle_problem(*old(status), *ledger, RunConsumptionReceiptV2 { id: a.reservation_id, amount: a.reserved, known: false })
        },
        r is Ok ==> unknown_applied(*old(status), *final(status), *ledger, now_ms),
{
    proof {
        reveal_strlit("ambiguous result has no attempt");
    }
    if status.attempts.len() == 0 {
        return Err(RunCoordinatorError::Invalid(String::from_str("ambiguous result has no attempt")));
    }
    let last = status.attempts.len() - 1;
    let reservation_id = status.attempts[last].reservation_id.clone();
    let reserved = status.attempts[last].reserved;
    let number = status.attempts[last].number;
    let route = status.attempts[last].route.clone();
    let c = RunConsumptionReceiptV2 { id: reservation_id, amount: reserved, known: false };
    settle(status, ledger, c)?;
    status.results.push(RunResultReceiptV2 {
        attempt: number as u64,
        route: route.clone(),
        output: None,
        usage: TokenUsage { input_tokens: 0, output_tokens: 0 },
        latency_ms: reserved.wall_time_ms,
        provenance: None,
        provider_manifest_hash: None,
        failure: None,
        outcome_unknown: true,
    });
    let mut attempt = status.attempts.pop().unwrap();
    attempt.finished_at_ms = Some(now_ms);
    attempt.outcome_unknown = true;
    status.attempts.push(attempt);
    status.phase = RunPhaseV2::OutcomeUnknown;
    status.outcome_unknown = true;
    status.next_action = None;
    status.next_action_at = None;
    status.output = None;
    status.failure = None;
    status.push(now_ms, RunJournalKindV2::OutcomeUnknown, Some(route));
    Ok(())
}

/// The next outside step of a run whose invocation has ended.
#[derive(Debug, Clone, PartialEq, Eq)]
pub enum FinishAction {
    /// Ask the ledger to mark this reservation's outcome unknown; its answer
    /// goes to [`finish_unknown_step`].
    MarkOutcomeUnknown {
        /// Reservation of the current attempt.
        reservation_id: String,
    },
    /// Save the run, then record this observation in the route's health; then
    /// [`health_recorded_step`].
    RecordHealth {
        /// Route invoked.
        route: RouteRef,
        /// What the observation says.
        outcome: HealthOutcomeV2,
        /// Latency observed, or the whole reserved wall time when unknown.
        latency_ms: u64,
    },
}

/// The health outcome of a known result: success when it carries no failure.
pub open spec fn known_outcome(result: NormalizedInvocationResult) -> HealthOutcomeV2 {
    if result.failure is None { HealthOutcomeV2::KnownSuccess } else { HealthOutcomeV2::KnownFailure }
}

/// Finishes an invocation whose result the harness reported, given the
/// ledger's answer to confirming its actual charge. A refused confirmation
/// leaves the run as it is and turns to the unknown-outcome path: mark the
/// current attempt's reservation unknown. An accepted one applies the result
/// and asks to record a known success or failure in the route's health.
pub fn finish_known_step(
    status: &mut RunStatusV2,
    confirmation: &Result<LedgerStatus, BudgetError>,
    reservation_id: String,
    number: u32,
    result: NormalizedInvocationResult,
    now_ms: u64,
) -> (r: Result<FinishAction, RunCoordinatorError>)
    ensures
        confirmation is Err ==> *final(status) == *old(status),
        confirmation is Err ==> (r is Ok <==> old(status).attempts@.len() > 0),
        confirmation is Err ==> (r matches Err(e) ==> fault(e) == Some((false, "ambiguous result has no attempt"@))),
        confirmation is Err ==> (r matches Ok(a) ==> (a matches FinishAction::MarkOutcomeUnknown { reservation_id: id }
            && id@ == old(status).attempts@.last().reservation_id@)),
        confirmation matches Ok(l) ==> ({
            let c = RunConsumptionReceiptV2 { id: reservation_id, amount: actual_amount(result), known: true };
            r is Ok <==> settle_ok(*old(status), *l, c) && old(status).route is Some && old(status).attempts@.len() > 0
        }),
        confirmation matches Ok(l) ==> (r matches Err(e) ==> ({
            let c = RunConsumptionReceiptV2 { id: reservation_id, amount: actual_amount(result), known: true };
            fault(e) == if settle_problem(*old(status), *l, c) is Some {
                settle_problem(*old(status), *l, c)
            } else if old(status).route is None {
                Some((false, "known result has no route"@))
            } else {
                Some((false, "known result has no attempt"@))
            }
        })),
        confirmation matches Ok(l) ==> (r matches Ok(a) ==> known_applied(*old(status), *final(status), *l, reservation_id, number, result, now_ms)
            && a == (FinishAction::RecordHealth { route: old(status).route->0, outcome: known_outcome(result), latency_ms: result.latency_ms })),
{
    match confirmation {
        Err(_) => {
            proof {
                reveal_strlit("ambiguous result has no attempt");
            }
            if status.attempts.len() == 0 {
                return Err(RunCoordinatorError::Invalid(String::from_str("ambiguous result has no attempt")));
            }
            let id = status.attempts[status.attempts.len() - 1].reservation_id.clone();
            Ok(FinishAction::MarkOutcomeUnknown { reservation_id: id })
        },
        Ok(ledger) => {
            let latency_ms = result.latency_ms;
            let outcome = if result.failure.is_none() { HealthOutcomeV2::KnownSuccess } else { HealthOutcomeV2::KnownFailure };
            apply_known_result(status, ledger, reservation_id, number, result, now_ms)?;
            match &status.route {
                Some(route) => Ok(FinishAction::RecordHealth { route: route.clone(), outcome, latency_ms }),
                None => Err(RunCoordinatorError::Invalid(String::from_str("known result has no route"))),
            }
        },
    }
}

/// Finishes an invocation whose outcome is unknown, once the ledger has marked
/// the current attempt's reservation so: applies the ambiguous result and asks
/// to record an ambiguous observation, with the whole reserved wall time, in
/// the route's health.
pub fn finish_unknown_step(status: &mut RunStatusV2, ledger: &LedgerStatus, now_ms: u64) -> (r: Result<FinishAction, RunCoordinatorError>)
    requires
        old(status).attempts@.len() > 0 ==> marked_unknown(ledger.reservations@, old(status).attempts@.last().reservation_id@),
    ensures
        r is Ok <==> old(status).attempts@.len() > 0 && ({
            let a = old(status).attempts@.last();
            settle_ok(*old(status), *ledger, RunConsumptionReceiptV2 { id: a.reservation_id, amount: a.reserved, known: false })
        }),
        r matches Err(e) ==> fault(e) == if old(status).attempts@.len() == 0 {
            Some((false, "ambiguous result has no attempt"@))
        } else {
            let a = old(status).attempts@.last();
            settle_problem(*old(status), *ledger, RunConsumptionReceiptV2 { id: a.reservation_id, amount: a.reserved, known: false })
        },
        r matches Ok(x) ==> unknown_applied(*old(status), *final(status), *ledger, now_ms) && x == (FinishAction::RecordHealth {
            route: old(status).attempts@.last().route,
            outcome: HealthOutcomeV2::Ambiguous,
            latency_ms: old(status).attempts@.last().reserved.wall_time_ms,
        }),
{
    let a = if status.attempts.len() > 0 {
        let last = &status.attempts[status.attempts.len() - 1];
        Some((last.route.clone(), last.reserved.wall_time_ms))
    } else {
        None
    };
    apply_unknown_result(status, ledger, now_ms)?;
    match a {
        Some((route, latency_ms)) => Ok(FinishAction::RecordHealth { route, outcome: HealthOutcomeV2::Ambiguous, latency_ms }),
        None => Err(RunCoordinatorError::Invalid(String::from_str("ambiguous result has no attempt"))),
    }
}

/// After the observation of the current attempt was recorded in the route's
/// health: marks it so and gives what comes next, the receipt of a run that
/// ended or the recovery of a known failure.
pub fn health_recorded_step(status: &mut RunStatusV2) -> (step: ResumeStep)
    ensures
        old(status).attempts@.len() > 0 ==> final(status).attempts@ == old(status).attempts@.drop_last().push(
            RunAttemptV2 { health_recorded: true, ..old(status).attempts@.last() },
        ),
        *final(status) == (RunStatusV2 { attempts: final(status).attempts, ..*old(status) }),
        step == resume_step_spec(old(status).phase, old(status).next_action is Some),
{
    mark_health_recorded(status);
    resume_step(status)
}

/// Law: once its health is recorded, a run whose known result succeeded goes
/// on to seal its receipt, one whose known result failed goes on to recover,
/// and one whose outcome is unknown seals its receipt without any retry.
pub proof fn law_finish_continues(
    s0: RunStatusV2,
    s1: RunStatusV2,
    ledger: LedgerStatus,
    reservation_id: String,
    number: u32,
    result: NormalizedInvocationResult,
    now_ms: u64,
)
    ensures
        known_applied(s0, s1, ledger, reservation_id, number, result, now_ms) ==> resume_step_spec(s1.phase, s1.next_action is Some)
            == if result.failure is None { ResumeStep::FinalizeReceipt } else { ResumeStep::RecoverKnownFailure },
        unknown_applied(s0, s1, ledger, now_ms) ==> resume_step_spec(s1.phase, s1.next_action is Some) == ResumeStep::FinalizeReceipt
            && s1.next_action is None,
{
}

/// Marks the health observation of the current attempt as published.
pub fn mark_health_recorded(status: &mut RunStatusV2)
    ensures
        old(status).attempts@.len() > 0 ==> final(status).attempts@ == old(status).attempts@.drop_last().push(
            RunAttemptV2 { health_recorded: true, ..old(status).attempts@.last() },
        ),
        old(status).attempts@.len() == 0 ==> final(status).attempts@ == old(status).attempts@,
        *final(status) == (RunStatusV2 { attempts: final(status).attempts, ..*old(status) }),
{
    if status.attempts.len() > 0 {
        let mut attempt = status.attempts.pop().unwrap();
        attempt.health_recorded = true;
        status.attempts.push(attempt);
    }
}

/// The candidate list already holds this exact candidate.
pub open spec fn candidate_listed(cs: Seq<RunCandidateReceiptV2>, c: RunCandidateReceiptV2) -> bool {
    exists|i: int| 0 <= i < cs.len() && #[trigger] cs[i].route@ == c.route@ && cs[i].action@ == c.action@
        && cs[i].candidate_hash@ == c.candidate_hash@
}

/// The candidates after adding `c` once.
pub open spec fn with_candidate(cs: Seq<RunCandidateReceiptV2>, c: RunCandidateReceiptV2) -> Seq<RunCandidateReceiptV2> {
    if candidate_listed(cs, c) { cs } else { cs.push(c) }
}

/// Adds a candidate unless the same candidate is already listed.
fn add_candidate(cs: &mut Vec<RunCandidateReceiptV2>, c: RunCandidateReceiptV2)
    ensures
        final(cs)@ == with_candidate(old(cs)@, c),
{
    let mut i: usize = 0;
    while i < cs.len()
        invariant
            i <= cs@.len(),
            cs@ == old(cs)@,
            forall|j: int| 0 <= j < i ==> !(#[trigger] cs@[j].route@ == c.route@ && cs@[j].action@ == c.action@
                && cs@[j].candidate_hash@ == c.candidate_hash@),
        decreases cs@.len() - i,
    {
        if cs[i].route.same_as(&c.route) && cs[i].action == c.action && cs[i].candidate_hash == c.candidate_hash {
            assert(candidate_listed(cs@, c));
            return;
        }
        i = i + 1;
    }
    cs.push(c);
}

/// The attempt planned as number `number` of a run.
pub open spec fn planned_attempt(s: RunStatusV2, number: u32, route: RouteRef, manifest_hash: String, candidate_hash: String) -> RunAttemptV2 {
    RunAttemptV2 {
        number,
        route,
        state_manifest_hash: manifest_hash,
        candidate_hash,
        provider_manifest_hash: None,
        reservation_id: s.id,
        reserved: attempt_amount(s.request.predicted_tokens, s.request.timeout_seconds),
        started_at_ms: None,
        finished_at_ms: None,
        failure: None,
        outcome_unknown: false,
        health_recorded: false,
    }
}

/// Plans the next attempt of a run on the route a selection returned, within
/// the attempt limit of its execution policy.
pub fn append_attempt(status: &mut RunStatusV2, route: RouteRef, manifest_hash: String, candidate_hash: String, now_ms: u64) -> (r: Result<(), RunCoordinatorError>)
    ensures
        r is Ok <==> old(status).attempts@.len() + 1 <= old(status).execution_policy.max_attempts,
        r matches Err(e) ==> *final(status) == *old(status) && fault(e) == Some((false,
            if old(status).attempts@.len() >= 4294967295 { "attempt overflow"@ } else { "execution policy attempt limit reached"@ })),
        r is Ok ==> ({
            let s0 = *old(status);
            let s1 = *final(status);
            let number = (s0.attempts@.len() + 1) as u32;
            let c = RunCandidateReceiptV2 { route, action: s0.request.action, candidate_hash };
            &&& s1.candidates@ == with_candidate(s0.candidates@, c)
            &&& s1.decisions@ == s0.decisions@.push(RunDecisionReceiptV2 {
                attempt: number as u64,
                manifest_hash,
                route,
                candidate_hash,
            })
            &&& s1.attempts@.len() == s0.attempts@.len() + 1
            &&& s1.attempts@.drop_last() == s0.attempts@
            &&& s1.attempts@.last() == (RunAttemptV2 {
                reservation_id: s1.attempts@.last().reservation_id,
                ..planned_attempt(s0, number, route, manifest_hash, candidate_hash)
            })
            &&& s1.attempts@.last().reservation_id@ == reservation_id_spec(s0.id@, RunReservationKindV2::Attempt, number)
            &&& s1.route == Some(route)
            &&& s1.phase == RunPhaseV2::Planned
            &&& s1.journal@ == s0.journal@.push(next_event(s0.journal@.len(), now_ms, RunJournalKindV2::Planned, Some(route)))
            &&& s1 == (RunStatusV2 {
                candidates: s1.candidates,
                decisions: s1.decisions,
                attempts: s1.attempts,
                route: s1.route,
                phase: s1.phase,
                journal: s1.journal,
                ..s0
            })
        }),
{
    proof {
        reveal_strlit("attempt overflow");
        reveal_strlit("execution policy attempt limit reached");
    }
    let count = status.attempts.len();
    if count >= 4294967295 {
        return Err(RunCoordinatorError::Invalid(String::from_str("attempt overflow")));
    }
    if count as u32 + 1 > status.execution_policy.max_attempts {
        return Err(RunCoordinatorError::Invalid(String::from_str("execution policy attempt limit reached")));
    }
    let number: u32 = count as u32 + 1;
    let amount = reservation_for(status.request.predicted_tokens, status.request.timeout_seconds);
    let candidate = RunCandidateReceiptV2 {
        route: route.clone(),
        action: status.request.action.clone(),
        candidate_hash: candidate_hash.clone(),
    };
    add_candidate(&mut status.candidates, candidate);
    status.decisions.push(RunDecisionReceiptV2 {
        attempt: number as u64,
        manifest_hash: manifest_hash.clone(),
        route: route.clone(),
        candidate_hash: candidate_hash.clone(),
    });
    let reservation = reservation_id(status.id.as_str(), RunReservationKindV2::Attempt, number);
    status.attempts.push(RunAttemptV2 {
        number,
        route: route.clone(),
        state_manifest_hash: manifest_hash,
        candidate_hash,
        provider_manifest_hash: None,
        reservation_id: reservation,
        reserved: amount,
        started_at_ms: None,
        finished_at_ms: None,
        failure: None,
        outcome_unknown: false,
        health_recorded: false,
    });
    assert(status.attempts@.drop_last() =~= old(status).attempts@);
    status.route = Some(route.clone());
    status.phase = RunPhaseV2::Planned;
    status.push(now_ms, RunJournalKindV2::Planned, Some(route));
    Ok(())
}

/// The wait and due instant of a retry on the same route, when the last known
/// failure allows one: an observed `Retry-After` that is positive, within the
/// policy, with attempts left and a due instant that leaves the whole next
/// attempt before the run's deadline.
pub open spec fn retry_window_spec(s: RunStatusV2, now_ms: u64) -> Option<(u64, u64)> {
    match s.failure {
        Some(InvocationFailure::RateLimited { retry_after_ms: Some(wait_ms) }) => {
            let due = now_ms.saturating_add(wait_ms);
            let wall = attempt_amount(s.request.predicted_tokens, s.request.timeout_seconds).wall_time_ms;
            if wait_ms > 0 && wait_ms <= s.execution_policy.max_retry_after_ms
                && s.attempts@.len() < s.execution_policy.max_attempts
                && due.saturating_add(wall) <= s.deadline_at_ms {
                Some((wait_ms, due))
            } else {
                None
            }
        },
        _ => None,
    }
}

/// Decides whether a known failure may be retried on the same route, and when.
pub fn retry_window(status: &RunStatusV2, now_ms: u64) -> (r: Result<Option<(u64, u64)>, RunCoordinatorError>)
    ensures
        r is Err <==> status.failure is None,
        r matches Err(e) ==> fault(e) == Some((false, "failed attempt has no failure"@)),
        r matches Ok(w) ==> w == retry_window_spec(*status, now_ms),
{
    proof {
        reveal_strlit("failed attempt has no failure");
    }
    let failure = match status.failure {
        Some(f) => f,
        None => {
            return Err(RunCoordinatorError::Invalid(String::from_str("failed attempt has no failure")));
        },
    };
    match failure {
        InvocationFailure::RateLimited { retry_after_ms: Some(wait_ms) } => {
            let due = now_ms.saturating_add(wait_ms);
            let amount = reservation_for(status.request.predicted_tokens, status.request.timeout_seconds);
            if wait_ms > 0 && wait_ms <= status.execution_policy.max_retry_after_ms
                && status.attempts.len() < status.execution_policy.max_attempts as usize
                && due.saturating_add(amount.wall_time_ms) <= status.deadline_at_ms {
                Ok(Some((wait_ms, due)))
            } else {
                Ok(None)
            }
        },
        _ => Ok(None),
    }
}

/// Reservation of the wall time of a retry wait.
pub open spec fn wait_amount(wait_ms: u64) -> BudgetAmount {
    BudgetAmount { requests: 0, input_tokens: 0, output_tokens: 0, wall_time_ms: wait_ms }
}

/// The two reservations of a retry: the wait, then the attempt that follows it.
pub open spec fn retry_pair(wait_id: String, wait_ms: u64, a: RunAttemptV2) -> Seq<RunReservationReceiptV2> {
    seq![
        RunReservationReceiptV2 { id: wait_id, kind: RunReservationKindV2::Wait, amount: wait_amount(wait_ms) },
        RunReservationReceiptV2 { id: a.reservation_id, kind: RunReservationKindV2::Attempt, amount: a.reserved },
    ]
}

fn reservation_pair(wait_id: String, wait_ms: u64, attempt_id: String, attempt_amount: BudgetAmount) -> (v: Vec<RunReservationReceiptV2>)
    ensures
        v@.len() == 2,
        v@[0] == (RunReservationReceiptV2 { id: wait_id, kind: RunReservationKindV2::Wait, amount: wait_amount(wait_ms) }),
        v@[1] == (RunReservationReceiptV2 { id: attempt_id, kind: RunReservationKindV2::Attempt, amount: attempt_amount }),
{
    let mut v = Vec::new();
    v.push(RunReservationReceiptV2 {
        id: wait_id,
        kind: RunReservationKindV2::Wait,
        amount: BudgetAmount { requests: 0, input_tokens: 0, output_tokens: 0, wall_time_ms: wait_ms },
    });
    v.push(RunReservationReceiptV2 { id: attempt_id, kind: RunReservationKindV2::Attempt, amount: attempt_amount });
    v
}

/// Reservations to request for a retry planned as the run's last attempt.
pub fn retry_reservations_for(status: &RunStatusV2, wait_ms: u64) -> (r: Option<Vec<RunReservationReceiptV2>>)
    ensures
        r is Some <==> status.attempts@.len() > 0,
        r matches Some(v) ==> ({
            let a = status.attempts@.last();
            &&& v@.len() == 2
            &&& v@[0].id@ == reservation_id_spec(status.id@, RunReservationKindV2::Wait, a.number)
            &&& v@ == retry_pair(v@[0].id, wait_ms, a)
        }),
{
    if status.attempts.len() == 0 {
        return None;
    }
    let last = status.attempts.len() - 1;
    let a = &status.attempts[last];
    let wait_id = reservation_id(status.id.as_str(), RunReservationKindV2::Wait, a.number);
    let v = reservation_pair(wait_id, wait_ms, a.reservation_id.clone(), a.reserved);
    assert(v@ =~= retry_pair(v@[0].id, wait_ms, *a));
    Some(v)
}

/// Records the durable retry plan of the run's last attempt.
pub fn record_retry_plan(status: &mut RunStatusV2, wait_reservation_id: String, wait_ms: u64, due: u64)
    ensures
        old(status).attempts@.len() > 0 ==> ({
            let a = old(status).attempts@.last();
            &&& final(status).next_action_at == Some(due)
            &&& final(status).next_action == Some(RunNextActionV2::RetrySameRoute {
                route: a.route,
                not_before_ms: due,
                wait_ms,
                wait_reservation_id,
                attempt_reservation_id: a.reservation_id,
                attempt: a.number,
            })
            &&& *final(status) == (RunStatusV2 {
                next_action_at: final(status).next_action_at,
                next_action: final(status).next_action,
                ..*old(status)
            })
        }),
        old(status).attempts@.len() == 0 ==> *final(status) == *old(status),
{
    if status.attempts.len() == 0 {
        return;
    }
    let last = status.attempts.len() - 1;
    let route = status.attempts[last].route.clone();
    let attempt_reservation_id = status.attempts[last].reservation_id.clone();
    let attempt = status.attempts[last].number;
    status.next_action_at = Some(due);
    status.next_action = Some(RunNextActionV2::RetrySameRoute {
        route,
        not_before_ms: due,
        wait_ms,
        wait_reservation_id,
        attempt_reservation_id,
        attempt,
    });
}

/// Whether the ledger answer to a retry's reservations lets the retry go on:
/// reserved now or by an earlier try, refused for lack of budget, or a failure.
pub fn retry_reservable(answer: &Result<LedgerStatus, BudgetError>) -> (r: Result<bool, RunCoordinatorError>)
    ensures
        answer is Ok ==> r == Ok::<bool, RunCoordinatorError>(true),
        answer matches Err(e) ==> (e is DuplicateReservation ==> r == Ok::<bool, RunCoordinatorError>(true)),
        answer matches Err(e) ==> (e is Exceeded ==> r == Ok::<bool, RunCoordinatorError>(false)),
        answer matches Err(e) ==> (!(e is DuplicateReservation) && !(e is Exceeded) ==> (r matches Err(RunCoordinatorError::Budget(m))
            && m@ == crate::messages::budget_message(*e))),
{
    match answer {
        Ok(_) => Ok(true),
        Err(BudgetError::DuplicateReservation(_)) => Ok(true),
        Err(BudgetError::Exceeded) => Ok(false),
        Err(e) => Err(RunCoordinatorError::Budget(e.message())),
    }
}

/// Position of the first attempt with a number, or -1.
pub open spec fn attempt_index(attempts: Seq<RunAttemptV2>, number: u32) -> int
    decreases attempts.len(),
{
    if attempts.len() == 0 {
        -1
    } else {
        let f = attempt_index(attempts.drop_last(), number);
        if f >= 0 {
            f
        } else if attempts.last().number == number {
            attempts.len() - 1
        } else {
            -1
        }
    }
}

proof fn lemma_attempt_index(attempts: Seq<RunAttemptV2>, number: u32)
    ensures
        -1 <= attempt_index(attempts, number) < attempts.len(),
        attempt_index(attempts, number) >= 0 ==> attempts[attempt_index(attempts, number)].number == number,
        attempt_index(attempts, number) >= 0 ==> forall|j: int| 0 <= j < attempt_index(attempts, number) ==> #[trigger] attempts[j].number != number,
        attempt_index(attempts, number) < 0 ==> forall|j: int| 0 <= j < attempts.len() ==> #[trigger] attempts[j].number != number,
    decreases attempts.len(),
{
    if attempts.len() > 0 {
        let p = attempts.drop_last();
        lemma_attempt_index(p, number);
        let f = attempt_index(p, number);
        if f >= 0 {
            assert forall|j: int| 0 <= j < f implies #[trigger] attempts[j].number != number by {
                assert(attempts[j] == p[j]);
            }
        } else {
            assert forall|j: int| 0 <= j < attempts.len() - 1 implies #[trigger] attempts[j].number != number by {
                assert(attempts[j] == p[j]);
            }
        }
    }
}

fn find_attempt(attempts: &Vec<RunAttemptV2>, number: u32) -> (r: Option<usize>)
    ensures
        r matches Some(k) ==> k == attempt_index(attempts@, number) && k < attempts@.len(),
        r is None ==> attempt_index(attempts@, number) < 0,
{
    proof {
        lemma_attempt_index(attempts@, number);
    }
    let mut i: usize = 0;
    while i < attempts.len()
        invariant
            i <= attempts@.len(),
            -1 <= attempt_index(attempts@, number) < attempts@.len(),
            attempt_index(attempts@, number) >= 0 ==> attempts@[attempt_index(attempts@, number)].number == number,
            attempt_index(attempts@, number) >= 0 ==> forall|j: int| 0 <= j < attempt_index(attempts@, number) ==> #[trigger] attempts@[j].number != number,
            attempt_index(attempts@, number) < 0 ==> forall|j: int| 0 <= j < attempts@.len() ==> #[trigger] attempts@[j].number != number,
            forall|j: int| 0 <= j < i ==> #[trigger] attempts@[j].number != number,
        decreases attempts@.len() - i,
    {
        if attempts[i].number == number {
            proof {
                let f = attempt_index(attempts@, number);
                if f < 0 || f > i {
                    assert(attempts@[i as int].number != number);
                } else if f < i {
                    assert(attempts@[f].number != number);
                }
            }
            return Some(i);
        }
        i = i + 1;
    }
    proof {
        let f = attempt_index(attempts@, number);
        if f >= 0 {
            assert(attempts@[f].number != number);
        }
    }
    None
}

/// The retry plan names an attempt of the run, with the same reservation and route.
pub open spec fn retry_plan_matches(s: RunStatusV2) -> bool {
    match s.next_action {
        Some(RunNextActionV2::RetrySameRoute { route, attempt, attempt_reservation_id, .. }) => {
            let k = attempt_index(s.attempts@, attempt);
            k >= 0 && s.attempts@[k].reservation_id@ == attempt_reservation_id@ && s.attempts@[k].route@ == route@
        },
        None => false,
    }
}

/// The reservations a durable retry plan must hold before its wait starts:
/// the wait, then the planned attempt with the amount that attempt reserved.
pub fn retry_reservations(status: &RunStatusV2) -> (r: Result<Vec<RunReservationReceiptV2>, RunCoordinatorError>)
    ensures
        r is Ok <==> retry_plan_matches(*status),
        r matches Err(e) ==> fault(e) == Some((false, if status.next_action is None {
            "retry plan has no next action"@
        } else if attempt_index(status.attempts@, status.next_action->0->attempt) < 0 {
            "retry attempt is missing"@
        } else {
            "retry plan does not match its attempt"@
        })),
        r matches Ok(v) ==> ({
            let RunNextActionV2::RetrySameRoute { wait_ms, wait_reservation_id, attempt, .. } = status.next_action->0;
            let a = status.attempts@[attempt_index(status.attempts@, attempt)];
            &&& v@.len() == 2
            &&& v@[0] == (RunReservationReceiptV2 { id: wait_reservation_id, kind: RunReservationKindV2::Wait, amount: wait_amount(wait_ms) })
            &&& v@[1].id@ == a.reservation_id@
            &&& v@[1].kind == RunReservationKindV2::Attempt
            &&& v@[1].amount == a.reserved
        }),
{
    proof {
        reveal_strlit("retry plan has no next action");
        reveal_strlit("retry attempt is missing");
        reveal_strlit("retry plan does not match its attempt");
    }
    let (route, wait_ms, wait_id, attempt_id, number) = match &status.next_action {
        Some(RunNextActionV2::RetrySameRoute { route, wait_ms, wait_reservation_id, attempt_reservation_id, attempt, .. }) =>
            (route, *wait_ms, wait_reservation_id, attempt_reservation_id, *attempt),
        None => {
            return Err(RunCoordinatorError::Invalid(String::from_str("retry plan has no next action")));
        },
    };
    let k = match find_attempt(&status.attempts, number) {
        Some(k) => k,
        None => {
            return Err(RunCoordinatorError::Invalid(String::from_str("retry attempt is missing")));
        },
    };
    let current = &status.attempts[k];
    if current.reservation_id != *attempt_id || !current.route.same_as(route) {
        return Err(RunCoordinatorError::Invalid(String::from_str("retry plan does not match its attempt")));
    }
    Ok(reservation_pair(wait_id.clone(), wait_ms, attempt_id.clone(), current.reserved))
}

/// Every requested reservation already exists in the ledger with the same amount.
pub open spec fn existing_match(entries: Seq<ReservationEntry>, requested: Seq<RunReservationReceiptV2>) -> bool {
    forall|i: int| 0 <= i < requested.len() ==> first_entry(entries, (#[trigger] requested[i]).id@) >= 0
        && entries[first_entry(entries, requested[i].id@)].reservation.reserved == requested[i].amount
}

/// What is wrong with the requested reservation at a position, measured against the ledger.
pub open spec fn existing_check(entries: Seq<ReservationEntry>, requested: Seq<RunReservationReceiptV2>) -> spec_fn(int) -> Option<Seq<char>> {
    |i: int| if first_entry(entries, requested[i].id@) < 0 {
        Some("partial durable reservation set detected"@)
    } else if entries[first_entry(entries, requested[i].id@)].reservation.reserved != requested[i].amount {
        Some("durable reservation amount changed"@)
    } else {
        None
    }
}

/// After the ledger reports that a reservation set already exists, checks that
/// the whole set is there with the same amounts.
pub fn check_existing_reservations(existing: &LedgerStatus, requested: &Vec<RunReservationReceiptV2>) -> (r: Result<(), RunCoordinatorError>)
    ensures
        r is Ok <==> existing_match(existing.reservations@, requested@),
        r matches Err(e) ==> fault(e) == Some((true,
            first_problem(existing_check(existing.reservations@, requested@), requested@.len() as int)->0)),
        r is Ok <==> first_problem(existing_check(existing.reservations@, requested@), requested@.len() as int) is None,
{
    proof {
        reveal_strlit("partial durable reservation set detected");
        reveal_strlit("durable reservation amount changed");
    }
    let ghost f = existing_check(existing.reservations@, requested@);
    let mut i: usize = 0;
    while i < requested.len()
        invariant
            i <= requested@.len(),
            forall|j: int| 0 <= j < i ==> first_entry(existing.reservations@, (#[trigger] requested@[j]).id@) >= 0
                && existing.reservations@[first_entry(existing.reservations@, requested@[j].id@)].reservation.reserved == requested@[j].amount,
            f == existing_check(existing.reservations@, requested@),
            first_problem(f, i as int) is None,
        decreases requested@.len() - i,
    {
        let item = &requested[i];
        let k = match find_entry(&existing.reservations, &item.id) {
            Some(k) => k,
            None => {
                assert(first_entry(existing.reservations@, requested@[i as int].id@) < 0);
                proof { lemma_first_problem_at(f, i as int, requested@.len() as int); }
                return Err(RunCoordinatorError::Budget(String::from_str("partial durable reservation set detected")));
            },
        };
        if existing.reservations[k].reservation.reserved != item.amount {
            assert(existing.reservations@[first_entry(existing.reservations@, requested@[i as int].id@)].reservation.reserved != requested@[i as int].amount);
            proof { lemma_first_problem_at(f, i as int, requested@.len() as int); }
            return Err(RunCoordinatorError::Budget(String::from_str("durable reservation amount changed")));
        }
        assert(first_problem(f, i + 1) is None);
        i = i + 1;
    }
    Ok(())
}

/// Position of the first reservation receipt with an id, or -1.
pub open spec fn first_reservation(rs: Seq<RunReservationReceiptV2>, id: Seq<char>) -> int
    decreases rs.len(),
{
    if rs.len() == 0 {
        -1
    } else {
        let f = first_reservation(rs.drop_last(), id);
        if f >= 0 {
            f
        } else if rs.last().id@ == id {
            rs.len() - 1
        } else {
            -1
        }
    }
}

proof fn lemma_first_reservation(rs: Seq<RunReservationReceiptV2>, id: Seq<char>)
    ensures
        -1 <= first_reservation(rs, id) < rs.len(),
        first_reservation(rs, id) >= 0 ==> rs[first_reservation(rs, id)].id@ == id,
        first_reservation(rs, id) >= 0 ==> forall|j: int| 0 <= j < first_reservation(rs, id) ==> #[trigger] rs[j].id@ != id,
        first_reservation(rs, id) < 0 ==> forall|j: int| 0 <= j < rs.len() ==> #[trigger] rs[j].id@ != id,
    decreases rs.len(),
{
    if rs.len() > 0 {
        let p = rs.drop_last();
        lemma_first_reservation(p, id);
        let f = first_reservation(p, id);
        if f >= 0 {
            assert forall|j: int| 0 <= j < f implies #[trigger] rs[j].id@ != id by {
                assert(rs[j] == p[j]);
            }
        } else {
            assert forall|j: int| 0 <= j < rs.len() - 1 implies #[trigger] rs[j].id@ != id by {
                assert(rs[j] == p[j]);
            }
        }
    }
}

fn find_reservation(rs: &Vec<RunReservationReceiptV2>, id: &String) -> (r: Option<usize>)
    ensures
        r matches Some(k) ==> k == first_reservation(rs@, id@) && k < rs@.len(),
        r is None ==> first_reservation(rs@, id@) < 0,
{
    proof {
        lemma_first_reservation(rs@, id@);
    }
    let mut i: usize = 0;
    while i < rs.len()
        invariant
            i <= rs@.len(),
            -1 <= first_reservation(rs@, id@) < rs@.len(),
            first_reservation(rs@, id@) >= 0 ==> rs@[first_reservation(rs@, id@)].id@ == id@,
            first_reservation(rs@, id@) >= 0 ==> forall|j: int| 0 <= j < first_reservation(rs@, id@) ==> #[trigger] rs@[j].id@ != id@,
            first_reservation(rs@, id@) < 0 ==> forall|j: int| 0 <= j < rs@.len() ==> #[trigger] rs@[j].id@ != id@,
            forall|j: int| 0 <= j < i ==> #[trigger] rs@[j].id@ != id@,
        decreases rs@.len() - i,
    {
        if rs[i].id == *id {
            proof {
                let f = first_reservation(rs@, id@);
                if f < 0 || f > i {
                    assert(rs@[i as int].id@ != id@);
                } else if f < i {
                    assert(rs@[f].id@ != id@);
                }
            }
            return Some(i);
        }
        i = i + 1;
    }
    proof {
        let f = first_reservation(rs@, id@);
        if f >= 0 {
            assert(rs@[f].id@ != id@);
        }
    }
    None
}

/// Two reservation receipts with the same contents.
pub open spec fn same_reservation(a: RunReservationReceiptV2, b: RunReservationReceiptV2) -> bool {
    a.id@ == b.id@ && a.kind == b.kind && a.amount == b.amount
}

/// One step of recording a requested reservation: new ids are appended, a
/// repeated one must be identical.
pub open spec fn merge_step(m: Seq<RunReservationReceiptV2>, item: RunReservationReceiptV2) -> Option<Seq<RunReservationReceiptV2>> {
    let f = first_reservation(m, item.id@);
    if f < 0 {
        Some(m.push(item))
    } else if same_reservation(m[f], item) {
        Some(m)
    } else {
        None
    }
}

/// The run's reservations after recording the requested ones in order, or
/// `None` when one conflicts with what the run already holds.
pub open spec fn merged(rs: Seq<RunReservationReceiptV2>, requested: Seq<RunReservationReceiptV2>) -> Option<Seq<RunReservationReceiptV2>>
    decreases requested.len(),
{
    if requested.len() == 0 {
        Some(rs)
    } else {
        match merged(rs, requested.drop_last()) {
            Some(m) => merge_step(m, requested.last()),
            None => None,
        }
    }
}

proof fn lemma_merged_none_stays(rs: Seq<RunReservationReceiptV2>, requested: Seq<RunReservationReceiptV2>, k: int)
    requires
        0 <= k <= requested.len(),
        merged(rs, requested.subrange(0, k)) is None,
    ensures
        merged(rs, requested) is None,
    decreases requested.len() - k,
{
    if k < requested.len() {
        assert(requested.subrange(0, k + 1).drop_last() =~= requested.subrange(0, k));
        lemma_merged_none_stays(rs, requested, k + 1);
    } else {
        assert(requested.subrange(0, k) =~= requested);
    }
}

/// Records requested reservations in the run, refusing a conflicting one.
fn merge_reservations(rs: &mut Vec<RunReservationReceiptV2>, requested: &Vec<RunReservationReceiptV2>) -> (r: Result<(), RunCoordinatorError>)
    ensures
        r is Ok <==> merged(old(rs)@, requested@) is Some,
        r is Ok ==> Some(final(rs)@) == merged(old(rs)@, requested@),
        r matches Err(e) ==> fault(e) == Some((false, "status reservation conflicts with ledger"@)),
{
    proof {
        reveal_strlit("status reservation conflicts with ledger");
    }
    let mut i: usize = 0;
    while i < requested.len()
        invariant
            i <= requested@.len(),
            merged(old(rs)@, requested@.subrange(0, i as int)) == Some(rs@),
        decreases requested@.len() - i,
    {
        assert(requested@.subrange(0, i + 1).drop_last() =~= requested@.subrange(0, i as int));
        assert(requested@.subrange(0, i + 1).last() == requested@[i as int]);
        let item = &requested[i];
        proof {
            lemma_first_reservation(rs@, item.id@);
        }
        match find_reservation(rs, &item.id) {
            Some(k) => {
                if rs[k].kind != item.kind || rs[k].amount != item.amount {
                    proof {
                        lemma_merged_none_stays(old(rs)@, requested@, i + 1);
                    }
                    return Err(RunCoordinatorError::Invalid(String::from_str("status reservation conflicts with ledger")));
                }
            },
            None => {
                rs.push(RunReservationReceiptV2 { id: item.id.clone(), kind: item.kind, amount: item.amount });
            },
        }
        i = i + 1;
    }
    assert(requested@.subrange(0, requested@.len() as int) =~= requested@);
    Ok(())
}

/// Recording the requested reservations and recomputing the totals succeeds.
pub open spec fn record_ok(s: RunStatusV2, requested: Seq<RunReservationReceiptV2>, ledger: LedgerStatus) -> bool {
    &&& merged(s.reservations@, requested) is Some
    &&& all_in_ledger(merged(s.reservations@, requested)->0, ledger.reservations@)
    &&& run_totals_representable(merged(s.reservations@, requested)->0, ledger.reservations@)
}

/// Records reservations the ledger now holds and recomputes the run's totals.
pub fn record_reservations(status: &mut RunStatusV2, requested: &Vec<RunReservationReceiptV2>, ledger: &LedgerStatus) -> (r: Result<(), RunCoordinatorError>)
    ensures
        r is Ok <==> record_ok(*old(status), requested@, *ledger),
        r matches Err(e) ==> fault(e) == match merged(old(status).reservations@, requested@) {
            None => Some((false, "status reservation conflicts with ledger"@)),
            Some(m) => Some((true, budget_problem(m, ledger.reservations@)->0)),
        },
        r is Ok ==> Some(final(status).reservations@) == merged(old(status).reservations@, requested@),
        r is Ok ==> totals_match(*final(status), *ledger),
        r is Ok ==> *final(status) == (RunStatusV2 {
            reservations: final(status).reservations,
            total_reserved: final(status).total_reserved,
            consumed: final(status).consumed,
            ..*old(status)
        }),
{
    merge_reservations(&mut status.reservations, requested)?;
    let (total, consumed) = refresh_budget(&status.reservations, ledger)?;
    status.total_reserved = total;
    status.consumed = consumed;
    assert forall|d: int| 0 <= d < 4 implies #[trigger] dim(status.total_reserved, d) == run_reserved(status.reservations@, d)
        && dim(status.consumed, d) == run_charged(status.reservations@, ledger.reservations@, d) by {
        assert(dim(total, d) == run_reserved(status.reservations@, d));
        assert(dim(consumed, d) == run_charged(status.reservations@, ledger.reservations@, d));
    }
    assert(totals_match(*status, *ledger));
    Ok(())
}

/// Moves the run to a phase and journals the transition.
pub fn enter_phase(status: &mut RunStatusV2, phase: RunPhaseV2, kind: RunJournalKindV2, route: Option<RouteRef>, now_ms: u64)
    ensures
        final(status).phase == phase,
        final(status).journal@ == old(status).journal@.push(next_event(old(status).journal@.len(), now_ms, kind, route)),
        *final(status) == (RunStatusV2 { phase: final(status).phase, journal: final(status).journal, ..*old(status) }),
{
    status.phase = phase;
    status.push(now_ms, kind, route);
}

/// A waiting run may continue only once its retry is due.
pub fn retry_due(status: &RunStatusV2, now_ms: u64) -> (r: Result<(), RunCoordinatorError>)
    ensures
        status.next_action is None ==> (r matches Err(e) && fault(e) == Some((false, "waiting run has no retry action"@))),
        status.next_action matches Some(RunNextActionV2::RetrySameRoute { not_before_ms, .. }) ==> (
            if now_ms < not_before_ms {
                r == Err::<(), RunCoordinatorError>(RunCoordinatorError::ProbeNotDue { next_action_at: not_before_ms })
            } else {
                r is Ok
            }),
{
    proof {
        reveal_strlit("waiting run has no retry action");
    }
    match &status.next_action {
        None => Err(RunCoordinatorError::Invalid(String::from_str("waiting run has no retry action"))),
        Some(RunNextActionV2::RetrySameRoute { not_before_ms, .. }) => {
            if now_ms < *not_before_ms {
                Err(RunCoordinatorError::ProbeNotDue { next_action_at: *not_before_ms })
            } else {
                Ok(())
            }
        },
    }
}

/// The consumption a finished retry wait records: the whole wait, known.
pub open spec fn wait_consumption(a: RunNextActionV2) -> RunConsumptionReceiptV2 {
    let RunNextActionV2::RetrySameRoute { wait_ms, wait_reservation_id, .. } = a;
    RunConsumptionReceiptV2 { id: wait_reservation_id, amount: wait_amount(wait_ms), known: true }
}

/// Closes an elapsed retry wait, after the ledger confirmed it, and puts the
/// planned attempt back on its route ready to invoke.
pub fn apply_retry_elapsed(status: &mut RunStatusV2, ledger: &LedgerStatus, now_ms: u64) -> (r: Result<(), RunCoordinatorError>)
    ensures
        r is Ok <==> old(status).next_action is Some && settle_ok(*old(status), *ledger, wait_consumption(old(status).next_action->0)),
        r matches Err(e) ==> fault(e) == if old(status).next_action is None {
            Some((false, "waiting run has no retry action"@))
        } else {
            settle_problem(*old(status), *ledger, wait_consumption(old(status).next_action->0))
        },
        r is Ok ==> ({
            let s0 = *old(status);
            let s1 = *final(status);
            let RunNextActionV2::RetrySameRoute { route, .. } = s0.next_action->0;
            &&& s1.consumptions@ == with_consumption(s0.consumptions@, wait_consumption(s0.next_action->0))
            &&& totals_match(s1, *ledger)
            &&& s1.next_action is None
            &&& s1.next_action_at is None
            &&& s1.phase == RunPhaseV2::Reserved
            &&& s1.route == Some(route)
            &&& s1.journal@ == s0.journal@.push(next_event(s0.journal@.len(), now_ms, RunJournalKindV2::RetryElapsed, Some(route)))
            &&& s1 == (RunStatusV2 {
                consumptions: s1.consumptions,
                total_reserved: s1.total_reserved,
                consumed: s1.consumed,
                next_action: s1.next_action,
                next_action_at: s1.next_action_at,
                phase: s1.phase,
                route: s1.route,
                journal: s1.journal,
                ..s0
            })
        }),
{
    proof {
        reveal_strlit("waiting run has no retry action");
    }
    let (route, wait_ms, wait_id) = match &status.next_action {
        None => {
            return Err(RunCoordinatorError::Invalid(String::from_str("waiting run has no retry action")));
        },
        Some(RunNextActionV2::RetrySameRoute { route, wait_ms, wait_reservation_id, .. }) => (route.clone(), *wait_ms, wait_reservation_id.clone()),
    };
    let c = RunConsumptionReceiptV2 {
        id: wait_id,
        amount: BudgetAmount { requests: 0, input_tokens: 0, output_tokens: 0, wall_time_ms: wait_ms },
        known: true,
    };
    settle(status, ledger, c)?;
    status.next_action = None;
    status.next_action_at = None;
    status.phase = RunPhaseV2::Reserved;
    status.route = Some(route.clone());
    status.push(now_ms, RunJournalKindV2::RetryElapsed, Some(route));
    Ok(())
}

/// The current route, when the grant still permits invoking it for the run's action.
pub fn check_invocation(status: &RunStatusV2, grant: &ExecutionGrantV1) -> (r: Result<RouteRef, RunCoordinatorError>)
    ensures
        status.route is None ==> (r matches Err(e) && fault(e) == Some((false, "run has no route"@))),
        status.route matches Some(route) ==> (
            if permits_spec(*grant, route@, status.request.action@, GrantOperation::Run) {
                r == Ok::<RouteRef, RunCoordinatorError>(route)
            } else {
                r matches Err(RunCoordinatorError::Grant(m)) && m@ == "grant no longer permits this exact invocation"@
            }),
{
    proof {
        reveal_strlit("run has no route");
        reveal_strlit("grant no longer permits this exact invocation");
    }
    let route = match &status.route {
        Some(route) => route.clone(),
        None => {
            return Err(RunCoordinatorError::Invalid(String::from_str("run has no route")));
        },
    };
    if !grant.permits(&route, status.request.action.as_str(), GrantOperation::Run) {
        return Err(RunCoordinatorError::Grant(String::from_str("grant no longer permits this exact invocation")));
    }
    Ok(route)
}

/// Records the selection the current manifest confirmed for the current
/// attempt: its candidate, manifest and candidate hash.
pub fn refresh_selection(
    status: &mut RunStatusV2,
    grant: &ExecutionGrantV1,
    route: RouteRef,
    manifest_hash: String,
    candidate_hash: String,
) -> (r: Result<(), RunCoordinatorError>)
    ensures
        !route_views(grant.routes@).contains(route@) ==> (r matches Err(RunCoordinatorError::Grant(m))
            && m@ == "current manifest selected a route outside the grant"@),
        r is Ok <==> route_views(grant.routes@).contains(route@) && old(status).attempts@.len() > 0 && old(status).decisions@.len() > 0,
        route_views(grant.routes@).contains(route@) ==> (r matches Err(e) ==> fault(e) == Some((false,
            if old(status).attempts@.len() == 0 { "run has no current attempt"@ } else { "run has no current decision"@ }))),
        r is Err ==> *final(status) == *old(status),
        r is Ok ==> ({
            let s0 = *old(status);
            let s1 = *final(status);
            let c = RunCandidateReceiptV2 { route, action: s0.request.action, candidate_hash };
            &&& s1.candidates@ == with_candidate(s0.candidates@, c)
            &&& s1.attempts@ == s0.attempts@.drop_last().push(RunAttemptV2 {
                state_manifest_hash: manifest_hash,
                candidate_hash,
                ..s0.attempts@.last()
            })
            &&& s1.decisions@ == s0.decisions@.drop_last().push(RunDecisionReceiptV2 {
                manifest_hash,
                candidate_hash,
                ..s0.decisions@.last()
            })
            &&& s1 == (RunStatusV2 { candidates: s1.candidates, attempts: s1.attempts, decisions: s1.decisions, ..s0 })
        }),
{
    proof {
        reveal_strlit("current manifest selected a route outside the grant");
        reveal_strlit("run has no current attempt");
        reveal_strlit("run has no current decision");
    }
    if !grant.has_route(&route) {
        return Err(RunCoordinatorError::Grant(String::from_str("current manifest selected a route outside the grant")));
    }
    if status.attempts.len() == 0 {
        return Err(RunCoordinatorError::Invalid(String::from_str("run has no current attempt")));
    }
    if status.decisions.len() == 0 {
        return Err(RunCoordinatorError::Invalid(String::from_str("run has no current decision")));
    }
    let candidate = RunCandidateReceiptV2 {
        route,
        action: status.request.action.clone(),
        candidate_hash: candidate_hash.clone(),
    };
    add_candidate(&mut status.candidates, candidate);
    let mut attempt = status.attempts.pop().unwrap();
    attempt.state_manifest_hash = manifest_hash.clone();
    attempt.candidate_hash = candidate_hash.clone();
    status.attempts.push(attempt);
    let mut decision = status.decisions.pop().unwrap();
    decision.manifest_hash = manifest_hash;
    decision.candidate_hash = candidate_hash;
    status.decisions.push(decision);
    Ok(())
}

/// The objective handed to the harness, as UTF-8 bytes: after a handoff, the
/// checkpoint's canonical JSON and nothing of the history; otherwise the
/// request's own objective.
pub fn invocation_objective(status: &RunStatusV2) -> (b: Vec<u8>)
    ensures
        b@ == match status.checkpoint {
            Some(c) => checkpoint_json(c@),
            None => utf8(status.request.objective@),
        },
{
    match &status.checkpoint {
        Some(c) => c.json_bytes(),
        None => {
            let mut out: Vec<u8> = Vec::new();
            push_text(&mut out, status.request.objective.as_str());
            assert(out@ =~= utf8(status.request.objective@));
            out
        },
    }
}

/// Bounds handed to the harness for one invocation.
#[derive(Debug, Clone, Copy, PartialEq, Eq, Structural)]
pub struct InvocationBounds {
    /// Largest output accepted: eight bytes per reserved output token, at least one.
    pub max_output_bytes: u64,
    /// Wall time reserved for the call.
    pub timeout_ms: u64,
}

/// Marks the durable start of the current attempt, right before the call,
/// and gives the bounds of that call.
pub fn begin_invocation(status: &mut RunStatusV2, now_ms: u64) -> (r: Result<InvocationBounds, RunCoordinatorError>)
    ensures
        r is Ok <==> old(status).route is Some && old(status).attempts@.len() > 0,
        r matches Err(e) ==> *final(status) == *old(status) && fault(e) == Some((false,
            if old(status).route is None { "run has no route"@ } else { "run has no current attempt"@ })),
        r matches Ok(b) ==> ({
            let s0 = *old(status);
            let s1 = *final(status);
            let a = s0.attempts@.last();
            let bytes = a.reserved.output_tokens * 8;
            &&& b.max_output_bytes == (if bytes > u64::MAX { u64::MAX as int } else if bytes == 0 { 1 } else { bytes })
            &&& b.timeout_ms == a.reserved.wall_time_ms
            &&& s1.phase == RunPhaseV2::InvocationStarted
            &&& s1.attempts@ == s0.attempts@.drop_last().push(RunAttemptV2 { started_at_ms: Some(now_ms), ..a })
            &&& s1.journal@ == s0.journal@.push(next_event(s0.journal@.len(), now_ms, RunJournalKindV2::InvocationStarted, s0.route))
            &&& s1 == (RunStatusV2 { phase: s1.phase, attempts: s1.attempts, journal: s1.journal, ..s0 })
        }),
{
    let route = match &status.route {
        Some(route) => route.clone(),
        None => {
            proof {
                reveal_strlit("run has no route");
            }
            return Err(RunCoordinatorError::Invalid(String::from_str("run has no route")));
        },
    };
    if status.attempts.len() == 0 {
        proof {
            reveal_strlit("run has no current attempt");
        }
        return Err(RunCoordinatorError::Invalid(String::from_str("run has no current attempt")));
    }
    let mut attempt = status.attempts.pop().unwrap();
    let reserved = attempt.reserved;
    attempt.started_at_ms = Some(now_ms);
    status.attempts.push(attempt);
    status.phase = RunPhaseV2::InvocationStarted;
    status.push(now_ms, RunJournalKindV2::InvocationStarted, Some(route));
    let bytes: u64 = if reserved.output_tokens > u64::MAX / 8 { u64::MAX } else { reserved.output_tokens * 8 };
    let max_output_bytes = if bytes == 0 { 1 } else { bytes };
    Ok(InvocationBounds { max_output_bytes, timeout_ms: reserved.wall_time_ms })
}

/// The run may no longer change route: attempts or handoffs are used up.
pub open spec fn fallback_exhausted_spec(s: RunStatusV2) -> bool {
    s.attempts@.len() >= s.execution_policy.max_attempts || s.handoffs >= s.execution_policy.max_handoffs
}

/// Whether the run has used up its attempts or its handoffs.
pub fn fallback_exhausted(status: &RunStatusV2) -> (b: bool)
    ensures
        b == fallback_exhausted_spec(*status),
        status.handoffs >= status.execution_policy.max_handoffs ==> b,
        status.attempts@.len() >= status.execution_policy.max_attempts ==> b,
        !b ==> status.attempts@.len() < status.execution_policy.max_attempts && status.handoffs < status.execution_policy.max_handoffs,
{
    proof {
        law_exhausted_when_attempts_or_handoffs_used_up(*status);
    }
    status.attempts.len() >= status.execution_policy.max_attempts as usize || status.handoffs >= status.execution_policy.max_handoffs
}

/// Law: a run whose handoffs are used up may not change route again, whatever
/// attempts remain; nor may one whose attempts are used up, whatever handoffs
/// remain. A run may still fall back only while both remain.
pub proof fn law_exhausted_when_attempts_or_handoffs_used_up(s: RunStatusV2)
    ensures
        s.handoffs >= s.execution_policy.max_handoffs ==> fallback_exhausted_spec(s),
        s.attempts@.len() >= s.execution_policy.max_attempts ==> fallback_exhausted_spec(s),
        !fallback_exhausted_spec(s) ==> s.attempts@.len() < s.execution_policy.max_attempts
            && s.handoffs < s.execution_policy.max_handoffs,
{
}

/// Ends the run as failed; it keeps no pending action.
pub fn finish_failed(status: &mut RunStatusV2)
    ensures
        *final(status) == (RunStatusV2 {
            phase: RunPhaseV2::Failed,
            next_action: None,
            next_action_at: None,
            ..*old(status)
        }),
{
    status.phase = RunPhaseV2::Failed;
    status.next_action = None;
    status.next_action_at = None;
}

/// Records a handoff checkpoint once: a run already in `HandoffReady` keeps
/// the checkpoint it has.
pub fn record_handoff(status: &mut RunStatusV2, checkpoint: HandoffCheckpoint, now_ms: u64)
    ensures
        old(status).phase == RunPhaseV2::HandoffReady ==> *final(status) == *old(status),
        old(status).phase != RunPhaseV2::HandoffReady ==> ({
            let s0 = *old(status);
            let s1 = *final(status);
            &&& s1.checkpoint matches Some(c) && same_draft(c@, checkpoint@)
            &&& s1.checkpoints@ == s0.checkpoints@.push(checkpoint)
            &&& s1.handoffs == s0.handoffs.saturating_add(1)
            &&& s1.phase == RunPhaseV2::HandoffReady
            &&& s1.journal@ == s0.journal@.push(next_event(s0.journal@.len(), now_ms, RunJournalKindV2::HandoffCreated, s0.route))
            &&& s1 == (RunStatusV2 {
                checkpoint: s1.checkpoint,
                checkpoints: s1.checkpoints,
                handoffs: s1.handoffs,
                phase: s1.phase,
                journal: s1.journal,
                ..s0
            })
        }),
{
    if status.phase == RunPhaseV2::HandoffReady {
        return;
    }
    status.checkpoint = Some(checkpoint.clone());
    status.checkpoints.push(checkpoint);
    status.handoffs = status.handoffs.saturating_add(1);
    status.phase = RunPhaseV2::HandoffReady;
    let route = match &status.route {
        Some(r) => Some(r.clone()),
        None => None,
    };
    status.push(now_ms, RunJournalKindV2::HandoffCreated, route);
}

/// Links the run to its sealed receipt, which must belong to the run's grant.
pub fn attach_receipt(status: &mut RunStatusV2, receipt_id: String, receipt_hash: String, receipt_grant_hash: &String) -> (r: Result<(), RunCoordinatorError>)
    ensures
        r is Ok <==> receipt_grant_hash@ == old(status).grant_hash@,
        r matches Err(e) ==> (e matches RunCoordinatorError::Receipt(m) && m@ == "existing receipt belongs to another grant"@)
            && *final(status) == *old(status),
        r is Ok ==> *final(status) == (RunStatusV2 {
            receipt: Some(RunReceiptReferenceV2 { id: receipt_id, receipt_hash }),
            ..*old(status)
        }),
{
    proof {
        reveal_strlit("existing receipt belongs to another grant");
    }
    if *receipt_grant_hash != status.grant_hash {
        return Err(RunCoordinatorError::Receipt(String::from_str("existing receipt belongs to another grant")));
    }
    status.receipt = Some(RunReceiptReferenceV2 { id: receipt_id, receipt_hash });
    Ok(())
}

/// What `run resume` does next from a durable phase.
#[derive(Debug, Clone, Copy, PartialEq, Eq, Structural)]
pub enum ResumeStep {
    /// The call may have happened: close it as ambiguous, never call again.
    FinishUnknown,
    /// Wait for, then continue, a scheduled retry.
    ContinueWaiting,
    /// Reserve a planned retry and start waiting.
    ActivateRetry,
    /// Reserve the planned attempt, then invoke it.
    ReserveAndInvoke,
    /// Invoke the reserved attempt.
    Invoke,
    /// Recover from a known failure: retry or fall back.
    RecoverKnownFailure,
    /// Continue a prepared handoff.
    PlanFallback,
    /// Seal, or read back, the final receipt.
    FinalizeReceipt,
}

/// The step that resumes a run from its phase.
pub open spec fn resume_step_spec(phase: RunPhaseV2, has_next_action: bool) -> ResumeStep {
    match phase {
        RunPhaseV2::InvocationStarted => ResumeStep::FinishUnknown,
        RunPhaseV2::WaitingRetry => ResumeStep::ContinueWaiting,
        RunPhaseV2::Planned => if has_next_action { ResumeStep::ActivateRetry } else { ResumeStep::ReserveAndInvoke },
        RunPhaseV2::Reserved => ResumeStep::Invoke,
        RunPhaseV2::AttemptFailed => ResumeStep::RecoverKnownFailure,
        RunPhaseV2::HandoffReady => ResumeStep::PlanFallback,
        RunPhaseV2::Completed | RunPhaseV2::Failed | RunPhaseV2::OutcomeUnknown => ResumeStep::FinalizeReceipt,
    }
}

/// Chooses how to continue a durable run without duplicating an ambiguous call.
pub fn resume_step(status: &RunStatusV2) -> (step: ResumeStep)
    ensures
        step == resume_step_spec(status.phase, status.next_action is Some),
{
    match status.phase {
        RunPhaseV2::InvocationStarted => ResumeStep::FinishUnknown,
        RunPhaseV2::WaitingRetry => ResumeStep::ContinueWaiting,
        RunPhaseV2::Planned => if status.next_action.is_some() { ResumeStep::ActivateRetry } else { ResumeStep::ReserveAndInvoke },
        RunPhaseV2::Reserved => ResumeStep::Invoke,
        RunPhaseV2::AttemptFailed => ResumeStep::RecoverKnownFailure,
        RunPhaseV2::HandoffReady => ResumeStep::PlanFallback,
        RunPhaseV2::Completed | RunPhaseV2::Failed | RunPhaseV2::OutcomeUnknown => ResumeStep::FinalizeReceipt,
    }
}

/// How a harness failure is written in a checkpoint's failure message.
pub open spec fn failure_text(f: InvocationFailure) -> Seq<char> {
    match f {
        InvocationFailure::RateLimited { retry_after_ms: Some(ms) } => "RateLimited { retry_after_ms: Some("@ + decimal(ms as nat) + ") }"@,
        InvocationFailure::RateLimited { retry_after_ms: None } => "RateLimited { retry_after_ms: None }"@,
        InvocationFailure::Quota => "Quota"@,
        InvocationFailure::Authentication => "Authentication"@,
        InvocationFailure::Balance => "Balance"@,
        InvocationFailure::Transient => "Transient"@,
        InvocationFailure::Timeout => "Timeout"@,
        InvocationFailure::Permanent => "Permanent"@,
    }
}

fn failure_string(f: InvocationFailure) -> (s: String)
    ensures
        s@ == failure_text(f),
{
    proof {
        reveal_strlit("RateLimited { retry_after_ms: Some(");
        reveal_strlit(") }");
        reveal_strlit("RateLimited { retry_after_ms: None }");
        reveal_strlit("Quota");
        reveal_strlit("Authentication");
        reveal_strlit("Balance");
        reveal_strlit("Transient");
        reveal_strlit("Timeout");
        reveal_strlit("Permanent");
    }
    match f {
        InvocationFailure::RateLimited { retry_after_ms: Some(ms) } => {
            let mut s = String::from_str("RateLimited { retry_after_ms: Some(");
            let n = decimal_string(ms);
            s.append(n.as_str());
            s.append(") }");
            s
        },
        InvocationFailure::RateLimited { retry_after_ms: None } => String::from_str("RateLimited { retry_after_ms: None }"),
        InvocationFailure::Quota => String::from_str("Quota"),
        InvocationFailure::Authentication => String::from_str("Authentication"),
        InvocationFailure::Balance => String::from_str("Balance"),
        InvocationFailure::Transient => String::from_str("Transient"),
        InvocationFailure::Timeout => String::from_str("Timeout"),
        InvocationFailure::Permanent => String::from_str("Permanent"),
    }
}

/// The decision line a checkpoint records for one attempt.
pub open spec fn decision_text(a: RunAttemptV2) -> Seq<char> {
    "attempt "@ + decimal(a.number as nat) + " used "@ + a.route@
}

/// Tokens the grant still allows in both directions, saturating.
pub open spec fn remaining_tokens_spec(limits: GrantLimits, consumed: BudgetAmount) -> u64 {
    let input = limits.input_tokens.saturating_sub(consumed.input_tokens);
    let output = limits.output_tokens.saturating_sub(consumed.output_tokens);
    input.saturating_add(output)
}

/// Whole seconds of wall time the grant still allows.
pub open spec fn remaining_wall_seconds_spec(limits: GrantLimits, consumed: BudgetAmount) -> u64 {
    (limits.wall_time_ms.saturating_sub(consumed.wall_time_ms) / 1000) as u64
}

/// Builds the compact checkpoint that replaces conversation history when the
/// run changes to `next_route`: the objective, the grant, the attempts made,
/// the failure observed and the budget left.
pub fn checkpoint_for(status: &RunStatusV2, grant: &ExecutionGrantV1, next_route: &RouteRef) -> (r: Result<HandoffCheckpoint, RunCoordinatorError>)
    ensures
        r is Ok <==> status.failure is Some && !is_blank(status.request.objective@),
        r matches Err(e) ==> fault(e) == Some((false, if status.failure is None {
            "handoff requires a known failure"@
        } else {
            crate::messages::handoff_message(HandoffError::Empty { field: "objective" })
        })),
        r matches Ok(c) ==> ({
            let d = c@;
            let f = status.failure->0;
            &&& d.schema_version == 1
            &&& d.objective@ == status.request.objective@
            &&& d.constraints@.len() == 2
            &&& d.constraints@[0]@ == "do not replay conversation history"@
            &&& d.constraints@[1]@ == "grant="@ + grant.id@
            &&& d.decisions@.len() == status.attempts@.len()
            &&& forall|i: int| 0 <= i < status.attempts@.len() ==> #[trigger] d.decisions@[i]@ == decision_text(status.attempts@[i])
            &&& d.files@.len() == 0
            &&& d.diff_summary@ == "no previous model output forwarded"@
            &&& d.tests@.len() == 0
            &&& d.failure == category_of(f)
            &&& d.failure_message@ == "observed harness result: "@ + failure_text(f)
            &&& d.next_step@ == "continue the objective on exact route "@ + next_route@
            &&& d.remaining_tokens == remaining_tokens_spec(grant.limits, status.consumed)
            &&& d.remaining_wall_seconds == remaining_wall_seconds_spec(grant.limits, status.consumed)
        }),
{
    let failure = match status.failure {
        Some(f) => f,
        None => {
            proof {
                reveal_strlit("handoff requires a known failure");
            }
            return Err(RunCoordinatorError::Invalid(String::from_str("handoff requires a known failure")));
        },
    };
    proof {
        reveal_strlit("do not replay conversation history");
        reveal_strlit("grant=");
        reveal_strlit("attempt ");
        reveal_strlit(" used ");
        reveal_strlit("no previous model output forwarded");
        reveal_strlit("observed harness result: ");
        reveal_strlit("continue the objective on exact route ");
    }
    let remaining_input = grant.limits.input_tokens.saturating_sub(status.consumed.input_tokens);
    let remaining_output = grant.limits.output_tokens.saturating_sub(status.consumed.output_tokens);
    let mut constraints: Vec<String> = Vec::new();
    constraints.push(String::from_str("do not replay conversation history"));
    let mut grant_line = String::from_str("grant=");
    grant_line.append(grant.id.as_str());
    constraints.push(grant_line);
    let mut decisions: Vec<String> = Vec::new();
    let mut i: usize = 0;
    while i < status.attempts.len()
        invariant
            i <= status.attempts@.len(),
            decisions@.len() == i,
            forall|j: int| 0 <= j < i ==> #[trigger] decisions@[j]@ == decision_text(status.attempts@[j]),
        decreases status.attempts@.len() - i,
    {
        let a = &status.attempts[i];
        let mut line = String::from_str("attempt ");
        let n = decimal_string(a.number as u64);
        line.append(n.as_str());
        line.append(" used ");
        line.append(a.route.as_str());
        decisions.push(line);
        i = i + 1;
    }
    let mut message = String::from_str("observed harness result: ");
    let text = failure_string(failure);
    message.append(text.as_str());
    let mut next_step = String::from_str("continue the objective on exact route ");
    next_step.append(next_route.as_str());
    let draft = HandoffDraft {
        schema_version: 1,
        objective: status.request.objective.clone(),
        constraints,
        decisions,
        files: Vec::new(),
        diff_summary: String::from_str("no previous model output forwarded"),
        tests: Vec::new(),
        failure: failure_category(failure),
        failure_message: message,
        next_step,
        remaining_tokens: remaining_input.saturating_add(remaining_output),
        remaining_wall_seconds: grant.limits.wall_time_ms.saturating_sub(status.consumed.wall_time_ms) / 1000,
    };
    proof {
        assert(!is_blank(draft.failure_message@)) by {
            assert(!crate::text::is_unicode_whitespace(draft.failure_message@[0]));
        }
        assert(!is_blank(draft.next_step@)) by {
            assert(!crate::text::is_unicode_whitespace(draft.next_step@[0]));
        }
        assert(files_relative(draft.files@));
    }
    match HandoffCheckpoint::try_from(draft) {
        Ok(c) => Ok(c),
        Err(e) => Err(RunCoordinatorError::Invalid(e.message())),
    }
}

/// Assembles the unsealed final receipt of a terminal run from its durable
/// status and the grant it ran under.
pub fn receipt_draft(status: &RunStatusV2, grant: &ExecutionGrantV1) -> (r: Result<RunReceiptDraftV2, RunCoordinatorError>)
    ensures
        r is Ok <==> is_terminal(status.phase),
        r matches Err(e) ==> fault(e) == Some((false, "cannot seal a non-terminal run"@)),
        r matches Ok(d) ==> ({
            &&& d.schema_version == 2
            &&& d.id == status.id
            &&& d.created_at == status.created_at
            &&& d.request == (RunRequestRef {
                schema_version: status.request.schema_version,
                id: status.request.id,
                grant_id: status.request.grant_id,
            })
            &&& same_grant(d.grant, *grant)
            &&& d.grant_hash == status.grant_hash
            &&& d.candidates@ == status.candidates@
            &&& d.decisions@ == status.decisions@
            &&& d.reservations@ == status.reservations@
            &&& d.consumptions@ == status.consumptions@
            &&& d.transitions@ == status.journal@
            &&& d.results@ == status.results@
            &&& d.final_phase == status.phase
        }),
{
    let terminal = match status.phase {
        RunPhaseV2::Completed | RunPhaseV2::Failed | RunPhaseV2::OutcomeUnknown => true,
        _ => false,
    };
    if !terminal {
        proof {
            reveal_strlit("cannot seal a non-terminal run");
        }
        return Err(RunCoordinatorError::Invalid(String::from_str("cannot seal a non-terminal run")));
    }
    Ok(RunReceiptDraftV2 {
        schema_version: 2,
        id: status.id.clone(),
        created_at: status.created_at,
        request: RunRequestRef {
            schema_version: status.request.schema_version,
            id: status.request.id.clone(),
            grant_id: status.request.grant_id.clone(),
        },
        grant: grant.duplicate(),
        grant_hash: status.grant_hash.clone(),
        candidates: duplicate_all(&status.candidates),
        decisions: duplicate_all(&status.decisions),
        reservations: duplicate_all(&status.reservations),
        consumptions: duplicate_all(&status.consumptions),
        transitions: duplicate_all(&status.journal),
        results: duplicate_all(&status.results),
        final_phase: status.phase,
    })
}

/// Reservation ids of a run are distinct for distinct kinds or attempt

/// A run needs a grant that names its exact action and the run operation.
pub fn check_run_permitted(grant: &ExecutionGrantV1, action: &str) -> (r: Result<(), RunCoordinatorError>)
    ensures
        r is Ok <==> action_views(grant.actions@).contains(action@) && grant.operations@.contains(GrantOperation::Run),
        r matches Err(e) ==> e matches RunCoordinatorError::Grant(m)
            && m@ == "grant does not permit the exact action and run operation"@,
{
    if !grant.allows_action(action) || !grant.allows_operation(GrantOperation::Run) {
        return Err(RunCoordinatorError::Grant(String::from_str("grant does not permit the exact action and run operation")));
    }
    Ok(())
}

/// numbers, so a retried wait never collides with an attempt.
pub proof fn law_reservation_ids_distinct(run_id: Seq<char>, k1: RunReservationKindV2, n1: u32, k2: RunReservationKindV2, n2: u32)
    requires
        k1 != k2 || n1 != n2,
    ensures
        reservation_id_spec(run_id, k1, n1) != reservation_id_spec(run_id, k2, n2),
{
    let p = seq!['r', '-'] + hex_lower(sha256(vstd::utf8::encode_utf8(run_id))).subrange(0, 32);
    let x = seq![kind_letter(k1)] + decimal(n1 as nat);
    let y = seq![kind_letter(k2)] + decimal(n2 as nat);
    assert(reservation_id_spec(run_id, k1, n1) =~= p + x);
    assert(reservation_id_spec(run_id, k2, n2) =~= p + y);
    if p + x == p + y {
        assert(x.len() == y.len());
        assert forall|i: int| 0 <= i < x.len() implies x[i] == y[i] by {
            assert((p + x)[p.len() + i] == (p + y)[p.len() + i]);
        }
        assert(x =~= y);
        assert(x[0] == y[0]);
        assert(x.subrange(1, x.len() as int) =~= decimal(n1 as nat));
        assert(y.subrange(1, y.len() as int) =~= decimal(n2 as nat));
        crate::text::lemma_decimal_injective(n1 as nat, n2 as nat);
    }
}

/// Recording a consumption twice is the same as recording it once: the
/// second call is accepted and changes nothing.
pub proof fn law_consumption_idempotent(cs: Seq<RunConsumptionReceiptV2>, c: RunConsumptionReceiptV2)
    requires
        first_consumption(cs, c.id@) >= 0 ==> same_consumption(cs[first_consumption(cs, c.id@)], c),
    ensures
        ({
            let once = with_consumption(cs, c);
            &&& first_consumption(once, c.id@) >= 0
            &&& same_consumption(once[first_consumption(once, c.id@)], c)
            &&& with_consumption(once, c) == once
        }),
{
    lemma_first_consumption(cs, c.id@);
    let once = with_consumption(cs, c);
    if first_consumption(cs, c.id@) < 0 {
        assert(once.drop_last() =~= cs);
        assert(first_consumption(once, c.id@) == cs.len());
    }
}

/// A retry on the same route is only ever planned for an observed
/// `Retry-After` that is positive and within the policy, with attempts left,
/// and with the whole next attempt fitting before the deadline (a deadline at
/// the largest instant accepts any due instant).
pub proof fn law_retry_needs_observed_delay(s: RunStatusV2, now_ms: u64)
    ensures
        retry_window_spec(s, now_ms) matches Some((wait_ms, due)) ==> {
            &&& s.failure == Some(InvocationFailure::RateLimited { retry_after_ms: Some(wait_ms) })
            &&& 0 < wait_ms <= s.execution_policy.max_retry_after_ms
            &&& s.attempts@.len() < s.execution_policy.max_attempts
            &&& due == now_ms.saturating_add(wait_ms)
            &&& now_ms <= due
            &&& (due + attempt_amount(s.request.predicted_tokens, s.request.timeout_seconds).wall_time_ms <= s.deadline_at_ms
                || s.deadline_at_ms == u64::MAX)
        },
{
}

/// Resuming never repeats a call that may have happened: a started call is
/// closed as ambiguous, and a terminal run only seals its receipt.
pub proof fn law_ambiguous_call_never_repeated(phase: RunPhaseV2, has_next_action: bool)
    ensures
        phase == RunPhaseV2::InvocationStarted ==> resume_step_spec(phase, has_next_action) == ResumeStep::FinishUnknown,
        is_terminal(phase) ==> resume_step_spec(phase, has_next_action) == ResumeStep::FinalizeReceipt,
{
}

/// The journal stays contiguous and monotonic whatever event is appended,
/// as long as the clock does not go back.
pub proof fn law_journal_append_monotonic(journal: Seq<RunJournalEventV2>, created_at: u64, now_ms: u64, kind: RunJournalKindV2, route: Option<RouteRef>)
    requires
        journal_monotonic(journal, created_at),
        journal.len() < u64::MAX,
        created_at <= now_ms / 1000,
        journal.len() > 0 ==> journal.last().at <= now_ms / 1000,
    ensures
        journal_monotonic(journal.push(next_event(journal.len(), now_ms, kind, route)), created_at),
{
    let j2 = journal.push(next_event(journal.len(), now_ms, kind, route));
    assert forall|i: int, k: int| 0 <= i < k < j2.len() implies #[trigger] j2[i].at <= #[trigger] j2[k].at by {
        if k == journal.len() && i < journal.len() - 1 {
            assert(journal[i].at <= journal[journal.len() - 1].at);
        }
    }
}

/// Appending the attempt numbered one past the last keeps attempts numbered
/// from one without gaps.
pub proof fn law_attempt_numbering(attempts: Seq<RunAttemptV2>, next: RunAttemptV2)
    requires
        attempts_numbered(attempts),
        attempts.len() + 1 <= u32::MAX,
        next.number == attempts.len() + 1,
    ensures
        attempts_numbered(attempts.push(next)),
{
    assert forall|i: int| 0 <= i < attempts.len() + 1 implies #[trigger] attempts.push(next)[i].number == expected_number(i) by {
        if i < attempts.len() {
            assert(attempts.push(next)[i] == attempts[i]);
        }
    }
}

proof fn lemma_first_reservation_push(rs: Seq<RunReservationReceiptV2>, x: RunReservationReceiptV2, id: Seq<char>)
    ensures
        first_reservation(rs, id) >= 0 ==> first_reservation(rs.push(x), id) == first_reservation(rs, id),
        first_reservation(rs, id) < 0 && x.id@ == id ==> first_reservation(rs.push(x), id) == rs.len(),
{
    assert(rs.push(x).drop_last() =~= rs);
}

/// Every requested reservation sits, identical, at the first position of its id.
pub open spec fn all_recorded(m: Seq<RunReservationReceiptV2>, requested: Seq<RunReservationReceiptV2>) -> bool {
    forall|i: int| 0 <= i < requested.len() ==> first_reservation(m, (#[trigger] requested[i]).id@) >= 0
        && same_reservation(m[first_reservation(m, requested[i].id@)], requested[i])
}

proof fn lemma_merged_records(rs: Seq<RunReservationReceiptV2>, requested: Seq<RunReservationReceiptV2>)
    requires
        merged(rs, requested) is Some,
    ensures
        all_recorded(merged(rs, requested)->0, requested),
    decreases requested.len(),
{
    if requested.len() > 0 {
        let p = requested.drop_last();
        lemma_merged_records(rs, p);
        let m0 = merged(rs, p)->0;
        let x = requested.last();
        let m = merged(rs, requested)->0;
        lemma_first_reservation(m0, x.id@);
        assert forall|i: int| 0 <= i < requested.len() implies first_reservation(m, (#[trigger] requested[i]).id@) >= 0
            && same_reservation(m[first_reservation(m, requested[i].id@)], requested[i]) by {
            if i < requested.len() - 1 {
                assert(requested[i] == p[i]);
                lemma_first_reservation_push(m0, x, requested[i].id@);
                lemma_first_reservation(m0, requested[i].id@);
            } else {
                lemma_first_reservation_push(m0, x, x.id@);
            }
        }
    }
}

proof fn lemma_merged_unchanged(m: Seq<RunReservationReceiptV2>, requested: Seq<RunReservationReceiptV2>, k: int)
    requires
        0 <= k <= requested.len(),
        all_recorded(m, requested),
    ensures
        merged(m, requested.subrange(0, k)) == Some(m),
    decreases k,
{
    if k > 0 {
        lemma_merged_unchanged(m, requested, k - 1);
        assert(requested.subrange(0, k).drop_last() =~= requested.subrange(0, k - 1));
        assert(requested.subrange(0, k).last() == requested[k - 1]);
    } else {
        assert(requested.subrange(0, 0) =~= Seq::<RunReservationReceiptV2>::empty());
    }
}

/// Recording the same reservations again, as a resumed run does after a
/// crash, is accepted and changes nothing.
pub proof fn law_reservations_idempotent(rs: Seq<RunReservationReceiptV2>, requested: Seq<RunReservationReceiptV2>)
    requires
        merged(rs, requested) is Some,
    ensures
        merged(merged(rs, requested)->0, requested) == merged(rs, requested),
{
    lemma_merged_records(rs, requested);
    lemma_merged_unchanged(merged(rs, requested)->0, requested, requested.len() as int);
    assert(requested.subrange(0, requested.len() as int) =~= requested);
}

} // verus!

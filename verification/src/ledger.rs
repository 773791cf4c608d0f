//! Durable per-grant ledger of reservations and charged consumption.

use vstd::prelude::*;
use vstd::string::*;

use crate::grant::GrantLimits;
use crate::text::{invalid_identifier, invalid_identifier_message, is_safe_id, is_safe_identifier};
use crate::util::{first_problem, lemma_first_problem_at};

verus! {

/// An amount in the four budget dimensions.
#[derive(Debug, Clone, Copy, PartialEq, Eq, Default, Structural)]
pub struct BudgetAmount {
    /// Requests.
    pub requests: u64,
    /// Input tokens.
    pub input_tokens: u64,
    /// Output tokens.
    pub output_tokens: u64,
    /// Wall time.
    pub wall_time_ms: u64,
}

/// One budget dimension of an amount: 0 requests, 1 input, 2 output, 3 wall time.
pub open spec fn dim(a: BudgetAmount, d: int) -> int {
    if d == 0 {
        a.requests as int
    } else if d == 1 {
        a.input_tokens as int
    } else if d == 2 {
        a.output_tokens as int
    } else {
        a.wall_time_ms as int
    }
}

/// One dimension of a grant's limits.
pub open spec fn limit_dim(l: GrantLimits, d: int) -> int {
    if d == 0 {
        l.requests as int
    } else if d == 1 {
        l.input_tokens as int
    } else if d == 2 {
        l.output_tokens as int
    } else {
        l.wall_time_ms as int
    }
}

/// Every dimension of `a` is at most the same dimension of `b`.
pub open spec fn amount_le(a: BudgetAmount, b: BudgetAmount) -> bool {
    forall|d: int| 0 <= d < 4 ==> #[trigger] dim(a, d) <= dim(b, d)
}

/// Every dimension of `a` fits the limits.
pub open spec fn amount_fits(a: BudgetAmount, l: GrantLimits) -> bool {
    forall|d: int| 0 <= d < 4 ==> #[trigger] dim(a, d) <= limit_dim(l, d)
}

impl BudgetAmount {
    /// The zero amount.
    pub fn zero() -> (z: BudgetAmount)
        ensures
            forall|d: int| 0 <= d < 4 ==> #[trigger] dim(z, d) == 0,
            z == (BudgetAmount { requests: 0, input_tokens: 0, output_tokens: 0, wall_time_ms: 0 }),
    {
        BudgetAmount { requests: 0, input_tokens: 0, output_tokens: 0, wall_time_ms: 0 }
    }

    /// Sum in every dimension, or `None` when one of them overflows.
    pub fn checked_add(self, other: Self) -> (r: Option<Self>)
        ensures
            r is Some <==> (forall|d: int| 0 <= d < 4 ==> #[trigger] dim(self, d) + dim(other, d) <= u64::MAX),
            r matches Some(s) ==> forall|d: int| 0 <= d < 4 ==> #[trigger] dim(s, d) == dim(self, d) + dim(other, d),
    {
        let requests = self.requests.checked_add(other.requests);
        let input_tokens = self.input_tokens.checked_add(other.input_tokens);
        let output_tokens = self.output_tokens.checked_add(other.output_tokens);
        let wall_time_ms = self.wall_time_ms.checked_add(other.wall_time_ms);
        match (requests, input_tokens, output_tokens, wall_time_ms) {
            (Some(requests), Some(input_tokens), Some(output_tokens), Some(wall_time_ms)) => {
                let s = BudgetAmount { requests, input_tokens, output_tokens, wall_time_ms };
                assert forall|d: int| 0 <= d < 4 implies #[trigger] dim(s, d) == dim(self, d) + dim(other, d) by {}
                Some(s)
            },
            _ => {
                assert(exists|d: int| 0 <= d < 4 && #[trigger] dim(self, d) + dim(other, d) > u64::MAX) by {
                    if requests is None {
                        assert(dim(self, 0) + dim(other, 0) > u64::MAX);
                    } else if input_tokens is None {
                        assert(dim(self, 1) + dim(other, 1) > u64::MAX);
                    } else if output_tokens is None {
                        assert(dim(self, 2) + dim(other, 2) > u64::MAX);
                    } else {
                        assert(dim(self, 3) + dim(other, 3) > u64::MAX);
                    }
                }
                None
            },
        }
    }

    /// Every dimension fits the grant limits.
    pub fn fits(self, limits: GrantLimits) -> (b: bool)
        ensures
            b == amount_fits(self, limits),
    {
        let b = self.requests <= limits.requests && self.input_tokens <= limits.input_tokens
            && self.output_tokens <= limits.output_tokens && self.wall_time_ms
            <= limits.wall_time_ms;
        proof {
            if !b {
                if self.requests > limits.requests {
                    assert(dim(self, 0) > limit_dim(limits, 0));
                } else if self.input_tokens > limits.input_tokens {
                    assert(dim(self, 1) > limit_dim(limits, 1));
                } else if self.output_tokens > limits.output_tokens {
                    assert(dim(self, 2) > limit_dim(limits, 2));
                } else {
                    assert(dim(self, 3) > limit_dim(limits, 3));
                }
            }
        }
        b
    }

    /// Every dimension is at most the same dimension of `maximum`.
    pub fn fits_within(self, maximum: Self) -> (b: bool)
        ensures
            b == amount_le(self, maximum),
    {
        let b = self.requests <= maximum.requests && self.input_tokens <= maximum.input_tokens
            && self.output_tokens <= maximum.output_tokens && self.wall_time_ms
            <= maximum.wall_time_ms;
        proof {
            if !b {
                if self.requests > maximum.requests {
                    assert(dim(self, 0) > dim(maximum, 0));
                } else if self.input_tokens > maximum.input_tokens {
                    assert(dim(self, 1) > dim(maximum, 1));
                } else if self.output_tokens > maximum.output_tokens {
                    assert(dim(self, 2) > dim(maximum, 2));
                } else {
                    assert(dim(self, 3) > dim(maximum, 3));
                }
            }
        }
        b
    }
}

/// The reservation of one run.
#[derive(Debug, Clone, Copy, PartialEq, Eq, Structural)]
pub struct Reservation {
    /// Maximum reserved before the effect.
    pub reserved: BudgetAmount,
    /// Consumption confirmed once the result is known.
    pub confirmed: Option<BudgetAmount>,
    /// A durable start exists but no durable result.
    pub outcome_unknown: bool,
}

/// What a reservation currently charges: the full reservation when the
/// outcome is unknown, else the confirmed consumption if any.
pub open spec fn charged_of(r: Reservation) -> BudgetAmount {
    if r.outcome_unknown {
        r.reserved
    } else {
        match r.confirmed {
            Some(c) => c,
            None => r.reserved,
        }
    }
}

impl Reservation {
    /// What this reservation currently charges.
    pub fn charged(&self) -> (c: BudgetAmount)
        ensures
            c == charged_of(*self),
    {
        if self.outcome_unknown {
            self.reserved
        } else {
            match self.confirmed {
                Some(c) => c,
                None => self.reserved,
            }
        }
    }
}

/// A reservation under its run identifier.
#[derive(Debug, Clone, PartialEq, Eq)]
pub struct ReservationEntry {
    /// Run or reservation identifier.
    pub id: String,
    /// The reservation.
    pub reservation: Reservation,
}

/// Sum of what the entries charge in one dimension.
pub open spec fn charged_total(entries: Seq<ReservationEntry>, d: int) -> int
    decreases entries.len(),
{
    if entries.len() == 0 {
        0
    } else {
        charged_total(entries.drop_last(), d) + dim(charged_of(entries.last().reservation), d)
    }
}

/// The identifiers of the entries.
pub open spec fn entry_ids(entries: Seq<ReservationEntry>) -> Seq<Seq<char>> {
    entries.map_values(|e: ReservationEntry| e.id@)
}

/// Identifiers occur at most once.
pub open spec fn ids_unique(entries: Seq<ReservationEntry>) -> bool {
    forall|i: int, j: int|
        0 <= i < j < entries.len() ==> #[trigger] entries[i].id@ != #[trigger] entries[j].id@
}

/// Whether an identifier has a reservation.
pub open spec fn has_entry(entries: Seq<ReservationEntry>, id: Seq<char>) -> bool {
    exists|i: int| 0 <= i < entries.len() && #[trigger] entries[i].id@ == id
}

/// Full budget view of one grant.
#[derive(Debug, Clone, PartialEq, Eq)]
pub struct LedgerStatus {
    /// Closed version, 1.
    pub schema_version: u16,
    /// Grant the ledger belongs to.
    pub grant_id: String,
    /// Reservations by run identifier.
    pub reservations: Vec<ReservationEntry>,
    /// Total currently charged.
    pub consumed: BudgetAmount,
}

/// Reservation or persistence failure of the ledger.
#[derive(Debug, Clone, PartialEq, Eq)]
pub enum BudgetError {
    /// Invalid input.
    Invalid(String),
    /// The reservation already exists.
    DuplicateReservation(String),
    /// No such reservation.
    MissingReservation(String),
    /// The grant budget would be exceeded.
    Exceeded,
    /// Actual usage is larger than what was reserved.
    ActualExceedsReservation,
    /// Budget arithmetic overflow.
    Overflow,
}

/// What a ledger failure is, its texts taken as sequences.
pub enum BudgetFault {
    /// Invalid input, with its message.
    Invalid(Seq<char>),
    /// The reservation already exists.
    DuplicateReservation(Seq<char>),
    /// No such reservation.
    MissingReservation(Seq<char>),
    /// The grant budget would be exceeded.
    Exceeded,
    /// Actual usage is larger than what was reserved.
    ActualExceedsReservation,
    /// Budget arithmetic overflow.
    Overflow,
}

impl View for BudgetError {
    type V = BudgetFault;

    open spec fn view(&self) -> BudgetFault {
        match self {
            BudgetError::Invalid(m) => BudgetFault::Invalid(m@),
            BudgetError::DuplicateReservation(id) => BudgetFault::DuplicateReservation(id@),
            BudgetError::MissingReservation(id) => BudgetFault::MissingReservation(id@),
            BudgetError::Exceeded => BudgetFault::Exceeded,
            BudgetError::ActualExceedsReservation => BudgetFault::ActualExceedsReservation,
            BudgetError::Overflow => BudgetFault::Overflow,
        }
    }
}

/// The consumed amount equals the charged total and is the ledger's only derived field.
pub open spec fn consistent(status: LedgerStatus) -> bool {
    &&& ids_unique(status.reservations@)
    &&& forall|d: int| 0 <= d < 4 ==> #[trigger] dim(status.consumed, d) == charged_total(status.reservations@, d)
}

/// Charged totals of all dimensions fit in `u64`.
pub open spec fn total_representable(entries: Seq<ReservationEntry>) -> bool {
    forall|d: int| 0 <= d < 4 ==> #[trigger] charged_total(entries, d) <= u64::MAX
}

proof fn lemma_total_monotone(entries: Seq<ReservationEntry>, k: int, d: int)
    requires
        0 <= k <= entries.len(),
    ensures
        charged_total(entries.subrange(0, k), d) <= charged_total(entries, d),
        charged_total(entries, d) >= 0,
    decreases entries.len(),
{
    if entries.len() > 0 {
        if k == entries.len() {
            assert(entries.subrange(0, k) =~= entries);
            lemma_total_monotone(entries.drop_last(), 0, d);
        } else {
            assert(entries.drop_last().subrange(0, k) =~= entries.subrange(0, k));
            lemma_total_monotone(entries.drop_last(), k, d);
        }
    }
}

/// Sums what every reservation charges.
pub fn sum(entries: &Vec<ReservationEntry>) -> (r: Result<BudgetAmount, BudgetError>)
    ensures
        r is Ok <==> total_representable(entries@),
        r matches Ok(total) ==> forall|d: int| 0 <= d < 4 ==> #[trigger] dim(total, d) == charged_total(entries@, d),
        r matches Err(e) ==> e is Overflow,
{
    let mut total = BudgetAmount::zero();
    let mut i: usize = 0;
    while i < entries.len()
        invariant
            i <= entries@.len(),
            forall|d: int| 0 <= d < 4 ==> #[trigger] dim(total, d) == charged_total(entries@.subrange(0, i as int), d),
        decreases entries@.len() - i,
    {
        let charged = entries[i].reservation.charged();
        assert(entries@.subrange(0, i + 1).drop_last() =~= entries@.subrange(0, i as int));
        match total.checked_add(charged) {
            Some(t) => {
                total = t;
            },
            None => {
                proof {
                    let d = choose|d: int| 0 <= d < 4 && #[trigger] dim(total, d) + dim(charged, d) > u64::MAX;
                    lemma_total_monotone(entries@, i + 1, d);
                }
                return Err(BudgetError::Overflow);
            },
        }
        i = i + 1;
    }
    assert(entries@.subrange(0, entries@.len() as int) =~= entries@);
    assert forall|d: int| 0 <= d < 4 implies #[trigger] charged_total(entries@, d) <= u64::MAX by {
        assert(dim(total, d) == charged_total(entries@, d));
    }
    Ok(total)
}


proof fn lemma_total_push(entries: Seq<ReservationEntry>, e: ReservationEntry, d: int)
    ensures
        charged_total(entries.push(e), d) == charged_total(entries, d) + dim(charged_of(e.reservation), d),
{
    assert(entries.push(e).drop_last() =~= entries);
}

proof fn lemma_total_update(entries: Seq<ReservationEntry>, k: int, e: ReservationEntry, d: int)
    requires
        0 <= k < entries.len(),
    ensures
        charged_total(entries.update(k, e), d) == charged_total(entries, d) - dim(
            charged_of(entries[k].reservation),
            d,
        ) + dim(charged_of(e.reservation), d),
    decreases entries.len(),
{
    let u = entries.update(k, e);
    if k == entries.len() - 1 {
        assert(u.drop_last() =~= entries.drop_last());
    } else {
        assert(u.drop_last() =~= entries.drop_last().update(k, e));
        lemma_total_update(entries.drop_last(), k, e, d);
    }
}

/// Identity and version of a stored ledger match the grant.
pub open spec fn identity_ok(status: LedgerStatus, grant_id: Seq<char>) -> bool {
    status.schema_version == 1 && status.grant_id@ == grant_id
}

/// The ledger a grant starts with.
pub open spec fn fresh_spec(grant_id: Seq<char>, status: LedgerStatus) -> bool {
    &&& status.schema_version == 1
    &&& status.grant_id@ == grant_id
    &&& status.reservations@.len() == 0
    &&& status.consumed == BudgetAmount { requests: 0, input_tokens: 0, output_tokens: 0, wall_time_ms: 0 }
}

/// The ledger read from storage, or the empty ledger when none exists yet.
pub open spec fn base_of(current: Option<LedgerStatus>, grant_id: Seq<char>, fresh: LedgerStatus) -> LedgerStatus {
    match current {
        Some(s) => s,
        None => fresh,
    }
}

/// A stored ledger that can be used: right identity, unique ids, representable totals.
pub open spec fn usable(status: LedgerStatus, grant_id: Seq<char>) -> bool {
    &&& identity_ok(status, grant_id)
    &&& ids_unique(status.reservations@)
    &&& total_representable(status.reservations@)
}

/// The empty ledger of a grant.
pub fn fresh_ledger(grant_id: &str) -> (status: LedgerStatus)
    ensures
        fresh_spec(grant_id@, status),
        consistent(status),
{
    let status = LedgerStatus {
        schema_version: 1,
        grant_id: String::from_str(grant_id),
        reservations: Vec::new(),
        consumed: BudgetAmount::zero(),
    };
    assert forall|d: int| 0 <= d < 4 implies #[trigger] dim(status.consumed, d) == charged_total(status.reservations@, d) by {}
    status
}

/// Checks that identifiers are unique.
fn check_unique(entries: &Vec<ReservationEntry>) -> (b: bool)
    ensures
        b == ids_unique(entries@),
{
    let mut i: usize = 0;
    while i < entries.len()
        invariant
            i <= entries@.len(),
            forall|a: int, b: int| 0 <= a < b < entries@.len() && a < i ==> #[trigger] entries@[a].id@ != #[trigger] entries@[b].id@,
        decreases entries@.len() - i,
    {
        let mut j: usize = i + 1;
        while j < entries.len()
            invariant
                i < j <= entries@.len(),
                forall|a: int, b: int| 0 <= a < b < entries@.len() && a < i ==> #[trigger] entries@[a].id@ != #[trigger] entries@[b].id@,
                forall|b: int| i < b < j ==> entries@[i as int].id@ != #[trigger] entries@[b].id@,
            decreases entries@.len() - j,
        {
            if entries[i].id == entries[j].id {
                return false;
            }
            j = j + 1;
        }
        i = i + 1;
    }
    true
}

/// Why a stored ledger cannot be used for a grant, if it cannot.
pub open spec fn base_fault(current: Option<LedgerStatus>, grant_id: Seq<char>) -> Option<BudgetFault> {
    match current {
        None => None,
        Some(c) => if !identity_ok(c, grant_id) {
            Some(BudgetFault::Invalid("ledger identity mismatch"@))
        } else if !ids_unique(c.reservations@) {
            Some(BudgetFault::Invalid("ledger reservation ids repeat"@))
        } else if !total_representable(c.reservations@) {
            Some(BudgetFault::Overflow)
        } else {
            None
        },
    }
}

/// Revalidates a stored ledger (or starts an empty one) and recomputes its total.
pub fn load_base(current: Option<LedgerStatus>, grant_id: &str) -> (r: Result<LedgerStatus, BudgetError>)
    ensures
        current is None ==> (r matches Ok(s) && fresh_spec(grant_id@, s)),
        current matches Some(c) ==> (r is Ok <==> usable(c, grant_id@)),
        current matches Some(c) ==> (r matches Ok(s) ==> s.schema_version == c.schema_version
            && s.grant_id@ == c.grant_id@ && s.reservations@ == c.reservations@),
        current matches Some(c) ==> (r matches Err(e) ==> (!identity_ok(c, grant_id@)
            || !ids_unique(c.reservations@) ==> e is Invalid)),
        current matches Some(c) ==> (r matches Err(e) ==> (identity_ok(c, grant_id@)
            && ids_unique(c.reservations@) ==> e is Overflow)),
        r matches Ok(s) ==> consistent(s) && usable(s, grant_id@),
        r is Ok <==> base_fault(current, grant_id@) is None,
        r matches Err(e) ==> Some(e@) == base_fault(current, grant_id@),
{
    proof {
        reveal_strlit("ledger identity mismatch");
        reveal_strlit("ledger reservation ids repeat");
    }
    match current {
        None => {
            let s = fresh_ledger(grant_id);
            assert forall|d: int| 0 <= d < 4 implies #[trigger] charged_total(s.reservations@, d) <= u64::MAX by {}
            Ok(s)
        },
        Some(mut status) => {
            let expected = String::from_str(grant_id);
            if status.schema_version != 1 || status.grant_id != expected {
                return Err(BudgetError::Invalid(String::from_str("ledger identity mismatch")));
            }
            if !check_unique(&status.reservations) {
                return Err(BudgetError::Invalid(String::from_str("ledger reservation ids repeat")));
            }
            let total = sum(&status.reservations)?;
            status.consumed = total;
            Ok(status)
        },
    }
}

/// Sum of the requested amounts in one dimension.
pub open spec fn request_total(rs: Seq<(String, BudgetAmount)>, d: int) -> int
    decreases rs.len(),
{
    if rs.len() == 0 {
        0
    } else {
        request_total(rs.drop_last(), d) + dim(rs.last().1, d)
    }
}

/// An amount that charges at least one dimension.
pub open spec fn nonzero(a: BudgetAmount) -> bool {
    exists|d: int| 0 <= d < 4 && #[trigger] dim(a, d) != 0
}

/// A reservation request the ledger accepts before reading storage.
pub open spec fn request_ok(rs: Seq<(String, BudgetAmount)>) -> bool {
    &&& rs.len() > 0
    &&& forall|i: int| 0 <= i < rs.len() ==> #[trigger] is_safe_id(rs[i].0@) && nonzero(rs[i].1)
    &&& forall|i: int, j: int| 0 <= i < j < rs.len() ==> #[trigger] rs[i].0@ != #[trigger] rs[j].0@
}

/// The entries a request adds.
pub open spec fn new_entries(rs: Seq<(String, BudgetAmount)>) -> Seq<Seq<char>> {
    rs.map_values(|p: (String, BudgetAmount)| p.0@)
}

/// What is wrong with the requested reservation at a position, given the ones before it.
pub open spec fn request_check(rs: Seq<(String, BudgetAmount)>) -> spec_fn(int) -> Option<BudgetFault> {
    |i: int| if !is_safe_id(rs[i].0@) {
        Some(BudgetFault::Invalid(invalid_identifier_message(rs[i].0@)))
    } else if exists|j: int| 0 <= j < i && #[trigger] rs[j].0@ == rs[i].0@ {
        Some(BudgetFault::DuplicateReservation(rs[i].0@))
    } else if !nonzero(rs[i].1) {
        Some(BudgetFault::Invalid("a reservation must charge at least one dimension"@))
    } else {
        None
    }
}

/// Why a reservation request is refused before the ledger is read, if it is.
pub open spec fn request_fault(rs: Seq<(String, BudgetAmount)>) -> Option<BudgetFault> {
    if rs.len() == 0 {
        Some(BudgetFault::Invalid("at least one reservation is required"@))
    } else {
        first_problem(request_check(rs), rs.len() as int)
    }
}

/// Checks a reservation request: non-empty, safe unique ids, non-zero amounts.
pub fn check_request(rs: &Vec<(String, BudgetAmount)>) -> (r: Result<(), BudgetError>)
    ensures
        r is Ok <==> request_ok(rs@),
        r is Ok <==> request_fault(rs@) is None,
        r matches Err(e) ==> Some(e@) == request_fault(rs@),
{
    proof {
        reveal_strlit("at least one reservation is required");
        reveal_strlit("a reservation must charge at least one dimension");
    }
    let ghost f = request_check(rs@);
    if rs.len() == 0 {
        return Err(BudgetError::Invalid(String::from_str("at least one reservation is required")));
    }
    let mut i: usize = 0;
    while i < rs.len()
        invariant
            i <= rs@.len(),
            rs@.len() > 0,
            forall|a: int| 0 <= a < i ==> #[trigger] is_safe_id(rs@[a].0@),
            forall|a: int| 0 <= a < i ==> #[trigger] nonzero(rs@[a].1),
            forall|a: int, b: int| 0 <= a < b < i ==> #[trigger] rs@[a].0@ != #[trigger] rs@[b].0@,
            f == request_check(rs@),
            first_problem(f, i as int) is None,
        decreases rs@.len() - i,
    {
        if !is_safe_identifier(rs[i].0.as_str()) {
            proof { lemma_first_problem_at(f, i as int, rs@.len() as int); }
            return Err(BudgetError::Invalid(invalid_identifier(rs[i].0.as_str())));
        }
        let mut j: usize = 0;
        while j < i
            invariant
                j <= i < rs@.len(),
                is_safe_id(rs@[i as int].0@),
                forall|a: int| 0 <= a < i ==> #[trigger] is_safe_id(rs@[a].0@),
                forall|a: int| 0 <= a < i ==> #[trigger] nonzero(rs@[a].1),
                forall|a: int, b: int| 0 <= a < b < i ==> #[trigger] rs@[a].0@ != #[trigger] rs@[b].0@,
                forall|b: int| 0 <= b < j ==> #[trigger] rs@[b].0@ != rs@[i as int].0@,
                f == request_check(rs@),
                first_problem(f, i as int) is None,
            decreases i - j,
        {
            if rs[j].0 == rs[i].0 {
                proof {
                    assert(rs@[j as int].0@ == rs@[i as int].0@);
                    lemma_first_problem_at(f, i as int, rs@.len() as int);
                }
                return Err(BudgetError::DuplicateReservation(rs[i].0.clone()));
            }
            j = j + 1;
        }
        let a = rs[i].1;
        if a.requests == 0 && a.input_tokens == 0 && a.output_tokens == 0 && a.wall_time_ms == 0 {
            assert(!nonzero(a)) by {
                assert forall|d: int| 0 <= d < 4 implies #[trigger] dim(a, d) == 0 by {}
            }
            proof { lemma_first_problem_at(f, i as int, rs@.len() as int); }
            return Err(BudgetError::Invalid(String::from_str("a reservation must charge at least one dimension")));
        }
        assert(nonzero(a)) by {
            if a.requests != 0 { assert(dim(a, 0) != 0); }
            else if a.input_tokens != 0 { assert(dim(a, 1) != 0); }
            else if a.output_tokens != 0 { assert(dim(a, 2) != 0); }
            else { assert(dim(a, 3) != 0); }
        }
        assert(is_safe_id(rs@[i as int].0@) && nonzero(rs@[i as int].1));
        assert(first_problem(f, i + 1) is None);
        i = i + 1;
    }
    Ok(())
}

/// Index of the reservation with this identifier.
fn find_entry(entries: &Vec<ReservationEntry>, id: &str) -> (r: Option<usize>)
    ensures
        r is None <==> !has_entry(entries@, id@),
        r matches Some(k) ==> k < entries@.len() && entries@[k as int].id@ == id@,
{
    let key = String::from_str(id);
    let mut i: usize = 0;
    while i < entries.len()
        invariant
            i <= entries@.len(),
            key@ == id@,
            forall|a: int| 0 <= a < i ==> #[trigger] entries@[a].id@ != id@,
        decreases entries@.len() - i,
    {
        if entries[i].id == key {
            return Some(i);
        }
        i = i + 1;
    }
    None
}

/// The entries a ledger starts from: the stored ones, or none.
pub open spec fn base_entries(current: Option<LedgerStatus>) -> Seq<ReservationEntry> {
    match current {
        Some(c) => c.reservations@,
        None => Seq::empty(),
    }
}

/// The stored ledger, if any, can be used for the grant.
pub open spec fn current_usable(current: Option<LedgerStatus>, grant_id: Seq<char>) -> bool {
    match current {
        Some(c) => usable(c, grant_id),
        None => true,
    }
}

/// The entry created for a requested reservation.
pub open spec fn new_entry(p: (String, BudgetAmount), e: ReservationEntry) -> bool {
    e.id@ == p.0@ && e.reservation == (Reservation { reserved: p.1, confirmed: None, outcome_unknown: false })
}

/// `out` holds `base` followed by one fresh entry per request, with the recomputed total.
pub open spec fn reserved_spec(base: Seq<ReservationEntry>, rs: Seq<(String, BudgetAmount)>, out: LedgerStatus) -> bool {
    &&& out.reservations@.len() == base.len() + rs.len()
    &&& out.reservations@.subrange(0, base.len() as int) == base
    &&& forall|i: int| 0 <= i < rs.len() ==> new_entry(rs[i], #[trigger] out.reservations@[base.len() + i])
    &&& forall|d: int| 0 <= d < 4 ==> #[trigger] dim(out.consumed, d) == charged_total(base, d) + request_total(rs, d)
}

/// No requested identifier already has a reservation.
pub open spec fn all_new(base: Seq<ReservationEntry>, rs: Seq<(String, BudgetAmount)>) -> bool {
    forall|i: int| 0 <= i < rs.len() ==> !has_entry(base, #[trigger] rs[i].0@)
}

/// Base total plus every requested amount fits the limits.
pub open spec fn request_fits(base: Seq<ReservationEntry>, rs: Seq<(String, BudgetAmount)>, limits: GrantLimits) -> bool {
    forall|d: int| 0 <= d < 4 ==> #[trigger] charged_total(base, d) + request_total(rs, d) <= limit_dim(limits, d)
}

/// Identity fields carried over from the stored ledger, or those of a fresh one.
pub open spec fn same_identity(current: Option<LedgerStatus>, grant_id: Seq<char>, out: LedgerStatus) -> bool {
    match current {
        Some(c) => out.schema_version == c.schema_version && out.grant_id@ == c.grant_id@,
        None => out.schema_version == 1 && out.grant_id@ == grant_id,
    }
}

proof fn lemma_request_total_prefix(rs: Seq<(String, BudgetAmount)>, k: int, d: int)
    requires
        0 <= k <= rs.len(),
    ensures
        request_total(rs.subrange(0, k), d) <= request_total(rs, d),
        request_total(rs, d) >= 0,
    decreases rs.len(),
{
    if rs.len() > 0 {
        if k == rs.len() {
            assert(rs.subrange(0, k) =~= rs);
            lemma_request_total_prefix(rs.drop_last(), 0, d);
        } else {
            assert(rs.drop_last().subrange(0, k) =~= rs.subrange(0, k));
            lemma_request_total_prefix(rs.drop_last(), k, d);
        }
    }
}

/// What stops the requested reservation at a position from being added after
/// the ones before it: its id already has a reservation, or the running total
/// overflows, or it exceeds the limits.
pub open spec fn reserve_check(base: Seq<ReservationEntry>, rs: Seq<(String, BudgetAmount)>, limits: GrantLimits) -> spec_fn(int) -> Option<BudgetFault> {
    |i: int| if has_entry(base, rs[i].0@) {
        Some(BudgetFault::DuplicateReservation(rs[i].0@))
    } else if exists|d: int| 0 <= d < 4 && charged_total(base, d) + #[trigger] request_total(rs.subrange(0, i + 1), d) > u64::MAX {
        Some(BudgetFault::Overflow)
    } else if exists|d: int| 0 <= d < 4 && charged_total(base, d) + #[trigger] request_total(rs.subrange(0, i + 1), d) > limit_dim(limits, d) {
        Some(BudgetFault::Exceeded)
    } else {
        None
    }
}

/// Why adding the requested reservations to the stored ones fails, if it does.
pub open spec fn reserve_fault(base: Seq<ReservationEntry>, rs: Seq<(String, BudgetAmount)>, limits: GrantLimits) -> Option<BudgetFault> {
    first_problem(reserve_check(base, rs, limits), rs.len() as int)
}

/// Adds the reservations to a revalidated ledger, all or nothing.
fn reserve_into(base: LedgerStatus, limits: GrantLimits, rs: &Vec<(String, BudgetAmount)>) -> (r: Result<LedgerStatus, BudgetError>)
    requires
        consistent(base),
        request_ok(rs@),
    ensures
        r is Ok <==> all_new(base.reservations@, rs@) && request_fits(base.reservations@, rs@, limits),
        r is Ok <==> reserve_fault(base.reservations@, rs@, limits) is None,
        r matches Err(e) ==> Some(e@) == reserve_fault(base.reservations@, rs@, limits),
        r matches Ok(out) ==> reserved_spec(base.reservations@, rs@, out) && out.schema_version
            == base.schema_version && out.grant_id@ == base.grant_id@ && consistent(out),
{
    let ghost b = base.reservations@;
    let ghost f = reserve_check(b, rs@, limits);
    let mut next = base.consumed;
    let mut i: usize = 0;
    while i < rs.len()
        invariant
            consistent(base),
            b == base.reservations@,
            i <= rs@.len(),
            forall|a: int| 0 <= a < i ==> !has_entry(b, #[trigger] rs@[a].0@),
            forall|d: int| 0 <= d < 4 ==> #[trigger] dim(next, d) == charged_total(b, d) + request_total(rs@.subrange(0, i as int), d),
            i > 0 ==> forall|d: int| 0 <= d < 4 ==> #[trigger] dim(next, d) <= limit_dim(limits, d),
            request_ok(rs@),
            f == reserve_check(b, rs@, limits),
            first_problem(f, i as int) is None,
        decreases rs@.len() - i,
    {
        assert(rs@.subrange(0, i + 1).drop_last() =~= rs@.subrange(0, i as int));
        assert(forall|d: int| 0 <= d < 4 ==> #[trigger] request_total(rs@.subrange(0, i + 1), d)
            == request_total(rs@.subrange(0, i as int), d) + dim(rs@[i as int].1, d));
        if find_entry(&base.reservations, rs[i].0.as_str()).is_some() {
            proof { lemma_first_problem_at(f, i as int, rs@.len() as int); }
            return Err(BudgetError::DuplicateReservation(rs[i].0.clone()));
        }
        match next.checked_add(rs[i].1) {
            None => {
                proof {
                    let d = choose|d: int| 0 <= d < 4 && #[trigger] dim(next, d) + dim(rs@[i as int].1, d) > u64::MAX;
                    lemma_request_total_prefix(rs@, i + 1, d);
                    assert(dim(next, d) + dim(rs@[i as int].1, d) == charged_total(b, d) + request_total(rs@.subrange(0, i + 1), d));
                    lemma_first_problem_at(f, i as int, rs@.len() as int);
                }
                return Err(BudgetError::Overflow);
            },
            Some(n) => {
                if !n.fits(limits) {
                    proof {
                        let d = choose|d: int| 0 <= d < 4 && !(#[trigger] dim(n, d) <= limit_dim(limits, d));
                        lemma_request_total_prefix(rs@, i + 1, d);
                        assert(dim(n, d) == charged_total(b, d) + request_total(rs@.subrange(0, i + 1), d));
                        assert forall|d2: int| 0 <= d2 < 4 implies !(charged_total(b, d2) + #[trigger] request_total(rs@.subrange(0, i + 1), d2) > u64::MAX) by {
                            assert(dim(n, d2) == charged_total(b, d2) + request_total(rs@.subrange(0, i + 1), d2));
                        }
                        lemma_first_problem_at(f, i as int, rs@.len() as int);
                    }
                    return Err(BudgetError::Exceeded);
                }
                next = n;
            },
        }
        proof {
            assert forall|d: int| 0 <= d < 4 implies !(charged_total(b, d) + #[trigger] request_total(rs@.subrange(0, i + 1), d) > u64::MAX)
                && !(charged_total(b, d) + request_total(rs@.subrange(0, i + 1), d) > limit_dim(limits, d)) by {
                assert(dim(next, d) == charged_total(b, d) + request_total(rs@.subrange(0, i + 1), d));
            }
            assert(first_problem(f, i + 1) is None);
        }
        i = i + 1;
    }
    assert(rs@.subrange(0, rs@.len() as int) =~= rs@);
    assert(i == rs@.len() && i > 0);
    assert forall|d: int| 0 <= d < 4 implies #[trigger] charged_total(b, d) + request_total(rs@, d) <= limit_dim(limits, d) by {
        assert(dim(next, d) == charged_total(b, d) + request_total(rs@.subrange(0, i as int), d));
        assert(dim(next, d) <= limit_dim(limits, d));
    }
    assert(all_new(b, rs@));
    let mut out = base;
    let mut k: usize = 0;
    while k < rs.len()
        invariant
            k <= rs@.len(),
            out.schema_version == base.schema_version,
            out.grant_id == base.grant_id,
            out.reservations@.len() == b.len() + k,
            out.reservations@.subrange(0, b.len() as int) == b,
            forall|a: int| 0 <= a < k ==> new_entry(rs@[a], #[trigger] out.reservations@[b.len() + a]),
            forall|d: int| 0 <= d < 4 ==> #[trigger] charged_total(out.reservations@, d) == charged_total(b, d) + request_total(rs@.subrange(0, k as int), d),
            ids_unique(out.reservations@),
            request_ok(rs@),
            forall|a: int| 0 <= a < rs@.len() ==> !has_entry(b, #[trigger] rs@[a].0@),
        decreases rs@.len() - k,
    {
        let e = ReservationEntry {
            id: rs[k].0.clone(),
            reservation: Reservation { reserved: rs[k].1, confirmed: None, outcome_unknown: false },
        };
        let ghost prev = out.reservations@;
        out.reservations.push(e);
        proof {
            assert(rs@.subrange(0, k + 1).drop_last() =~= rs@.subrange(0, k as int));
            assert forall|d: int| 0 <= d < 4 implies #[trigger] charged_total(out.reservations@, d) == charged_total(b, d) + request_total(rs@.subrange(0, k + 1), d) by {
                lemma_total_push(prev, e, d);
            }
            assert(out.reservations@.subrange(0, b.len() as int) =~= prev.subrange(0, b.len() as int));
            assert forall|x: int, y: int| 0 <= x < y < out.reservations@.len() implies #[trigger] out.reservations@[x].id@ != #[trigger] out.reservations@[y].id@ by {
                if y == prev.len() {
                    if x < b.len() {
                        assert(prev[x] == b[x]);
                        if b[x].id@ == rs@[k as int].0@ {
                            assert(has_entry(b, rs@[k as int].0@));
                        }
                    } else {
                        let a = x - b.len();
                        assert(new_entry(rs@[a], prev[b.len() + a]));
                        assert(rs@[a].0@ != rs@[k as int].0@);
                    }
                } else {
                    assert(out.reservations@[x] == prev[x]);
                    assert(out.reservations@[y] == prev[y]);
                }
            }
        }
        k = k + 1;
    }
    out.consumed = next;
    proof {
        assert(rs@.subrange(0, rs@.len() as int) =~= rs@);
    }
    Ok(out)
}

/// Reserves maxima before an invocation, all or nothing.
///
/// `current` is the grant's stored ledger, `None` when none exists yet.
pub fn reserve_many(
    current: Option<LedgerStatus>,
    grant_id: &str,
    limits: GrantLimits,
    rs: &Vec<(String, BudgetAmount)>,
) -> (r: Result<LedgerStatus, BudgetError>)
    ensures
        r is Ok <==> request_ok(rs@) && current_usable(current, grant_id@) && all_new(
            base_entries(current),
            rs@,
        ) && request_fits(base_entries(current), rs@, limits),
        r matches Ok(out) ==> same_identity(current, grant_id@, out) && reserved_spec(
            base_entries(current),
            rs@,
            out,
        ),
        r matches Ok(out) ==> consistent(out) && amount_fits(out.consumed, limits),
        r matches Err(e) ==> Some(e@) == if request_fault(rs@) is Some {
            request_fault(rs@)
        } else if base_fault(current, grant_id@) is Some {
            base_fault(current, grant_id@)
        } else {
            reserve_fault(base_entries(current), rs@, limits)
        },
{
    check_request(rs)?;
    let base = load_base(current, grant_id)?;
    assert(base.reservations@ =~= base_entries(current));
    let out = reserve_into(base, limits, rs)?;
    proof {
        assert forall|d: int| 0 <= d < 4 implies #[trigger] dim(out.consumed, d) <= limit_dim(limits, d) by {}
    }
    Ok(out)
}


/// Every dimension of the entries' charged total fits the limits.
pub open spec fn total_fits(entries: Seq<ReservationEntry>, limits: GrantLimits) -> bool {
    forall|d: int| 0 <= d < 4 ==> #[trigger] charged_total(entries, d) <= limit_dim(limits, d)
}

/// Position of the reservation with this identifier.
pub open spec fn index_of(entries: Seq<ReservationEntry>, id: Seq<char>) -> int {
    choose|k: int| 0 <= k < entries.len() && #[trigger] entries[k].id@ == id
}

/// The entries after settling the reservation `id` with the given outcome.
pub open spec fn settled(entries: Seq<ReservationEntry>, id: Seq<char>, confirmed: Option<BudgetAmount>, unknown: bool) -> Seq<ReservationEntry> {
    let k = index_of(entries, id);
    entries.update(k, ReservationEntry {
        id: entries[k].id,
        reservation: Reservation { reserved: entries[k].reservation.reserved, confirmed, outcome_unknown: unknown },
    })
}

/// The ledger holds the reservation `id` marked as having an unknown
/// outcome: nothing confirmed, the whole maximum charged.
pub open spec fn marked_unknown(entries: Seq<ReservationEntry>, id: Seq<char>) -> bool {
    exists|k: int| 0 <= k < entries.len() && #[trigger] entries[k].id@ == id
        && entries[k].reservation.confirmed is None && entries[k].reservation.outcome_unknown
}

/// What was reserved under `id`.
pub open spec fn reserved_for(entries: Seq<ReservationEntry>, id: Seq<char>) -> BudgetAmount {
    entries[index_of(entries, id)].reservation.reserved
}

proof fn lemma_index_of(entries: Seq<ReservationEntry>, id: Seq<char>, k: int)
    requires
        ids_unique(entries),
        0 <= k < entries.len(),
        entries[k].id@ == id,
    ensures
        index_of(entries, id) == k,
{
    let c = index_of(entries, id);
    assert(0 <= c < entries.len() && entries[c].id@ == id);
    if c < k {
        assert(entries[c].id@ != entries[k].id@);
    } else if c > k {
        assert(entries[k].id@ != entries[c].id@);
    }
}


/// Why settling the reservation `run_id` with an outcome fails, if it does:
/// the stored ledger is unusable, the reservation is missing, the confirmed
/// amount exceeds it, or the settled totals overflow or exceed the limits.
pub open spec fn settle_fault(
    current: Option<LedgerStatus>,
    grant_id: Seq<char>,
    limits: GrantLimits,
    run_id: Seq<char>,
    confirmed: Option<BudgetAmount>,
    unknown: bool,
) -> Option<BudgetFault> {
    let base = base_entries(current);
    if base_fault(current, grant_id) is Some {
        base_fault(current, grant_id)
    } else if !has_entry(base, run_id) {
        Some(BudgetFault::MissingReservation(run_id))
    } else if confirmed matches Some(a) && !amount_le(a, reserved_for(base, run_id)) {
        Some(BudgetFault::ActualExceedsReservation)
    } else if !total_representable(settled(base, run_id, confirmed, unknown)) {
        Some(BudgetFault::Overflow)
    } else if !total_fits(settled(base, run_id, confirmed, unknown), limits) {
        Some(BudgetFault::Exceeded)
    } else {
        None
    }
}

/// Records the outcome of a reservation and recomputes the total.
fn settle(
    current: Option<LedgerStatus>,
    grant_id: &str,
    limits: GrantLimits,
    run_id: &str,
    confirmed: Option<BudgetAmount>,
    unknown: bool,
) -> (r: Result<LedgerStatus, BudgetError>)
    ensures
        r is Ok <==> current_usable(current, grant_id@) && has_entry(base_entries(current), run_id@)
            && (confirmed matches Some(a) ==> amount_le(a, reserved_for(base_entries(current), run_id@)))
            && total_fits(settled(base_entries(current), run_id@, confirmed, unknown), limits),
        r matches Ok(out) ==> same_identity(current, grant_id@, out) && out.reservations@ == settled(
            base_entries(current),
            run_id@,
            confirmed,
            unknown,
        ) && consistent(out) && amount_fits(out.consumed, limits),
        r matches Err(e) ==> Some(e@) == settle_fault(current, grant_id@, limits, run_id@, confirmed, unknown),
{
    let mut base = load_base(current, grant_id)?;
    assert(base.reservations@ =~= base_entries(current));
    let ghost b = base.reservations@;
    let k = match find_entry(&base.reservations, run_id) {
        Some(k) => k,
        None => {
            return Err(BudgetError::MissingReservation(String::from_str(run_id)));
        },
    };
    proof {
        lemma_index_of(b, run_id@, k as int);
    }
    let reserved = base.reservations[k].reservation.reserved;
    assert(reserved == reserved_for(b, run_id@));
    if let Some(actual) = confirmed {
        if !actual.fits_within(reserved) {
            return Err(BudgetError::ActualExceedsReservation);
        }
    }
    assert(confirmed matches Some(a) ==> amount_le(a, reserved_for(b, run_id@)));
    let e = ReservationEntry {
        id: base.reservations[k].id.clone(),
        reservation: Reservation { reserved, confirmed, outcome_unknown: unknown },
    };
    base.reservations.set(k, e);
    assert(base.reservations@ =~= settled(b, run_id@, confirmed, unknown));
    proof {
        assert forall|x: int, y: int| 0 <= x < y < base.reservations@.len() implies #[trigger] base.reservations@[x].id@ != #[trigger] base.reservations@[y].id@ by {
            assert(b[x].id@ != b[y].id@);
        }
    }
    let total = sum(&base.reservations)?;
    base.consumed = total;
    if !total.fits(limits) {
        proof {
            let d = choose|d: int| 0 <= d < 4 && !(#[trigger] dim(total, d) <= limit_dim(limits, d));
            assert(!(charged_total(base.reservations@, d) <= limit_dim(limits, d)));
        }
        return Err(BudgetError::Exceeded);
    }
    proof {
        assert forall|d: int| 0 <= d < 4 implies #[trigger] charged_total(base.reservations@, d) <= limit_dim(limits, d) by {
            assert(dim(total, d) == charged_total(base.reservations@, d));
        }
        assert(total_fits(base.reservations@, limits));
        assert(base.reservations@ == settled(b, run_id@, confirmed, unknown));
        assert(total_fits(settled(b, run_id@, confirmed, unknown), limits));
        assert(has_entry(b, run_id@)) by {
            assert(b[k as int].id@ == run_id@);
        }
    }
    Ok(base)
}

/// Confirms known consumption; only the proven remainder of the reservation is released.
pub fn confirm(
    current: Option<LedgerStatus>,
    grant_id: &str,
    limits: GrantLimits,
    run_id: &str,
    actual: BudgetAmount,
) -> (r: Result<LedgerStatus, BudgetError>)
    ensures
        r is Ok <==> current_usable(current, grant_id@) && has_entry(base_entries(current), run_id@)
            && amount_le(actual, reserved_for(base_entries(current), run_id@))
            && total_fits(settled(base_entries(current), run_id@, Some(actual), false), limits),
        r matches Ok(out) ==> same_identity(current, grant_id@, out) && out.reservations@ == settled(
            base_entries(current),
            run_id@,
            Some(actual),
            false,
        ) && consistent(out) && amount_fits(out.consumed, limits),
        r matches Err(e) ==> Some(e@) == settle_fault(current, grant_id@, limits, run_id@, Some(actual), false),
{
    settle(current, grant_id, limits, run_id, Some(actual), false)
}

/// Keeps the whole reservation charged when the effect is ambiguous.
pub fn mark_outcome_unknown(
    current: Option<LedgerStatus>,
    grant_id: &str,
    limits: GrantLimits,
    run_id: &str,
) -> (r: Result<LedgerStatus, BudgetError>)
    ensures
        r is Ok <==> current_usable(current, grant_id@) && has_entry(base_entries(current), run_id@)
            && total_fits(settled(base_entries(current), run_id@, None, true), limits),
        r matches Ok(out) ==> same_identity(current, grant_id@, out) && out.reservations@ == settled(
            base_entries(current),
            run_id@,
            None,
            true,
        ) && consistent(out) && amount_fits(out.consumed, limits),
        r matches Err(e) ==> Some(e@) == settle_fault(current, grant_id@, limits, run_id@, None, true),
        r matches Ok(out) ==> marked_unknown(out.reservations@, run_id@),
{
    let r = settle(current, grant_id, limits, run_id, None, true);
    proof {
        if r is Ok {
            let b = base_entries(current);
            let k = index_of(b, run_id@);
            assert(0 <= k < b.len() && b[k].id@ == run_id@);
            assert(r->Ok_0.reservations@[k].id@ == run_id@);
        }
    }
    r
}

/// Reads a stored ledger for display: checks its identifier and identity, recomputes the total.
pub fn status(stored: LedgerStatus, grant_id: &str) -> (r: Result<LedgerStatus, BudgetError>)
    ensures
        r is Ok <==> is_safe_id(grant_id@) && usable(stored, grant_id@),
        r matches Ok(out) ==> out.reservations@ == stored.reservations@ && out.grant_id@ == stored.grant_id@
            && out.schema_version == stored.schema_version && consistent(out),
        r matches Err(e) ==> Some(e@) == if !is_safe_id(grant_id@) {
            Some(BudgetFault::Invalid(invalid_identifier_message(grant_id@)))
        } else {
            base_fault(Some(stored), grant_id@)
        },
{
    if !is_safe_identifier(grant_id) {
        return Err(BudgetError::Invalid(invalid_identifier(grant_id)));
    }
    load_base(Some(stored), grant_id)
}

/// Law: once settled as confirmed, a reservation charges exactly the confirmed
/// amount, which never exceeds what was reserved.
pub proof fn law_confirm_charges_actual(entries: Seq<ReservationEntry>, id: Seq<char>, actual: BudgetAmount)
    requires
        has_entry(entries, id),
        amount_le(actual, reserved_for(entries, id)),
    ensures
        ({
            let k = index_of(entries, id);
            &&& charged_of(settled(entries, id, Some(actual), false)[k].reservation) == actual
            &&& amount_le(charged_of(settled(entries, id, Some(actual), false)[k].reservation), entries[k].reservation.reserved)
        }),
{
}

/// Law: an ambiguous outcome keeps the full reservation charged.
pub proof fn law_unknown_charges_reservation(entries: Seq<ReservationEntry>, id: Seq<char>)
    requires
        has_entry(entries, id),
    ensures
        ({
            let k = index_of(entries, id);
            charged_of(settled(entries, id, None, true)[k].reservation) == entries[k].reservation.reserved
        }),
{
}

/// Law: settling a reservation leaves every other reservation as it was.
pub proof fn law_settle_is_local(entries: Seq<ReservationEntry>, id: Seq<char>, confirmed: Option<BudgetAmount>, unknown: bool, j: int)
    requires
        has_entry(entries, id),
        0 <= j < entries.len(),
        entries[j].id@ != id,
    ensures
        settled(entries, id, confirmed, unknown)[j] == entries[j],
        settled(entries, id, confirmed, unknown).len() == entries.len(),
{
}

} // verus!

//! Accounts, streams keyed by (employer, employee), and the atomic movement
//! of value.
//!
//! A [`Ledger`] plays the custody role around the stream lifecycle: accounts
//! hold available balances, and each stream transition moves value in the
//! same call that rewrites the record, so no caller can observe one without
//! the other. The ledger enforces the keyed-uniqueness rule — at most one
//! `Active` stream per (employer, employee) pair — and conserves value: no
//! operation but opening an account changes the total it administers.
//!
//! An account is addressed by the index at which it was opened; closed
//! streams stay archived in place, so a claim against a pair whose stream was
//! cancelled still answers `StreamClosed` rather than vanishing.

use vstd::prelude::*;

use crate::stream::{
    spec_cancel_outcome, spec_claim_outcome, spec_claimable, query_claimable, Stream, StreamError,
    StreamStatus,
};

verus! {

/// Total value sitting in accounts as available balances.
pub open spec fn sum_balances(balances: Seq<u64>) -> int
    decreases balances.len(),
{
    if balances.len() == 0 {
        0
    } else {
        sum_balances(balances.drop_last()) + balances.last()
    }
}

/// Total value still locked inside active streams.
pub open spec fn sum_outstanding(streams: Seq<Stream>) -> int
    decreases streams.len(),
{
    if streams.len() == 0 {
        0
    } else {
        sum_outstanding(streams.drop_last()) + streams.last().outstanding()
    }
}

/// Every stream record on file satisfies its structural invariant.
pub open spec fn streams_wf(streams: Seq<Stream>) -> bool {
    forall|i: int| 0 <= i < streams.len() ==> (#[trigger] streams[i]).wf()
}

/// At most one `Active` stream exists per (employer, employee) pair.
pub open spec fn unique_active(streams: Seq<Stream>) -> bool {
    forall|i: int, j: int|
        0 <= i < streams.len() && 0 <= j < streams.len() && i != j && (#[trigger] streams[i]).status
            is Active && (#[trigger] streams[j]).status is Active ==> !(streams[i].employer
            == streams[j].employer && streams[i].employee == streams[j].employee)
}

/// `s` is the live stream of the given pair.
pub open spec fn is_active_pair(s: Stream, employer: u64, employee: u64) -> bool {
    s.status is Active && s.employer == employer && s.employee == employee
}

/// Some live stream of the given pair is on file.
pub open spec fn has_active(streams: Seq<Stream>, employer: u64, employee: u64) -> bool {
    exists|i: int|
        0 <= i < streams.len() && #[trigger] is_active_pair(streams[i], employer, employee)
}

/// Some stream of the given pair is on file, live or archived.
pub open spec fn has_pair(streams: Seq<Stream>, employer: u64, employee: u64) -> bool {
    exists|i: int|
        0 <= i < streams.len() && (#[trigger] streams[i]).employer == employer
            && streams[i].employee == employee
}

/// The position of the live stream of the given pair; meaningful whenever
/// [`has_active`] holds, and unique by [`unique_active`].
pub open spec fn the_active(streams: Seq<Stream>, employer: u64, employee: u64) -> int {
    choose|i: int|
        0 <= i < streams.len() && #[trigger] is_active_pair(streams[i], employer, employee)
}

/// Under keyed uniqueness, any live stream of a pair found at position `i`
/// *is* [`the_active`] one: lets a caller identify the record the ledger
/// operations speak about.
pub proof fn lemma_the_active(streams: Seq<Stream>, i: int, employer: u64, employee: u64)
    requires
        unique_active(streams),
        0 <= i < streams.len(),
        is_active_pair(streams[i], employer, employee),
    ensures
        has_active(streams, employer, employee),
        the_active(streams, employer, employee) == i,
{
    assert(has_active(streams, employer, employee));
    let j = the_active(streams, employer, employee);
    assert(is_active_pair(streams[j], employer, employee));
}

proof fn lemma_sum_balances_push(balances: Seq<u64>, value: u64)
    ensures
        sum_balances(balances.push(value)) == sum_balances(balances) + value,
{
    assert(balances.push(value).drop_last() =~= balances);
}

proof fn lemma_sum_balances_update(balances: Seq<u64>, i: int, value: u64)
    requires
        0 <= i < balances.len(),
    ensures
        sum_balances(balances.update(i, value)) == sum_balances(balances) - balances[i] + value,
    decreases balances.len(),
{
    if i == balances.len() - 1 {
        assert(balances.update(i, value).drop_last() =~= balances.drop_last());
    } else {
        assert(balances.update(i, value).drop_last() =~= balances.drop_last().update(i, value));
        lemma_sum_balances_update(balances.drop_last(), i, value);
    }
}

proof fn lemma_sum_balances_element(balances: Seq<u64>, i: int)
    requires
        0 <= i < balances.len(),
    ensures
        balances[i] <= sum_balances(balances),
    decreases balances.len(),
{
    if i == balances.len() - 1 {
        lemma_sum_balances_nonneg(balances.drop_last());
    } else {
        lemma_sum_balances_element(balances.drop_last(), i);
    }
}

proof fn lemma_sum_balances_nonneg(balances: Seq<u64>)
    ensures
        0 <= sum_balances(balances),
    decreases balances.len(),
{
    if balances.len() > 0 {
        lemma_sum_balances_nonneg(balances.drop_last());
    }
}

proof fn lemma_sum_outstanding_push(streams: Seq<Stream>, s: Stream)
    ensures
        sum_outstanding(streams.push(s)) == sum_outstanding(streams) + s.outstanding(),
{
    assert(streams.push(s).drop_last() =~= streams);
}

proof fn lemma_sum_outstanding_update(streams: Seq<Stream>, i: int, s: Stream)
    requires
        0 <= i < streams.len(),
    ensures
        sum_outstanding(streams.update(i, s)) == sum_outstanding(streams)
            - streams[i].outstanding() + s.outstanding(),
    decreases streams.len(),
{
    if i == streams.len() - 1 {
        assert(streams.update(i, s).drop_last() =~= streams.drop_last());
    } else {
        assert(streams.update(i, s).drop_last() =~= streams.drop_last().update(i, s));
        lemma_sum_outstanding_update(streams.drop_last(), i, s);
    }
}

proof fn lemma_sum_outstanding_element(streams: Seq<Stream>, i: int)
    requires
        streams_wf(streams),
        0 <= i < streams.len(),
    ensures
        streams[i].outstanding() <= sum_outstanding(streams),
    decreases streams.len(),
{
    assert(streams_wf(streams.drop_last()));
    if i == streams.len() - 1 {
        lemma_sum_outstanding_nonneg(streams.drop_last());
    } else {
        lemma_sum_outstanding_element(streams.drop_last(), i);
    }
}

proof fn lemma_sum_outstanding_nonneg(streams: Seq<Stream>)
    requires
        streams_wf(streams),
    ensures
        0 <= sum_outstanding(streams),
    decreases streams.len(),
{
    if streams.len() > 0 {
        assert(streams_wf(streams.drop_last()));
        assert(streams.last().wf());
        lemma_sum_outstanding_nonneg(streams.drop_last());
    }
}

/// The custody ledger: available balances plus every stream on file.
pub struct Ledger {
    /// Available balance of each account; an account is addressed by the
    /// index at which it was opened.
    pub accounts: Vec<u64>,
    /// Every stream ever created, live or archived.
    pub streams: Vec<Stream>,
}

/// Everything the ledger administers: available balances plus the value
/// still locked inside active streams. Conserved by every stream operation.
pub open spec fn total_value(l: Ledger) -> int {
    sum_balances(l.accounts@) + sum_outstanding(l.streams@)
}

impl Ledger {
    /// Ledger-wide invariant: sound stream records, keyed uniqueness, and a
    /// representable total, so no credit a stream operation owes can wrap.
    pub open spec fn wf(self) -> bool {
        &&& streams_wf(self.streams@)
        &&& unique_active(self.streams@)
        &&& total_value(self) <= u64::MAX
    }

    /// An empty ledger: no accounts, no streams, no value.
    pub fn new() -> (r: Ledger)
        ensures
            r.wf(),
            r.accounts@.len() == 0,
            r.streams@.len() == 0,
            total_value(r) == 0,
    {
        Ledger { accounts: Vec::new(), streams: Vec::new() }
    }

    /// Opens a fresh account holding `initial_balance` and returns its
    /// address. The only way value enters the system.
    pub fn open_account(&mut self, initial_balance: u64) -> (id: u64)
        requires
            old(self).wf(),
            total_value(*old(self)) + initial_balance <= u64::MAX,
            old(self).accounts@.len() < u64::MAX,
        ensures
            final(self).wf(),
            id == old(self).accounts@.len(),
            final(self).accounts@ == old(self).accounts@.push(initial_balance),
            final(self).streams@ == old(self).streams@,
            total_value(*final(self)) == total_value(*old(self)) + initial_balance,
    {
        proof {
            lemma_sum_balances_push(self.accounts@, initial_balance);
        }
        let id = self.accounts.len();
        self.accounts.push(initial_balance);
        id as u64
    }

    /// Reads an account's available balance.
    pub fn balance_of(&self, id: u64) -> (r: u64)
        requires
            (id as int) < self.accounts@.len(),
        ensures
            r == self.accounts@[id as int],
    {
        let n = self.accounts.len();
        proof {
            assert((id as int) < (n as int));
        }
        self.accounts[id as usize]
    }
}

/// What a creation request decides, in the order the checks are made:
/// argument validation, then funding, then keyed uniqueness.
pub open spec fn spec_create_outcome(
    l: Ledger,
    employer: u64,
    employee: u64,
    deposited_amount: u64,
    rate_per_second: u64,
) -> Result<(), StreamError> {
    if deposited_amount == 0 || rate_per_second == 0 {
        Err(StreamError::InvalidAmount)
    } else if l.accounts@[employer as int] < deposited_amount {
        Err(StreamError::InsufficientFunds)
    } else if has_active(l.streams@, employer, employee) {
        Err(StreamError::DuplicateStream)
    } else {
        Ok(())
    }
}

impl Ledger {
    /// Creates and funds a stream from `employer` to `employee`, vesting from
    /// `now` on: atomically reserves the deposit out of the employer's
    /// available balance and files the fresh `Active` record. Rejects a zero
    /// deposit or rate, an underfunded employer, and a pair that already has
    /// a live stream; a rejection leaves the ledger untouched.
    pub fn create_stream(
        &mut self,
        employer: u64,
        employee: u64,
        deposited_amount: u64,
        rate_per_second: u64,
        now: i64,
    ) -> (r: Result<(), StreamError>)
        requires
            old(self).wf(),
            (employer as int) < old(self).accounts@.len(),
            (employee as int) < old(self).accounts@.len(),
        ensures
            final(self).wf(),
            r == spec_create_outcome(
                *old(self),
                employer,
                employee,
                deposited_amount,
                rate_per_second,
            ),
            r is Err ==> final(self).accounts@ == old(self).accounts@ && final(self).streams@
                == old(self).streams@,
            r is Ok ==> final(self).accounts@ == old(self).accounts@.update(
                employer as int,
                (old(self).accounts@[employer as int] - deposited_amount) as u64,
            ),
            r is Ok ==> final(self).streams@ == old(self).streams@.push(
                (Stream {
                    employer,
                    employee,
                    start_time: now,
                    rate_per_second,
                    deposited_amount,
                    claimed_amount: 0,
                    status: StreamStatus::Active,
                }),
            ),
            total_value(*final(self)) == total_value(*old(self)),
    {
        let stream = match Stream::create(employer, employee, deposited_amount, rate_per_second,
            now) {
            Ok(s) => s,
            Err(e) => {
                return Err(e);
            },
        };
        let employer_balance = self.balance_of(employer);
        if employer_balance < deposited_amount {
            return Err(StreamError::InsufficientFunds);
        }
        match find_active(&self.streams, employer, employee) {
            Some(_) => {
                return Err(StreamError::DuplicateStream);
            },
            None => {},
        }
        proof {
            lemma_sum_balances_update(
                self.accounts@,
                employer as int,
                (employer_balance - deposited_amount) as u64,
            );
            lemma_sum_outstanding_push(self.streams@, stream);
        }
        let n = self.accounts.len();
        proof {
            assert((employer as int) < (n as int));
        }
        self.accounts[employer as usize] = employer_balance - deposited_amount;
        self.streams.push(stream);
        proof {
            let prev = old(self).streams@;
            let cur = self.streams@;
            assert forall|i: int| 0 <= i < cur.len() implies (#[trigger] cur[i]).wf() by {
                if i < prev.len() {
                    assert(prev[i].wf());
                }
            }
            assert forall|i: int, j: int|
                0 <= i < cur.len() && 0 <= j < cur.len() && i != j && (#[trigger] cur[i]).status
                    is Active && (#[trigger] cur[j]).status is Active implies !(cur[i].employer
                == cur[j].employer && cur[i].employee == cur[j].employee) by {
                if i == prev.len() {
                    if cur[j].employer == employer && cur[j].employee == employee && cur[j].status
                        is Active {
                        assert(is_active_pair(prev[j], employer, employee));
                        assert(false);
                    }
                } else if j == prev.len() {
                    if cur[i].employer == employer && cur[i].employee == employee && cur[i].status
                        is Active {
                        assert(is_active_pair(prev[i], employer, employee));
                        assert(false);
                    }
                }
            }
        }
        Ok(())
    }
}

impl Ledger {
    /// A withdrawal by the employee against the live stream of the pair,
    /// `requested_amount` of `None` asking for everything currently
    /// claimable: rewrites the record and credits the employee's account in
    /// one step. The caller must be the employee; a pair whose stream is on
    /// file but no longer live answers `StreamClosed`; every rejection
    /// leaves the ledger untouched.
    pub fn claim(
        &mut self,
        caller: u64,
        employer: u64,
        employee: u64,
        now: i64,
        requested_amount: Option<u64>,
    ) -> (r: Result<u64, StreamError>)
        requires
            old(self).wf(),
            (employee as int) < old(self).accounts@.len(),
            has_pair(old(self).streams@, employer, employee),
        ensures
            final(self).wf(),
            total_value(*final(self)) == total_value(*old(self)),
            r is Err ==> final(self).accounts@ == old(self).accounts@ && final(self).streams@
                == old(self).streams@,
            caller != employee ==> r == Err::<u64, StreamError>(StreamError::Unauthorized),
            caller == employee && !has_active(old(self).streams@, employer, employee) ==> r
                == Err::<u64, StreamError>(StreamError::StreamClosed),
            caller == employee && has_active(old(self).streams@, employer, employee) ==> r
                == spec_claim_outcome(
                old(self).streams@[the_active(old(self).streams@, employer, employee)],
                caller,
                now as int,
                requested_amount,
            ),
            r matches Ok(amount) ==> ({
                let i = the_active(old(self).streams@, employer, employee);
                let s = old(self).streams@[i];
                &&& final(self).streams@ == old(self).streams@.update(
                    i,
                    (Stream { claimed_amount: (s.claimed_amount + amount) as u64, ..s }),
                )
                &&& final(self).accounts@ == old(self).accounts@.update(
                    employee as int,
                    (old(self).accounts@[employee as int] + amount) as u64,
                )
            }),
    {
        if caller != employee {
            return Err(StreamError::Unauthorized);
        }
        let idx = match find_active(&self.streams, employer, employee) {
            None => {
                return Err(StreamError::StreamClosed);
            },
            Some(i) => i,
        };
        proof {
            lemma_the_active(self.streams@, idx as int, employer, employee);
        }
        let mut s = self.streams[idx];
        let result = s.claim(caller, now, requested_amount);
        let amount = match result {
            Err(e) => {
                return Err(e);
            },
            Ok(amount) => amount,
        };
        let employee_balance = self.balance_of(employee);
        proof {
            lemma_sum_balances_element(self.accounts@, employee as int);
            lemma_sum_outstanding_element(self.streams@, idx as int);
            lemma_sum_balances_update(
                self.accounts@,
                employee as int,
                (employee_balance + amount) as u64,
            );
            lemma_sum_outstanding_update(self.streams@, idx as int, s);
        }
        self.streams[idx] = s;
        let n = self.accounts.len();
        proof {
            assert((employee as int) < (n as int));
        }
        self.accounts[employee as usize] = employee_balance + amount;
        proof {
            let prev = old(self).streams@;
            let cur = self.streams@;
            assert forall|i: int| 0 <= i < cur.len() implies (#[trigger] cur[i]).wf() by {
                if i != idx as int {
                    assert(prev[i].wf());
                }
            }
            assert forall|i: int, j: int|
                0 <= i < cur.len() && 0 <= j < cur.len() && i != j && (#[trigger] cur[i]).status
                    is Active && (#[trigger] cur[j]).status is Active implies !(cur[i].employer
                == cur[j].employer && cur[i].employee == cur[j].employee) by {
                assert(prev[i].status is Active && prev[j].status is Active);
            }
        }
        Ok(amount)
    }

    /// Cancels the live stream of the pair: one atomic settlement that pays
    /// the employee everything still claimable, refunds the employer the
    /// unvested remainder, and archives the record as `Closed`. Either party
    /// may cancel; a pair whose stream is already closed answers
    /// `StreamAlreadyClosed`; every rejection leaves the ledger untouched.
    pub fn cancel(&mut self, caller: u64, employer: u64, employee: u64, now: i64) -> (r: Result<
        (u64, u64),
        StreamError,
    >)
        requires
            old(self).wf(),
            (employee as int) < old(self).accounts@.len(),
            (employer as int) < old(self).accounts@.len(),
            has_pair(old(self).streams@, employer, employee),
        ensures
            final(self).wf(),
            total_value(*final(self)) == total_value(*old(self)),
            r is Err ==> final(self).accounts@ == old(self).accounts@ && final(self).streams@
                == old(self).streams@,
            caller != employer && caller != employee ==> r == Err::<
                (u64, u64),
                StreamError,
            >(StreamError::Unauthorized),
            (caller == employer || caller == employee) && !has_active(
                old(self).streams@,
                employer,
                employee,
            ) ==> r == Err::<(u64, u64), StreamError>(StreamError::StreamAlreadyClosed),
            (caller == employer || caller == employee) && has_active(
                old(self).streams@,
                employer,
                employee,
            ) ==> r == spec_cancel_outcome(
                old(self).streams@[the_active(old(self).streams@, employer, employee)],
                caller,
                now as int,
            ),
            r matches Ok(settlement) ==> ({
                let i = the_active(old(self).streams@, employer, employee);
                let s = old(self).streams@[i];
                let credited = old(self).accounts@.update(
                    employee as int,
                    (old(self).accounts@[employee as int] + settlement.0) as u64,
                );
                &&& final(self).streams@ == old(self).streams@.update(
                    i,
                    (Stream {
                        claimed_amount: (s.claimed_amount + settlement.0) as u64,
                        status: StreamStatus::Closed,
                        ..s
                    }),
                )
                &&& final(self).accounts@ == credited.update(
                    employer as int,
                    (credited[employer as int] + settlement.1) as u64,
                )
            }),
    {
        if caller != employer && caller != employee {
            return Err(StreamError::Unauthorized);
        }
        let idx = match find_active(&self.streams, employer, employee) {
            None => {
                return Err(StreamError::StreamAlreadyClosed);
            },
            Some(i) => i,
        };
        proof {
            lemma_the_active(self.streams@, idx as int, employer, employee);
        }
        let mut s = self.streams[idx];
        let result = s.cancel(caller, now);
        let settlement = match result {
            Err(e) => {
                proof {
                    assert(false);
                }
                return Err(e);
            },
            Ok(settlement) => settlement,
        };
        let payout = settlement.0;
        let refund = settlement.1;
        let employee_balance = self.balance_of(employee);
        proof {
            lemma_sum_balances_element(self.accounts@, employee as int);
            lemma_sum_outstanding_element(self.streams@, idx as int);
            lemma_sum_balances_update(
                self.accounts@,
                employee as int,
                (employee_balance + payout) as u64,
            );
            lemma_sum_outstanding_update(self.streams@, idx as int, s);
        }
        self.streams[idx] = s;
        let n = self.accounts.len();
        proof {
            assert((employee as int) < (n as int));
            assert((employer as int) < (n as int));
        }
        self.accounts[employee as usize] = employee_balance + payout;
        let employer_balance = self.balance_of(employer);
        proof {
            lemma_sum_balances_element(self.accounts@, employer as int);
            lemma_sum_balances_update(
                self.accounts@,
                employer as int,
                (employer_balance + refund) as u64,
            );
        }
        self.accounts[employer as usize] = employer_balance + refund;
        proof {
            let prev = old(self).streams@;
            let cur = self.streams@;
            assert forall|i: int| 0 <= i < cur.len() implies (#[trigger] cur[i]).wf() by {
                if i != idx as int {
                    assert(prev[i].wf());
                }
            }
            assert forall|i: int, j: int|
                0 <= i < cur.len() && 0 <= j < cur.len() && i != j && (#[trigger] cur[i]).status
                    is Active && (#[trigger] cur[j]).status is Active implies !(cur[i].employer
                == cur[j].employer && cur[i].employee == cur[j].employee) by {
                assert(prev[i].status is Active && prev[j].status is Active);
            }
        }
        Ok((payout, refund))
    }

    /// The read-only balance display: how much the employee of the pair's
    /// live stream could claim right `now`, or zero when no live stream is
    /// on file. Mutates nothing and decides nothing.
    pub fn query_claimable(&self, employer: u64, employee: u64, now: i64) -> (r: u64)
        requires
            self.wf(),
        ensures
            has_active(self.streams@, employer, employee) ==> r == spec_claimable(
                self.streams@[the_active(self.streams@, employer, employee)],
                now as int,
            ),
            !has_active(self.streams@, employer, employee) ==> r == 0,
    {
        match find_active(&self.streams, employer, employee) {
            None => 0,
            Some(idx) => {
                proof {
                    lemma_the_active(self.streams@, idx as int, employer, employee);
                }
                query_claimable(&self.streams[idx], now)
            },
        }
    }
}

/// Finds the position of the live stream of the given pair, if any.
fn find_active(streams: &Vec<Stream>, employer: u64, employee: u64) -> (r: Option<usize>)
    ensures
        match r {
            Some(i) => i < streams@.len() && is_active_pair(streams@[i as int], employer, employee),
            None => !has_active(streams@, employer, employee),
        },
{
    let n = streams.len();
    let mut k: usize = 0;
    while k < n
        invariant
            n == streams@.len(),
            k <= n,
            forall|j: int| 0 <= j < k ==> !#[trigger] is_active_pair(streams@[j], employer, employee),
        decreases n - k,
    {
        let s = streams[k];
        if matches!(s.status, StreamStatus::Active) && s.employer == employer && s.employee
            == employee {
            return Some(k);
        }
        k = k + 1;
    }
    None
}

} // verus!

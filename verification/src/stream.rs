//! The stream record, its vesting calculator and its lifecycle transitions.
//!
//! A [`Stream`] vests `rate_per_second` units of value per elapsed second
//! from `start_time`, capped at `deposited_amount`. The calculator
//! ([`query_claimable`]) is a pure function of the record and a caller-supplied
//! clock reading; the transitions ([`Stream::claim`], [`Stream::cancel`])
//! rewrite the record and report the value to be moved, leaving every transfer
//! to the surrounding ledger.

use vstd::prelude::*;

verus! {

/// Lifecycle state of a stream. `Closed` is terminal: no further claims or
/// deposits are possible.
#[derive(Clone, Copy, PartialEq, Eq, Structural, Debug)]
pub enum StreamStatus {
    Active,
    Closed,
}

/// Why an operation was rejected. Every rejected operation leaves all state
/// unchanged.
#[derive(Clone, Copy, PartialEq, Eq, Structural, Debug)]
pub enum StreamError {
    /// A zero deposit or zero rate at creation, or a zero requested amount at
    /// claim time.
    InvalidAmount,
    /// The employer's available balance cannot cover the deposit.
    InsufficientFunds,
    /// An active stream already exists for the (employer, employee) pair.
    DuplicateStream,
    /// The caller does not hold the role the operation demands.
    Unauthorized,
    /// Nothing has vested beyond what was already claimed.
    NothingToClaim,
    /// The requested amount exceeds the claimable amount.
    ExceedsClaimable,
    /// The stream is closed, so it accepts no claim.
    StreamClosed,
    /// The stream is already closed, so it cannot be cancelled again.
    StreamAlreadyClosed,
}

/// A time-based, rate-limited payment from an employer to an employee.
///
/// Identities are opaque account handles supplied by the surrounding
/// environment; the core only ever compares them. Times are integer seconds.
#[derive(Clone, Copy, PartialEq, Eq, Structural, Debug)]
pub struct Stream {
    /// Party who funded the stream and owns residual rights over the deposit.
    pub employer: u64,
    /// Party entitled to vested funds.
    pub employee: u64,
    /// Moment vesting begins; immutable after creation.
    pub start_time: i64,
    /// Units of value vesting per elapsed second.
    pub rate_per_second: u64,
    /// Total value locked for this stream at creation.
    pub deposited_amount: u64,
    /// Cumulative value already paid out to the employee.
    pub claimed_amount: u64,
    /// Lifecycle state.
    pub status: StreamStatus,
}

/// Seconds elapsed since `start_time`, clamped at zero: a clock reading
/// before the start of the stream vests nothing.
pub open spec fn spec_elapsed(start_time: int, now: int) -> int {
    if now <= start_time {
        0
    } else {
        now - start_time
    }
}

/// Value vested by time `now`: linear in elapsed time, saturating at the
/// deposit.
pub open spec fn spec_vested(s: Stream, now: int) -> int {
    let linear = s.rate_per_second * spec_elapsed(s.start_time as int, now);
    if linear >= s.deposited_amount {
        s.deposited_amount as int
    } else {
        linear
    }
}

/// Value claimable at time `now`: vested minus already claimed, floored at
/// zero rather than trusting the claim-time invariant.
pub open spec fn spec_claimable(s: Stream, now: int) -> int {
    if spec_vested(s, now) >= s.claimed_amount {
        spec_vested(s, now) - s.claimed_amount
    } else {
        0
    }
}

/// What a claim on stream `s` at time `now` decides, before any transfer:
/// authorization first, then lifecycle state, then the vested arithmetic.
/// `requested` of `None` asks for everything currently claimable.
pub open spec fn spec_claim_outcome(
    s: Stream,
    caller: u64,
    now: int,
    requested: Option<u64>,
) -> Result<u64, StreamError> {
    if caller != s.employee {
        Err(StreamError::Unauthorized)
    } else if s.status is Closed {
        Err(StreamError::StreamClosed)
    } else {
        let available = spec_claimable(s, now);
        if available == 0 {
            Err(StreamError::NothingToClaim)
        } else {
            match requested {
                None => Ok(available as u64),
                Some(amount) => if amount == 0 {
                    Err(StreamError::InvalidAmount)
                } else if amount > available {
                    Err(StreamError::ExceedsClaimable)
                } else {
                    Ok(amount)
                },
            }
        }
    }
}

/// What a cancellation of stream `s` at time `now` decides: either party may
/// cancel; on success the employee is owed everything still claimable and the
/// employer is refunded the rest of the undistributed deposit. Under the
/// claim-time invariant `claimed_amount <= vested` the refund equals
/// `deposited_amount - vested`.
pub open spec fn spec_cancel_outcome(s: Stream, caller: u64, now: int) -> Result<
    (u64, u64),
    StreamError,
> {
    if caller != s.employer && caller != s.employee {
        Err(StreamError::Unauthorized)
    } else if s.status is Closed {
        Err(StreamError::StreamAlreadyClosed)
    } else {
        let payout = spec_claimable(s, now);
        let refund = s.deposited_amount - s.claimed_amount - payout;
        Ok((payout as u64, refund as u64))
    }
}

impl Stream {
    /// Structural invariant: established at creation and preserved by every
    /// transition.
    pub open spec fn wf(self) -> bool {
        &&& self.deposited_amount > 0
        &&& self.rate_per_second > 0
        &&& self.claimed_amount <= self.deposited_amount
    }

    /// Value not yet paid out of this stream's deposit: what the ledger still
    /// holds on its behalf while it is active.
    pub open spec fn outstanding(self) -> int {
        if self.status is Active {
            self.deposited_amount - self.claimed_amount
        } else {
            0
        }
    }

    /// Validates creation arguments and builds the fresh record: vesting
    /// starts `now`, nothing claimed yet, lifecycle `Active`. Rejects a zero
    /// deposit or a zero rate, which could never vest anything.
    pub fn create(
        employer: u64,
        employee: u64,
        deposited_amount: u64,
        rate_per_second: u64,
        now: i64,
    ) -> (r: Result<Stream, StreamError>)
        ensures
            deposited_amount == 0 || rate_per_second == 0 ==> r == Err::<
                Stream,
                StreamError,
            >(StreamError::InvalidAmount),
            deposited_amount > 0 && rate_per_second > 0 ==> r == Ok::<Stream, StreamError>(
                (Stream {
                    employer,
                    employee,
                    start_time: now,
                    rate_per_second,
                    deposited_amount,
                    claimed_amount: 0,
                    status: StreamStatus::Active,
                }),
            ),
            r matches Ok(s) ==> s.wf(),
    {
        if deposited_amount == 0 || rate_per_second == 0 {
            Err(StreamError::InvalidAmount)
        } else {
            Ok(
                Stream {
                    employer,
                    employee,
                    start_time: now,
                    rate_per_second,
                    deposited_amount,
                    claimed_amount: 0,
                    status: StreamStatus::Active,
                },
            )
        }
    }

    /// A partial or full withdrawal by the employee.
    ///
    /// On success the claimed amount is added to `claimed_amount` and returned
    /// so the surrounding ledger can move exactly that much value; the record
    /// is otherwise untouched. On any error the record is untouched entirely.
    pub fn claim(&mut self, caller: u64, now: i64, requested_amount: Option<u64>) -> (r: Result<
        u64,
        StreamError,
    >)
        requires
            old(self).wf(),
        ensures
            final(self).wf(),
            r == spec_claim_outcome(*old(self), caller, now as int, requested_amount),
            r is Err ==> *final(self) == *old(self),
            r matches Ok(amount) ==> *final(self) == (Stream {
                claimed_amount: (old(self).claimed_amount + amount) as u64,
                ..*old(self)
            }),
            r matches Ok(amount) ==> old(self).claimed_amount + amount <= spec_vested(
                *old(self),
                now as int,
            ),
    {
        if caller != self.employee {
            return Err(StreamError::Unauthorized);
        }
        if matches!(self.status, StreamStatus::Closed) {
            return Err(StreamError::StreamClosed);
        }
        let available = query_claimable(self, now);
        if available == 0 {
            return Err(StreamError::NothingToClaim);
        }
        let amount: u64 = match requested_amount {
            None => available,
            Some(requested) => {
                if requested == 0 {
                    return Err(StreamError::InvalidAmount);
                }
                if requested > available {
                    return Err(StreamError::ExceedsClaimable);
                }
                requested
            },
        };
        self.claimed_amount = self.claimed_amount + amount;
        Ok(amount)
    }

    /// Cancels the stream: a single atomic settlement combining a final claim
    /// with a refund of the unvested remainder.
    ///
    /// Either party may cancel. On success the result is
    /// `(employee payout, employer refund)`; the payout is also added to
    /// `claimed_amount`, so the two components always exhaust exactly the
    /// undistributed deposit, and the record becomes `Closed` for good.
    pub fn cancel(&mut self, caller: u64, now: i64) -> (r: Result<(u64, u64), StreamError>)
        requires
            old(self).wf(),
        ensures
            final(self).wf(),
            r == spec_cancel_outcome(*old(self), caller, now as int),
            r is Err ==> *final(self) == *old(self),
            r matches Ok(settlement) ==> *final(self) == (Stream {
                claimed_amount: (old(self).claimed_amount + settlement.0) as u64,
                status: StreamStatus::Closed,
                ..*old(self)
            }),
            r matches Ok(settlement) ==> settlement.0 + settlement.1 == old(self).outstanding(),
    {
        if caller != self.employer && caller != self.employee {
            return Err(StreamError::Unauthorized);
        }
        if matches!(self.status, StreamStatus::Closed) {
            return Err(StreamError::StreamAlreadyClosed);
        }
        let payout = query_claimable(self, now);
        proof {
            lemma_claimable_bounds(*self, now as int);
        }
        let refund = self.deposited_amount - self.claimed_amount - payout;
        self.claimed_amount = self.claimed_amount + payout;
        self.status = StreamStatus::Closed;
        Ok((payout, refund))
    }
}

/// Claimable value never drops as time passes (monotonic vesting), as long as
/// no claim intervenes: for one snapshot of a stream and two clock readings in
/// order, the earlier claimable amount is at most the later one.
pub proof fn lemma_claimable_monotonic(s: Stream, t1: int, t2: int)
    requires
        t1 <= t2,
    ensures
        spec_claimable(s, t1) <= spec_claimable(s, t2),
{
    let e1 = spec_elapsed(s.start_time as int, t1);
    let e2 = spec_elapsed(s.start_time as int, t2);
    assert(s.rate_per_second * e1 <= s.rate_per_second * e2) by (nonlinear_arith)
        requires
            0 <= s.rate_per_second,
            e1 <= e2,
    ;
}

/// A claim attempted immediately after creation, at the stream's own start
/// time, can pay nothing out: zero elapsed time means zero vested, so the
/// outcome is a rejection (here always `NothingToClaim`, which is checked
/// before any requested amount is examined).
pub proof fn lemma_claim_at_start_pays_nothing(s: Stream, requested: Option<u64>)
    requires
        s.wf(),
        s.claimed_amount == 0,
        s.status is Active,
    ensures
        spec_claim_outcome(s, s.employee, s.start_time as int, requested) == Err::<
            u64,
            StreamError,
        >(StreamError::NothingToClaim),
{
    assert(spec_elapsed(s.start_time as int, s.start_time as int) == 0);
}

/// Querying the claimable amount is deterministic: any two results computed
/// from the same record and the same clock reading are equal. (That the query
/// mutates nothing is visible in [`query_claimable`]'s shared borrow.)
pub proof fn lemma_query_deterministic(s: Stream, now: int, r1: int, r2: int)
    requires
        r1 == spec_claimable(s, now),
        r2 == spec_claimable(s, now),
    ensures
        r1 == r2,
{
}

/// Claimable value is never negative and never exceeds the undistributed
/// deposit, whatever the clock says.
pub proof fn lemma_claimable_bounds(s: Stream, now: int)
    requires
        s.claimed_amount <= s.deposited_amount,
    ensures
        0 <= spec_claimable(s, now),
        spec_claimable(s, now) <= s.deposited_amount - s.claimed_amount,
{
    let e = spec_elapsed(s.start_time as int, now);
    assert(0 <= s.rate_per_second * e) by (nonlinear_arith)
        requires
            0 <= s.rate_per_second,
            0 <= e,
    ;
}

/// The vesting calculator: how much the employee could claim right `now`.
///
/// Pure and deterministic: the result is a function of the record and the
/// supplied clock reading alone, and the record is only read.
pub fn query_claimable(s: &Stream, now: i64) -> (r: u64)
    ensures
        r == spec_claimable(*s, now as int),
{
    let elapsed: u64 = if now <= s.start_time {
        0
    } else {
        proof {
            assert(0 < (now as int) - (s.start_time as int) < 0x1_0000_0000_0000_0000);
        }
        ((now as i128) - (s.start_time as i128)) as u64
    };
    proof {
        assert((s.rate_per_second as int) * (elapsed as int) < 0x1_0000_0000_0000_0000
            * 0x1_0000_0000_0000_0000) by (nonlinear_arith)
            requires
                s.rate_per_second < 0x1_0000_0000_0000_0000,
                elapsed < 0x1_0000_0000_0000_0000,
        ;
    }
    let linear: u128 = (s.rate_per_second as u128) * (elapsed as u128);
    let vested: u64 = if linear >= s.deposited_amount as u128 {
        s.deposited_amount
    } else {
        linear as u64
    };
    if vested >= s.claimed_amount {
        vested - s.claimed_amount
    } else {
        0
    }
}

} // verus!

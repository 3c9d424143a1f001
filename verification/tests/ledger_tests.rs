use streaming_payroll::ledger::Ledger;
use streaming_payroll::stream::{StreamError, StreamStatus};

/// A ledger with an employer (account 0) holding 10_000 and an employee
/// (account 1) holding nothing.
fn funded_ledger() -> (Ledger, u64, u64) {
    let mut ledger = Ledger::new();
    let employer = ledger.open_account(10_000);
    let employee = ledger.open_account(0);
    (ledger, employer, employee)
}

fn total_of(ledger: &Ledger) -> u128 {
    let mut total: u128 = 0;
    for balance in &ledger.accounts {
        total += *balance as u128;
    }
    for stream in &ledger.streams {
        if stream.status == StreamStatus::Active {
            total += (stream.deposited_amount - stream.claimed_amount) as u128;
        }
    }
    total
}

#[test]
fn open_account_hands_out_consecutive_addresses() {
    let mut ledger = Ledger::new();
    assert_eq!(ledger.open_account(500), 0);
    assert_eq!(ledger.open_account(7), 1);
    assert_eq!(ledger.balance_of(0), 500);
    assert_eq!(ledger.balance_of(1), 7);
}

#[test]
fn create_stream_reserves_the_deposit() {
    let (mut ledger, employer, employee) = funded_ledger();
    assert_eq!(ledger.create_stream(employer, employee, 3600, 1, 0), Ok(()));
    assert_eq!(ledger.balance_of(employer), 10_000 - 3600);
    assert_eq!(ledger.streams.len(), 1);
    let s = ledger.streams[0];
    assert_eq!(s.start_time, 0);
    assert_eq!(s.claimed_amount, 0);
    assert_eq!(s.status, StreamStatus::Active);
}

#[test]
fn create_stream_rejects_zero_amounts() {
    let (mut ledger, employer, employee) = funded_ledger();
    assert_eq!(
        ledger.create_stream(employer, employee, 0, 1, 0),
        Err(StreamError::InvalidAmount)
    );
    assert_eq!(
        ledger.create_stream(employer, employee, 100, 0, 0),
        Err(StreamError::InvalidAmount)
    );
    assert_eq!(ledger.balance_of(employer), 10_000);
    assert_eq!(ledger.streams.len(), 0);
}

#[test]
fn create_stream_rejects_underfunded_employer() {
    let (mut ledger, employer, employee) = funded_ledger();
    assert_eq!(
        ledger.create_stream(employer, employee, 10_001, 1, 0),
        Err(StreamError::InsufficientFunds)
    );
    assert_eq!(ledger.balance_of(employer), 10_000);
}

#[test]
fn create_stream_rejects_second_live_stream_for_pair() {
    let (mut ledger, employer, employee) = funded_ledger();
    assert_eq!(ledger.create_stream(employer, employee, 1000, 1, 0), Ok(()));
    assert_eq!(
        ledger.create_stream(employer, employee, 1000, 1, 5),
        Err(StreamError::DuplicateStream)
    );
    assert_eq!(ledger.balance_of(employer), 9000);
    assert_eq!(ledger.streams.len(), 1);
}

#[test]
fn pair_may_stream_again_once_the_old_stream_is_closed() {
    let (mut ledger, employer, employee) = funded_ledger();
    ledger.create_stream(employer, employee, 1000, 1, 0).unwrap();
    ledger.cancel(employer, employer, employee, 100).unwrap();
    assert_eq!(ledger.create_stream(employer, employee, 2000, 2, 200), Ok(()));
    assert_eq!(ledger.streams.len(), 2);
}

#[test]
fn full_scenario_claims_then_runs_dry() {
    let (mut ledger, employer, employee) = funded_ledger();
    ledger.create_stream(employer, employee, 3600, 1, 0).unwrap();
    assert_eq!(ledger.query_claimable(employer, employee, 1800), 1800);
    assert_eq!(ledger.claim(employee, employer, employee, 1800, Some(1000)), Ok(1000));
    assert_eq!(ledger.streams[0].claimed_amount, 1000);
    assert_eq!(ledger.balance_of(employee), 1000);
    assert_eq!(ledger.query_claimable(employer, employee, 3600), 2600);
    assert_eq!(ledger.claim(employee, employer, employee, 3600, Some(2600)), Ok(2600));
    assert_eq!(ledger.balance_of(employee), 3600);
    assert_eq!(
        ledger.claim(employee, employer, employee, 10_000, None),
        Err(StreamError::NothingToClaim)
    );
    assert_eq!(
        ledger.claim(employee, employer, employee, i64::MAX, Some(1)),
        Err(StreamError::NothingToClaim)
    );
}

#[test]
fn cancellation_scenario_pays_and_refunds() {
    let (mut ledger, employer, employee) = funded_ledger();
    ledger.create_stream(employer, employee, 3600, 1, 0).unwrap();
    assert_eq!(ledger.cancel(employer, employer, employee, 900), Ok((900, 2700)));
    assert_eq!(ledger.balance_of(employee), 900);
    assert_eq!(ledger.balance_of(employer), 10_000 - 3600 + 2700);
    assert_eq!(ledger.streams[0].status, StreamStatus::Closed);
    assert_eq!(
        ledger.claim(employee, employer, employee, 1000, None),
        Err(StreamError::StreamClosed)
    );
}

#[test]
fn employer_claim_attempt_is_unauthorized() {
    let (mut ledger, employer, employee) = funded_ledger();
    ledger.create_stream(employer, employee, 3600, 1, 0).unwrap();
    assert_eq!(
        ledger.claim(employer, employer, employee, 1800, None),
        Err(StreamError::Unauthorized)
    );
    assert_eq!(ledger.balance_of(employer), 10_000 - 3600);
    assert_eq!(ledger.balance_of(employee), 0);
}

#[test]
fn stranger_cancel_attempt_is_unauthorized() {
    let (mut ledger, employer, employee) = funded_ledger();
    let stranger = ledger.open_account(0);
    ledger.create_stream(employer, employee, 3600, 1, 0).unwrap();
    assert_eq!(
        ledger.cancel(stranger, employer, employee, 900),
        Err(StreamError::Unauthorized)
    );
    assert_eq!(ledger.streams[0].status, StreamStatus::Active);
}

#[test]
fn cancel_twice_reports_already_closed() {
    let (mut ledger, employer, employee) = funded_ledger();
    ledger.create_stream(employer, employee, 3600, 1, 0).unwrap();
    ledger.cancel(employer, employer, employee, 900).unwrap();
    assert_eq!(
        ledger.cancel(employer, employer, employee, 901),
        Err(StreamError::StreamAlreadyClosed)
    );
}

#[test]
fn query_claimable_of_closed_stream_is_zero() {
    let (mut ledger, employer, employee) = funded_ledger();
    ledger.create_stream(employer, employee, 3600, 1, 0).unwrap();
    ledger.cancel(employer, employer, employee, 900).unwrap();
    assert_eq!(ledger.query_claimable(employer, employee, 1800), 0);
}

#[test]
fn deposit_of_the_whole_balance_is_allowed() {
    let (mut ledger, employer, employee) = funded_ledger();
    assert_eq!(ledger.create_stream(employer, employee, 10_000, 5, 0), Ok(()));
    assert_eq!(ledger.balance_of(employer), 0);
}

#[test]
fn stream_to_oneself_is_accepted_and_conserves_value() {
    let mut ledger = Ledger::new();
    let party = ledger.open_account(5000);
    assert_eq!(ledger.create_stream(party, party, 1000, 10, 0), Ok(()));
    assert_eq!(ledger.balance_of(party), 4000);
    assert_eq!(ledger.claim(party, party, party, 50, None), Ok(500));
    assert_eq!(ledger.balance_of(party), 4500);
    assert_eq!(ledger.cancel(party, party, party, 60), Ok((100, 400)));
    assert_eq!(ledger.balance_of(party), 5000);
}

#[test]
fn claim_before_start_time_finds_nothing() {
    let (mut ledger, employer, employee) = funded_ledger();
    ledger.create_stream(employer, employee, 3600, 1, 1000).unwrap();
    assert_eq!(ledger.query_claimable(employer, employee, 500), 0);
    assert_eq!(
        ledger.claim(employee, employer, employee, 500, None),
        Err(StreamError::NothingToClaim)
    );
}

#[test]
fn every_operation_conserves_total_value() {
    let (mut ledger, employer, employee) = funded_ledger();
    let before = total_of(&ledger);
    ledger.create_stream(employer, employee, 3600, 1, 0).unwrap();
    assert_eq!(total_of(&ledger), before);
    ledger.claim(employee, employer, employee, 1800, Some(1234)).unwrap();
    assert_eq!(total_of(&ledger), before);
    ledger.cancel(employee, employer, employee, 2000).unwrap();
    assert_eq!(total_of(&ledger), before);
}

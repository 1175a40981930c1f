use ion_dao::decimal::Decimal;
use ion_dao::error::{ContractError, StdError};
use ion_dao::execute;
use ion_dao::expiration::{BlockInfo, Duration, Expiration};
use ion_dao::proposal::Proposal;
use ion_dao::state::{parse_id, Config, Dao, Deposit};
use ion_dao::status::Status;
use ion_dao::threshold::Threshold;

fn fresh() -> Dao {
    Dao::new(
        Config {
            name: "dao".to_string(),
            description: "desc".to_string(),
            threshold: Threshold {
                threshold: Decimal::percent(50),
                quorum: Decimal::percent(33),
                veto_threshold: Decimal::percent(33),
            },
            voting_period: Duration::Height(10),
            deposit_period: Duration::Height(15),
            proposal_deposit: 100,
            proposal_min_deposit: 10,
        },
        "denom".to_string(),
        "stake".to_string(),
    )
    .unwrap()
}

#[test]
fn check_paused() {
    let mut storage = fresh();

    storage.paused = Some(Expiration::AtHeight(10));

    execute::check_paused(
        &storage,
        &BlockInfo {
            height: 11,
            time: Default::default(),
            chain_id: "mock_chain".to_string(),
        },
    )
    .unwrap();

    let err = execute::check_paused(
        &storage,
        &BlockInfo {
            height: 9,
            time: Default::default(),
            chain_id: "mock_chain".to_string(),
        },
    )
    .unwrap_err();
    assert_eq!(err, ContractError::Paused {})
}

#[test]
fn check_proposal_status() {
    let make_prop = |status: Status| Proposal {
        status,
        ..Default::default()
    };

    execute::check_status(&make_prop(Status::Pending).status, Status::Pending).unwrap();

    let err = execute::check_status(&make_prop(Status::Open).status, Status::Pending).unwrap_err();
    assert_eq!(
        err,
        ContractError::InvalidProposalStatus {
            current: "Open".to_string(),
            desired: "Pending".to_string()
        }
    )
}

#[test]
fn create_proposal() {
    let mut storage = fresh();

    let proposer = "proposer".to_string();
    let proposal = Proposal::default();

    execute::create_proposal(&mut storage, 1, &proposer, &proposal).unwrap();

    assert!(storage.proposals.has(&1));
    assert!(storage
        .idx_props_by_status
        .has(&(Status::Pending.code(), 1)));
    assert!(storage
        .idx_props_by_proposer
        .has(&(proposer.clone(), 1)));
}

#[test]
fn create_deposit() {
    let mut storage = fresh();

    let proposer = "proposer".to_string();
    let proposal = Proposal::default();

    execute::create_proposal(&mut storage, 1, &proposer, &proposal).unwrap();

    let depositor = "depositor".to_string();

    // initial
    execute::create_deposit(&mut storage, 1, &depositor, &10u128).unwrap();
    assert_eq!(
        *storage.deposits.get(&(1, depositor.clone())).unwrap(),
        Deposit {
            amount: 10u128,
            claimed: false
        },
    );
    assert!(storage
        .idx_deposits_by_depositor
        .has(&(depositor.clone(), 1)));

    execute::create_deposit(&mut storage, 1, &depositor, &10u128).unwrap();
    assert_eq!(
        *storage.deposits.get(&(1, depositor.clone())).unwrap(),
        Deposit {
            amount: 20u128,
            claimed: false
        },
    );
    assert!(storage
        .idx_deposits_by_depositor
        .has(&(depositor.clone(), 1)));
}

#[test]
fn make_deposit_claimable() {
    let mut storage = fresh();

    let proposer = "proposer".to_string();
    let mut proposal = Proposal {
        proposer: proposer.clone(),
        ..Default::default()
    };

    execute::create_proposal(&mut storage, 1, &proposer, &proposal).unwrap();

    assert!(!storage.proposals.get(&1).unwrap().deposit_claimable);

    execute::make_deposit_claimable(&mut storage, 1, &mut proposal).unwrap();

    assert!(storage.proposals.get(&1).unwrap().deposit_claimable);
}

#[test]
fn update_proposal_status() {
    let mut storage = fresh();

    let proposer = "proposer".to_string();
    let mut proposal = Proposal {
        proposer: proposer.clone(),
        ..Default::default()
    };

    execute::create_proposal(&mut storage, 1, &proposer, &proposal).unwrap();

    proposal.proposer = "abuser".to_string();
    execute::update_proposal_status(&mut storage, 1, &mut proposal, Status::Passed).unwrap();

    assert_eq!(storage.proposals.get(&1).unwrap().status, Status::Passed);
    assert_eq!(storage.proposals.get(&1).unwrap().proposer, proposer);
}

#[test]
fn status_change_moves_the_index_entry() {
    let mut storage = fresh();
    let proposer = "proposer".to_string();
    let mut proposal = Proposal {
        proposer: proposer.clone(),
        ..Default::default()
    };
    execute::create_proposal(&mut storage, 7, &proposer, &proposal).unwrap();
    execute::update_proposal_status(&mut storage, 7, &mut proposal, Status::Open).unwrap();
    assert_eq!(proposal.status, Status::Open);
    assert!(!storage
        .idx_props_by_status
        .has(&(Status::Pending.code(), 7)));
    assert!(storage.idx_props_by_status.has(&(Status::Open.code(), 7)));
    execute::update_proposal_status(&mut storage, 7, &mut proposal, Status::Rejected).unwrap();
    for status in [
        Status::Pending,
        Status::Open,
        Status::Passed,
        Status::Executed,
    ] {
        assert!(!storage.idx_props_by_status.has(&(status.code(), 7)));
    }
    assert!(storage
        .idx_props_by_status
        .has(&(Status::Rejected.code(), 7)));
    assert_eq!(storage.idx_props_by_status.len(), 1);
}

#[test]
fn status_update_of_a_missing_proposal_fails() {
    let mut storage = fresh();
    let mut proposal = Proposal::default();
    let err = execute::update_proposal_status(&mut storage, 3, &mut proposal, Status::Open)
        .unwrap_err();
    assert_eq!(err, StdError::not_found("proposal"));
    assert_eq!(err.to_string(), "proposal not found");
    assert_eq!(storage.idx_props_by_status.len(), 0);
}

#[test]
fn deposit_overflow_is_an_error() {
    let mut storage = fresh();
    let depositor = "depositor".to_string();
    execute::create_deposit(&mut storage, 1, &depositor, &u128::MAX).unwrap();
    let err = execute::create_deposit(&mut storage, 1, &depositor, &1u128).unwrap_err();
    assert_eq!(err, StdError::Overflow);
    assert_eq!(
        storage.deposits.get(&(1, depositor)).unwrap().amount,
        u128::MAX
    );
}

#[test]
fn ids_count_up_from_one() {
    let mut storage = fresh();
    assert_eq!(storage.next_id().unwrap(), 1);
    assert_eq!(storage.next_id().unwrap(), 2);
    assert_eq!(storage.proposal_count, 2);
    storage.proposal_count = u64::MAX;
    assert_eq!(storage.next_id().unwrap_err(), StdError::Overflow);
    assert_eq!(storage.proposal_count, u64::MAX);
}

#[test]
fn counter_follows_created_proposals() {
    let mut storage = fresh();
    let proposer = "proposer".to_string();
    execute::create_proposal(&mut storage, 5, &proposer, &Proposal::default()).unwrap();
    assert_eq!(storage.proposal_count, 5);
    assert_eq!(storage.next_id().unwrap(), 6);
}

#[test]
fn parse_id_reads_eight_bytes_big_endian() {
    assert_eq!(parse_id(&[0, 0, 0, 0, 0, 0, 0, 1]).unwrap(), 1);
    assert_eq!(parse_id(&[0, 0, 0, 0, 0, 0, 1, 0]).unwrap(), 256);
    assert_eq!(
        parse_id(&[1, 2, 3, 4, 5, 6, 7, 8, 99, 100]).unwrap(),
        0x0102030405060708
    );
    assert_eq!(parse_id(&[255; 8]).unwrap(), u64::MAX);
    assert_eq!(
        parse_id(&[1, 2, 3]).unwrap_err(),
        StdError::generic_err("Corrupted data found. 8 byte expected.")
    );
    assert_eq!(
        parse_id(&[]).unwrap_err().to_string(),
        "Generic error: Corrupted data found. 8 byte expected."
    );
}

#[test]
fn new_organization_needs_a_valid_configuration() {
    let config = |threshold: Threshold, voting: Duration, deposit: Duration| Config {
        name: "dao".to_string(),
        description: "desc".to_string(),
        threshold,
        voting_period: voting,
        deposit_period: deposit,
        proposal_deposit: 100,
        proposal_min_deposit: 10,
    };
    let good = Threshold {
        threshold: Decimal::percent(50),
        quorum: Decimal::percent(40),
        veto_threshold: Decimal::percent(33),
    };
    let dao = Dao::new(
        config(good, Duration::Height(20), Duration::Height(10)),
        "utnt".to_string(),
        "stake".to_string(),
    )
    .unwrap();
    assert_eq!(dao.gov_token, "utnt");
    assert_eq!(dao.proposal_count, 0);
    assert!(dao
        .treasury_tokens
        .has(&("native".to_string(), "utnt".to_string())));

    let mixed = Dao::instantiate(
        config(good, Duration::Height(20), Duration::Time(10)),
        "utnt".to_string(),
        "stake".to_string(),
    );
    assert_eq!(mixed.err(), Some(ContractError::InvalidPeriod {}));
    let mixed = Dao::instantiate(
        config(good, Duration::Time(20), Duration::Height(10)),
        "utnt".to_string(),
        "stake".to_string(),
    );
    assert_eq!(mixed.err(), Some(ContractError::InvalidPeriod {}));

    // a deposit window may be as long as the voting window, and no longer
    let level = Dao::instantiate(
        config(good, Duration::Time(10), Duration::Time(10)),
        "utnt".to_string(),
        "stake".to_string(),
    );
    assert!(level.is_ok());
    let longer = Dao::instantiate(
        config(good, Duration::Time(10), Duration::Time(11)),
        "utnt".to_string(),
        "stake".to_string(),
    );
    assert_eq!(longer.err(), Some(ContractError::InvalidPeriod {}));

    // a bad threshold is reported before a bad pair of periods
    let none = Threshold {
        threshold: Decimal::percent(0),
        quorum: Decimal::percent(40),
        veto_threshold: Decimal::percent(33),
    };
    let both = Dao::instantiate(
        config(none, Duration::Time(10), Duration::Height(11)),
        "utnt".to_string(),
        "stake".to_string(),
    );
    assert_eq!(both.err(), Some(ContractError::ZeroThreshold {}));
}

#[test]
fn status_change_goes_by_the_stored_status() {
    let mut storage = fresh();
    let proposer = "proposer".to_string();
    let mut proposal = Proposal {
        proposer: proposer.clone(),
        ..Default::default()
    };
    execute::create_proposal(&mut storage, 1, &proposer, &proposal).unwrap();
    execute::update_proposal_status(&mut storage, 1, &mut proposal, Status::Open).unwrap();
    // a copy that has fallen behind does not mislead the index
    let mut stale = Proposal {
        proposer: proposer.clone(),
        status: Status::Pending,
        ..Default::default()
    };
    execute::update_proposal_status(&mut storage, 1, &mut stale, Status::Passed).unwrap();
    assert_eq!(stale.status, Status::Passed);
    assert!(!storage.idx_props_by_status.has(&(Status::Open.code(), 1)));
    assert!(!storage
        .idx_props_by_status
        .has(&(Status::Pending.code(), 1)));
    assert!(storage.idx_props_by_status.has(&(Status::Passed.code(), 1)));
    assert_eq!(storage.idx_props_by_status.len(), 1);
}

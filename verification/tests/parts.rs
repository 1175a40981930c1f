use ion_dao::error::{ContractError, PaymentError, StdError};
use ion_dao::expiration::{BlockInfo, Duration, Expiration, Timestamp};
use ion_dao::helpers::{
    duration_to_expiry, funds_paid, get_and_check_limit, is_payable, may_pay, proposal_to_response,
};
use ion_dao::key::{Key, Rel};
use ion_dao::msg::{Coin, RangeOrder};
use ion_dao::proposal::{BlockTime, Proposal, VetoReference, Votes};
use ion_dao::stake::{checked_proportion, shares_for_stake, staked_value, tokens_for_unstake};
use ion_dao::status::{Status, Vote};
use ion_dao::store::{Beyond, OrdMap, Within};
use ion_dao::text::{u128_to_string, u64_to_string};
use ion_dao::{DEFAULT_LIMIT, MAX_LIMIT};

fn coin(amount: u128, denom: &str) -> Coin {
    Coin {
        denom: denom.to_string(),
        amount,
    }
}

#[test]
fn numerals_are_decimal() {
    assert_eq!(u64_to_string(0), "0");
    assert_eq!(u64_to_string(7), "7");
    assert_eq!(u64_to_string(10), "10");
    assert_eq!(u64_to_string(1_234_567_890), "1234567890");
    assert_eq!(u64_to_string(u64::MAX), u64::MAX.to_string());
    assert_eq!(u128_to_string(u128::MAX), u128::MAX.to_string());
    for n in 0..1200u128 {
        assert_eq!(u128_to_string(n), n.to_string());
    }
}

#[test]
fn keys_are_ordered_like_their_bytes() {
    assert_eq!(3u64.rel(&5), Rel::Before);
    assert_eq!(5u64.rel(&5), Rel::Same);
    assert_eq!(9u8.rel(&5), Rel::After);

    let words = [
        "", "a", "ab", "abc", "b", "tester0", "tester1", "tester10", "tester2", "Z", "é", "日本",
        "z", "~",
    ];
    for x in words {
        for y in words {
            let expected = match x.as_bytes().cmp(y.as_bytes()) {
                std::cmp::Ordering::Less => Rel::Before,
                std::cmp::Ordering::Equal => Rel::Same,
                std::cmp::Ordering::Greater => Rel::After,
            };
            assert_eq!(x.to_string().rel(&y.to_string()), expected, "{} / {}", x, y);
        }
    }

    // pairs: the first component decides, the second breaks the tie
    assert_eq!((1u64, "z".to_string()).rel(&(2, "a".to_string())), Rel::Before);
    assert_eq!((2u64, "a".to_string()).rel(&(2, "b".to_string())), Rel::Before);
    assert_eq!((2u64, "b".to_string()).rel(&(2, "b".to_string())), Rel::Same);
    assert_eq!(("b".to_string(), 1u64).rel(&("a".to_string(), 9)), Rel::After);
    assert_eq!(("x".to_string(), 7u64).dup(), ("x".to_string(), 7));
}

#[test]
fn ordered_map_keeps_its_keys_sorted() {
    let mut map: OrdMap<u64, String> = OrdMap::new();
    assert_eq!(map.len(), 0);
    assert!(map.is_ordered());
    for k in [5u64, 1, 9, 3, 7] {
        map.set(k, format!("v{}", k));
    }
    assert_eq!(map.keys, vec![1, 3, 5, 7, 9]);
    assert_eq!(map.vals, vec!["v1", "v3", "v5", "v7", "v9"]);
    assert!(map.is_ordered());
    assert_eq!(map.len(), 5);
    assert!(map.has(&3));
    assert!(!map.has(&4));
    assert_eq!(map.get(&7), Some(&"v7".to_string()));
    assert_eq!(map.get(&8), None);
    assert_eq!(map.locate(&6), (3, false));
    assert_eq!(map.locate(&7), (3, true));
    assert_eq!(map.locate(&0), (0, false));
    assert_eq!(map.locate(&10), (5, false));
    assert_eq!(*map.key_at(4), 9);
    assert_eq!(map.val_at(0), "v1");

    // replacing keeps the position
    map.set(5, "five".to_string());
    assert_eq!(map.keys, vec![1, 3, 5, 7, 9]);
    assert_eq!(map.get(&5), Some(&"five".to_string()));
    map.put_at(0, "one".to_string());
    assert_eq!(map.get(&1), Some(&"one".to_string()));

    map.remove(&3);
    map.remove(&4);
    assert_eq!(map.keys, vec![1, 5, 7, 9]);
    assert_eq!(map.vals, vec!["one", "five", "v7", "v9"]);

    map.keys.swap(0, 1);
    assert!(!map.is_ordered());
    map.keys.swap(0, 1);
    map.vals.pop();
    assert!(!map.is_ordered());
}

#[test]
fn scans_respect_cursor_limit_and_direction() {
    let mut map: OrdMap<u64, ()> = OrdMap::new();
    for k in 1..=10u64 {
        map.set(k * 10, ());
    }
    let keys = |positions: Vec<usize>| -> Vec<u64> {
        positions.into_iter().map(|p| *map.key_at(p)).collect()
    };
    let up = |cursor: Option<u64>, limit: usize| {
        keys(map.select(
            &Beyond {
                cursor,
                ascending: true,
            },
            limit,
            true,
        ))
    };
    let down = |cursor: Option<u64>, limit: usize| {
        keys(map.select(
            &Beyond {
                cursor,
                ascending: false,
            },
            limit,
            false,
        ))
    };
    assert_eq!(up(None, 3), [10, 20, 30]);
    assert_eq!(up(Some(30), 3), [40, 50, 60]);
    assert_eq!(up(Some(35), 2), [40, 50]);
    assert_eq!(up(Some(90), 5), [100]);
    assert_eq!(up(Some(100), 5), [] as [u64; 0]);
    assert_eq!(up(None, 0), [] as [u64; 0]);
    assert_eq!(up(None, 100).len(), 10);
    assert_eq!(down(None, 3), [100, 90, 80]);
    assert_eq!(down(Some(30), 5), [20, 10]);
    assert_eq!(down(Some(10), 5), [] as [u64; 0]);

    let mut pairs: OrdMap<(u8, u64), ()> = OrdMap::new();
    for (a, b) in [(2u8, 5u64), (1, 7), (2, 1), (3, 3), (2, 9), (1, 2)] {
        pairs.set((a, b), ());
    }
    let within = |prefix: u8, cursor: Option<u64>, limit: usize, ascending: bool| -> Vec<(u8, u64)> {
        pairs
            .select(
                &Within {
                    prefix,
                    cursor,
                    ascending,
                },
                limit,
                ascending,
            )
            .into_iter()
            .map(|p| *pairs.key_at(p))
            .collect()
    };
    assert_eq!(within(2, None, 10, true), [(2, 1), (2, 5), (2, 9)]);
    assert_eq!(within(2, Some(1), 10, true), [(2, 5), (2, 9)]);
    assert_eq!(within(2, Some(9), 10, false), [(2, 5), (2, 1)]);
    assert_eq!(within(2, None, 2, false), [(2, 9), (2, 5)]);
    assert_eq!(within(1, None, 1, true), [(1, 2)]);
    assert_eq!(within(4, None, 10, true), [] as [(u8, u64); 0]);
}

#[test]
fn payment_takes_one_coin_of_the_denomination() {
    let denom = "denom".to_string();
    assert_eq!(may_pay(&vec![], &denom), Ok(0));
    assert_eq!(may_pay(&vec![coin(5, "denom")], &denom), Ok(5));
    assert_eq!(may_pay(&vec![coin(0, "denom")], &denom), Ok(0));
    assert_eq!(
        may_pay(&vec![coin(5, "other")], &denom),
        Err(PaymentError::ExtraDenom("other".to_string()))
    );
    assert_eq!(
        may_pay(
            &vec![coin(5, "denom"), coin(1, "b"), coin(1, "a")],
            &denom
        ),
        Err(PaymentError::ExtraDenom("b".to_string()))
    );
    assert_eq!(
        may_pay(&vec![coin(5, "b"), coin(1, "denom")], &denom),
        Err(PaymentError::ExtraDenom("b".to_string()))
    );
}

#[test]
fn several_coins_of_the_denomination_are_not_payable() {
    let denom = "denom".to_string();
    let doubled = vec![coin(5, "denom"), coin(1, "denom")];
    assert!(!is_payable(&doubled, &denom));
    assert_eq!(funds_paid(&doubled, &denom), Err(PaymentError::MultipleDenoms));

    assert!(is_payable(&vec![], &denom));
    assert!(is_payable(&vec![coin(5, "denom")], &denom));
    assert!(is_payable(&vec![coin(5, "other")], &denom));
    assert!(is_payable(&vec![coin(5, "denom"), coin(1, "b")], &denom));
    assert_eq!(funds_paid(&vec![coin(5, "denom")], &denom), Ok(5));
    assert_eq!(
        funds_paid(&vec![coin(5, "denom"), coin(1, "b")], &denom),
        Err(PaymentError::ExtraDenom("b".to_string()))
    );
}

#[test]
fn limits_default_and_cap() {
    assert_eq!(MAX_LIMIT, 30);
    assert_eq!(DEFAULT_LIMIT, 10);
    assert_eq!(get_and_check_limit(None, 30, 10), Ok(10));
    assert_eq!(get_and_check_limit(Some(0), 30, 10), Ok(0));
    assert_eq!(get_and_check_limit(Some(30), 30, 10), Ok(30));
    let err = get_and_check_limit(Some(31), 30, 10).unwrap_err();
    assert_eq!(
        err,
        StdError::generic_err(
            &ContractError::OversizedRequest { size: 31, max: 30 }.to_string()
        )
    );
    assert_eq!(
        err.to_string(),
        "Generic error: Request size (31) is above limit of (30)"
    );
    assert!(RangeOrder::Asc.is_ascending());
    assert!(!RangeOrder::Desc.is_ascending());
}

#[test]
fn durations_and_expirations() {
    let block = BlockInfo {
        height: 100,
        time: Timestamp::from_seconds(1_000),
        chain_id: "chain".to_string(),
    };
    let now = BlockTime::of(&block);
    assert_eq!(
        duration_to_expiry(&now, &Duration::Height(5)),
        Expiration::AtHeight(105)
    );
    assert_eq!(
        duration_to_expiry(&now, &Duration::Time(5)),
        Expiration::AtTime(Timestamp::from_seconds(1_005))
    );
    assert_eq!(Duration::Time(7).after(&block), Expiration::AtTime(Timestamp::from_seconds(1_007)));
    assert!(Duration::Height(u64::MAX - 100).fits_after(100, block.time));
    assert!(!Duration::Height(u64::MAX - 99).fits_after(100, block.time));
    assert!(!Duration::Time(u64::MAX / 1_000_000_000).fits_after(100, block.time));

    assert!(!Expiration::AtHeight(101).is_expired(&block));
    assert!(Expiration::AtHeight(100).is_expired(&block));
    assert!(Expiration::AtHeight(99).is_expired(&block));
    assert!(Expiration::AtTime(Timestamp::from_seconds(1_000)).is_expired(&block));
    assert!(!Expiration::AtTime(Timestamp::from_nanos(1_000_000_000_001)).is_expired(&block));
    assert!(!Expiration::Never {}.is_expired(&block));
    assert_eq!(Expiration::default(), Expiration::Never {});

    assert_eq!(
        Duration::Height(3).plus(&Duration::Height(4)),
        Ok(Duration::Height(7))
    );
    assert_eq!(
        Duration::Time(3).plus(&Duration::Time(4)),
        Ok(Duration::Time(7))
    );
    assert_eq!(
        Duration::Time(3).plus(&Duration::Height(4)),
        Err(StdError::generic_err("Cannot add height and time"))
    );
    assert_eq!(
        Duration::Height(u64::MAX).plus(&Duration::Height(1)),
        Err(StdError::Overflow)
    );
    assert_eq!(
        Expiration::AtHeight(12345).plus(&Duration::Height(400)),
        Ok(Expiration::AtHeight(12745))
    );
    assert_eq!(
        Expiration::AtTime(Timestamp::from_seconds(55544433)).plus(&Duration::Time(40300)),
        Ok(Expiration::AtTime(Timestamp::from_seconds(55584733)))
    );
    assert_eq!(
        Expiration::Never {}.plus(&Duration::Time(1)),
        Ok(Expiration::Never {})
    );
    assert!(Expiration::AtHeight(1).plus(&Duration::Time(1)).is_err());
    assert!(Duration::Height(1).same_unit(&Duration::Height(9)));
    assert!(!Duration::Height(1).same_unit(&Duration::Time(1)));
}

#[test]
fn times_are_written_with_nine_decimals() {
    assert_eq!(Timestamp::from_nanos(0).to_string(), "0.000000000");
    assert_eq!(Timestamp::from_nanos(1_000_000_202).to_string(), "1.000000202");
    assert_eq!(Timestamp::from_seconds(42).to_string(), "42.000000000");
    assert_eq!(
        Timestamp::from_nanos(1_571_797_419_879_305_533).to_string(),
        "1571797419.879305533"
    );
    assert_eq!(Timestamp::from_nanos(1_999_999_999).seconds(), 1);
    assert_eq!(
        Expiration::AtHeight(10).to_string(),
        "expiration height: 10"
    );
    assert_eq!(
        Expiration::AtTime(Timestamp::from_nanos(5_000_000_001)).to_string(),
        "expiration time: 5.000000001"
    );
    assert_eq!(Expiration::Never {}.to_string(), "expiration: never");
    assert_eq!(
        Timestamp::from_nanos(1_000_000_202).to_string(),
        cosmwasm_std::Timestamp::from_nanos(1_000_000_202).to_string()
    );
}

#[test]
fn every_error_has_its_message() {
    let cases: Vec<(ContractError, &str)> = vec![
        (
            ContractError::Std(StdError::not_found("thing")),
            "thing not found",
        ),
        (ContractError::Std(StdError::Overflow), "Overflow"),
        (ContractError::Std(StdError::DivideByZero), "Divide by zero"),
        (
            ContractError::InstantiateGovTokenError {},
            "Failed to instantiate governance token",
        ),
        (
            ContractError::InitialBalancesError {},
            "Initial governance token balances must not be empty",
        ),
        (
            ContractError::ZeroThreshold {},
            "Required threshold cannot be zero",
        ),
        (
            ContractError::UnreachableThreshold {},
            "Not possible to reach required (passing) threshold",
        ),
        (
            ContractError::InvalidPeriod {},
            "Invalid voting / deposit period",
        ),
        (
            ContractError::InvalidCw20 {
                addr: "x".to_string(),
            },
            "Cw20 contract invalid address 'x'",
        ),
        (ContractError::Unauthorized {}, "Unauthorized"),
        (
            ContractError::Payment(PaymentError::MissingDenom("d".to_string())),
            "Must send reserve token 'd'",
        ),
        (
            ContractError::Payment(PaymentError::MultipleDenoms),
            "Sent more than one denomination",
        ),
        (ContractError::Payment(PaymentError::NoFunds), "No funds sent"),
        (
            ContractError::Payment(PaymentError::NonPayable),
            "This message does no accept funds",
        ),
        (ContractError::NotOpen {}, "Proposal is not open"),
        (
            ContractError::Expired {},
            "Proposal voting period has expired",
        ),
        (
            ContractError::NotExpired {},
            "Proposal must expire before you can close it",
        ),
        (ContractError::WrongExpiration {}, "Wrong expiration option"),
        (
            ContractError::AlreadyVoted {},
            "Already voted on this proposal",
        ),
        (
            ContractError::InvalidProposalStatus {
                current: "Open".to_string(),
                desired: "Pending".to_string(),
            },
            "Invalid proposal status. current: Open, desired: Pending",
        ),
        (
            ContractError::LackOfStakes {},
            "Total staked amount is too low",
        ),
        (
            ContractError::WrongDepositStatus {},
            "Cannot deposit to non-pended proposals",
        ),
        (
            ContractError::WrongExecuteStatus {},
            "Cannot execute completed or unpassed proposals",
        ),
        (
            ContractError::WrongCloseStatus {},
            "Cannot close completed or passed proposals",
        ),
        (ContractError::DepositNotClaimable {}, "Deposit not claimable"),
        (
            ContractError::DepositAlreadyClaimed {},
            "Deposit already claimed",
        ),
        (
            ContractError::UnknownReplyId { id: 7 },
            "Got a submessage reply with unknown id: 7",
        ),
        (
            ContractError::OversizedRequest { size: 40, max: 30 },
            "Request size (40) is above limit of (30)",
        ),
        (ContractError::Paused {}, "DAO is paused"),
    ];
    for (err, text) in cases {
        assert_eq!(err.to_string(), text);
    }
}

#[test]
fn statuses_and_votes_have_names_and_codes() {
    let statuses = [
        (Status::Pending, "Pending", 1u8),
        (Status::Open, "Open", 2),
        (Status::Rejected, "Rejected", 3),
        (Status::Passed, "Passed", 4),
        (Status::Executed, "Executed", 5),
    ];
    for (status, name, code) in statuses {
        assert_eq!(status.name(), name);
        assert_eq!(status.name(), format!("{:?}", status));
        assert_eq!(status.code(), code);
    }
    for vote in [Vote::Yes, Vote::No, Vote::Abstain, Vote::Veto] {
        assert_eq!(vote.name(), format!("{:?}", vote));
    }
}

#[test]
fn veto_can_be_measured_against_the_votes_cast() {
    let prop = Proposal {
        status: Status::Open,
        total_weight: 100,
        votes: Votes {
            yes: 20,
            no: 0,
            abstain: 0,
            veto: 10,
        },
        ..Default::default()
    };
    // a third of the total weight is 34, a third of the 30 that voted is 10
    assert!(!prop.is_vetoed());
    assert!(!prop.is_vetoed_against(VetoReference::TotalWeight));
    assert!(prop.is_vetoed_against(VetoReference::VotesCast));
}

#[test]
fn response_reports_turnout_and_current_status() {
    let block = BlockInfo {
        height: 50,
        time: Timestamp::default(),
        chain_id: "chain".to_string(),
    };
    let prop = Proposal {
        title: "title".to_string(),
        proposer: "someone".to_string(),
        status: Status::Open,
        vote_ends_at: Expiration::AtHeight(40),
        total_weight: 200,
        votes: Votes {
            yes: 60,
            no: 10,
            abstain: 0,
            veto: 0,
        },
        total_deposit: 5,
        ..Default::default()
    };
    let resp = proposal_to_response(&block, 3, prop.clone()).unwrap();
    assert_eq!(resp.id, 3);
    assert_eq!(resp.title, "title");
    assert_eq!(resp.proposer, "someone");
    assert_eq!(resp.status, Status::Passed);
    assert_eq!(resp.total_votes, 70);
    assert_eq!(resp.total_weight, 200);
    assert_eq!(resp.total_deposit, 5);
    assert_eq!(resp.quorum, ion_dao::decimal::Decimal::percent(35));
    assert_eq!(resp.votes, prop.votes);

    // no weight: the turnout is reported as zero
    let empty = Proposal {
        status: Status::Rejected,
        total_weight: 0,
        ..Default::default()
    };
    let resp = proposal_to_response(&block, 1, empty).unwrap();
    assert_eq!(resp.quorum, ion_dao::decimal::Decimal::zero());

    // a turnout beyond what a fraction can hold
    let crowded = Proposal {
        status: Status::Executed,
        total_weight: 1,
        votes: Votes {
            yes: 340_282_366_920_938_463_464,
            no: 0,
            abstain: 0,
            veto: 0,
        },
        ..Default::default()
    };
    assert_eq!(
        proposal_to_response(&block, 1, crowded).unwrap_err(),
        StdError::Overflow
    );
}

#[test]
fn stakes_buy_and_sell_shares_at_the_pool_value() {
    // an empty pool sells one share per token
    assert_eq!(shares_for_stake(0, 0, 100), Ok(100));
    assert_eq!(shares_for_stake(0, 50, 100), Ok(100));
    assert_eq!(shares_for_stake(50, 0, 100), Ok(100));
    // a pool of 200 tokens with 100 shares: a share is worth two tokens
    assert_eq!(shares_for_stake(100, 200, 100), Ok(50));
    assert_eq!(shares_for_stake(100, 200, 3), Ok(1));
    assert_eq!(tokens_for_unstake(50, 200, 100), Ok(100));
    assert_eq!(tokens_for_unstake(1, 199, 100), Ok(1));
    assert_eq!(tokens_for_unstake(100, 199, 100), Ok(199));
    assert_eq!(staked_value(50, 200, 100), Ok(100));
    assert_eq!(staked_value(0, 200, 100), Ok(0));
    assert_eq!(staked_value(50, 0, 100), Ok(0));
    assert_eq!(staked_value(50, 200, 0), Ok(0));

    assert_eq!(checked_proportion(7, 3, 2), Ok(10));
    assert_eq!(checked_proportion(7, 3, 0), Err(StdError::DivideByZero));
    assert_eq!(
        checked_proportion(u128::MAX, 2, 4),
        Err(StdError::Overflow)
    );
    assert_eq!(
        checked_proportion(u128::MAX, 2, 0),
        Err(StdError::Overflow)
    );
    assert_eq!(tokens_for_unstake(5, 10, 0), Err(StdError::DivideByZero));
    assert_eq!(
        shares_for_stake(u128::MAX, 1, 2),
        Err(StdError::Overflow)
    );
}

use ion_dao::decimal::Decimal;
use ion_dao::expiration::{BlockInfo, Duration, Expiration, Timestamp};
use ion_dao::proposal::{votes_needed, BlockTime, Proposal, Votes};
use ion_dao::status::{Status, Vote};
use ion_dao::threshold::Threshold;

fn mock_block() -> BlockInfo {
    BlockInfo {
        height: 12_345,
        time: Timestamp::from_nanos(1_571_797_419_879_305_533),
        chain_id: "cosmos-testnet-14002".to_string(),
    }
}

#[test]
fn count_votes() {
    let mut votes = Votes::new(5);
    votes.submit(Vote::No, 10);
    votes.submit(Vote::Veto, 20);
    votes.submit(Vote::Yes, 30);
    votes.submit(Vote::Abstain, 40);

    assert_eq!(votes.total(), 105);
    assert_eq!(votes.yes, 35);
    assert_eq!(votes.no, 10);
    assert_eq!(votes.veto, 20);
    assert_eq!(votes.abstain, 40);
}

#[test]
// we ensure this rounds up (as it calculates needed votes)
fn votes_needed_rounds_properly() {
    // round up right below 1
    assert_eq!(1, votes_needed(3, Decimal::permille(333)));
    // round up right over 1
    assert_eq!(2, votes_needed(3, Decimal::permille(334)));
    assert_eq!(11, votes_needed(30, Decimal::permille(334)));

    // exact matches don't round
    assert_eq!(17, votes_needed(34, Decimal::percent(50)));
    assert_eq!(12, votes_needed(48, Decimal::percent(25)));
}

fn pending_suite(
    block: &BlockInfo,
    deposit_base: u128,
    total_deposit: u128,
    is_expired: bool,
) -> Proposal {
    let expires = match is_expired {
        true => Expiration::AtHeight(block.height - 5),
        false => Expiration::AtHeight(block.height + 100),
    };
    Proposal {
        status: Status::Pending,

        // time
        submitted_at: BlockTime {
            height: block.height - 20,
            time: Default::default(),
        },
        deposit_ends_at: expires,
        vote_starts_at: BlockTime {
            height: block.height + 10,
            time: Default::default(),
        },
        vote_ends_at: expires.plus(&Duration::Height(20)).unwrap(),

        // deposit
        total_deposit,
        deposit_base_amount: deposit_base,

        ..Default::default()
    }
}

#[test]
fn test() {
    let block = mock_block();
    let deposit_base = 100u128;

    // deposit < total_deposit & !expired
    assert_eq!(
        pending_suite(&block, deposit_base, 110, false).current_status(&block),
        Status::Open
    );
    // deposit < total_deposit & expired
    assert_eq!(
        pending_suite(&block, deposit_base, 110, true).current_status(&block),
        Status::Open
    );
    // deposit = total_deposit & !expired
    assert_eq!(
        pending_suite(&block, deposit_base, 100, false).current_status(&block),
        Status::Open
    );
    // deposit = total_deposit & expired
    assert_eq!(
        pending_suite(&block, deposit_base, 100, true).current_status(&block),
        Status::Open
    );
    // deposit > total_deposit & !expired
    assert_eq!(
        pending_suite(&block, deposit_base, 90, false).current_status(&block),
        Status::Pending
    );
    // deposit > total_deposit & expired
    assert_eq!(
        pending_suite(&block, deposit_base, 90, true).current_status(&block),
        Status::Rejected
    );
}

fn open_suite(
    block: &BlockInfo,
    threshold: &Threshold,
    votes: &Votes,
    total_weight: u128,
    is_expired: bool,
) -> Proposal {
    let expires = match is_expired {
        // voting period
        true => Expiration::AtHeight(block.height - 5),
        false => Expiration::AtHeight(block.height + 100),
    };
    Proposal {
        status: Status::Open,

        // time
        submitted_at: BlockTime {
            height: block.height - 30,
            time: Default::default(),
        },
        deposit_ends_at: Expiration::AtHeight(block.height - 20),
        vote_starts_at: BlockTime {
            height: block.height - 10,
            time: Default::default(),
        },
        vote_ends_at: expires,

        // vote
        threshold: threshold.clone(),
        total_weight,
        votes: votes.clone(),

        ..Default::default()
    }
}

fn assert_opened(block: &BlockInfo, prop: Proposal) {
    assert_eq!(prop.current_status(block), Status::Open);
}

fn assert_passed(block: &BlockInfo, prop: Proposal) {
    assert!(prop.is_passed());
    assert_eq!(prop.current_status(block), Status::Passed);
}

fn assert_rejected(block: &BlockInfo, prop: Proposal) {
    assert!(!prop.is_passed());
    assert_eq!(prop.current_status(block), Status::Rejected);
}

fn assert_vetoed(block: &BlockInfo, prop: Proposal) {
    assert!(!prop.is_passed());
    assert!(prop.is_vetoed());
    assert_eq!(prop.current_status(block), Status::Rejected)
}

#[test]
fn test_in_voting_period() {
    let quorum = Threshold {
        threshold: Decimal::percent(50),
        quorum: Decimal::percent(40),
        veto_threshold: Decimal::percent(33),
    };

    let block = mock_block();

    // !expired & passed
    let votes = Votes {
        yes: 100,
        no: Default::default(),
        abstain: Default::default(),
        veto: Default::default(),
    };
    assert_opened(
        &block,
        open_suite(&block, &quorum, &votes, votes.total(), false),
    );

    // !expired & rejected - threshold
    let votes = Votes {
        yes: Default::default(),
        no: 100,
        abstain: Default::default(),
        veto: Default::default(),
    };
    assert_opened(
        &block,
        open_suite(&block, &quorum, &votes, votes.total(), false),
    );

    // !expired & rejected - vetoed
    let votes = Votes {
        yes: Default::default(),
        no: Default::default(),
        abstain: Default::default(),
        veto: 100,
    };
    assert_opened(
        &block,
        open_suite(&block, &quorum, &votes, votes.total(), false),
    );
}

#[test]
fn test_out_of_voting_period() {
    let quorum = Threshold {
        threshold: Decimal::percent(50),
        quorum: Decimal::percent(40),
        veto_threshold: Decimal::percent(33),
    };

    let block = mock_block();

    // === expired & over quorum (passed)
    // over quorum (40% of 30 = 12), over threshold (7/11 > 50%)
    let pass = Votes {
        yes: 7,
        no: 3,
        abstain: 2,
        veto: 1,
    };
    assert_passed(&block, open_suite(&block, &quorum, &pass, 30, true));

    // === expired & over quorum & abstain buffer (passed)
    // over quorum, threshold passes if we ignore abstain
    // 17 total votes w/ abstain => 40% quorum of 40 total
    // 6 yes / (6 yes + 4 no + 2 votes) => 50% threshold
    let pass = Votes {
        yes: 6,
        no: 4,
        abstain: 5,
        veto: 2,
    };
    assert_passed(&block, open_suite(&block, &quorum, &pass, 40, true));

    // === expired & under quorum (rejected)
    // under quorum (40% of 33 = 13.2 > 13)
    let reject = Votes {
        yes: 7,
        no: 3,
        abstain: 2,
        veto: 1,
    };
    assert_rejected(&block, open_suite(&block, &quorum, &reject, 33, true));

    // === expired & under threshold (rejected)
    // over quorum (40% of 20 = 8)
    // under pass threshold (50% of (6 + 5 + 2) = 6.5 > 6)
    // under veto threshold (33% of 20 = 6.6 > 2)
    let reject = Votes {
        yes: 6,
        no: 5,
        abstain: 2,
        veto: 2,
    };
    assert_rejected(&block, open_suite(&block, &quorum, &reject, 20, true));

    // === expired & vetoed (rejected)
    // over quorum (40% of 23 = 9.2)
    // over pass threshold (50% of (11 + 2 + 8) = 10.5 < 11)
    // over veto threshold (33% of 23 = 7.59 < 8)
    let reject = Votes {
        yes: 11,
        no: 2,
        abstain: 2,
        veto: 8,
    };
    assert_vetoed(&block, open_suite(&block, &quorum, &reject, 23, true));
}

#[test]
fn quorum_edge_cases() {
    // when we pass absolute threshold (everyone else voting no, we pass), but still don't hit quorum
    let quorum = Threshold {
        threshold: Decimal::percent(60),
        quorum: Decimal::percent(80),
        veto_threshold: Decimal::percent(33),
    };

    let block = mock_block();

    // try 9 yes, 1 no (out of 15) -> 90% voter threshold, 60% absolute threshold, still no quorum
    // doesn't matter if expired or not
    let missing_voters = Votes {
        yes: 9,
        no: 1,
        abstain: 0,
        veto: 0,
    };
    assert_rejected(
        &block,
        open_suite(&block, &quorum, &missing_voters, 15, true),
    );

    // 1 less yes, 3 vetos and this passes only when expired
    let wait_til_expired = Votes {
        yes: 8,
        no: 1,
        abstain: 0,
        veto: 3,
    };
    assert_passed(
        &block,
        open_suite(&block, &quorum, &wait_til_expired, 15, true),
    );

    // 9 yes and 3 nos passes early
    let passes_early = Votes {
        yes: 9,
        no: 3,
        abstain: 0,
        veto: 0,
    };
    assert_passed(
        &block,
        open_suite(&block, &quorum, &passes_early, 15, true),
    );
}

#[test]
fn votes_needed_is_a_ceiling() {
    // exact values of the rounding formula
    assert_eq!(votes_needed(0, Decimal::percent(50)), 0);
    assert_eq!(votes_needed(1, Decimal::percent(50)), 1);
    assert_eq!(votes_needed(15, Decimal::percent(50)), 8);
    assert_eq!(votes_needed(100, Decimal::percent(33)), 33);
    assert_eq!(votes_needed(100, Decimal::percent(40)), 40);
    assert_eq!(votes_needed(80, Decimal::percent(50)), 40);
    assert_eq!(votes_needed(23, Decimal::percent(33)), 8);
    assert_eq!(votes_needed(7, Decimal::one()), 7);
    // the largest weight there is
    assert_eq!(votes_needed(u128::MAX, Decimal::one()), u128::MAX);
    assert_eq!(votes_needed(u128::MAX, Decimal::percent(50)), u128::MAX / 2 + 1);
    // the smallest fraction there is still counts
    assert_eq!(votes_needed(1, Decimal { atomics: 1 }), 1);
    assert_eq!(
        votes_needed(
            2,
            Decimal {
                atomics: 500_000_000_000_000_001
            }
        ),
        2
    );
    assert_eq!(
        votes_needed(
            2,
            Decimal {
                atomics: 500_000_000_000_000_000
            }
        ),
        1
    );
    assert_eq!(votes_needed(1_000_000_000_000_000_000, Decimal { atomics: 1 }), 1);
    assert_eq!(votes_needed(1_000_000_000_000_000_001, Decimal { atomics: 1 }), 2);
    assert_eq!(votes_needed(5, Decimal::zero()), 0);
    // never short of the fraction: needed * 1000 >= weight * permille
    for weight in 0u128..200 {
        for permille in [1u64, 250, 333, 334, 500, 667, 999, 1000] {
            let needed = votes_needed(weight, Decimal::permille(permille));
            assert!(needed * 1000 >= weight * permille as u128);
            assert!(needed == 0 || (needed - 1) * 1000 < weight * permille as u128);
        }
    }
}

#[test]
fn revoking_undoes_submitting() {
    let mut votes = Votes::default();
    votes.submit(Vote::Yes, 40);
    votes.submit(Vote::Veto, 2);
    assert_eq!(votes.total(), 42);
    votes.revoke(Vote::Yes, 40);
    votes.submit(Vote::No, 40);
    assert_eq!(
        votes,
        Votes {
            yes: 0,
            no: 40,
            abstain: 0,
            veto: 2
        }
    );
    assert_eq!(votes.total(), 42);
    votes.revoke(Vote::Veto, 2);
    votes.revoke(Vote::No, 40);
    assert_eq!(votes, Votes::default());
    assert_eq!(votes.total(), 0);
}

#[test]
fn early_pass_assumes_the_rest_votes_no() {
    let threshold = Threshold {
        threshold: Decimal::percent(50),
        quorum: Decimal::percent(40),
        veto_threshold: Decimal::percent(33),
    };
    let block = mock_block();
    // 50 of 100 have voted yes: whatever the others do, half is reached
    let sure = Votes {
        yes: 50,
        no: 0,
        abstain: 0,
        veto: 0,
    };
    assert!(open_suite(&block, &threshold, &sure, 100, false).is_passed_early());
    // 49 yes could still be outvoted
    let unsure = Votes {
        yes: 49,
        no: 0,
        abstain: 0,
        veto: 0,
    };
    let prop = open_suite(&block, &threshold, &unsure, 100, false);
    assert!(prop.is_passed());
    assert!(!prop.is_passed_early());
    // abstentions lower the bar: 45 yes of the 90 that have an opinion
    let with_abstain = Votes {
        yes: 45,
        no: 0,
        abstain: 10,
        veto: 0,
    };
    assert!(open_suite(&block, &threshold, &with_abstain, 100, false).is_passed_early());
    // a veto beats an early pass
    let vetoed = Votes {
        yes: 60,
        no: 0,
        abstain: 0,
        veto: 33,
    };
    assert!(!open_suite(&block, &threshold, &vetoed, 100, false).is_passed_early());
}

#[test]
fn status_is_final_once_decided() {
    let block = mock_block();
    for status in [Status::Rejected, Status::Passed, Status::Executed] {
        let prop = Proposal {
            status,
            total_deposit: 1000,
            deposit_base_amount: 1,
            deposit_ends_at: Expiration::AtHeight(1),
            vote_ends_at: Expiration::AtHeight(1),
            ..Default::default()
        };
        assert_eq!(prop.current_status(&block), status);
    }
}

#[test]
fn update_status_stores_the_current_status() {
    let block = mock_block();
    let mut prop = pending_suite(&block, 100, 90, true);
    assert!(prop.is_countable());
    prop.update_status(&block);
    assert_eq!(prop.status, Status::Rejected);
    let mut prop = pending_suite(&block, 100, 100, false);
    prop.update_status(&block);
    assert_eq!(prop.status, Status::Open);
}

#[test]
fn activation_opens_the_voting_window() {
    let block = mock_block();
    let mut prop = pending_suite(&block, 100, 100, false);
    let now = BlockTime::of(&block);
    prop.activate_voting_period(now, &Duration::Height(10));
    assert_eq!(prop.status, Status::Open);
    assert_eq!(prop.vote_starts_at, now);
    assert_eq!(prop.vote_ends_at, Expiration::AtHeight(block.height + 10));
    prop.activate_voting_period(now, &Duration::Time(60));
    assert_eq!(
        prop.vote_ends_at,
        Expiration::AtTime(Timestamp::from_nanos(
            1_571_797_419_879_305_533 + 60_000_000_000
        ))
    );
    let converted: BlockTime = block.clone().into();
    assert_eq!(converted, now);
}

#[test]
fn countable_draws_the_line_at_128_bits() {
    let mut prop = Proposal {
        total_weight: u128::MAX,
        ..Default::default()
    };
    assert!(prop.is_countable());
    prop.total_weight = 1;
    prop.votes = Votes {
        yes: u128::MAX,
        no: 1,
        abstain: 0,
        veto: 0,
    };
    assert!(!prop.is_countable());
    prop.votes = Votes {
        yes: u128::MAX - 6,
        no: 1,
        abstain: 2,
        veto: 4,
    };
    assert!(!prop.is_countable());
    prop.votes.veto = 3;
    assert!(prop.is_countable());
    prop.threshold.quorum = Decimal::percent(101);
    assert!(!prop.is_countable());
}

#[test]
fn a_threshold_just_above_half_is_not_met_by_half() {
    let prop = Proposal {
        status: Status::Open,
        total_weight: 2,
        votes: Votes {
            yes: 1,
            no: 1,
            abstain: 0,
            veto: 0,
        },
        threshold: Threshold {
            threshold: Decimal {
                atomics: 500_000_000_000_000_001,
            },
            quorum: Decimal::percent(40),
            veto_threshold: Decimal::percent(33),
        },
        ..Default::default()
    };
    assert!(prop.threshold.validate().is_ok());
    assert!(!prop.is_passed());
    assert!(!prop.is_passed_early());

    let mut even = prop.clone();
    even.threshold.threshold = Decimal::percent(50);
    assert!(even.is_passed());

    let mut all = prop.clone();
    all.votes = Votes {
        yes: 2,
        no: 0,
        abstain: 0,
        veto: 0,
    };
    assert!(all.is_passed());
}

//! The operations that change the state of an organization.
//!
//! Every operation first decides whether it can go through, and touches the
//! state only when it can: a refused operation leaves everything as it was.

use vstd::prelude::*;
use crate::error::{ContractError, Fault, StdError, StdFault};
use crate::expiration::{
    duration_sum, expiration_text, expired_at, expiry_after, reachable, BlockInfo, Expiration,
    Timestamp,
};
use crate::helpers::{duration_to_expiry, funds_paid, payment};
use crate::key::Key;
use crate::ledger::{
    lemma_sum_bounds, lemma_sum_insert, lemma_sum_same_terms, lemma_sum_update, lemma_sum_zero,
    sum_all,
};
use crate::msg::{Coin, Denom, DenomView, ProposeMsg};
use crate::proposal::{
    bucket_of, status_at, total_of, vetoed, with_bucket, BlockTime, Proposal, ProposalView, Votes,
};
use crate::response::{actions_of, Dispatch, DispatchView, Response, ResponseView};
use crate::state::{ballot_weight, deposit_amount, Ballot, Config, Dao, Deposit};
use crate::status::{status_code, status_text, vote_text, Status, Vote};
use crate::text::{copy_text, decimal_text, same_text, u128_to_string, u64_to_string};
use crate::threshold::threshold_fault;
use crate::MAX_LIMIT;

verus! {

/// Whether operations are suspended at the given height and time.
pub open spec fn is_paused(paused: Option<Expiration>, height: u64, time: Timestamp) -> bool {
    match paused {
        Some(e) => !expired_at(e, height, time),
        None => false,
    }
}

/// The kind under which a missing proposal is reported.
pub open spec fn proposal_kind() -> Seq<char> {
    "ion_dao::proposal::Proposal"@
}

/// The kind under which a missing deposit is reported.
pub open spec fn deposit_kind() -> Seq<char> {
    "ion_dao::state::Deposit"@
}

impl Dao {
    /// What is deposited on proposal `id`.
    pub open spec fn deposited_on(&self, id: u64) -> int {
        sum_all(self.deposits.key_seq(), self.deposits.val_seq(), deposit_amount(id))
    }

    /// The weight cast for one option of proposal `id`.
    pub open spec fn cast_on(&self, id: u64, option: Vote) -> int {
        sum_all(self.ballots.key_seq(), self.ballots.val_seq(), ballot_weight(id, option))
    }

    /// The settings and the treasury are the same in both states.
    pub open spec fn same_settings(&self, other: &Dao) -> bool {
        &&& self.config == other.config
        &&& self.gov_token == other.gov_token
        &&& self.staking_contract == other.staking_contract
        &&& self.paused == other.paused
        &&& self.treasury_tokens == other.treasury_tokens
    }

    /// Ballots and deposits are the same in both states.
    pub open spec fn same_ledgers(&self, other: &Dao) -> bool {
        &&& self.ballots == other.ballots
        &&& self.deposits == other.deposits
        &&& self.idx_deposits_by_depositor == other.idx_deposits_by_depositor
    }

    /// Proposals, their indexes and the counter are the same in both states.
    pub open spec fn same_records(&self, other: &Dao) -> bool {
        &&& self.proposals == other.proposals
        &&& self.idx_props_by_status == other.idx_props_by_status
        &&& self.idx_props_by_proposer == other.idx_props_by_proposer
        &&& self.proposal_count == other.proposal_count
    }

    /// Both states hold the same proposals, except possibly for the record
    /// under `id`.
    pub open spec fn same_proposals_but(&self, other: &Dao, id: u64) -> bool {
        &&& forall|id2: u64|
            id2 != id ==> (#[trigger] self.proposals.contains(id2) <==> other.proposals.contains(
                id2,
            ))
        &&& forall|id2: u64|
            id2 != id && other.proposals.contains(id2) ==> #[trigger] self.proposals.value(id2)
                == other.proposals.value(id2)
    }

    /// A ballot's weight is part of the sum for its option.
    pub proof fn lemma_ballot_within_tally(&self, id: u64, voter: Seq<char>)
        requires
            self.ballots.wf(),
            self.ballots.contains((id, voter)),
        ensures
            self.ballots.value((id, voter)).weight <= self.cast_on(
                id,
                self.ballots.value((id, voter)).vote,
            ),
    {
        let keys = self.ballots.key_seq();
        let vals = self.ballots.val_seq();
        let i = self.ballots.index_of((id, voter));
        let option = vals[i].vote;
        lemma_sum_bounds(keys, vals, ballot_weight(id, option), i);
    }
}

/// Refuses while the organization is paused.
pub fn check_paused(dao: &Dao, block: &BlockInfo) -> (r: Result<(), ContractError>)
    ensures
        match r {
            Ok(_) => !is_paused(dao.paused, block.height, block.time),
            Err(e) => is_paused(dao.paused, block.height, block.time) && e@ == Fault::Paused,
        },
{
    if let Some(expiration) = &dao.paused {
        if !expiration.is_expired(block) {
            return Err(ContractError::Paused);
        }
    }
    Ok(())
}

/// Refuses unless the status is the desired one.
pub fn check_status(origin_status: &Status, desired_status: Status) -> (r: Result<
    (),
    ContractError,
>)
    ensures
        match r {
            Ok(_) => *origin_status == desired_status,
            Err(e) => *origin_status != desired_status && e@ == (Fault::InvalidProposalStatus {
                current: status_text(*origin_status),
                desired: status_text(desired_status),
            }),
        },
{
    if *origin_status != desired_status {
        return Err(
            ContractError::InvalidProposalStatus {
                current: origin_status.name(),
                desired: desired_status.name(),
            },
        );
    }
    Ok(())
}

/// Stores a new proposal under `prop_id` with `proposer` as its proposer, and
/// lists it under its status and its proposer. The counter is kept at or
/// above the id.
pub fn create_proposal(dao: &mut Dao, prop_id: u64, proposer: &String, proposal: &Proposal) -> (r:
    Result<(), StdError>)
    requires
        old(dao).wf(),
        !old(dao).proposals.contains(prop_id),
    ensures
        r is Ok,
        final(dao).wf(),
        final(dao).proposals.contains(prop_id),
        final(dao).proposals.value(prop_id)@ == (ProposalView {
            proposer: proposer@,
            ..proposal@
        }),
        final(dao).proposals.key_seq() == old(dao).proposals.key_seq().insert(
            final(dao).proposals.index_of(prop_id),
            prop_id,
        ),
        0 <= final(dao).proposals.index_of(prop_id) <= old(dao).proposals.count(),
        final(dao).same_proposals_but(old(dao), prop_id),
        final(dao).same_settings(old(dao)),
        final(dao).same_ledgers(old(dao)),
        final(dao).proposal_count == (if prop_id > old(dao).proposal_count {
            prop_id
        } else {
            old(dao).proposal_count
        }),
{
    let mut record = proposal.duplicate();
    record.proposer = copy_text(proposer);
    dao.proposals.set(prop_id, record);
    dao.idx_props_by_status.set((proposal.status.code(), prop_id), ());
    dao.idx_props_by_proposer.set((copy_text(proposer), prop_id), ());
    if prop_id > dao.proposal_count {
        dao.proposal_count = prop_id;
    }
    proof {
        assert forall|s: u8, id: u64| #[trigger]
            dao.idx_props_by_status.contains((s, id)) <==> (dao.proposals.contains(id)
                && status_code(dao.proposals.value(id).status) == s) by {
            if id != prop_id {
                assert(old(dao).idx_props_by_status.contains((s, id))
                    <==> (old(dao).proposals.contains(id)
                    && status_code(old(dao).proposals.value(id).status)
                    == s));
                if old(dao).proposals.contains(id) {
                    assert(dao.proposals.value(id) == old(dao).proposals.value(id));
                }
            } else {
                assert(!old(dao).idx_props_by_status.contains((s, id)));
            }
        }
        assert forall|a: Seq<char>, id: u64| #[trigger]
            dao.idx_props_by_proposer.contains((a, id)) <==> (dao.proposals.contains(id)
                && dao.proposals.value(id).proposer@ == a) by {
            if id != prop_id {
                assert(old(dao).idx_props_by_proposer.contains((a, id))
                    <==> (old(dao).proposals.contains(id)
                    && old(dao).proposals.value(id).proposer@ == a));
                if old(dao).proposals.contains(id) {
                    assert(dao.proposals.value(id) == old(dao).proposals.value(id));
                }
            } else {
                assert(!old(dao).idx_props_by_proposer.contains((a, id)));
            }
        }
        assert forall|id: u64| #[trigger] dao.proposals.contains(id) implies id
            <= dao.proposal_count by {
            if id != prop_id {
                assert(old(dao).proposals.contains(id));
            }
        }
    }
    Ok(())
}

/// Adds `amount` to what `depositor` has deposited on proposal `prop_id`, and
/// lists the deposit under the depositor.
pub fn create_deposit(dao: &mut Dao, prop_id: u64, depositor: &String, amount: &u128) -> (r: Result<
    (),
    StdError,
>)
    requires
        old(dao).wf(),
    ensures
        match r {
            Ok(_) => {
                let k = (prop_id, depositor@);
                let before = if old(dao).deposits.contains(k) {
                    old(dao).deposits.value(k)
                } else {
                    Deposit { amount: 0, claimed: false }
                };
                &&& before.amount + *amount <= u128::MAX
                &&& final(dao).wf()
                &&& final(dao).deposits.contains(k)
                &&& final(dao).deposits.value(k) == (Deposit {
                    amount: (before.amount + *amount) as u128,
                    claimed: before.claimed,
                })
                &&& forall|k2: (u64, Seq<char>)|
                    k2 != k ==> (#[trigger] final(dao).deposits.contains(k2)
                        <==> old(dao).deposits.contains(k2))
                &&& forall|k2: (u64, Seq<char>)|
                    k2 != k && old(dao).deposits.contains(k2)
                        ==> #[trigger] final(dao).deposits.value(k2) == old(dao).deposits.value(k2)
                &&& forall|id2: u64| #[trigger]
                    final(dao).deposited_on(id2) == old(dao).deposited_on(id2) + (if id2
                        == prop_id {
                        *amount as int
                    } else {
                        0
                    })
                &&& final(dao).same_settings(old(dao))
                &&& final(dao).same_records(old(dao))
                &&& final(dao).ballots == old(dao).ballots
            },
            Err(e) => {
                &&& e@ == StdFault::Overflow
                &&& old(dao).deposits.contains((prop_id, depositor@))
                &&& old(dao).deposits.value((prop_id, depositor@)).amount + *amount > u128::MAX
                &&& *final(dao) == *old(dao)
            },
        },
{
    let key = (prop_id, copy_text(depositor));
    let deposit = match dao.deposits.get(&key) {
        Some(d) => *d,
        None => Deposit::default(),
    };
    let sum = match deposit.amount.checked_add(*amount) {
        Some(s) => s,
        None => {
            return Err(StdError::Overflow);
        },
    };
    let entry = Deposit { amount: sum, claimed: deposit.claimed };
    dao.idx_deposits_by_depositor.set((copy_text(depositor), prop_id), ());
    dao.deposits.set(key, entry);
    proof {
        let k = (prop_id, depositor@);
        let keys = old(dao).deposits.key_seq();
        let vals = old(dao).deposits.val_seq();
        assert forall|id2: u64| #[trigger]
            dao.deposited_on(id2) == old(dao).deposited_on(id2) + (if id2 == prop_id {
                *amount as int
            } else {
                0
            }) by {
            if old(dao).deposits.contains(k) {
                let i = old(dao).deposits.index_of(k);
                old(dao).deposits.lemma_position(i);
                lemma_sum_update(keys, vals, deposit_amount(id2), i, entry);
            } else {
                let i = dao.deposits.index_of(k);
                lemma_sum_insert(keys, vals, deposit_amount(id2), i, k, entry);
            }
        }
        assert forall|a: Seq<char>, id: u64| #[trigger]
            dao.idx_deposits_by_depositor.contains((a, id)) <==> dao.deposits.contains(
                (id, a),
            ) by {
            if (id, a) != k {
                assert(old(dao).idx_deposits_by_depositor.contains((a, id))
                    <==> old(dao).deposits.contains((id, a)));
                assert((a, id) != (depositor@, prop_id));
            }
        }
    }
    Ok(())
}

/// Stores the ballot of `voter` on proposal `prop_id`, replacing an earlier
/// one.
pub fn save_ballot(dao: &mut Dao, prop_id: u64, voter: &String, ballot: Ballot)
    requires
        old(dao).wf(),
    ensures
        final(dao).wf(),
        final(dao).ballots.contains((prop_id, voter@)),
        final(dao).ballots.value((prop_id, voter@)) == ballot,
        forall|k2: (u64, Seq<char>)|
            k2 != (prop_id, voter@) ==> (#[trigger] final(dao).ballots.contains(k2)
                <==> old(dao).ballots.contains(k2)),
        forall|k2: (u64, Seq<char>)|
            k2 != (prop_id, voter@) && old(dao).ballots.contains(k2)
                ==> #[trigger] final(dao).ballots.value(k2) == old(dao).ballots.value(k2),
        forall|id2: u64, option: Vote| #[trigger]
            final(dao).cast_on(id2, option) == old(dao).cast_on(id2, option) + ballot_weight(
                id2,
                option,
            )((prop_id, voter@), ballot) - (if old(dao).ballots.contains((prop_id, voter@)) {
                ballot_weight(id2, option)(
                    (prop_id, voter@),
                    old(dao).ballots.value((prop_id, voter@)),
                )
            } else {
                0
            }),
        final(dao).same_settings(old(dao)),
        final(dao).same_records(old(dao)),
        final(dao).deposits == old(dao).deposits,
        final(dao).idx_deposits_by_depositor == old(dao).idx_deposits_by_depositor,
{
    dao.ballots.set((prop_id, copy_text(voter)), ballot);
    proof {
        let k = (prop_id, voter@);
        let keys = old(dao).ballots.key_seq();
        let vals = old(dao).ballots.val_seq();
        assert forall|id2: u64, option: Vote| #[trigger]
            dao.cast_on(id2, option) == old(dao).cast_on(id2, option) + ballot_weight(
                id2,
                option,
            )(k, ballot) - (if old(dao).ballots.contains(k) {
                ballot_weight(id2, option)(k, old(dao).ballots.value(k))
            } else {
                0
            }) by {
            if old(dao).ballots.contains(k) {
                let i = old(dao).ballots.index_of(k);
                old(dao).ballots.lemma_position(i);
                lemma_sum_update(keys, vals, ballot_weight(id2, option), i, ballot);
            } else {
                let i = dao.ballots.index_of(k);
                lemma_sum_insert(keys, vals, ballot_weight(id2, option), i, k, ballot);
            }
        }
    }
}

/// Replaces the stored proposal `prop_id` by a record with the same status
/// and proposer, so that the indexes stay as they are.
pub fn store_proposal(dao: &mut Dao, prop_id: u64, proposal: Proposal)
    requires
        old(dao).wf(),
        old(dao).proposals.contains(prop_id),
        proposal.status == old(dao).proposals.value(prop_id).status,
        proposal.proposer@ == old(dao).proposals.value(prop_id).proposer@,
    ensures
        final(dao).wf(),
        final(dao).proposals.contains(prop_id),
        final(dao).proposals.value(prop_id) == proposal,
        final(dao).proposals.key_seq() == old(dao).proposals.key_seq(),
        final(dao).same_proposals_but(old(dao), prop_id),
        final(dao).same_settings(old(dao)),
        final(dao).same_ledgers(old(dao)),
        final(dao).idx_props_by_status == old(dao).idx_props_by_status,
        final(dao).idx_props_by_proposer == old(dao).idx_props_by_proposer,
        final(dao).proposal_count == old(dao).proposal_count,
{
    dao.proposals.set(prop_id, proposal);
    proof {
        assert forall|s: u8, id: u64| #[trigger]
            dao.idx_props_by_status.contains((s, id)) <==> (dao.proposals.contains(id)
                && status_code(dao.proposals.value(id).status) == s) by {
            assert(old(dao).idx_props_by_status.contains((s, id))
                <==> (old(dao).proposals.contains(id)
                && status_code(old(dao).proposals.value(id).status) == s));
            if id != prop_id && old(dao).proposals.contains(id) {
                assert(dao.proposals.value(id) == old(dao).proposals.value(id));
            }
        }
        assert forall|a: Seq<char>, id: u64| #[trigger]
            dao.idx_props_by_proposer.contains((a, id)) <==> (dao.proposals.contains(id)
                && dao.proposals.value(id).proposer@ == a) by {
            assert(old(dao).idx_props_by_proposer.contains((a, id))
                <==> (old(dao).proposals.contains(id)
                && old(dao).proposals.value(id).proposer@ == a));
            if id != prop_id && old(dao).proposals.contains(id) {
                assert(dao.proposals.value(id) == old(dao).proposals.value(id));
            }
        }
        assert forall|id: u64| #[trigger] dao.proposals.contains(id) implies id
            <= dao.proposal_count by {
            assert(old(dao).proposals.contains(id));
        }
    }
}

/// Marks the deposits of proposal `prop_id` as due back, in the store and in
/// the caller's copy of the proposal.
pub fn make_deposit_claimable(dao: &mut Dao, prop_id: u64, proposal: &mut Proposal) -> (r: Result<
    (),
    StdError,
>)
    requires
        old(dao).wf(),
        old(dao).proposals.contains(prop_id),
    ensures
        r is Ok,
        final(dao).wf(),
        final(dao).proposals.contains(prop_id),
        final(dao).proposals.value(prop_id)@ == (ProposalView {
            deposit_claimable: true,
            ..old(dao).proposals.value(prop_id)@
        }),
        final(proposal)@ == (ProposalView { deposit_claimable: true, ..old(proposal)@ }),
        final(dao).proposals.key_seq() == old(dao).proposals.key_seq(),
        final(dao).same_proposals_but(old(dao), prop_id),
        final(dao).same_settings(old(dao)),
        final(dao).same_ledgers(old(dao)),
        final(dao).idx_props_by_status == old(dao).idx_props_by_status,
        final(dao).idx_props_by_proposer == old(dao).idx_props_by_proposer,
        final(dao).proposal_count == old(dao).proposal_count,
{
    let mut stored = match dao.proposals.get(&prop_id) {
        Some(p) => p.duplicate(),
        None => Proposal::default(),
    };
    stored.deposit_claimable = true;
    store_proposal(dao, prop_id, stored);
    proposal.deposit_claimable = true;
    Ok(())
}

/// Commits a new status for proposal `prop_id`: in the caller's copy, in the
/// stored record, and in the index, where the proposal moves from the status
/// it was stored with to the new one.
pub fn update_proposal_status(
    dao: &mut Dao,
    prop_id: u64,
    proposal: &mut Proposal,
    desired: Status,
) -> (r: Result<(), StdError>)
    requires
        old(dao).wf(),
    ensures
        final(proposal)@ == (ProposalView { status: desired, ..old(proposal)@ }),
        match r {
            Ok(_) => {
                &&& old(dao).proposals.contains(prop_id)
                &&& final(dao).wf()
                &&& final(dao).proposals.contains(prop_id)
                &&& final(dao).proposals.value(prop_id)@ == (ProposalView {
                    status: desired,
                    ..old(dao).proposals.value(prop_id)@
                })
                &&& final(dao).proposals.key_seq() == old(dao).proposals.key_seq()
                &&& final(dao).same_proposals_but(old(dao), prop_id)
                &&& final(dao).same_settings(old(dao))
                &&& final(dao).same_ledgers(old(dao))
                &&& final(dao).idx_props_by_proposer == old(dao).idx_props_by_proposer
                &&& final(dao).proposal_count == old(dao).proposal_count
            },
            Err(e) => {
                &&& !old(dao).proposals.contains(prop_id)
                &&& e@ == (StdFault::NotFound { kind: "proposal"@ })
                &&& *final(dao) == *old(dao)
            },
        },
{
    proposal.status = desired;
    let mut stored = match dao.proposals.get(&prop_id) {
        Some(p) => p.duplicate(),
        None => {
            return Err(StdError::not_found("proposal"));
        },
    };
    let before = stored.status;
    stored.status = desired;
    dao.proposals.set(prop_id, stored);
    dao.idx_props_by_status.remove(&(before.code(), prop_id));
    dao.idx_props_by_status.set((desired.code(), prop_id), ());
    proof {
        assert forall|s: u8, id: u64| #[trigger]
            dao.idx_props_by_status.contains((s, id)) <==> (dao.proposals.contains(id)
                && status_code(dao.proposals.value(id).status) == s) by {
            assert(old(dao).idx_props_by_status.contains((s, id))
                <==> (old(dao).proposals.contains(id)
                && status_code(old(dao).proposals.value(id).status) == s));
            if id != prop_id {
                assert((s, id) != (status_code(before), prop_id));
                assert((s, id) != (status_code(desired), prop_id));
                if old(dao).proposals.contains(id) {
                    assert(dao.proposals.value(id) == old(dao).proposals.value(id));
                }
            } else {
                if s != status_code(desired) {
                    assert((s, id) != (status_code(desired), prop_id));
                    if s != status_code(before) {
                        assert((s, id) != (status_code(before), prop_id));
                    }
                }
            }
        }
        assert forall|a: Seq<char>, id: u64| #[trigger]
            dao.idx_props_by_proposer.contains((a, id)) <==> (dao.proposals.contains(id)
                && dao.proposals.value(id).proposer@ == a) by {
            assert(old(dao).idx_props_by_proposer.contains((a, id))
                <==> (old(dao).proposals.contains(id)
                && old(dao).proposals.value(id).proposer@ == a));
            if id != prop_id && old(dao).proposals.contains(id) {
                assert(dao.proposals.value(id) == old(dao).proposals.value(id));
            }
        }
        assert forall|id: u64| #[trigger] dao.proposals.contains(id) implies id
            <= dao.proposal_count by {
            assert(old(dao).proposals.contains(id));
        }
    }
    Ok(())
}

impl Dao {
    /// Nothing is cast or deposited on an id that no proposal has.
    pub proof fn lemma_fresh_id_empty(&self, id: u64)
        requires
            self.inv(),
            !self.proposals.contains(id),
        ensures
            forall|option: Vote| #[trigger] self.cast_on(id, option) == 0,
            self.deposited_on(id) == 0,
    {
        let bkeys = self.ballots.key_seq();
        let bvals = self.ballots.val_seq();
        assert forall|option: Vote| #[trigger] self.cast_on(id, option) == 0 by {
            assert forall|j: int| 0 <= j < bkeys.len() implies ballot_weight(id, option)(
                #[trigger] bkeys[j],
                bvals[j],
            ) == 0 by {
                self.ballots.lemma_position(j);
                assert(self.ballots.contains((bkeys[j].0, bkeys[j].1)));
            }
            lemma_sum_zero(bkeys, bvals, ballot_weight(id, option), bkeys.len() as int);
        }
        let dkeys = self.deposits.key_seq();
        let dvals = self.deposits.val_seq();
        assert forall|j: int| 0 <= j < dkeys.len() implies deposit_amount(id)(
            #[trigger] dkeys[j],
            dvals[j],
        ) == 0 by {
            self.deposits.lemma_position(j);
            assert(self.deposits.contains((dkeys[j].0, dkeys[j].1)));
        }
        lemma_sum_zero(dkeys, dvals, deposit_amount(id), dkeys.len() as int);
    }
}

/// What a deposit gate lets through: of `received`, the part that is kept
/// is what still fits under `base`; the rest goes back.
pub open spec fn kept(total: u128, base: u128, received: u128) -> u128 {
    let room = if base > total {
        (base - total) as u128
    } else {
        0u128
    };
    if received <= room {
        received
    } else {
        room
    }
}

/// The part of a payment that a deposit keeps, and the part it gives back.
pub fn deposit_gate(total: u128, base: u128, received: u128) -> (r: (u128, u128))
    ensures
        r.0 == kept(total, base, received),
        r.0 + r.1 == received,
        total + r.0 <= u128::MAX,
        total < base ==> total + r.0 <= base,
        (total + r.0 >= base) <==> (total + received >= base),
{
    let room = if base > total {
        base - total
    } else {
        0
    };
    if received <= room {
        (received, 0)
    } else {
        (room, received - room)
    }
}

/// Why a submission is refused before the staked supply matters, if it is:
/// for a pause, for its payment, or for paying less than the minimum.
pub open spec fn propose_entry_fault(dao: &Dao, block: &BlockInfo, funds: Seq<Coin>) -> Option<
    Fault,
> {
    let paid = payment(funds, dao.gov_token@);
    if is_paused(dao.paused, block.height, block.time) {
        Some(Fault::Paused)
    } else if paid is Err {
        Some(Fault::Payment(paid->Err_0))
    } else if paid->Ok_0 < dao.config.proposal_min_deposit {
        Some(Fault::Unauthorized)
    } else {
        None
    }
}

/// Why a proposal cannot be submitted, if it cannot.
pub open spec fn propose_fault(
    dao: &Dao,
    block: &BlockInfo,
    funds: Seq<Coin>,
    total_supply: u128,
) -> Option<Fault> {
    let cfg = dao.config;
    let entry = propose_entry_fault(dao, block, funds);
    let span = duration_sum(cfg.deposit_period, cfg.voting_period);
    if entry is Some {
        entry
    } else if total_supply == 0 {
        Some(Fault::LackOfStakes)
    } else if !reachable(block.height, block.time, cfg.deposit_period) {
        Some(Fault::Std(StdFault::Overflow))
    } else if span is Err {
        Some(Fault::Std(span->Err_0))
    } else if !reachable(block.height, block.time, span->Ok_0) {
        Some(Fault::Std(StdFault::Overflow))
    } else if dao.proposal_count == u64::MAX {
        Some(Fault::Std(StdFault::Overflow))
    } else {
        None
    }
}

/// The record of a proposal submitted in `block` with `received` paid: it is
/// open at once if the payment meets the deposit, and pending otherwise.
pub open spec fn proposed(
    dao: &Dao,
    block: &BlockInfo,
    sender: Seq<char>,
    received: u128,
    total_supply: u128,
    msg: &ProposeMsg,
) -> ProposalView {
    let cfg = dao.config;
    let now = BlockTime { height: block.height, time: block.time };
    let opens = received >= cfg.proposal_deposit;
    ProposalView {
        title: msg.title@,
        link: msg.link@,
        description: msg.description@,
        proposer: sender,
        status: if opens {
            Status::Open
        } else {
            Status::Pending
        },
        msgs: msg.msgs@,
        submitted_at: now,
        deposit_ends_at: expiry_after(block.height, block.time, cfg.deposit_period),
        vote_starts_at: if opens {
            now
        } else {
            BlockTime { height: 0, time: Timestamp { nanos: 0 } }
        },
        vote_ends_at: if opens {
            expiry_after(block.height, block.time, cfg.voting_period)
        } else {
            expiry_after(
                block.height,
                block.time,
                duration_sum(cfg.deposit_period, cfg.voting_period)->Ok_0,
            )
        },
        threshold: cfg.threshold,
        total_weight: total_supply,
        votes: Votes { yes: 0, no: 0, abstain: 0, veto: 0 },
        total_deposit: kept(0, cfg.proposal_deposit, received),
        deposit_base_amount: cfg.proposal_deposit,
        deposit_claimable: false,
    }
}

/// The refund of what a payment holds beyond what is kept, if anything.
pub open spec fn overpay_refund(
    to: Seq<char>,
    denom: Seq<char>,
    received: u128,
    kept: u128,
) -> Seq<DispatchView> {
    if received > kept {
        seq![DispatchView::Send { to_address: to, denom, amount: (received - kept) as u128 }]
    } else {
        Seq::empty()
    }
}

/// What a successful submission answers.
pub open spec fn propose_response(
    dao: &Dao,
    sender: Seq<char>,
    received: u128,
    id: u64,
) -> ResponseView {
    let kept = kept(0, dao.config.proposal_deposit, received);
    ResponseView {
        messages: overpay_refund(sender, dao.gov_token@, received, kept),
        attributes: seq![
            ("action"@, "propose"@),
            ("sender"@, sender),
            (
                "status"@,
                status_text(
                    if received >= dao.config.proposal_deposit {
                        Status::Open
                    } else {
                        Status::Pending
                    },
                ),
            ),
            ("deposit"@, decimal_text(received as nat)),
            ("proposal_id"@, decimal_text(id as nat)),
        ],
    }
}

/// What is paid with a submission, once everything is checked that a
/// submission is refused for whatever the staked supply may be. The supply
/// need only be asked for when this succeeds.
pub fn propose_received(dao: &Dao, block: &BlockInfo, funds: &Vec<Coin>) -> (r: Result<
    u128,
    ContractError,
>)
    ensures
        match r {
            Ok(received) => {
                &&& propose_entry_fault(dao, block, funds@) is None
                &&& payment(funds@, dao.gov_token@) == Ok::<u128, crate::error::PaymentFault>(
                    received,
                )
            },
            Err(e) => {
                &&& propose_entry_fault(dao, block, funds@) == Some(e@)
                &&& forall|total_supply: u128| #[trigger]
                    propose_fault(dao, block, funds@, total_supply) == Some(e@)
            },
        },
{
    match check_paused(dao, block) {
        Ok(_) => {},
        Err(e) => {
            return Err(e);
        },
    }
    let received = match funds_paid(funds, &dao.gov_token) {
        Ok(amount) => amount,
        Err(e) => {
            return Err(ContractError::Payment(e));
        },
    };
    if received < dao.config.proposal_min_deposit {
        return Err(ContractError::Unauthorized);
    }
    Ok(received)
}

/// Submits a proposal. The funds have to hold at least the minimum deposit
/// in the governance token, and there has to be stake to vote with. The
/// proposal opens for voting at once if the deposit is met; what is paid
/// beyond the deposit goes back to the sender.
pub fn propose(
    dao: &mut Dao,
    block: &BlockInfo,
    sender: &String,
    funds: &Vec<Coin>,
    total_supply: u128,
    propose_msg: ProposeMsg,
) -> (r: Result<Response, ContractError>)
    requires
        old(dao).inv(),
    ensures
        final(dao).inv(),
        match r {
            Ok(resp) => {
                let id = (old(dao).proposal_count + 1) as u64;
                let received = payment(funds@, old(dao).gov_token@)->Ok_0;
                let kept = kept(0, old(dao).config.proposal_deposit, received);
                &&& propose_fault(old(dao), block, funds@, total_supply) is None
                &&& final(dao).proposal_count == id
                &&& final(dao).proposals.key_seq() == old(dao).proposals.key_seq().push(id)
                &&& final(dao).proposals.contains(id)
                &&& final(dao).proposals.value(id)@ == proposed(
                    old(dao),
                    block,
                    sender@,
                    received,
                    total_supply,
                    &propose_msg,
                )
                &&& final(dao).same_proposals_but(old(dao), id)
                &&& final(dao).same_settings(old(dao))
                &&& final(dao).ballots == old(dao).ballots
                &&& final(dao).deposits.contains((id, sender@))
                &&& final(dao).deposits.value((id, sender@)) == (Deposit {
                    amount: kept,
                    claimed: false,
                })
                &&& forall|k2: (u64, Seq<char>)|
                    k2 != (id, sender@) ==> (#[trigger] final(dao).deposits.contains(k2)
                        <==> old(dao).deposits.contains(k2))
                &&& forall|k2: (u64, Seq<char>)|
                    k2 != (id, sender@) && old(dao).deposits.contains(k2)
                        ==> #[trigger] final(dao).deposits.value(k2) == old(dao).deposits.value(k2)
                &&& resp@ == propose_response(old(dao), sender@, received, id)
            },
            Err(e) => {
                &&& propose_fault(old(dao), block, funds@, total_supply) == Some(e@)
                &&& *final(dao) == *old(dao)
            },
        },
{
    let received = match propose_received(dao, block, funds) {
        Ok(amount) => amount,
        Err(e) => {
            return Err(e);
        },
    };
    if total_supply == 0 {
        return Err(ContractError::LackOfStakes);
    }
    let now = BlockTime::of(block);
    if !dao.config.deposit_period.fits_after(block.height, block.time) {
        return Err(ContractError::Std(StdError::Overflow));
    }
    let span = match dao.config.deposit_period.plus(&dao.config.voting_period) {
        Ok(d) => d,
        Err(e) => {
            return Err(ContractError::Std(e));
        },
    };
    if !span.fits_after(block.height, block.time) {
        return Err(ContractError::Std(StdError::Overflow));
    }
    if dao.proposal_count == u64::MAX {
        return Err(ContractError::Std(StdError::Overflow));
    }
    let base = dao.config.proposal_deposit;
    let (retained, gap) = deposit_gate(0, base, received);
    let mut prop = Proposal {
        title: propose_msg.title,
        link: propose_msg.link,
        description: propose_msg.description,
        proposer: copy_text(sender),
        msgs: propose_msg.msgs,
        status: Status::Pending,
        submitted_at: now,
        deposit_ends_at: duration_to_expiry(&now, &dao.config.deposit_period),
        vote_starts_at: BlockTime::default(),
        vote_ends_at: duration_to_expiry(&now, &span),
        votes: Votes::default(),
        threshold: dao.config.threshold,
        total_weight: total_supply,
        total_deposit: retained,
        deposit_base_amount: base,
        deposit_claimable: false,
    };
    let mut resp = Response::new();
    if received >= base {
        prop.activate_voting_period(now, &dao.config.voting_period);
        if gap > 0 {
            resp = resp.add_message(
                Dispatch::Send {
                    to_address: copy_text(sender),
                    denom: copy_text(&dao.gov_token),
                    amount: gap,
                },
            );
        }
    }
    let id = match dao.next_id() {
        Ok(id) => id,
        Err(e) => {
            return Err(ContractError::Std(e));
        },
    };
    proof {
        old(dao).lemma_fresh_id_empty(id);
        assert(dao.deposited_on(id) == old(dao).deposited_on(id));
        assert(!dao.deposits.contains((id, sender@)));
    }
    let ghost mid = *dao;
    match create_deposit(dao, id, sender, &retained) {
        Ok(_) => {},
        Err(e) => {
            return Err(ContractError::Std(e));
        },
    }
    let ghost funded = *dao;
    match create_proposal(dao, id, sender, &prop) {
        Ok(_) => {},
        Err(e) => {
            return Err(ContractError::Std(e));
        },
    }
    proof {
        let before = old(dao).proposals.key_seq();
        let after = dao.proposals.key_seq();
        let at = dao.proposals.index_of(id);
        if at < before.len() {
            // the key that the new id would stand in front of is an older id
            old(dao).proposals.lemma_position(at);
            assert(old(dao).proposals.contains(before[at]));
            assert(after[at + 1] == before[at]);
            assert(u64::before(after[at], after[at + 1]));
        }
        assert(after =~= before.push(id));
    }
    proof {
        assert forall|id2: u64| #[trigger] dao.proposals.contains(id2) implies dao.sound(id2) by {
            assert(dao.deposited_on(id2) == funded.deposited_on(id2));
            if id2 != id {
                assert(old(dao).proposals.contains(id2));
                assert(old(dao).sound(id2));
                assert(dao.proposals.value(id2) == old(dao).proposals.value(id2));
                assert(funded.deposited_on(id2) == mid.deposited_on(id2));
            } else {
                assert(funded.deposited_on(id) == retained);
                assert(old(dao).cast_on(id, Vote::Yes) == 0);
                assert(old(dao).cast_on(id, Vote::No) == 0);
                assert(old(dao).cast_on(id, Vote::Abstain) == 0);
                assert(old(dao).cast_on(id, Vote::Veto) == 0);
            }
        }
        assert forall|id2: u64, a: Seq<char>| #[trigger]
            dao.deposits.contains((id2, a)) implies dao.proposals.contains(id2) by {
            if (id2, a) != (id, sender@) {
                assert(old(dao).deposits.contains((id2, a)));
                assert(old(dao).proposals.contains(id2));
            }
        }
        assert forall|id2: u64, a: Seq<char>| #[trigger]
            dao.ballots.contains((id2, a)) implies dao.proposals.contains(id2) by {
            assert(old(dao).ballots.contains((id2, a)));
            assert(old(dao).proposals.contains(id2));
        }
    }
    let resp = resp.add_attribute("action", "propose".to_owned()).add_attribute(
        "sender",
        copy_text(sender),
    ).add_attribute("status", prop.status.name()).add_attribute(
        "deposit",
        u128_to_string(received),
    ).add_attribute("proposal_id", u64_to_string(id));
    proof {
        assert(resp@.attributes =~= propose_response(
            old(dao),
            sender@,
            received,
            id,
        ).attributes);
        assert(resp@.messages =~= propose_response(old(dao), sender@, received, id).messages);
    }
    Ok(resp)
}

impl Dao {
    /// A deposit's amount is part of what is deposited on its proposal.
    pub proof fn lemma_deposit_within_total(&self, id: u64, depositor: Seq<char>)
        requires
            self.deposits.wf(),
            self.deposits.contains((id, depositor)),
        ensures
            self.deposits.value((id, depositor)).amount <= self.deposited_on(id),
    {
        let keys = self.deposits.key_seq();
        let vals = self.deposits.val_seq();
        let i = self.deposits.index_of((id, depositor));
        lemma_sum_bounds(keys, vals, deposit_amount(id), i);
    }
}

/// Why a deposit is refused before the staked supply matters, if it is: for
/// a pause, for its payment, for paying nothing, or because the proposal is
/// unknown, no longer pending, or past its deposit window.
pub open spec fn deposit_entry_fault(
    dao: &Dao,
    block: &BlockInfo,
    funds: Seq<Coin>,
    prop_id: u64,
) -> Option<Fault> {
    let paid = payment(funds, dao.gov_token@);
    if is_paused(dao.paused, block.height, block.time) {
        Some(Fault::Paused)
    } else if paid is Err {
        Some(Fault::Payment(paid->Err_0))
    } else if paid->Ok_0 == 0 {
        Some(Fault::Unauthorized)
    } else if !dao.proposals.contains(prop_id) {
        Some(Fault::Std(StdFault::NotFound { kind: proposal_kind() }))
    } else {
        let p = dao.proposals.value(prop_id);
        if p.status != Status::Pending {
            Some(
                Fault::InvalidProposalStatus {
                    current: status_text(p.status),
                    desired: status_text(Status::Pending),
                },
            )
        } else if expired_at(p.deposit_ends_at, block.height, block.time) {
            Some(Fault::Expired)
        } else {
            None
        }
    }
}

/// The payment completes the deposit of the proposal, which opens the
/// voting and takes the staked supply of the moment.
pub open spec fn completes_deposit(dao: &Dao, funds: Seq<Coin>, prop_id: u64) -> bool {
    let p = dao.proposals.value(prop_id);
    p.total_deposit + payment(funds, dao.gov_token@)->Ok_0 >= p.deposit_base_amount
}

/// Why a deposit cannot be made, if it cannot.
pub open spec fn deposit_fault(
    dao: &Dao,
    block: &BlockInfo,
    funds: Seq<Coin>,
    total_supply: u128,
    prop_id: u64,
) -> Option<Fault> {
    let entry = deposit_entry_fault(dao, block, funds, prop_id);
    if entry is Some {
        entry
    } else if completes_deposit(dao, funds, prop_id) {
        if total_supply == 0 {
            Some(Fault::LackOfStakes)
        } else if !reachable(block.height, block.time, dao.config.voting_period) {
            Some(Fault::Std(StdFault::Overflow))
        } else {
            None
        }
    } else {
        None
    }
}

/// The record of a pending proposal after `received` is paid towards its
/// deposit in `block`. Once the deposit is met the proposal opens: its
/// voting window starts, and the threshold and the total weight of that
/// moment are frozen into it.
pub open spec fn deposited_into(
    p: ProposalView,
    dao: &Dao,
    block: &BlockInfo,
    received: u128,
    total_supply: u128,
) -> ProposalView {
    let total = (p.total_deposit + kept(p.total_deposit, p.deposit_base_amount, received)) as u128;
    if p.total_deposit + received >= p.deposit_base_amount {
        ProposalView {
            status: Status::Open,
            vote_starts_at: BlockTime { height: block.height, time: block.time },
            vote_ends_at: expiry_after(block.height, block.time, dao.config.voting_period),
            threshold: dao.config.threshold,
            total_weight: total_supply,
            total_deposit: total,
            ..p
        }
    } else {
        ProposalView { total_deposit: total, ..p }
    }
}

/// What a successful deposit answers.
pub open spec fn deposit_response(
    dao: &Dao,
    sender: Seq<char>,
    received: u128,
    prop_id: u64,
) -> ResponseView {
    let p = dao.proposals.value(prop_id);
    let kept = kept(p.total_deposit, p.deposit_base_amount, received);
    ResponseView {
        messages: overpay_refund(sender, dao.gov_token@, received, kept),
        attributes: seq![
            ("action"@, "deposit"@),
            ("denom"@, dao.gov_token@),
            ("amount"@, decimal_text(received as nat)),
            ("proposal_id"@, decimal_text(prop_id as nat)),
            (
                "result"@,
                if p.total_deposit + received >= p.deposit_base_amount {
                    "open"@
                } else {
                    "pending"@
                },
            ),
        ],
    }
}

/// What is paid with a deposit and the proposal it goes to, once
/// everything is checked that a deposit is refused for whatever the staked
/// supply may be.
fn deposit_entry(dao: &Dao, block: &BlockInfo, funds: &Vec<Coin>, prop_id: u64) -> (r: Result<
    (u128, Proposal),
    ContractError,
>)
    requires
        dao.wf(),
    ensures
        match r {
            Ok((received, prop)) => {
                &&& deposit_entry_fault(dao, block, funds@, prop_id) is None
                &&& payment(funds@, dao.gov_token@) == Ok::<u128, crate::error::PaymentFault>(
                    received,
                )
                &&& prop@ == dao.proposals.value(prop_id)@
            },
            Err(e) => deposit_entry_fault(dao, block, funds@, prop_id) == Some(e@),
        },
{
    match check_paused(dao, block) {
        Ok(_) => {},
        Err(e) => {
            return Err(e);
        },
    }
    let received = match funds_paid(funds, &dao.gov_token) {
        Ok(amount) => amount,
        Err(e) => {
            return Err(ContractError::Payment(e));
        },
    };
    if received == 0 {
        return Err(ContractError::Unauthorized);
    }
    let prop = match dao.proposals.get(&prop_id) {
        Some(p) => p.duplicate(),
        None => {
            return Err(ContractError::Std(StdError::not_found("ion_dao::proposal::Proposal")));
        },
    };
    match check_status(&prop.status, Status::Pending) {
        Ok(_) => {},
        Err(e) => {
            return Err(e);
        },
    }
    if prop.deposit_ends_at.is_expired(block) {
        return Err(ContractError::Expired);
    }
    Ok((received, prop))
}

/// Whether a deposit needs the staked supply: it does when it completes the
/// deposit of its proposal. A deposit that is refused whatever the supply
/// may be is refused here in the same way, and one that leaves the proposal
/// pending goes through with any supply.
pub fn deposit_needs_supply(dao: &Dao, block: &BlockInfo, funds: &Vec<Coin>, prop_id: u64) -> (r:
    Result<bool, ContractError>)
    requires
        dao.wf(),
    ensures
        match r {
            Ok(needed) => {
                &&& deposit_entry_fault(dao, block, funds@, prop_id) is None
                &&& needed == completes_deposit(dao, funds@, prop_id)
                &&& !needed ==> forall|total_supply: u128| #[trigger]
                    deposit_fault(dao, block, funds@, total_supply, prop_id) is None
            },
            Err(e) => {
                &&& deposit_entry_fault(dao, block, funds@, prop_id) == Some(e@)
                &&& forall|total_supply: u128| #[trigger]
                    deposit_fault(dao, block, funds@, total_supply, prop_id) == Some(e@)
            },
        },
{
    match deposit_entry(dao, block, funds, prop_id) {
        Ok((received, prop)) => {
            let (retained, _gap) = deposit_gate(
                prop.total_deposit,
                prop.deposit_base_amount,
                received,
            );
            Ok(prop.total_deposit + retained >= prop.deposit_base_amount)
        },
        Err(e) => Err(e),
    }
}

/// Pays towards the deposit of a pending proposal whose deposit window is
/// still running. Once the deposit is met the proposal opens for voting, and
/// what is paid beyond the deposit goes back to the sender.
pub fn deposit(
    dao: &mut Dao,
    block: &BlockInfo,
    sender: &String,
    funds: &Vec<Coin>,
    total_supply: u128,
    prop_id: u64,
) -> (r: Result<Response, ContractError>)
    requires
        old(dao).inv(),
    ensures
        final(dao).inv(),
        match r {
            Ok(resp) => {
                let received = payment(funds@, old(dao).gov_token@)->Ok_0;
                let p = old(dao).proposals.value(prop_id);
                let kept = kept(p.total_deposit, p.deposit_base_amount, received);
                let k = (prop_id, sender@);
                let before = if old(dao).deposits.contains(k) {
                    old(dao).deposits.value(k)
                } else {
                    Deposit { amount: 0, claimed: false }
                };
                &&& deposit_fault(old(dao), block, funds@, total_supply, prop_id) is None
                &&& p.total_deposit + kept <= p.deposit_base_amount
                &&& final(dao).proposals.contains(prop_id)
                &&& final(dao).proposals.value(prop_id)@ == deposited_into(
                    p@,
                    old(dao),
                    block,
                    received,
                    total_supply,
                )
                &&& final(dao).proposals.key_seq() == old(dao).proposals.key_seq()
                &&& final(dao).same_proposals_but(old(dao), prop_id)
                &&& final(dao).same_settings(old(dao))
                &&& final(dao).proposal_count == old(dao).proposal_count
                &&& final(dao).ballots == old(dao).ballots
                &&& final(dao).deposits.contains(k)
                &&& before.amount + kept <= u128::MAX
                &&& final(dao).deposits.value(k) == (Deposit {
                    amount: (before.amount + kept) as u128,
                    claimed: before.claimed,
                })
                &&& forall|k2: (u64, Seq<char>)|
                    k2 != k ==> (#[trigger] final(dao).deposits.contains(k2)
                        <==> old(dao).deposits.contains(k2))
                &&& forall|k2: (u64, Seq<char>)|
                    k2 != k && old(dao).deposits.contains(k2)
                        ==> #[trigger] final(dao).deposits.value(k2) == old(dao).deposits.value(k2)
                &&& resp@ == deposit_response(old(dao), sender@, received, prop_id)
            },
            Err(e) => {
                &&& deposit_fault(old(dao), block, funds@, total_supply, prop_id) == Some(e@)
                &&& *final(dao) == *old(dao)
            },
        },
{
    let (received, mut prop) = match deposit_entry(dao, block, funds, prop_id) {
        Ok(entry) => entry,
        Err(e) => {
            return Err(e);
        },
    };
    let (retained, gap) = deposit_gate(prop.total_deposit, prop.deposit_base_amount, received);
    let total: u128 = prop.total_deposit + retained;
    let opens = total >= prop.deposit_base_amount;
    if opens {
        if total_supply == 0 {
            return Err(ContractError::LackOfStakes);
        }
        if !dao.config.voting_period.fits_after(block.height, block.time) {
            return Err(ContractError::Std(StdError::Overflow));
        }
    }
    proof {
        assert(old(dao).sound(prop_id));
        if dao.deposits.contains((prop_id, sender@)) {
            dao.lemma_deposit_within_total(prop_id, sender@);
        }
    }
    match create_deposit(dao, prop_id, sender, &retained) {
        Ok(_) => {},
        Err(e) => {
            return Err(ContractError::Std(e));
        },
    }
    let ghost funded = *dao;
    let mut resp = Response::new();
    if gap > 0 {
        resp = resp.add_message(
            Dispatch::Send {
                to_address: copy_text(sender),
                denom: copy_text(&dao.gov_token),
                amount: gap,
            },
        );
    }
    resp = resp.add_attribute("action", "deposit".to_owned()).add_attribute(
        "denom",
        copy_text(&dao.gov_token),
    ).add_attribute("amount", u128_to_string(received)).add_attribute(
        "proposal_id",
        u64_to_string(prop_id),
    );
    prop.total_deposit = total;
    if opens {
        prop.threshold = dao.config.threshold;
        prop.total_weight = total_supply;
        match update_proposal_status(dao, prop_id, &mut prop, Status::Open) {
            Ok(_) => {},
            Err(e) => {
                return Err(ContractError::Std(e));
            },
        }
        prop.activate_voting_period(BlockTime::of(block), &dao.config.voting_period);
        store_proposal(dao, prop_id, prop);
        resp = resp.add_attribute("result", "open".to_owned());
    } else {
        store_proposal(dao, prop_id, prop);
        resp = resp.add_attribute("result", "pending".to_owned());
    }
    proof {
        assert forall|id2: u64| #[trigger] dao.proposals.contains(id2) implies dao.sound(id2) by {
            assert(old(dao).proposals.contains(id2));
            assert(old(dao).sound(id2));
            assert(dao.deposited_on(id2) == funded.deposited_on(id2));
            assert(dao.cast_on(id2, Vote::Yes) == old(dao).cast_on(id2, Vote::Yes));
            if id2 != prop_id {
                assert(dao.proposals.value(id2) == old(dao).proposals.value(id2));
            }
        }
        assert forall|id2: u64, a: Seq<char>| #[trigger]
            dao.deposits.contains((id2, a)) implies dao.proposals.contains(id2) by {
            if (id2, a) != (prop_id, sender@) {
                assert(funded.deposits.contains((id2, a)));
                assert(old(dao).deposits.contains((id2, a)));
                assert(old(dao).proposals.contains(id2));
            }
        }
        assert forall|id2: u64, a: Seq<char>| #[trigger]
            dao.ballots.contains((id2, a)) implies dao.proposals.contains(id2) by {
            assert(old(dao).ballots.contains((id2, a)));
            assert(old(dao).proposals.contains(id2));
        }
        assert(resp@.attributes =~= deposit_response(
            old(dao),
            sender@,
            received,
            prop_id,
        ).attributes);
        assert(resp@.messages =~= deposit_response(old(dao), sender@, received, prop_id).messages);
    }
    Ok(resp)
}

/// The tally after a voter casts `power` for `vote`: an earlier ballot of the
/// same voter is taken out first.
pub open spec fn recast(votes: Votes, prior: Option<Ballot>, vote: Vote, power: u128) -> Votes {
    let base = match prior {
        Some(b) => with_bucket(votes, b.vote, (bucket_of(votes, b.vote) - b.weight) as u128),
        None => votes,
    };
    with_bucket(base, vote, (bucket_of(base, vote) + power) as u128)
}

/// The weight of an earlier ballot, if there is one.
pub open spec fn prior_weight(prior: Option<Ballot>) -> u128 {
    match prior {
        Some(b) => b.weight,
        None => 0,
    }
}

/// The ballot that `voter` has cast on proposal `prop_id`, if any.
pub open spec fn ballot_of(dao: &Dao, prop_id: u64, voter: Seq<char>) -> Option<Ballot> {
    if dao.ballots.contains((prop_id, voter)) {
        Some(dao.ballots.value((prop_id, voter)))
    } else {
        None
    }
}

/// Voting again moves a voter's weight, it does not add to it: the total
/// changes by the new weight less the earlier one.
pub proof fn lemma_recast_total(votes: Votes, prior: Option<Ballot>, vote: Vote, power: u128)
    requires
        prior matches Some(b) ==> bucket_of(votes, b.vote) >= b.weight,
        total_of(votes) - prior_weight(prior) + power <= u128::MAX,
    ensures
        total_of(recast(votes, prior, vote, power)) == total_of(votes) - prior_weight(prior)
            + power,
{
}

/// Why a proposal cannot be voted on, as far as this depends on the proposal
/// and the block alone.
pub open spec fn ballot_box_fault(dao: &Dao, block: &BlockInfo, prop_id: u64) -> Option<Fault> {
    if is_paused(dao.paused, block.height, block.time) {
        Some(Fault::Paused)
    } else if !dao.proposals.contains(prop_id) {
        Some(Fault::Std(StdFault::NotFound { kind: proposal_kind() }))
    } else {
        let p = dao.proposals.value(prop_id);
        if p.status != Status::Open {
            Some(
                Fault::InvalidProposalStatus {
                    current: status_text(p.status),
                    desired: status_text(Status::Open),
                },
            )
        } else if expired_at(p.vote_ends_at, block.height, block.time) {
            Some(Fault::Expired)
        } else {
            None
        }
    }
}

/// Why a vote cannot be cast, if it cannot.
pub open spec fn vote_fault(
    dao: &Dao,
    block: &BlockInfo,
    sender: Seq<char>,
    vote_power: u128,
    prop_id: u64,
) -> Option<Fault> {
    if ballot_box_fault(dao, block, prop_id) is Some {
        ballot_box_fault(dao, block, prop_id)
    } else if vote_power == 0 {
        Some(Fault::Unauthorized)
    } else if total_of(dao.proposals.value(prop_id).votes) - prior_weight(
        ballot_of(dao, prop_id, sender),
    ) + vote_power > u128::MAX {
        Some(Fault::Std(StdFault::Overflow))
    } else {
        None
    }
}

/// What a successful vote answers.
pub open spec fn vote_response(sender: Seq<char>, prop_id: u64, vote: Vote) -> ResponseView {
    ResponseView {
        messages: Seq::empty(),
        attributes: seq![
            ("action"@, "vote"@),
            ("sender"@, sender),
            ("vote"@, vote_text(vote)),
            ("proposal_id"@, decimal_text(prop_id as nat)),
        ],
    }
}

/// The height at which the weights of the voters of an open proposal are
/// read: the height at which its voting opened.
pub fn voting_height(dao: &Dao, block: &BlockInfo, prop_id: u64) -> (r: Result<u64, ContractError>)
    requires
        dao.wf(),
    ensures
        match r {
            Ok(h) => ballot_box_fault(dao, block, prop_id) is None && h == dao.proposals.value(
                prop_id,
            ).vote_starts_at.height,
            Err(e) => ballot_box_fault(dao, block, prop_id) == Some(e@),
        },
{
    match check_paused(dao, block) {
        Ok(_) => {},
        Err(e) => {
            return Err(e);
        },
    }
    let prop = match dao.proposals.get(&prop_id) {
        Some(p) => p,
        None => {
            return Err(ContractError::Std(StdError::not_found("ion_dao::proposal::Proposal")));
        },
    };
    match check_status(&prop.status, Status::Open) {
        Ok(_) => {},
        Err(e) => {
            return Err(e);
        },
    }
    if prop.vote_ends_at.is_expired(block) {
        return Err(ContractError::Expired);
    }
    Ok(prop.vote_starts_at.height)
}

/// Casts the vote of `sender` on an open proposal whose voting window is
/// still running, with the weight `vote_power` that the sender had when the
/// voting opened. A voter without weight is refused. A voter who has voted
/// before changes the vote: the earlier ballot is taken out of the tally
/// before the new one is counted.
pub fn vote(
    dao: &mut Dao,
    block: &BlockInfo,
    sender: &String,
    vote_power: u128,
    prop_id: u64,
    choice: Vote,
) -> (r: Result<Response, ContractError>)
    requires
        old(dao).inv(),
    ensures
        final(dao).inv(),
        match r {
            Ok(resp) => {
                let p = old(dao).proposals.value(prop_id);
                let prior = ballot_of(old(dao), prop_id, sender@);
                let k = (prop_id, sender@);
                &&& vote_fault(old(dao), block, sender@, vote_power, prop_id) is None
                &&& prior matches Some(b) ==> bucket_of(p.votes, b.vote) >= b.weight
                &&& total_of(p.votes) - prior_weight(prior) + vote_power <= u128::MAX
                &&& final(dao).proposals.contains(prop_id)
                &&& final(dao).proposals.value(prop_id)@ == (ProposalView {
                    votes: recast(p.votes, prior, choice, vote_power),
                    ..p@
                })
                &&& total_of(final(dao).proposals.value(prop_id).votes) == total_of(p.votes)
                    - prior_weight(prior) + vote_power
                &&& final(dao).proposals.key_seq() == old(dao).proposals.key_seq()
                &&& final(dao).same_proposals_but(old(dao), prop_id)
                &&& final(dao).same_settings(old(dao))
                &&& final(dao).proposal_count == old(dao).proposal_count
                &&& final(dao).deposits == old(dao).deposits
                &&& final(dao).ballots.contains(k)
                &&& final(dao).ballots.value(k) == (Ballot { weight: vote_power, vote: choice })
                &&& forall|k2: (u64, Seq<char>)|
                    k2 != k ==> (#[trigger] final(dao).ballots.contains(k2)
                        <==> old(dao).ballots.contains(k2))
                &&& forall|k2: (u64, Seq<char>)|
                    k2 != k && old(dao).ballots.contains(k2)
                        ==> #[trigger] final(dao).ballots.value(k2) == old(dao).ballots.value(k2)
                &&& resp@ == vote_response(sender@, prop_id, choice)
            },
            Err(e) => {
                &&& vote_fault(old(dao), block, sender@, vote_power, prop_id) == Some(e@)
                &&& *final(dao) == *old(dao)
            },
        },
{
    match check_paused(dao, block) {
        Ok(_) => {},
        Err(e) => {
            return Err(e);
        },
    }
    let mut prop = match dao.proposals.get(&prop_id) {
        Some(p) => p.duplicate(),
        None => {
            return Err(ContractError::Std(StdError::not_found("ion_dao::proposal::Proposal")));
        },
    };
    match check_status(&prop.status, Status::Open) {
        Ok(_) => {},
        Err(e) => {
            return Err(e);
        },
    }
    if prop.vote_ends_at.is_expired(block) {
        return Err(ContractError::Expired);
    }
    if vote_power == 0 {
        return Err(ContractError::Unauthorized);
    }
    let key = (prop_id, copy_text(sender));
    let prior: Option<Ballot> = match dao.ballots.get(&key) {
        Some(b) => Some(*b),
        None => None,
    };
    proof {
        assert(old(dao).sound(prop_id));
        if prior is Some {
            dao.lemma_ballot_within_tally(prop_id, sender@);
        }
    }
    let earlier = match prior {
        Some(b) => b.weight,
        None => 0,
    };
    let total = prop.votes.total();
    if vote_power > u128::MAX - (total - earlier) {
        return Err(ContractError::Std(StdError::Overflow));
    }
    if let Some(ballot) = prior {
        prop.votes.revoke(ballot.vote, ballot.weight);
    }
    prop.votes.submit(choice, vote_power);
    save_ballot(dao, prop_id, sender, Ballot { weight: vote_power, vote: choice });
    let ghost polled = *dao;
    store_proposal(dao, prop_id, prop);
    proof {
        assert forall|id2: u64| #[trigger] dao.proposals.contains(id2) implies dao.sound(id2) by {
            assert(old(dao).proposals.contains(id2));
            assert(old(dao).sound(id2));
            assert(dao.cast_on(id2, Vote::Yes) == polled.cast_on(id2, Vote::Yes));
            assert(dao.cast_on(id2, Vote::No) == polled.cast_on(id2, Vote::No));
            assert(dao.cast_on(id2, Vote::Abstain) == polled.cast_on(id2, Vote::Abstain));
            assert(dao.cast_on(id2, Vote::Veto) == polled.cast_on(id2, Vote::Veto));
            assert(dao.deposited_on(id2) == old(dao).deposited_on(id2));
            if id2 != prop_id {
                assert(dao.proposals.value(id2) == old(dao).proposals.value(id2));
            }
        }
        assert forall|id2: u64, a: Seq<char>| #[trigger]
            dao.ballots.contains((id2, a)) implies dao.proposals.contains(id2) by {
            if (id2, a) != (prop_id, sender@) {
                assert(polled.ballots.contains((id2, a)));
                assert(old(dao).ballots.contains((id2, a)));
                assert(old(dao).proposals.contains(id2));
            }
        }
        assert forall|id2: u64, a: Seq<char>| #[trigger]
            dao.deposits.contains((id2, a)) implies dao.proposals.contains(id2) by {
            assert(old(dao).deposits.contains((id2, a)));
            assert(old(dao).proposals.contains(id2));
        }
    }
    let resp = Response::new().add_attribute("action", "vote".to_owned()).add_attribute(
        "sender",
        copy_text(sender),
    ).add_attribute("vote", choice.name()).add_attribute("proposal_id", u64_to_string(prop_id));
    proof {
        assert(resp@.attributes =~= vote_response(sender@, prop_id, choice).attributes);
        assert(resp@.messages =~= vote_response(sender@, prop_id, choice).messages);
    }
    Ok(resp)
}

/// The payments that give back the deposits on proposal `id` that have not
/// been claimed, in the order of the first `upto` entries of the ledger.
/// Empty deposits are passed over.
pub open spec fn refunds_upto(
    keys: Seq<(u64, Seq<char>)>,
    vals: Seq<Deposit>,
    id: u64,
    denom: Seq<char>,
    upto: int,
) -> Seq<DispatchView>
    decreases upto,
{
    if upto <= 0 {
        Seq::empty()
    } else {
        let rest = refunds_upto(keys, vals, id, denom, upto - 1);
        let k = keys[upto - 1];
        let d = vals[upto - 1];
        if k.0 == id && !d.claimed && d.amount > 0 {
            rest.push(DispatchView::Send { to_address: k.1, denom, amount: d.amount })
        } else {
            rest
        }
    }
}

/// The payments that give back every unclaimed deposit on proposal `id`.
pub open spec fn refunds_of(dao: &Dao, id: u64) -> Seq<DispatchView> {
    refunds_upto(
        dao.deposits.key_seq(),
        dao.deposits.val_seq(),
        id,
        dao.gov_token@,
        dao.deposits.count() as int,
    )
}

/// The deposits with those on proposal `id` marked as claimed.
pub open spec fn settled(keys: Seq<(u64, Seq<char>)>, vals: Seq<Deposit>, id: u64) -> Seq<Deposit> {
    Seq::new(
        vals.len(),
        |i: int|
            if keys[i].0 == id {
                Deposit { amount: vals[i].amount, claimed: true }
            } else {
                vals[i]
            },
    )
}

/// Gives back every unclaimed deposit on proposal `prop_id`: each is marked
/// as claimed, and the payments to the depositors are returned.
pub fn refund_deposits(dao: &mut Dao, prop_id: u64) -> (r: Vec<Dispatch>)
    requires
        old(dao).wf(),
    ensures
        final(dao).wf(),
        r@.map_values(|d: Dispatch| d@) == refunds_of(old(dao), prop_id),
        final(dao).deposits.key_seq() == old(dao).deposits.key_seq(),
        final(dao).deposits.val_seq() == settled(
            old(dao).deposits.key_seq(),
            old(dao).deposits.val_seq(),
            prop_id,
        ),
        forall|id2: u64| #[trigger] final(dao).deposited_on(id2) == old(dao).deposited_on(id2),
        final(dao).same_settings(old(dao)),
        final(dao).same_records(old(dao)),
        final(dao).ballots == old(dao).ballots,
        final(dao).idx_deposits_by_depositor == old(dao).idx_deposits_by_depositor,
{
    let ghost keys = dao.deposits.key_seq();
    let ghost vals = dao.deposits.val_seq();
    let ghost denom = dao.gov_token@;
    let n = dao.deposits.len();
    let mut out: Vec<Dispatch> = Vec::new();
    let mut i: usize = 0;
    while i < n
        invariant
            i <= n,
            n == keys.len(),
            keys.len() == vals.len(),
            keys == old(dao).deposits.key_seq(),
            vals == old(dao).deposits.val_seq(),
            denom == old(dao).gov_token@,
            dao.deposits.wf(),
            dao.deposits.key_seq() == keys,
            dao.deposits.val_seq().len() == vals.len(),
            forall|j: int| 0 <= j < i ==> dao.deposits.val_seq()[j] == settled(keys, vals,
                prop_id)[j],
            forall|j: int| i <= j < n ==> dao.deposits.val_seq()[j] == vals[j],
            out@.map_values(|d: Dispatch| d@) == refunds_upto(keys, vals, prop_id, denom, i as int),
            dao.same_settings(old(dao)),
            dao.same_records(old(dao)),
            dao.ballots == old(dao).ballots,
            dao.idx_deposits_by_depositor == old(dao).idx_deposits_by_depositor,
        decreases n - i,
    {
        let ghost sent = out@.map_values(|d: Dispatch| d@);
        let entry = *dao.deposits.val_at(i);
        if dao.deposits.key_at(i).0 == prop_id {
            if !entry.claimed && entry.amount > 0 {
                let to_address = copy_text(&dao.deposits.key_at(i).1);
                let message = Dispatch::Send {
                    to_address,
                    denom: copy_text(&dao.gov_token),
                    amount: entry.amount,
                };
                out.push(message);
                assert(out@.map_values(|d: Dispatch| d@) =~= sent.push(message@));
            }
            dao.deposits.put_at(i, Deposit { amount: entry.amount, claimed: true });
        }
        i = i + 1;
    }
    proof {
        assert(dao.deposits.val_seq() =~= settled(keys, vals, prop_id));
        assert forall|id2: u64| #[trigger] dao.deposited_on(id2) == old(dao).deposited_on(id2) by {
            lemma_sum_same_terms(
                keys,
                vals,
                dao.deposits.val_seq(),
                deposit_amount(id2),
                keys.len() as int,
            );
        }
    }
    out
}

/// Why a proposal cannot be executed, if it cannot.
pub open spec fn execute_fault(dao: &Dao, block: &BlockInfo, prop_id: u64) -> Option<Fault> {
    if is_paused(dao.paused, block.height, block.time) {
        Some(Fault::Paused)
    } else if !dao.proposals.contains(prop_id) {
        Some(Fault::Std(StdFault::NotFound { kind: proposal_kind() }))
    } else {
        let p = dao.proposals.value(prop_id);
        if !expired_at(p.vote_ends_at, block.height, block.time) {
            Some(Fault::NotExpired)
        } else if status_at(p@, block.height, block.time) != Status::Passed {
            Some(
                Fault::InvalidProposalStatus {
                    current: status_text(status_at(p@, block.height, block.time)),
                    desired: status_text(Status::Passed),
                },
            )
        } else {
            None
        }
    }
}

/// What a successful execution answers: the actions of the proposal, in
/// their order, and nothing else to dispatch.
pub open spec fn execute_response(dao: &Dao, sender: Seq<char>, prop_id: u64) -> ResponseView {
    ResponseView {
        messages: actions_of(dao.proposals.value(prop_id).msgs@),
        attributes: seq![
            ("action"@, "execute"@),
            ("sender"@, sender),
            ("proposal_id"@, decimal_text(prop_id as nat)),
        ],
    }
}

/// Executes a proposal whose voting window has closed and whose vote has
/// passed: the proposal becomes executed, its deposits become due back for
/// the depositors to claim, and its actions are handed out for dispatch.
pub fn execute(dao: &mut Dao, block: &BlockInfo, sender: &String, prop_id: u64) -> (r: Result<
    Response,
    ContractError,
>)
    requires
        old(dao).inv(),
    ensures
        final(dao).inv(),
        match r {
            Ok(resp) => {
                let p = old(dao).proposals.value(prop_id);
                &&& execute_fault(old(dao), block, prop_id) is None
                &&& final(dao).proposals.contains(prop_id)
                &&& final(dao).proposals.value(prop_id)@ == (ProposalView {
                    status: Status::Executed,
                    deposit_claimable: true,
                    ..p@
                })
                &&& final(dao).proposals.key_seq() == old(dao).proposals.key_seq()
                &&& final(dao).same_proposals_but(old(dao), prop_id)
                &&& final(dao).same_settings(old(dao))
                &&& final(dao).proposal_count == old(dao).proposal_count
                &&& final(dao).same_ledgers(old(dao))
                &&& resp@ == execute_response(old(dao), sender@, prop_id)
            },
            Err(e) => {
                &&& execute_fault(old(dao), block, prop_id) == Some(e@)
                &&& *final(dao) == *old(dao)
            },
        },
{
    match check_paused(dao, block) {
        Ok(_) => {},
        Err(e) => {
            return Err(e);
        },
    }
    let mut prop = match dao.proposals.get(&prop_id) {
        Some(p) => p.duplicate(),
        None => {
            return Err(ContractError::Std(StdError::not_found("ion_dao::proposal::Proposal")));
        },
    };
    if !prop.vote_ends_at.is_expired(block) {
        return Err(ContractError::NotExpired);
    }
    proof {
        assert(old(dao).sound(prop_id));
    }
    match check_status(&prop.current_status(block), Status::Passed) {
        Ok(_) => {},
        Err(e) => {
            return Err(e);
        },
    }
    match update_proposal_status(dao, prop_id, &mut prop, Status::Executed) {
        Ok(_) => {},
        Err(e) => {
            return Err(ContractError::Std(e));
        },
    }
    match make_deposit_claimable(dao, prop_id, &mut prop) {
        Ok(_) => {},
        Err(e) => {
            return Err(ContractError::Std(e));
        },
    }
    prop.update_status(block);
    proof {
        let ghost marked = *dao;
        lemma_inv_after_settlement(old(dao), &marked, dao, prop_id);
    }
    let resp = Response::new().add_actions(prop.msgs).add_attribute(
        "action",
        "execute".to_owned(),
    ).add_attribute("sender", copy_text(sender)).add_attribute(
        "proposal_id",
        u64_to_string(prop_id),
    );
    proof {
        assert(resp@.attributes =~= execute_response(old(dao), sender@, prop_id).attributes);
        assert(resp@.messages =~= execute_response(old(dao), sender@, prop_id).messages);
    }
    Ok(resp)
}

/// The invariant carries over from `pre` to `post` when the proposals differ
/// in the status and the claimable flag of one record only, which is now
/// rejected or executed, the ballots are the same and every proposal has as
/// much deposited as before.
pub proof fn lemma_inv_after_settlement(pre: &Dao, mid: &Dao, post: &Dao, prop_id: u64)
    requires
        pre.inv(),
        post.wf(),
        pre.proposals.contains(prop_id),
        mid.proposals.contains(prop_id),
        mid.proposals.key_seq() == pre.proposals.key_seq(),
        mid.same_proposals_but(pre, prop_id),
        mid.proposals.value(prop_id)@ == (ProposalView {
            status: mid.proposals.value(prop_id).status,
            deposit_claimable: mid.proposals.value(prop_id).deposit_claimable,
            ..pre.proposals.value(prop_id)@
        }),
        mid.proposals.value(prop_id).status == Status::Rejected || mid.proposals.value(
            prop_id,
        ).status == Status::Executed,
        post.proposals == mid.proposals,
        post.config == pre.config,
        post.ballots == pre.ballots,
        post.deposits.key_seq() == pre.deposits.key_seq(),
        forall|id2: u64| #[trigger] post.deposited_on(id2) == pre.deposited_on(id2),
    ensures
        post.inv(),
{
    assert forall|id2: u64| #[trigger] post.proposals.contains(id2) implies post.sound(id2) by {
        assert(pre.proposals.contains(id2)) by {
            assert(mid.proposals.contains(id2));
        }
        assert(pre.sound(id2));
        assert(post.deposited_on(id2) == pre.deposited_on(id2));
        assert(post.cast_on(id2, Vote::Yes) == pre.cast_on(id2, Vote::Yes));
        if id2 != prop_id {
            assert(mid.proposals.value(id2) == pre.proposals.value(id2));
        }
    }
    assert forall|id2: u64, a: Seq<char>| #[trigger]
        post.ballots.contains((id2, a)) implies post.proposals.contains(id2) by {
        assert(pre.ballots.contains((id2, a)));
        assert(pre.proposals.contains(id2));
        assert(mid.proposals.contains(id2));
    }
    assert forall|id2: u64, a: Seq<char>| #[trigger]
        post.deposits.contains((id2, a)) implies post.proposals.contains(id2) by {
        assert(pre.deposits.contains((id2, a)));
        assert(pre.proposals.contains(id2));
        assert(mid.proposals.contains(id2));
    }
}

/// What close asks of a status other than pending and open.
pub open spec fn closable_text() -> Seq<char> {
    "pending | open"@
}

/// Why a proposal cannot be closed, if it cannot.
pub open spec fn close_fault(dao: &Dao, block: &BlockInfo, prop_id: u64) -> Option<Fault> {
    if is_paused(dao.paused, block.height, block.time) {
        Some(Fault::Paused)
    } else if !dao.proposals.contains(prop_id) {
        Some(Fault::Std(StdFault::NotFound { kind: proposal_kind() }))
    } else {
        let p = dao.proposals.value(prop_id);
        let window = match p.status {
            Status::Pending => Some(p.deposit_ends_at),
            Status::Open => Some(p.vote_ends_at),
            _ => None,
        };
        if window is None {
            Some(
                Fault::InvalidProposalStatus {
                    current: status_text(p.status),
                    desired: closable_text(),
                },
            )
        } else if !expired_at(window->Some_0, block.height, block.time) {
            Some(Fault::NotExpired)
        } else if status_at(p@, block.height, block.time) != Status::Rejected {
            Some(
                Fault::InvalidProposalStatus {
                    current: status_text(status_at(p@, block.height, block.time)),
                    desired: status_text(Status::Rejected),
                },
            )
        } else {
            None
        }
    }
}

/// Whether closing a proposal gives its deposits back: it does when the
/// vote was held and failed without a veto. A proposal that never met its
/// deposit, and one that was vetoed, forfeit theirs.
pub open spec fn close_refunds(p: ProposalView) -> bool {
    p.status == Status::Open && !vetoed(p.votes, p.total_weight, p.threshold)
}

/// What a successful close answers.
pub open spec fn close_response(dao: &Dao, sender: Seq<char>, prop_id: u64) -> ResponseView {
    let refund = close_refunds(dao.proposals.value(prop_id)@);
    ResponseView {
        messages: if refund {
            refunds_of(dao, prop_id)
        } else {
            Seq::empty()
        },
        attributes: seq![
            ("action"@, "close"@),
            ("sender"@, sender),
            ("proposal_id"@, decimal_text(prop_id as nat)),
            (
                "result"@,
                if refund {
                    "refund"@
                } else {
                    "confiscate"@
                },
            ),
        ],
    }
}

/// Closes a proposal that has failed: a pending one whose deposit window has
/// closed without the deposit being met, or an open one whose voting window
/// has closed without the vote passing. The proposal becomes rejected. The
/// deposits of a failed vote go back to the depositors unless the proposal
/// was vetoed; in every other case they are kept.
pub fn close(dao: &mut Dao, block: &BlockInfo, sender: &String, prop_id: u64) -> (r: Result<
    Response,
    ContractError,
>)
    requires
        old(dao).inv(),
    ensures
        final(dao).inv(),
        match r {
            Ok(resp) => {
                let p = old(dao).proposals.value(prop_id);
                let refund = close_refunds(p@);
                &&& close_fault(old(dao), block, prop_id) is None
                &&& final(dao).proposals.contains(prop_id)
                &&& final(dao).proposals.value(prop_id)@ == (ProposalView {
                    status: Status::Rejected,
                    deposit_claimable: refund,
                    ..p@
                })
                &&& final(dao).proposals.key_seq() == old(dao).proposals.key_seq()
                &&& final(dao).same_proposals_but(old(dao), prop_id)
                &&& final(dao).same_settings(old(dao))
                &&& final(dao).proposal_count == old(dao).proposal_count
                &&& final(dao).ballots == old(dao).ballots
                &&& final(dao).deposits.key_seq() == old(dao).deposits.key_seq()
                &&& final(dao).deposits.val_seq() == (if refund {
                    settled(old(dao).deposits.key_seq(), old(dao).deposits.val_seq(), prop_id)
                } else {
                    old(dao).deposits.val_seq()
                })
                &&& resp@ == close_response(old(dao), sender@, prop_id)
            },
            Err(e) => {
                &&& close_fault(old(dao), block, prop_id) == Some(e@)
                &&& *final(dao) == *old(dao)
            },
        },
{
    match check_paused(dao, block) {
        Ok(_) => {},
        Err(e) => {
            return Err(e);
        },
    }
    let mut prop = match dao.proposals.get(&prop_id) {
        Some(p) => p.duplicate(),
        None => {
            return Err(ContractError::Std(StdError::not_found("ion_dao::proposal::Proposal")));
        },
    };
    match prop.status {
        Status::Pending => {
            if !prop.deposit_ends_at.is_expired(block) {
                return Err(ContractError::NotExpired);
            }
        },
        Status::Open => {
            if !prop.vote_ends_at.is_expired(block) {
                return Err(ContractError::NotExpired);
            }
        },
        _ => {
            return Err(
                ContractError::InvalidProposalStatus {
                    current: prop.status.name(),
                    desired: "pending | open".to_owned(),
                },
            );
        },
    }
    proof {
        assert(old(dao).sound(prop_id));
    }
    let prev_status = prop.status;
    match check_status(&prop.current_status(block), Status::Rejected) {
        Ok(_) => {},
        Err(e) => {
            return Err(e);
        },
    }
    match update_proposal_status(dao, prop_id, &mut prop, Status::Rejected) {
        Ok(_) => {},
        Err(e) => {
            return Err(ContractError::Std(e));
        },
    }
    prop.update_status(block);
    let mut resp = Response::new();
    let refund = prev_status == Status::Open && !prop.is_vetoed();
    if refund {
        match make_deposit_claimable(dao, prop_id, &mut prop) {
            Ok(_) => {},
            Err(e) => {
                return Err(ContractError::Std(e));
            },
        }
        let ghost marked = *dao;
        let refunds = refund_deposits(dao, prop_id);
        proof {
            lemma_inv_after_settlement(old(dao), &marked, dao, prop_id);
        }
        resp = Response { messages: refunds, attributes: Vec::new() };
        proof {
            assert(resp@.attributes =~= Seq::<(Seq<char>, Seq<char>)>::empty());
        }
    } else {
        proof {
            let ghost marked = *dao;
            lemma_inv_after_settlement(old(dao), &marked, dao, prop_id);
        }
    }
    resp = resp.add_attribute("action", "close".to_owned()).add_attribute(
        "sender",
        copy_text(sender),
    ).add_attribute("proposal_id", u64_to_string(prop_id));
    if refund {
        resp = resp.add_attribute("result", "refund".to_owned());
    } else {
        resp = resp.add_attribute("result", "confiscate".to_owned());
    }
    proof {
        assert(resp@.attributes =~= close_response(old(dao), sender@, prop_id).attributes);
    }
    Ok(resp)
}

/// Why a deposit cannot be claimed, if it cannot.
pub open spec fn claim_fault(dao: &Dao, block: &BlockInfo, sender: Seq<char>,
    prop_id: u64) -> Option<
    Fault,
> {
    if is_paused(dao.paused, block.height, block.time) {
        Some(Fault::Paused)
    } else if !dao.proposals.contains(prop_id) {
        Some(Fault::Std(StdFault::NotFound { kind: proposal_kind() }))
    } else if !dao.proposals.value(prop_id).deposit_claimable {
        Some(Fault::DepositNotClaimable)
    } else if !dao.deposits.contains((prop_id, sender)) {
        Some(Fault::Std(StdFault::NotFound { kind: deposit_kind() }))
    } else if dao.deposits.value((prop_id, sender)).claimed {
        Some(Fault::DepositAlreadyClaimed)
    } else {
        None
    }
}

/// What a successful claim answers.
pub open spec fn claim_response(dao: &Dao, sender: Seq<char>, prop_id: u64) -> ResponseView {
    let amount = dao.deposits.value((prop_id, sender)).amount;
    ResponseView {
        messages: seq![DispatchView::Send { to_address: sender, denom: dao.gov_token@, amount }],
        attributes: seq![
            ("action"@, "claim_deposit"@),
            ("sender"@, sender),
            ("proposal_id"@, decimal_text(prop_id as nat)),
            ("amount"@, decimal_text(amount as nat)),
        ],
    }
}

/// Pays the deposit of `sender` on proposal `prop_id` back, once the
/// deposits of the proposal are due back and unless it has been paid back
/// already.
pub fn claim_deposit(dao: &mut Dao, block: &BlockInfo, sender: &String, prop_id: u64) -> (r:
    Result<Response, ContractError>)
    requires
        old(dao).inv(),
    ensures
        final(dao).inv(),
        match r {
            Ok(resp) => {
                let k = (prop_id, sender@);
                &&& claim_fault(old(dao), block, sender@, prop_id) is None
                &&& final(dao).same_settings(old(dao))
                &&& final(dao).same_records(old(dao))
                &&& final(dao).ballots == old(dao).ballots
                &&& final(dao).deposits.key_seq() == old(dao).deposits.key_seq()
                &&& final(dao).deposits.value(k) == (Deposit {
                    amount: old(dao).deposits.value(k).amount,
                    claimed: true,
                })
                &&& forall|k2: (u64, Seq<char>)|
                    k2 != k && old(dao).deposits.contains(k2)
                        ==> #[trigger] final(dao).deposits.value(k2) == old(dao).deposits.value(k2)
                &&& resp@ == claim_response(old(dao), sender@, prop_id)
            },
            Err(e) => {
                &&& claim_fault(old(dao), block, sender@, prop_id) == Some(e@)
                &&& *final(dao) == *old(dao)
            },
        },
{
    match check_paused(dao, block) {
        Ok(_) => {},
        Err(e) => {
            return Err(e);
        },
    }
    let claimable = match dao.proposals.get(&prop_id) {
        Some(p) => p.deposit_claimable,
        None => {
            return Err(ContractError::Std(StdError::not_found("ion_dao::proposal::Proposal")));
        },
    };
    if !claimable {
        return Err(ContractError::DepositNotClaimable);
    }
    let key = (prop_id, copy_text(sender));
    let (at, found) = dao.deposits.locate(&key);
    if !found {
        return Err(ContractError::Std(StdError::not_found("ion_dao::state::Deposit")));
    }
    let entry = *dao.deposits.val_at(at);
    if entry.claimed {
        return Err(ContractError::DepositAlreadyClaimed);
    }
    let paid = Deposit { amount: entry.amount, claimed: true };
    dao.deposits.put_at(at, paid);
    proof {
        let keys = old(dao).deposits.key_seq();
        let vals = old(dao).deposits.val_seq();
        old(dao).deposits.lemma_position(at as int);
        dao.deposits.lemma_position(at as int);
        assert forall|k2: (u64, Seq<char>)|
            k2 != (prop_id, sender@) && old(dao).deposits.contains(
                k2,
            ) implies #[trigger] dao.deposits.value(k2) == old(dao).deposits.value(k2) by {
            let j = old(dao).deposits.index_of(k2);
            assert(j != at);
        }
        assert forall|id2: u64| #[trigger] dao.deposited_on(id2) == old(dao).deposited_on(id2) by {
            lemma_sum_update(keys, vals, deposit_amount(id2), at as int, paid);
        }
        assert forall|id2: u64| #[trigger] dao.proposals.contains(id2) implies dao.sound(id2) by {
            assert(old(dao).sound(id2));
            assert(dao.deposited_on(id2) == old(dao).deposited_on(id2));
        }
        assert forall|id2: u64, a: Seq<char>| #[trigger]
            dao.deposits.contains((id2, a)) implies dao.proposals.contains(id2) by {
            assert(old(dao).deposits.contains((id2, a)));
        }
        assert forall|a: Seq<char>, id: u64| #[trigger]
            dao.idx_deposits_by_depositor.contains((a, id)) <==> dao.deposits.contains(
                (id, a),
            ) by {
            assert(old(dao).idx_deposits_by_depositor.contains((a, id))
                <==> old(dao).deposits.contains((id, a)));
        }
    }
    let resp = Response::new().add_message(
        Dispatch::Send {
            to_address: copy_text(sender),
            denom: copy_text(&dao.gov_token),
            amount: entry.amount,
        },
    ).add_attribute("action", "claim_deposit".to_owned()).add_attribute(
        "sender",
        copy_text(sender),
    ).add_attribute("proposal_id", u64_to_string(prop_id)).add_attribute(
        "amount",
        u128_to_string(entry.amount),
    );
    proof {
        assert(resp@.attributes =~= claim_response(old(dao), sender@, prop_id).attributes);
        assert(resp@.messages =~= claim_response(old(dao), sender@, prop_id).messages);
    }
    Ok(resp)
}

/// What a successful pause answers.
pub open spec fn pause_response(expiration: Expiration) -> ResponseView {
    ResponseView {
        messages: Seq::empty(),
        attributes: seq![("action"@, "pause_dao"@), ("expiration"@, expiration_text(expiration))],
    }
}

/// Suspends the operations until `expiration` is reached. Only the
/// organization itself may do so: the sender has to be its own address.
pub fn pause_dao(dao: &mut Dao, contract: &String, sender: &String, expiration: Expiration) -> (r:
    Result<Response, ContractError>)
    requires
        old(dao).inv(),
    ensures
        final(dao).inv(),
        match r {
            Ok(resp) => {
                &&& contract@ == sender@
                &&& final(dao).paused == Some(expiration)
                &&& final(dao).config == old(dao).config
                &&& final(dao).gov_token == old(dao).gov_token
                &&& final(dao).staking_contract == old(dao).staking_contract
                &&& final(dao).treasury_tokens == old(dao).treasury_tokens
                &&& final(dao).same_records(old(dao))
                &&& final(dao).same_ledgers(old(dao))
                &&& resp@ == pause_response(expiration)
            },
            Err(e) => {
                &&& contract@ != sender@
                &&& e@ == Fault::Unauthorized
                &&& *final(dao) == *old(dao)
            },
        },
{
    if !same_text(contract, sender) {
        return Err(ContractError::Unauthorized);
    }
    dao.paused = Some(expiration);
    proof {
        lemma_inv_same_books(old(dao), dao);
    }
    let resp = Response::new().add_attribute("action", "pause_dao".to_owned()).add_attribute(
        "expiration",
        expiration.to_string(),
    );
    proof {
        assert(resp@.attributes =~= pause_response(expiration).attributes);
    }
    Ok(resp)
}

/// The invariant carries over to a state with the same proposals, ballots
/// and deposits, if its configured threshold is valid.
pub proof fn lemma_inv_same_books(pre: &Dao, post: &Dao)
    requires
        pre.inv(),
        post.same_records(pre),
        post.same_ledgers(pre),
        post.treasury_tokens.wf(),
        forall|k: (Seq<char>, Seq<char>)| #[trigger]
            post.treasury_tokens.contains(k) ==> (k.0 == "native"@ || k.0 == "cw20"@),
        post.config.threshold.valid(),
    ensures
        post.inv(),
{
    assert forall|id2: u64| #[trigger] post.proposals.contains(id2) implies post.sound(id2) by {
        assert(pre.sound(id2));
    }
}

/// Why a configuration cannot be put in place, if it cannot.
pub open spec fn update_config_fault(contract: Seq<char>, sender: Seq<char>,
    config: &Config) -> Option<
    Fault,
> {
    if contract != sender {
        Some(Fault::Unauthorized)
    } else {
        threshold_fault(config.threshold)
    }
}

/// What a successful change of the configuration answers.
pub open spec fn update_config_response(sender: Seq<char>) -> ResponseView {
    ResponseView {
        messages: Seq::empty(),
        attributes: seq![("action"@, "update_config"@), ("sender"@, sender)],
    }
}

/// Replaces the configuration. Only the organization itself may do so, and
/// the new threshold has to be valid. Proposals that are under way keep the
/// requirements they were opened with.
pub fn update_config(dao: &mut Dao, contract: &String, sender: &String,
    update_config_msg: Config) -> (r:
    Result<Response, ContractError>)
    requires
        old(dao).inv(),
    ensures
        final(dao).inv(),
        match r {
            Ok(resp) => {
                &&& update_config_fault(contract@, sender@, &update_config_msg) is None
                &&& final(dao).config == update_config_msg
                &&& final(dao).gov_token == old(dao).gov_token
                &&& final(dao).staking_contract == old(dao).staking_contract
                &&& final(dao).paused == old(dao).paused
                &&& final(dao).treasury_tokens == old(dao).treasury_tokens
                &&& final(dao).same_records(old(dao))
                &&& final(dao).same_ledgers(old(dao))
                &&& resp@ == update_config_response(sender@)
            },
            Err(e) => {
                &&& update_config_fault(contract@, sender@, &update_config_msg) == Some(e@)
                &&& *final(dao) == *old(dao)
            },
        },
{
    if !same_text(contract, sender) {
        return Err(ContractError::Unauthorized);
    }
    match update_config_msg.threshold.validate() {
        Ok(_) => {},
        Err(e) => {
            return Err(e);
        },
    }
    dao.config = update_config_msg;
    proof {
        lemma_inv_same_books(old(dao), dao);
    }
    let resp = Response::new().add_attribute("action", "update_config".to_owned()).add_attribute(
        "sender",
        copy_text(sender),
    );
    proof {
        assert(resp@.attributes =~= update_config_response(sender@).attributes);
    }
    Ok(resp)
}

/// What a successful change of the staking contract answers.
pub open spec fn update_staking_response(new_staking_contract: Seq<char>) -> ResponseView {
    ResponseView {
        messages: Seq::empty(),
        attributes: seq![
            ("action"@, "update_staking_contract"@),
            ("new_staking_contract"@, new_staking_contract),
        ],
    }
}

/// Names another contract as the one that knows the voting weights. Only the
/// organization itself may do so.
pub fn update_staking_contract(
    dao: &mut Dao,
    contract: &String,
    sender: &String,
    new_staking_contract: String,
) -> (r: Result<Response, ContractError>)
    requires
        old(dao).inv(),
    ensures
        final(dao).inv(),
        match r {
            Ok(resp) => {
                &&& contract@ == sender@
                &&& final(dao).staking_contract@ == new_staking_contract@
                &&& final(dao).config == old(dao).config
                &&& final(dao).gov_token == old(dao).gov_token
                &&& final(dao).paused == old(dao).paused
                &&& final(dao).treasury_tokens == old(dao).treasury_tokens
                &&& final(dao).same_records(old(dao))
                &&& final(dao).same_ledgers(old(dao))
                &&& resp@ == update_staking_response(new_staking_contract@)
            },
            Err(e) => {
                &&& contract@ != sender@
                &&& e@ == Fault::Unauthorized
                &&& *final(dao) == *old(dao)
            },
        },
{
    if !same_text(contract, sender) {
        return Err(ContractError::Unauthorized);
    }
    let shown = copy_text(&new_staking_contract);
    dao.staking_contract = new_staking_contract;
    proof {
        lemma_inv_same_books(old(dao), dao);
    }
    let resp = Response::new().add_attribute(
        "action",
        "update_staking_contract".to_owned(),
    ).add_attribute("new_staking_contract", shown);
    proof {
        assert(resp@.attributes =~= update_staking_response(new_staking_contract@).attributes);
    }
    Ok(resp)
}

/// The key under which the treasury files a token: its kind, then its name.
pub open spec fn token_key(d: DenomView) -> (Seq<char>, Seq<char>) {
    match d {
        DenomView::Native(denom) => ("native"@, denom),
        DenomView::Cw20(addr) => ("cw20"@, addr),
    }
}

/// One of the first `upto` tokens of the list is filed under `k`.
pub open spec fn names_key(tokens: Seq<Denom>, upto: int, k: (Seq<char>, Seq<char>)) -> bool {
    exists|i: int| 0 <= i < upto && i < tokens.len() && token_key(#[trigger] tokens[i]@) == k
}

/// The number of tokens an update names, as far as 64 bits can tell.
pub open spec fn request_size(added: nat, removed: nat) -> u64 {
    if added + removed > u64::MAX {
        u64::MAX
    } else {
        (added + removed) as u64
    }
}

/// Why the token list cannot be updated, if it cannot.
pub open spec fn update_tokens_fault(
    contract: Seq<char>,
    sender: Seq<char>,
    to_add: Seq<Denom>,
    to_remove: Seq<Denom>,
) -> Option<Fault> {
    if contract != sender {
        Some(Fault::Unauthorized)
    } else if to_add.len() + to_remove.len() > MAX_LIMIT {
        Some(
            Fault::OversizedRequest {
                size: request_size(to_add.len(), to_remove.len()),
                max: MAX_LIMIT as u64,
            },
        )
    } else {
        None
    }
}

/// What a successful update of the token list answers.
pub open spec fn update_tokens_response() -> ResponseView {
    ResponseView {
        messages: Seq::empty(),
        attributes: seq![("action"@, "update_cw20_token_list"@)],
    }
}

/// The key under which the treasury files a token.
pub fn key_of_token(token: &Denom) -> (r: (String, String))
    ensures
        r@ == token_key(token@),
{
    match token {
        Denom::Native(denom) => ("native".to_owned(), copy_text(denom)),
        Denom::Cw20(addr) => ("cw20".to_owned(), copy_text(addr)),
    }
}

/// Adds tokens to the list of the treasury, then removes others. Only the
/// organization itself may do so, and one update may name no more than
/// [`MAX_LIMIT`] tokens.
pub fn update_token_list(
    dao: &mut Dao,
    contract: &String,
    sender: &String,
    to_add: Vec<Denom>,
    to_remove: Vec<Denom>,
) -> (r: Result<Response, ContractError>)
    requires
        old(dao).inv(),
    ensures
        final(dao).inv(),
        match r {
            Ok(resp) => {
                &&& update_tokens_fault(contract@, sender@, to_add@, to_remove@) is None
                &&& forall|k: (Seq<char>, Seq<char>)| #[trigger]
                    final(dao).treasury_tokens.contains(k)
                        <==> ((old(dao).treasury_tokens.contains(k) || names_key(to_add@,
                        to_add@.len() as int, k))
                        && !names_key(to_remove@, to_remove@.len() as int, k))
                &&& final(dao).config == old(dao).config
                &&& final(dao).gov_token == old(dao).gov_token
                &&& final(dao).staking_contract == old(dao).staking_contract
                &&& final(dao).paused == old(dao).paused
                &&& final(dao).same_records(old(dao))
                &&& final(dao).same_ledgers(old(dao))
                &&& resp@ == update_tokens_response()
            },
            Err(e) => {
                &&& update_tokens_fault(contract@, sender@, to_add@, to_remove@) == Some(e@)
                &&& *final(dao) == *old(dao)
            },
        },
{
    if !same_text(contract, sender) {
        return Err(ContractError::Unauthorized);
    }
    let limit: usize = 30;
    if to_add.len() > limit || to_remove.len() > limit - to_add.len() {
        let added: u64 = to_add.len() as u64;
        let removed: u64 = to_remove.len() as u64;
        let size: u64 = if removed > u64::MAX - added {
            u64::MAX
        } else {
            added + removed
        };
        return Err(ContractError::OversizedRequest { size, max: 30 });
    }
    let mut i: usize = 0;
    while i < to_add.len()
        invariant
            i <= to_add@.len(),
            dao.treasury_tokens.wf(),
            forall|k: (Seq<char>, Seq<char>)| #[trigger]
                dao.treasury_tokens.contains(k) <==> (old(dao).treasury_tokens.contains(k)
                    || names_key(to_add@, i as int, k)),
            dao.config == old(dao).config,
            dao.gov_token == old(dao).gov_token,
            dao.staking_contract == old(dao).staking_contract,
            dao.paused == old(dao).paused,
            dao.same_records(old(dao)),
            dao.same_ledgers(old(dao)),
        decreases to_add@.len() - i,
    {
        let ghost before = dao.treasury_tokens;
        let key = key_of_token(&to_add[i]);
        dao.treasury_tokens.set(key, ());
        proof {
            assert forall|k: (Seq<char>, Seq<char>)| #[trigger]
                dao.treasury_tokens.contains(k) <==> (old(dao).treasury_tokens.contains(k)
                    || names_key(to_add@, i + 1, k)) by {
                if k == token_key(to_add@[i as int]@) {
                    assert(names_key(to_add@, i + 1, k));
                } else {
                    assert(before.contains(k) <==> dao.treasury_tokens.contains(k));
                    if names_key(to_add@, i + 1, k) {
                        let j = choose|j: int|
                            0 <= j < i + 1 && j < to_add@.len() && token_key(
                                #[trigger] to_add@[j]@,
                            ) == k;
                        assert(j < i);
                        assert(names_key(to_add@, i as int, k));
                    }
                    if names_key(to_add@, i as int, k) {
                        let j = choose|j: int|
                            0 <= j < i && j < to_add@.len() && token_key(#[trigger] to_add@[j]@)
                                == k;
                        assert(names_key(to_add@, i + 1, k));
                    }
                }
            }
        }
        i = i + 1;
    }
    let ghost added = dao.treasury_tokens;
    let mut j: usize = 0;
    while j < to_remove.len()
        invariant
            j <= to_remove@.len(),
            dao.treasury_tokens.wf(),
            forall|k: (Seq<char>, Seq<char>)| #[trigger]
                dao.treasury_tokens.contains(k) <==> (added.contains(k) && !names_key(
                    to_remove@,
                    j as int,
                    k,
                )),
            dao.config == old(dao).config,
            dao.gov_token == old(dao).gov_token,
            dao.staking_contract == old(dao).staking_contract,
            dao.paused == old(dao).paused,
            dao.same_records(old(dao)),
            dao.same_ledgers(old(dao)),
        decreases to_remove@.len() - j,
    {
        let ghost before = dao.treasury_tokens;
        let key = key_of_token(&to_remove[j]);
        dao.treasury_tokens.remove(&key);
        proof {
            assert forall|k: (Seq<char>, Seq<char>)| #[trigger]
                dao.treasury_tokens.contains(k) <==> (added.contains(k) && !names_key(
                    to_remove@,
                    j + 1,
                    k,
                )) by {
                if k == token_key(to_remove@[j as int]@) {
                    assert(names_key(to_remove@, j + 1, k));
                } else {
                    assert(before.contains(k) <==> dao.treasury_tokens.contains(k));
                    if names_key(to_remove@, j + 1, k) {
                        let n = choose|n: int|
                            0 <= n < j + 1 && n < to_remove@.len() && token_key(
                                #[trigger] to_remove@[n]@,
                            ) == k;
                        assert(n < j);
                        assert(names_key(to_remove@, j as int, k));
                    }
                    if names_key(to_remove@, j as int, k) {
                        let n = choose|n: int|
                            0 <= n < j && n < to_remove@.len() && token_key(
                                #[trigger] to_remove@[n]@,
                            ) == k;
                        assert(names_key(to_remove@, j + 1, k));
                    }
                }
            }
        }
        j = j + 1;
    }
    proof {
        lemma_inv_same_books(old(dao), dao);
    }
    let resp = Response::new().add_attribute("action", "update_cw20_token_list".to_owned());
    proof {
        assert(resp@.attributes =~= update_tokens_response().attributes);
    }
    Ok(resp)
}

} // verus!

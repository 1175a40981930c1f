//! Properties that hold of every state the operations can reach.
//!
//! Every operation requires and ensures [`Dao::inv`], and a new organization
//! starts with it, so what follows from the invariant holds after any
//! sequence of operations.

use vstd::prelude::*;
use crate::error::{Fault, StdFault};
use crate::execute::{
    ballot_box_fault, ballot_of, claim_fault, close_fault, close_refunds, close_response,
    is_paused, lemma_recast_total, prior_weight, propose_fault, recast, vote_fault,
};
use crate::expiration::{expired_at, BlockInfo, Timestamp};
use crate::helpers::payment;
use crate::msg::{Coin, ProposalsQueryOption};
use crate::proposal::{
    bucket_of, passed, quorum_met, status_at, total_of, vetoed, ProposalView, Votes,
};
use crate::response::DispatchView;
use crate::state::{Ballot, Dao};
use crate::query::{proposal_ids, seconds_at};
use crate::status::{lemma_status_code_injective, status_code, Status, Vote};
use crate::store::{
    beyond, lemma_picked_down_sound, lemma_picked_up_sound, page, picked_down, picked_up,
    truncate, within_pred,
};

verus! {

/// The tally of a stored proposal is the sum of its ballots, bucket by
/// bucket: its total is the sum of all four, and none of them is negative.
pub proof fn lemma_tally_is_sum_of_ballots(dao: &Dao, id: u64)
    requires
        dao.inv(),
        dao.proposals.contains(id),
    ensures
        dao.proposals.value(id).votes.yes == dao.cast_on(id, Vote::Yes),
        dao.proposals.value(id).votes.no == dao.cast_on(id, Vote::No),
        dao.proposals.value(id).votes.abstain == dao.cast_on(id, Vote::Abstain),
        dao.proposals.value(id).votes.veto == dao.cast_on(id, Vote::Veto),
        total_of(dao.proposals.value(id).votes) == dao.cast_on(id, Vote::Yes) + dao.cast_on(
            id,
            Vote::No,
        ) + dao.cast_on(id, Vote::Abstain) + dao.cast_on(id, Vote::Veto),
        dao.cast_on(id, Vote::Yes) >= 0,
        dao.cast_on(id, Vote::No) >= 0,
        dao.cast_on(id, Vote::Abstain) >= 0,
        dao.cast_on(id, Vote::Veto) >= 0,
{
    assert(dao.sound(id));
}

/// The bucket a ballot was cast for holds at least the ballot's weight, so
/// taking the ballot out of the tally never makes a bucket negative.
pub proof fn lemma_ballot_counted(dao: &Dao, id: u64, voter: Seq<char>)
    requires
        dao.inv(),
        dao.ballots.contains((id, voter)),
    ensures
        dao.proposals.contains(id),
        bucket_of(dao.proposals.value(id).votes, dao.ballots.value((id, voter)).vote)
            >= dao.ballots.value((id, voter)).weight,
{
    dao.lemma_ballot_within_tally(id, voter);
    assert(dao.sound(id));
}

/// Voting twice counts once: whatever a voter chose before and chooses now,
/// the total moves by the new weight less the earlier one, and stays where
/// it was when the weight is the same.
pub proof fn lemma_revote_counts_once(votes: Votes, prior: Ballot, choice: Vote, power: u128)
    requires
        bucket_of(votes, prior.vote) >= prior.weight,
        total_of(votes) - prior.weight + power <= u128::MAX,
    ensures
        total_of(recast(votes, Some(prior), choice, power)) == total_of(votes) - prior.weight
            + power,
        power == prior.weight ==> total_of(recast(votes, Some(prior), choice, power)) == total_of(
            votes,
        ),
{
}

/// What a vote that went through leaves behind, whatever the voter chose
/// before and chooses now: every bucket is again the sum of the ballots cast
/// for it, the voter has one ballot, the new one, and the total has moved by
/// the new weight less the earlier one. A voter who repeats a ballot leaves
/// the tally as it was.
pub proof fn lemma_vote_counts_once(
    pre: &Dao,
    post: &Dao,
    sender: Seq<char>,
    power: u128,
    id: u64,
    choice: Vote,
)
    requires
        pre.inv(),
        post.inv(),
        pre.proposals.contains(id),
        total_of(pre.proposals.value(id).votes) - prior_weight(ballot_of(pre, id, sender)) + power
            <= u128::MAX,
        post.proposals.contains(id),
        post.proposals.value(id).votes == recast(
            pre.proposals.value(id).votes,
            ballot_of(pre, id, sender),
            choice,
            power,
        ),
        post.ballots.contains((id, sender)),
        post.ballots.value((id, sender)) == (Ballot { weight: power, vote: choice }),
    ensures
        post.proposals.value(id).votes.yes == post.cast_on(id, Vote::Yes),
        post.proposals.value(id).votes.no == post.cast_on(id, Vote::No),
        post.proposals.value(id).votes.abstain == post.cast_on(id, Vote::Abstain),
        post.proposals.value(id).votes.veto == post.cast_on(id, Vote::Veto),
        ballot_of(pre, id, sender) matches Some(b) ==> bucket_of(
            pre.proposals.value(id).votes,
            b.vote,
        ) >= b.weight,
        total_of(post.proposals.value(id).votes) == total_of(pre.proposals.value(id).votes)
            - prior_weight(ballot_of(pre, id, sender)) + power,
        ballot_of(pre, id, sender) == Some(Ballot { weight: power, vote: choice })
            ==> post.proposals.value(id).votes == pre.proposals.value(id).votes,
        ballot_of(post, id, sender) == Some(Ballot { weight: power, vote: choice }),
{
    assert(post.sound(id));
    assert(pre.sound(id));
    let prior = ballot_of(pre, id, sender);
    if prior is Some {
        lemma_ballot_counted(pre, id, sender);
    }
    lemma_recast_total(pre.proposals.value(id).votes, prior, choice, power);
}

/// A vote goes through whenever the organization is not paused, the
/// proposal is open and its voting window running, the voter has weight, and
/// the votes cast still add up within 128 bits.
pub proof fn lemma_vote_goes_through(
    dao: &Dao,
    block: &BlockInfo,
    sender: Seq<char>,
    power: u128,
    id: u64,
)
    requires
        !is_paused(dao.paused, block.height, block.time),
        dao.proposals.contains(id),
        dao.proposals.value(id).status == Status::Open,
        !expired_at(dao.proposals.value(id).vote_ends_at, block.height, block.time),
        power > 0,
        total_of(dao.proposals.value(id).votes) - prior_weight(ballot_of(dao, id, sender)) + power
            <= u128::MAX,
    ensures
        vote_fault(dao, block, sender, power, id) is None,
{
}

/// A vote is refused for arithmetic only where the votes cast would no
/// longer add up within 128 bits. As long as they stay within the total
/// weight of the proposal, as they do when every voter weighs what the total
/// was taken from, no vote is refused for it.
pub proof fn lemma_vote_within_weight_is_counted(
    dao: &Dao,
    block: &BlockInfo,
    sender: Seq<char>,
    power: u128,
    id: u64,
)
    requires
        dao.inv(),
        dao.proposals.contains(id),
        total_of(dao.proposals.value(id).votes) - prior_weight(ballot_of(dao, id, sender)) + power
            <= dao.proposals.value(id).total_weight,
    ensures
        vote_fault(dao, block, sender, power, id) != Some(Fault::Std(StdFault::Overflow)),
        ballot_box_fault(dao, block, id) is None && power > 0 ==> vote_fault(
            dao,
            block,
            sender,
            power,
            id,
        ) is None,
{
    assert(dao.sound(id));
}

/// Deposits are due back only on a proposal that has been rejected or
/// executed: on any other a claim is refused as not claimable, whoever makes
/// it. A proposal that was closed without a refund has none due either, as
/// closing sets the flag to whether it refunds.
pub proof fn lemma_unsettled_not_claimable(
    dao: &Dao,
    block: &BlockInfo,
    sender: Seq<char>,
    id: u64,
)
    requires
        dao.inv(),
        dao.proposals.contains(id),
        !is_paused(dao.paused, block.height, block.time),
        dao.proposals.value(id).status != Status::Rejected,
        dao.proposals.value(id).status != Status::Executed,
    ensures
        !dao.proposals.value(id).deposit_claimable,
        claim_fault(dao, block, sender, id) == Some(Fault::DepositNotClaimable),
{
    assert(dao.sound(id));
}

/// No proposal is stored without a positive total weight.
pub proof fn lemma_stored_weight_positive(dao: &Dao, id: u64)
    requires
        dao.inv(),
        dao.proposals.contains(id),
    ensures
        dao.proposals.value(id).total_weight > 0,
{
    assert(dao.sound(id));
}

/// Where nothing is staked, no proposal can be submitted; a submission that
/// is otherwise in order is refused for the lack of stakes.
pub proof fn lemma_propose_needs_stake(dao: &Dao, block: &BlockInfo, funds: Seq<Coin>)
    ensures
        propose_fault(dao, block, funds, 0) is Some,
        !is_paused(dao.paused, block.height, block.time) && (payment(funds, dao.gov_token@)
            matches Ok(received) && received >= dao.config.proposal_min_deposit)
            ==> propose_fault(dao, block, funds, 0) == Some(Fault::LackOfStakes),
{
}

/// As long as a proposal is pending, less than the required deposit has been
/// paid; and no proposal ever holds more than it.
pub proof fn lemma_pending_short_of_deposit(dao: &Dao, id: u64)
    requires
        dao.inv(),
        dao.proposals.contains(id),
    ensures
        dao.proposals.value(id).total_deposit <= dao.proposals.value(id).deposit_base_amount,
        dao.proposals.value(id).status == Status::Pending ==> dao.proposals.value(
            id,
        ).total_deposit < dao.proposals.value(id).deposit_base_amount,
        dao.proposals.value(id).total_deposit == dao.deposited_on(id),
{
    assert(dao.sound(id));
}

/// A pending proposal whose deposit window has closed can be closed, and
/// closing it pays nothing back.
pub proof fn lemma_close_pending_confiscates(dao: &Dao, block: &BlockInfo, sender: Seq<char>,
    id: u64)
    requires
        dao.inv(),
        dao.proposals.contains(id),
        !is_paused(dao.paused, block.height, block.time),
        dao.proposals.value(id).status == Status::Pending,
        expired_at(dao.proposals.value(id).deposit_ends_at, block.height, block.time),
    ensures
        close_fault(dao, block, id) is None,
        !close_refunds(dao.proposals.value(id)@),
        close_response(dao, sender, id).messages == Seq::<DispatchView>::empty(),
{
    assert(dao.sound(id));
}

/// An open proposal whose voting window has closed short of the quorum,
/// without a veto, can be closed, and closing it gives the deposits back.
pub proof fn lemma_close_failed_quorum_refunds(dao: &Dao, block: &BlockInfo, id: u64)
    requires
        dao.inv(),
        dao.proposals.contains(id),
        !is_paused(dao.paused, block.height, block.time),
        dao.proposals.value(id).status == Status::Open,
        expired_at(dao.proposals.value(id).vote_ends_at, block.height, block.time),
        !quorum_met(
            dao.proposals.value(id).votes,
            dao.proposals.value(id).total_weight,
            dao.proposals.value(id).threshold,
        ),
        !vetoed(
            dao.proposals.value(id).votes,
            dao.proposals.value(id).total_weight,
            dao.proposals.value(id).threshold,
        ),
    ensures
        close_fault(dao, block, id) is None,
        close_refunds(dao.proposals.value(id)@),
{
}

/// A vetoed proposal is rejected once its voting window has closed, whatever
/// the other votes are.
pub proof fn lemma_veto_rejects(p: ProposalView, height: u64, time: Timestamp)
    requires
        p.status == Status::Open,
        expired_at(p.vote_ends_at, height, time),
        vetoed(p.votes, p.total_weight, p.threshold),
    ensures
        !passed(p.votes, p.total_weight, p.threshold),
        status_at(p, height, time) == Status::Rejected,
        !close_refunds(p),
{
}

/// A vetoed proposal whose voting window has closed can be closed, and
/// closing it pays nothing back.
pub proof fn lemma_close_vetoed_confiscates(dao: &Dao, block: &BlockInfo, sender: Seq<char>,
    id: u64)
    requires
        dao.inv(),
        dao.proposals.contains(id),
        !is_paused(dao.paused, block.height, block.time),
        dao.proposals.value(id).status == Status::Open,
        expired_at(dao.proposals.value(id).vote_ends_at, block.height, block.time),
        vetoed(
            dao.proposals.value(id).votes,
            dao.proposals.value(id).total_weight,
            dao.proposals.value(id).threshold,
        ),
    ensures
        close_fault(dao, block, id) is None,
        close_response(dao, sender, id).messages == Seq::<DispatchView>::empty(),
{
}

/// Every stored proposal is listed in the index by status under its stored
/// status, and under no other.
pub proof fn lemma_status_index_exact(dao: &Dao, id: u64)
    requires
        dao.wf(),
        dao.proposals.contains(id),
    ensures
        dao.idx_props_by_status.contains((status_code(dao.proposals.value(id).status), id)),
        forall|s: u8|
            s != status_code(dao.proposals.value(id).status)
                ==> !dao.idx_props_by_status.contains((s, id)),
{
    let code = status_code(dao.proposals.value(id).status);
    assert(dao.idx_props_by_status.contains((code, id)) <==> (dao.proposals.contains(id)
        && status_code(dao.proposals.value(id).status) == code));
    assert forall|s: u8| s != code implies !dao.idx_props_by_status.contains((s, id)) by {
        assert(dao.idx_props_by_status.contains((s, id)) <==> (dao.proposals.contains(id)
            && status_code(dao.proposals.value(id).status) == s));
    }
}

/// The index by status lists nothing but stored proposals.
pub proof fn lemma_status_index_sound(dao: &Dao, s: u8, id: u64)
    requires
        dao.wf(),
        dao.idx_props_by_status.contains((s, id)),
    ensures
        dao.proposals.contains(id),
        status_code(dao.proposals.value(id).status) == s,
{
}

/// A listing by status shows nothing but stored proposals of that status,
/// beyond the cursor.
pub proof fn lemma_listing_by_status_sound(
    dao: &Dao,
    status: Status,
    start: Option<u64>,
    limit: int,
    ascending: bool,
    i: int,
)
    requires
        dao.wf(),
        0 <= limit,
        0 <= i < proposal_ids(
            dao,
            &(ProposalsQueryOption::FindByStatus { status }),
            start,
            limit,
            ascending,
        ).len(),
    ensures
        ({
            let id = proposal_ids(
                dao,
                &(ProposalsQueryOption::FindByStatus { status }),
                start,
                limit,
                ascending,
            )[i];
            &&& dao.proposals.contains(id)
            &&& dao.proposals.value(id).status == status
            &&& beyond::<u64>(start, ascending, id)
        }),
{
    let keys = dao.idx_props_by_status.key_seq();
    let pred = within_pred::<u8, u64>(status_code(status), start, ascending);
    let positions = page(keys, pred, limit, ascending);
    assert(seconds_at(keys, positions).len() == positions.len());
    if ascending {
        lemma_picked_up_sound(keys, pred, keys.len() as int);
        let all = picked_up(keys, pred, keys.len() as int);
        assert(positions == truncate(all, limit));
        assert(positions[i] == all[i]);
    } else {
        lemma_picked_down_sound(keys, pred, 0);
        let all = picked_down(keys, pred, 0);
        assert(positions == truncate(all, limit));
        assert(positions[i] == all[i]);
    }
    let p = positions[i];
    assert(pred(keys[p]));
    dao.idx_props_by_status.lemma_position(p);
    assert(dao.idx_props_by_status.contains((keys[p].0, keys[p].1)));
    lemma_status_code_injective(dao.proposals.value(keys[p].1).status, status);
}

/// A listing by status without a cursor, with room for every entry of the
/// index, shows every stored proposal of that status.
pub proof fn lemma_listing_by_status_complete(
    dao: &Dao,
    status: Status,
    limit: int,
    ascending: bool,
    id: u64,
)
    requires
        dao.wf(),
        dao.proposals.contains(id),
        dao.proposals.value(id).status == status,
        limit >= dao.idx_props_by_status.count(),
    ensures
        proposal_ids(
            dao,
            &(ProposalsQueryOption::FindByStatus { status }),
            None,
            limit,
            ascending,
        ).contains(id),
{
    let keys = dao.idx_props_by_status.key_seq();
    let pred = within_pred::<u8, u64>(status_code(status), None, ascending);
    let positions = page(keys, pred, limit, ascending);
    lemma_status_index_exact(dao, id);
    let p = dao.idx_props_by_status.index_of((status_code(status), id));
    assert(keys[p] == (status_code(status), id));
    assert(pred(keys[p]));
    if ascending {
        lemma_picked_up_sound(keys, pred, keys.len() as int);
        assert(positions.contains(p));
    } else {
        lemma_picked_down_sound(keys, pred, 0);
        assert(positions.contains(p));
    }
    let n = choose|n: int| 0 <= n < positions.len() && positions[n] == p;
    let ids = proposal_ids(
        dao,
        &(ProposalsQueryOption::FindByStatus { status }),
        None,
        limit,
        ascending,
    );
    assert(ids[n] == id);
}

} // verus!

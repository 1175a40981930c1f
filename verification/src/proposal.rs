//! Proposals, their tallies, and the arithmetic that decides them.

use vstd::prelude::*;
use crate::action::{clone_msgs, Msg};
use crate::decimal::{
    lemma_scaled_up_bounded, lemma_scaled_up_is_ceiling, lemma_scaled_up_is_least,
    lemma_scaled_up_monotone, scaled_up, Decimal, DECIMAL_ONE,
};
use crate::expiration::{
    expired_at, expiry_after, reachable, BlockInfo, Duration, Expiration, Timestamp,
};
use crate::status::{Status, Vote};
use crate::text::copy_text;
use crate::threshold::{default_threshold, Threshold};

verus! {

/// The weight cast for each option.
#[derive(Clone, Copy, Debug, PartialEq, Eq, Structural)]
pub struct Votes {
    pub yes: u128,
    pub no: u128,
    pub abstain: u128,
    pub veto: u128,
}

/// A block's height and time.
#[derive(Clone, Copy, Debug, PartialEq, Eq, Structural)]
pub struct BlockTime {
    pub height: u64,
    pub time: Timestamp,
}

/// A proposal as it is stored.
#[derive(Clone, Debug, PartialEq)]
pub struct Proposal {
    pub title: String,
    /// A link to more about the proposal.
    pub link: String,
    pub description: String,
    /// The address that submitted the proposal.
    pub proposer: String,
    /// The status as of the last operation that changed it.
    pub status: Status,
    /// The actions to hand out when the proposal is executed.
    pub msgs: Vec<Msg>,
    pub submitted_at: BlockTime,
    pub deposit_ends_at: Expiration,
    pub vote_starts_at: BlockTime,
    pub vote_ends_at: Expiration,
    /// The requirements the vote is held to, as they stood when voting opened.
    pub threshold: Threshold,
    /// The total weight that could vote, as it stood when voting opened.
    pub total_weight: u128,
    pub votes: Votes,
    /// What has been deposited and kept so far.
    pub total_deposit: u128,
    /// The deposit that opens the vote.
    pub deposit_base_amount: u128,
    /// Whether the depositors are to have their deposits back.
    pub deposit_claimable: bool,
}

/// A proposal with its texts and actions as sequences.
pub struct ProposalView {
    pub title: Seq<char>,
    pub link: Seq<char>,
    pub description: Seq<char>,
    pub proposer: Seq<char>,
    pub status: Status,
    pub msgs: Seq<Msg>,
    pub submitted_at: BlockTime,
    pub deposit_ends_at: Expiration,
    pub vote_starts_at: BlockTime,
    pub vote_ends_at: Expiration,
    pub threshold: Threshold,
    pub total_weight: u128,
    pub votes: Votes,
    pub total_deposit: u128,
    pub deposit_base_amount: u128,
    pub deposit_claimable: bool,
}

impl View for Proposal {
    type V = ProposalView;

    open spec fn view(&self) -> ProposalView {
        ProposalView {
            title: self.title@,
            link: self.link@,
            description: self.description@,
            proposer: self.proposer@,
            status: self.status,
            msgs: self.msgs@,
            submitted_at: self.submitted_at,
            deposit_ends_at: self.deposit_ends_at,
            vote_starts_at: self.vote_starts_at,
            vote_ends_at: self.vote_ends_at,
            threshold: self.threshold,
            total_weight: self.total_weight,
            votes: self.votes,
            total_deposit: self.total_deposit,
            deposit_base_amount: self.deposit_base_amount,
            deposit_claimable: self.deposit_claimable,
        }
    }
}

/// The votes needed to reach a fraction of a weight: the exact product of
/// the two, rounded up.
pub open spec fn needed(weight: int, atomics: int) -> int {
    scaled_up(atomics, weight)
}

/// The sum of the four buckets.
pub open spec fn total_of(v: Votes) -> int {
    v.yes + v.no + v.abstain + v.veto
}

/// The weight cast for one option.
pub open spec fn bucket_of(v: Votes, option: Vote) -> u128 {
    match option {
        Vote::Yes => v.yes,
        Vote::No => v.no,
        Vote::Abstain => v.abstain,
        Vote::Veto => v.veto,
    }
}

/// The tally with one bucket set to a new weight.
pub open spec fn with_bucket(v: Votes, option: Vote, weight: u128) -> Votes {
    match option {
        Vote::Yes => Votes { yes: weight, ..v },
        Vote::No => Votes { no: weight, ..v },
        Vote::Abstain => Votes { abstain: weight, ..v },
        Vote::Veto => Votes { veto: weight, ..v },
    }
}

/// Whether the tally arithmetic stays within 128 bits: no fraction is above
/// one, and the votes cast add up within 128 bits.
pub open spec fn countable(votes: Votes, total_weight: u128, threshold: Threshold) -> bool {
    &&& threshold.threshold.atomics <= DECIMAL_ONE
    &&& threshold.quorum.atomics <= DECIMAL_ONE
    &&& threshold.veto_threshold.atomics <= DECIMAL_ONE
    &&& total_of(votes) <= u128::MAX
}

/// The votes cast reach the quorum of the total weight.
pub open spec fn quorum_met(votes: Votes, total_weight: u128, threshold: Threshold) -> bool {
    total_of(votes) >= needed(total_weight as int, threshold.quorum.atomics as int)
}

/// The vetoes reach the veto threshold of the total weight.
pub open spec fn vetoed(votes: Votes, total_weight: u128, threshold: Threshold) -> bool {
    votes.veto >= needed(total_weight as int, threshold.veto_threshold.atomics as int)
}

/// The weight that the veto threshold is a fraction of. The operations of
/// this engine measure vetoes against the total weight, before and after the
/// voting window closes; an evaluation against the votes cast is offered for
/// organizations that decide otherwise.
#[derive(Clone, Copy, Debug, PartialEq, Eq, Structural)]
pub enum VetoReference {
    /// The total weight that could vote.
    TotalWeight,
    /// The weight that has voted.
    VotesCast,
}

/// The weight that a veto reference stands for.
pub open spec fn veto_base(votes: Votes, total_weight: u128, reference: VetoReference) -> int {
    match reference {
        VetoReference::TotalWeight => total_weight as int,
        VetoReference::VotesCast => total_of(votes),
    }
}

/// The vetoes reach the veto threshold of the reference weight.
pub open spec fn vetoed_against(
    votes: Votes,
    total_weight: u128,
    threshold: Threshold,
    reference: VetoReference,
) -> bool {
    votes.veto >= needed(
        veto_base(votes, total_weight, reference),
        threshold.veto_threshold.atomics as int,
    )
}

/// The yes votes reach the threshold among the opinions, that is among all
/// votes but the abstentions.
pub open spec fn threshold_met(votes: Votes, threshold: Threshold) -> bool {
    votes.yes >= needed(total_of(votes) - votes.abstain, threshold.threshold.atomics as int)
}

/// The yes votes reach the threshold even if every weight that has not voted
/// yet were to vote no.
pub open spec fn threshold_met_early(votes: Votes, total_weight: u128,
    threshold: Threshold) -> bool {
    votes.yes >= needed(total_weight - votes.abstain, threshold.threshold.atomics as int)
}

/// A vote passes when the quorum and the threshold are met and it is not
/// vetoed.
pub open spec fn passed(votes: Votes, total_weight: u128, threshold: Threshold) -> bool {
    &&& quorum_met(votes, total_weight, threshold)
    &&& threshold_met(votes, threshold)
    &&& !vetoed(votes, total_weight, threshold)
}

/// The status a proposal has at a given height and time, derived from its
/// stored status: a pending proposal opens once its deposit is met and is
/// rejected once the deposit window has closed without that; an open proposal
/// is decided once the voting window has closed.
pub open spec fn status_at(p: ProposalView, height: u64, time: Timestamp) -> Status {
    match p.status {
        Status::Pending => if p.deposit_base_amount <= p.total_deposit {
            Status::Open
        } else if expired_at(p.deposit_ends_at, height, time) {
            Status::Rejected
        } else {
            Status::Pending
        },
        Status::Open => if expired_at(p.vote_ends_at, height, time) {
            if passed(p.votes, p.total_weight, p.threshold) {
                Status::Passed
            } else {
                Status::Rejected
            }
        } else {
            Status::Open
        },
        s => s,
    }
}

/// The votes needed are the fraction of the weight rounded up, for every
/// fraction: they never fall short of the exact product, one vote fewer
/// always does, and they are none only where the product is nothing.
pub proof fn lemma_needed_is_ceiling(weight: int, atomics: int)
    requires
        0 <= weight,
        0 <= atomics,
    ensures
        needed(weight, atomics) * DECIMAL_ONE >= weight * atomics,
        (needed(weight, atomics) - 1) * DECIMAL_ONE < weight * atomics,
        0 <= needed(weight, atomics),
        needed(weight, atomics) == 0 <==> weight * atomics == 0,
{
    lemma_scaled_up_is_ceiling(atomics, weight);
}

/// No number of votes that reaches the fraction of the weight is smaller
/// than the votes needed.
pub proof fn lemma_needed_is_least(weight: int, atomics: int, votes: int)
    requires
        0 <= weight,
        0 <= atomics,
        votes * DECIMAL_ONE >= weight * atomics,
    ensures
        needed(weight, atomics) <= votes,
{
    lemma_scaled_up_is_least(atomics, weight, votes);
}

/// A larger weight never needs fewer votes.
pub proof fn lemma_needed_monotone(atomics: int, smaller: int, larger: int)
    requires
        0 <= atomics,
        0 <= smaller <= larger,
    ensures
        needed(smaller, atomics) <= needed(larger, atomics),
{
    lemma_scaled_up_monotone(atomics, smaller, larger);
}

/// With a fraction of at most one, the votes needed are at most the weight.
pub proof fn lemma_needed_bounded(weight: int, atomics: int)
    requires
        0 <= weight,
        0 <= atomics <= DECIMAL_ONE,
    ensures
        0 <= needed(weight, atomics) <= weight,
{
    lemma_scaled_up_bounded(atomics, weight);
}

/// The votes needed to reach `percentage` of `weight`: the least number of
/// votes that is not less than the exact product of the two.
pub fn votes_needed(weight: u128, percentage: Decimal) -> (r: u128)
    requires
        needed(weight as int, percentage.atomics as int) <= u128::MAX,
    ensures
        r == needed(weight as int, percentage.atomics as int),
        r * DECIMAL_ONE >= weight * percentage.atomics,
        (r - 1) * DECIMAL_ONE < weight * percentage.atomics,
{
    percentage.mul_ceil(weight)
}

impl Votes {
    /// The sum of all votes.
    pub fn total(&self) -> (r: u128)
        requires
            total_of(*self) <= u128::MAX,
        ensures
            r == self.yes + self.no + self.abstain + self.veto,
    {
        self.yes + self.no + self.abstain + self.veto
    }

    /// A tally with `init_weight` cast for yes and nothing else.
    pub fn new(init_weight: u128) -> (r: Votes)
        ensures
            r == (Votes { yes: init_weight, no: 0, abstain: 0, veto: 0 }),
    {
        Votes { yes: init_weight, no: 0, abstain: 0, veto: 0 }
    }

    /// Adds `weight` to the bucket of `vote`.
    pub fn submit(&mut self, vote: Vote, weight: u128)
        requires
            bucket_of(*old(self), vote) + weight <= u128::MAX,
        ensures
            *final(self) == with_bucket(
                *old(self),
                vote,
                (bucket_of(*old(self), vote) + weight) as u128,
            ),
            total_of(*final(self)) == total_of(*old(self)) + weight,
    {
        match vote {
            Vote::Yes => {
                self.yes = self.yes + weight;
            },
            Vote::Abstain => {
                self.abstain = self.abstain + weight;
            },
            Vote::No => {
                self.no = self.no + weight;
            },
            Vote::Veto => {
                self.veto = self.veto + weight;
            },
        }
    }

    /// Takes `weight` out of the bucket of `vote`.
    pub fn revoke(&mut self, vote: Vote, weight: u128)
        requires
            bucket_of(*old(self), vote) >= weight,
        ensures
            *final(self) == with_bucket(
                *old(self),
                vote,
                (bucket_of(*old(self), vote) - weight) as u128,
            ),
            total_of(*final(self)) == total_of(*old(self)) - weight,
    {
        match vote {
            Vote::Yes => {
                self.yes = self.yes - weight;
            },
            Vote::No => {
                self.no = self.no - weight;
            },
            Vote::Abstain => {
                self.abstain = self.abstain - weight;
            },
            Vote::Veto => {
                self.veto = self.veto - weight;
            },
        }
    }
}

impl Default for Votes {
    fn default() -> (r: Votes)
        ensures
            r == (Votes { yes: 0, no: 0, abstain: 0, veto: 0 }),
    {
        Votes { yes: 0, no: 0, abstain: 0, veto: 0 }
    }
}

impl Default for BlockTime {
    fn default() -> (r: BlockTime)
        ensures
            r == (BlockTime { height: 0, time: Timestamp { nanos: 0 } }),
    {
        BlockTime { height: 0, time: Timestamp { nanos: 0 } }
    }
}

impl BlockTime {
    /// The height and time of a block.
    pub fn of(block: &BlockInfo) -> (r: BlockTime)
        ensures
            r == (BlockTime { height: block.height, time: block.time }),
    {
        BlockTime { height: block.height, time: block.time }
    }
}

impl From<BlockInfo> for BlockTime {
    fn from(info: BlockInfo) -> (r: BlockTime) {
        BlockTime { height: info.height, time: info.time }
    }
}

impl vstd::std_specs::convert::FromSpecImpl<BlockInfo> for BlockTime {
    open spec fn obeys_from_spec() -> bool {
        true
    }

    open spec fn from_spec(info: BlockInfo) -> BlockTime {
        BlockTime { height: info.height, time: info.time }
    }
}

impl Default for Proposal {
    fn default() -> (r: Proposal)
        ensures
            r@.title == Seq::<char>::empty(),
            r@.link == Seq::<char>::empty(),
            r@.description == Seq::<char>::empty(),
            r@.proposer == Seq::<char>::empty(),
            r@.status == Status::Pending,
            r@.msgs == Seq::<Msg>::empty(),
            r@.submitted_at == (BlockTime { height: 0, time: Timestamp { nanos: 0 } }),
            r@.deposit_ends_at == Expiration::Never,
            r@.vote_starts_at == (BlockTime { height: 0, time: Timestamp { nanos: 0 } }),
            r@.vote_ends_at == Expiration::Never,
            r@.threshold == default_threshold(),
            r@.total_weight == 0,
            r@.votes == (Votes { yes: 0, no: 0, abstain: 0, veto: 0 }),
            r@.total_deposit == 0,
            r@.deposit_base_amount == 0,
            !r@.deposit_claimable,
    {
        Proposal {
            title: String::new(),
            link: String::new(),
            description: String::new(),
            proposer: String::new(),
            status: Status::Pending,
            msgs: Vec::new(),
            submitted_at: BlockTime::default(),
            deposit_ends_at: Expiration::default(),
            vote_starts_at: BlockTime::default(),
            vote_ends_at: Expiration::default(),
            threshold: Threshold::default(),
            total_weight: 0,
            votes: Votes::default(),
            total_deposit: 0,
            deposit_base_amount: 0,
            deposit_claimable: false,
        }
    }
}

impl Proposal {
    /// Whether the tally of this proposal can be evaluated within 128 bits.
    pub open spec fn countable(&self) -> bool {
        countable(self.votes, self.total_weight, self.threshold)
    }

    /// Whether the tally of this proposal can be evaluated within 128 bits.
    pub fn is_countable(&self) -> (r: bool)
        ensures
            r == self.countable(),
    {
        self.threshold.threshold.atomics <= DECIMAL_ONE && self.threshold.quorum.atomics
            <= DECIMAL_ONE && self.threshold.veto_threshold.atomics <= DECIMAL_ONE && self.votes.no
            <= u128::MAX - self.votes.yes && self.votes.abstain <= u128::MAX - self.votes.yes
            - self.votes.no && self.votes.veto <= u128::MAX - self.votes.yes - self.votes.no
            - self.votes.abstain
    }

    /// A copy of this proposal.
    pub fn duplicate(&self) -> (r: Proposal)
        ensures
            r@ == self@,
    {
        Proposal {
            title: copy_text(&self.title),
            link: copy_text(&self.link),
            description: copy_text(&self.description),
            proposer: copy_text(&self.proposer),
            status: self.status,
            msgs: clone_msgs(&self.msgs),
            submitted_at: self.submitted_at,
            deposit_ends_at: self.deposit_ends_at,
            vote_starts_at: self.vote_starts_at,
            vote_ends_at: self.vote_ends_at,
            threshold: self.threshold,
            total_weight: self.total_weight,
            votes: self.votes,
            total_deposit: self.total_deposit,
            deposit_base_amount: self.deposit_base_amount,
            deposit_claimable: self.deposit_claimable,
        }
    }

    /// Opens the vote: the voting window starts at `block_time` and lasts for
    /// `voting_period`.
    pub fn activate_voting_period(&mut self, block_time: BlockTime, voting_period: &Duration)
        requires
            reachable(block_time.height, block_time.time, *voting_period),
        ensures
            final(self)@ == (ProposalView {
                status: Status::Open,
                vote_starts_at: block_time,
                vote_ends_at: expiry_after(block_time.height, block_time.time, *voting_period),
                ..old(self)@
            }),
    {
        self.status = Status::Open;
        self.vote_starts_at = block_time;
        self.vote_ends_at = crate::helpers::duration_to_expiry(&self.vote_starts_at, voting_period);
    }

    /// The status this proposal has in the given block. Nothing is stored.
    pub fn current_status(&self, block: &BlockInfo) -> (r: Status)
        requires
            self.status == Status::Open ==> self.countable(),
        ensures
            r == status_at(self@, block.height, block.time),
    {
        let mut status = self.status;
        match status {
            Status::Pending => {
                if self.deposit_base_amount <= self.total_deposit {
                    status = Status::Open;
                } else if self.deposit_ends_at.is_expired(block) {
                    status = Status::Rejected;
                }
            },
            Status::Open => {
                if self.vote_ends_at.is_expired(block) {
                    if self.is_passed() {
                        status = Status::Passed;
                    } else {
                        status = Status::Rejected;
                    }
                }
            },
            _ => {},
        }
        status
    }

    /// Sets the stored status to the status in the given block.
    pub fn update_status(&mut self, block: &BlockInfo)
        requires
            old(self).status == Status::Open ==> old(self).countable(),
        ensures
            final(self)@ == (ProposalView {
                status: status_at(old(self)@, block.height, block.time),
                ..old(self)@
            }),
    {
        self.status = self.current_status(block);
    }

    /// Whether the tally as it stands passes: the quorum and the threshold
    /// are met and the proposal is not vetoed.
    pub fn is_passed(&self) -> (r: bool)
        requires
            self.countable(),
        ensures
            r == passed(self.votes, self.total_weight, self.threshold),
    {
        proof {
            lemma_needed_bounded(self.total_weight as int, self.threshold.quorum.atomics as int);
            lemma_needed_bounded(
                total_of(self.votes) - self.votes.abstain,
                self.threshold.threshold.atomics as int,
            );
        }
        if self.votes.total() < votes_needed(self.total_weight, self.threshold.quorum) {
            return false;
        }
        let opinions = self.votes.total() - self.votes.abstain;
        let passed = self.votes.yes >= votes_needed(opinions, self.threshold.threshold);
        let vetoed = self.is_vetoed();
        !vetoed && passed
    }

    /// Whether the tally passes even if every weight that has not voted yet
    /// were to vote no.
    pub fn is_passed_early(&self) -> (r: bool)
        requires
            self.countable(),
            self.votes.abstain <= self.total_weight,
        ensures
            r == (quorum_met(self.votes, self.total_weight, self.threshold) && threshold_met_early(
                self.votes,
                self.total_weight,
                self.threshold,
            ) && !vetoed(self.votes, self.total_weight, self.threshold)),
    {
        proof {
            lemma_needed_bounded(self.total_weight as int, self.threshold.quorum.atomics as int);
            lemma_needed_bounded(
                self.total_weight - self.votes.abstain,
                self.threshold.threshold.atomics as int,
            );
        }
        if self.votes.total() < votes_needed(self.total_weight, self.threshold.quorum) {
            return false;
        }
        let base = self.total_weight - self.votes.abstain;
        let passed = self.votes.yes >= votes_needed(base, self.threshold.threshold);
        let vetoed = self.is_vetoed();
        !vetoed && passed
    }

    /// Whether the vetoes reach the veto threshold of the reference weight.
    pub fn is_vetoed_against(&self, reference: VetoReference) -> (r: bool)
        requires
            self.countable(),
        ensures
            r == vetoed_against(self.votes, self.total_weight, self.threshold, reference),
            reference == VetoReference::TotalWeight ==> r == vetoed(
                self.votes,
                self.total_weight,
                self.threshold,
            ),
    {
        let base = match reference {
            VetoReference::TotalWeight => self.total_weight,
            VetoReference::VotesCast => self.votes.total(),
        };
        proof {
            lemma_needed_bounded(base as int, self.threshold.veto_threshold.atomics as int);
        }
        self.votes.veto >= votes_needed(base, self.threshold.veto_threshold)
    }

    /// Whether the vetoes reach the veto threshold of the total weight.
    pub fn is_vetoed(&self) -> (r: bool)
        requires
            self.countable(),
        ensures
            r == vetoed(self.votes, self.total_weight, self.threshold),
    {
        proof {
            lemma_needed_bounded(
                self.total_weight as int,
                self.threshold.veto_threshold.atomics as int,
            );
        }
        self.votes.veto >= votes_needed(self.total_weight, self.threshold.veto_threshold)
    }
}

/// A tally that passes early also passes when the window closes, as long as
/// no more than the total weight has voted.
pub proof fn lemma_early_pass_is_final(votes: Votes, total_weight: u128, threshold: Threshold)
    requires
        total_of(votes) <= total_weight,
        threshold_met_early(votes, total_weight, threshold),
    ensures
        threshold_met(votes, threshold),
{
    lemma_needed_monotone(
        threshold.threshold.atomics as int,
        total_of(votes) - votes.abstain,
        total_weight - votes.abstain,
    );
}

/// A vetoed tally never passes.
pub proof fn lemma_vetoed_never_passes(votes: Votes, total_weight: u128, threshold: Threshold)
    requires
        vetoed(votes, total_weight, threshold),
    ensures
        !passed(votes, total_weight, threshold),
{
}

} // verus!

//! The requests the engine takes and the answers its queries give.

use vstd::prelude::*;
use crate::action::Msg;
use crate::decimal::Decimal;
use crate::expiration::{Duration, Expiration};
use crate::proposal::{BlockTime, Votes};
use crate::state::Config;
use crate::status::{Status, Vote};
use crate::threshold::Threshold;

verus! {

/// An amount of one denomination.
#[derive(Clone, Debug, PartialEq, Eq)]
pub struct Coin {
    pub denom: String,
    pub amount: u128,
}

/// A token the treasury keeps track of.
#[derive(Clone, Debug, PartialEq, Eq)]
pub enum Denom {
    Native(String),
    Cw20(String),
}

/// What an organization is set up with.
#[derive(Clone, Debug, PartialEq, Eq)]
pub struct InstantiateMsg {
    pub name: String,
    pub description: String,
    /// The governance token: a new staking contract for it, or an existing one.
    pub gov_token: GovToken,
    pub threshold: Threshold,
    pub voting_period: Duration,
    pub deposit_period: Duration,
    /// The deposit that opens the vote on a proposal.
    pub proposal_deposit_amount: u128,
    /// The least deposit a proposal can be submitted with.
    pub proposal_deposit_min_amount: u128,
}

/// Where the governance token is staked.
#[derive(Clone, Debug, PartialEq, Eq)]
pub enum GovToken {
    Create {
        denom: String,
        label: String,
        stake_contract_code_id: u64,
        unstaking_duration: Option<Duration>,
    },
    Reuse { stake_contract: String },
}

/// A new proposal.
#[derive(Clone, Debug, PartialEq)]
pub struct ProposeMsg {
    pub title: String,
    pub link: String,
    pub description: String,
    pub msgs: Vec<Msg>,
}

/// A vote on a proposal.
#[derive(Clone, Copy, Debug, PartialEq, Eq, Structural)]
pub struct VoteMsg {
    pub proposal_id: u64,
    pub vote: Vote,
}

/// The direction of a listing.
#[derive(Clone, Copy, Debug, PartialEq, Eq, Structural)]
pub enum RangeOrder {
    Asc,
    Desc,
}

/// Which proposals a listing covers.
#[derive(Clone, Debug, PartialEq, Eq)]
pub enum ProposalsQueryOption {
    FindByStatus { status: Status },
    FindByProposer { proposer: String },
    Everything {  },
}

/// Which deposits a listing covers, and the entry it starts after.
#[derive(Clone, Debug, PartialEq, Eq)]
pub enum DepositsQueryOption {
    FindByProposal { proposal_id: u64, start: Option<String> },
    FindByDepositor { depositor: String, start: Option<u64> },
    Everything { start: Option<(u64, String)> },
}

/// What a migration is given: nothing.
#[derive(Clone, Copy, Debug, PartialEq, Eq, Structural)]
pub struct MigrateMsg {
}

/// The settings of an organization.
#[derive(Clone, Debug, PartialEq, Eq)]
pub struct ConfigResponse {
    pub config: Config,
    pub gov_token: String,
    pub staking_contract: String,
}

/// The tokens of the treasury.
#[derive(Clone, Debug, PartialEq, Eq)]
pub struct TokenListResponse {
    pub token_list: Vec<Denom>,
}

/// A proposal as a query reports it: with the status it has in the block of
/// the query and the share of the total weight that has voted.
#[derive(Clone, Debug, PartialEq)]
pub struct ProposalResponse {
    pub id: u64,
    pub title: String,
    pub link: String,
    pub description: String,
    pub proposer: String,
    pub msgs: Vec<Msg>,
    pub status: Status,
    pub submitted_at: BlockTime,
    pub deposit_ends_at: Expiration,
    pub vote_starts_at: BlockTime,
    pub vote_ends_at: Expiration,
    pub votes: Votes,
    pub quorum: Decimal,
    pub threshold: Threshold,
    pub total_votes: u128,
    pub total_weight: u128,
    pub total_deposit: u128,
}

/// One page of proposals.
#[derive(Clone, Debug, PartialEq)]
pub struct ProposalsResponse {
    pub proposals: Vec<ProposalResponse>,
}

/// A ballot with the address that cast it.
#[derive(Clone, Debug, PartialEq, Eq)]
pub struct VoteInfo {
    pub voter: String,
    pub vote: Vote,
    pub weight: u128,
}

/// A ballot, if there is one.
#[derive(Clone, Debug, PartialEq, Eq)]
pub struct VoteResponse {
    pub vote: Option<VoteInfo>,
}

/// One page of ballots.
#[derive(Clone, Debug, PartialEq, Eq)]
pub struct VotesResponse {
    pub votes: Vec<VoteInfo>,
}

/// What one address has deposited on one proposal.
#[derive(Clone, Debug, PartialEq, Eq)]
pub struct DepositResponse {
    pub proposal_id: u64,
    pub depositor: String,
    pub amount: u128,
}

/// One page of deposits.
#[derive(Clone, Debug, PartialEq, Eq)]
pub struct DepositsResponse {
    pub deposits: Vec<DepositResponse>,
}

/// A [`Denom`] with its text as a sequence.
pub enum DenomView {
    Native(Seq<char>),
    Cw20(Seq<char>),
}

/// A [`ProposalResponse`] with its texts and actions as sequences.
pub struct ProposalResponseView {
    pub id: u64,
    pub title: Seq<char>,
    pub link: Seq<char>,
    pub description: Seq<char>,
    pub proposer: Seq<char>,
    pub msgs: Seq<Msg>,
    pub status: Status,
    pub submitted_at: BlockTime,
    pub deposit_ends_at: Expiration,
    pub vote_starts_at: BlockTime,
    pub vote_ends_at: Expiration,
    pub votes: Votes,
    pub quorum: Decimal,
    pub threshold: Threshold,
    pub total_votes: u128,
    pub total_weight: u128,
    pub total_deposit: u128,
}

/// A [`VoteInfo`] with its text as a sequence.
pub struct VoteInfoView {
    pub voter: Seq<char>,
    pub vote: Vote,
    pub weight: u128,
}

/// A [`DepositResponse`] with its text as a sequence.
pub struct DepositResponseView {
    pub proposal_id: u64,
    pub depositor: Seq<char>,
    pub amount: u128,
}

impl View for Coin {
    type V = (Seq<char>, u128);

    open spec fn view(&self) -> (Seq<char>, u128) {
        (self.denom@, self.amount)
    }
}

impl View for Denom {
    type V = DenomView;

    open spec fn view(&self) -> DenomView {
        match self {
            Denom::Native(d) => DenomView::Native(d@),
            Denom::Cw20(a) => DenomView::Cw20(a@),
        }
    }
}

impl View for ProposalResponse {
    type V = ProposalResponseView;

    open spec fn view(&self) -> ProposalResponseView {
        ProposalResponseView {
            id: self.id,
            title: self.title@,
            link: self.link@,
            description: self.description@,
            proposer: self.proposer@,
            msgs: self.msgs@,
            status: self.status,
            submitted_at: self.submitted_at,
            deposit_ends_at: self.deposit_ends_at,
            vote_starts_at: self.vote_starts_at,
            vote_ends_at: self.vote_ends_at,
            votes: self.votes,
            quorum: self.quorum,
            threshold: self.threshold,
            total_votes: self.total_votes,
            total_weight: self.total_weight,
            total_deposit: self.total_deposit,
        }
    }
}

impl View for VoteInfo {
    type V = VoteInfoView;

    open spec fn view(&self) -> VoteInfoView {
        VoteInfoView { voter: self.voter@, vote: self.vote, weight: self.weight }
    }
}

impl View for DepositResponse {
    type V = DepositResponseView;

    open spec fn view(&self) -> DepositResponseView {
        DepositResponseView {
            proposal_id: self.proposal_id,
            depositor: self.depositor@,
            amount: self.amount,
        }
    }
}

impl RangeOrder {
    /// Whether the listing runs from the smallest key upwards.
    pub fn is_ascending(&self) -> (r: bool)
        ensures
            r == (*self == RangeOrder::Asc),
    {
        match self {
            RangeOrder::Asc => true,
            RangeOrder::Desc => false,
        }
    }
}

} // verus!

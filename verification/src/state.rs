//! The state of an organization: its configuration, its proposals with their
//! ballots and deposits, and the indexes that list them.

use vstd::prelude::*;
use crate::error::{ContractError, Fault, StdError, StdFault};
use crate::expiration::{Duration, Expiration};
use crate::ledger::sum_all;
use crate::proposal::{Proposal, Votes};
use crate::status::{status_code, Status, Vote};
use crate::store::OrdMap;
use crate::text::copy_text;
use crate::threshold::{threshold_fault, Threshold};

verus! {

/// The settings of an organization.
#[derive(Clone, Debug, PartialEq, Eq)]
pub struct Config {
    pub name: String,
    pub description: String,
    pub threshold: Threshold,
    pub voting_period: Duration,
    pub deposit_period: Duration,
    /// The deposit that opens the vote on a proposal.
    pub proposal_deposit: u128,
    /// The least deposit a proposal can be submitted with.
    pub proposal_min_deposit: u128,
}

/// A [`Config`] with its texts as sequences.
pub struct ConfigView {
    pub name: Seq<char>,
    pub description: Seq<char>,
    pub threshold: Threshold,
    pub voting_period: Duration,
    pub deposit_period: Duration,
    pub proposal_deposit: u128,
    pub proposal_min_deposit: u128,
}

/// A vote cast with a weight, stored under the proposal and the voter.
#[derive(Clone, Copy, Debug, PartialEq, Eq, Structural)]
pub struct Ballot {
    pub weight: u128,
    pub vote: Vote,
}

/// What one address has deposited on one proposal, and whether it has been
/// paid back.
#[derive(Clone, Copy, Debug, PartialEq, Eq, Structural)]
pub struct Deposit {
    pub amount: u128,
    pub claimed: bool,
}

/// Everything the organization keeps.
pub struct Dao {
    pub config: Config,
    /// The denomination of the governance token.
    pub gov_token: String,
    /// The address of the contract that knows the voting weights.
    pub staking_contract: String,
    /// While this has not expired, the organization takes no operations.
    pub paused: Option<Expiration>,
    /// The id of the latest proposal.
    pub proposal_count: u64,
    pub proposals: OrdMap<u64, Proposal>,
    /// Every proposal under its status.
    pub idx_props_by_status: OrdMap<(u8, u64), ()>,
    /// Every proposal under its proposer.
    pub idx_props_by_proposer: OrdMap<(String, u64), ()>,
    /// The ballots, by proposal and voter.
    pub ballots: OrdMap<(u64, String), Ballot>,
    /// The deposits, by proposal and depositor.
    pub deposits: OrdMap<(u64, String), Deposit>,
    /// Every deposit under its depositor.
    pub idx_deposits_by_depositor: OrdMap<(String, u64), ()>,
    /// The tokens of the treasury, by kind and name.
    pub treasury_tokens: OrdMap<(String, String), ()>,
}

impl View for Config {
    type V = ConfigView;

    open spec fn view(&self) -> ConfigView {
        ConfigView {
            name: self.name@,
            description: self.description@,
            threshold: self.threshold,
            voting_period: self.voting_period,
            deposit_period: self.deposit_period,
            proposal_deposit: self.proposal_deposit,
            proposal_min_deposit: self.proposal_min_deposit,
        }
    }
}

/// The periods go together: both are measured in the same unit, and the
/// deposit period is no longer than the voting period.
pub open spec fn periods_fit(voting: Duration, deposit: Duration) -> bool {
    match (voting, deposit) {
        (Duration::Height(v), Duration::Height(d)) => d <= v,
        (Duration::Time(v), Duration::Time(d)) => d <= v,
        _ => false,
    }
}

/// Why an organization cannot be set up with a configuration, if it cannot:
/// its threshold has a fault, or its periods do not go together.
pub open spec fn config_fault(c: ConfigView) -> Option<Fault> {
    if threshold_fault(c.threshold) is Some {
        threshold_fault(c.threshold)
    } else if !periods_fit(c.voting_period, c.deposit_period) {
        Some(Fault::InvalidPeriod)
    } else {
        None
    }
}

impl Config {
    /// Accepts a configuration to set an organization up with: its threshold
    /// is valid, its periods are measured in the same unit, and its deposit
    /// period is no longer than its voting period.
    pub fn validate(&self) -> (r: Result<(), ContractError>)
        ensures
            match r {
                Ok(_) => config_fault(self@) is None && self.threshold.valid(),
                Err(e) => config_fault(self@) == Some(e@),
            },
    {
        match self.threshold.validate() {
            Ok(_) => {},
            Err(e) => {
                return Err(e);
            },
        }
        let fit = match (self.voting_period, self.deposit_period) {
            (Duration::Height(v), Duration::Height(d)) => d <= v,
            (Duration::Time(v), Duration::Time(d)) => d <= v,
            _ => false,
        };
        if !fit {
            return Err(ContractError::InvalidPeriod);
        }
        Ok(())
    }

    /// A copy of this configuration.
    pub fn duplicate(&self) -> (r: Config)
        ensures
            r@ == self@,
    {
        Config {
            name: copy_text(&self.name),
            description: copy_text(&self.description),
            threshold: self.threshold,
            voting_period: self.voting_period,
            deposit_period: self.deposit_period,
            proposal_deposit: self.proposal_deposit,
            proposal_min_deposit: self.proposal_min_deposit,
        }
    }
}

impl Default for Deposit {
    fn default() -> (r: Deposit)
        ensures
            r == (Deposit { amount: 0, claimed: false }),
    {
        Deposit { amount: 0, claimed: false }
    }
}

/// The weight a ballot adds to one option of one proposal.
pub open spec fn ballot_weight(id: u64, option: Vote) -> spec_fn((u64, Seq<char>), Ballot) -> int {
    |k: (u64, Seq<char>), b: Ballot|
        if k.0 == id && b.vote == option {
            b.weight as int
        } else {
            0int
        }
}

/// The amount a deposit adds to one proposal.
pub open spec fn deposit_amount(id: u64) -> spec_fn((u64, Seq<char>), Deposit) -> int {
    |k: (u64, Seq<char>), d: Deposit|
        if k.0 == id {
            d.amount as int
        } else {
            0int
        }
}

/// The weight cast for one option of one proposal, summed over the ballots.
pub open spec fn cast_for(
    keys: Seq<(u64, Seq<char>)>,
    vals: Seq<Ballot>,
    id: u64,
    option: Vote,
) -> int {
    sum_all(keys, vals, ballot_weight(id, option))
}

/// Each bucket of the tally is the sum of the ballots cast for it.
pub open spec fn tally_matches(
    votes: Votes,
    keys: Seq<(u64, Seq<char>)>,
    vals: Seq<Ballot>,
    id: u64,
) -> bool {
    &&& votes.yes == cast_for(keys, vals, id, Vote::Yes)
    &&& votes.no == cast_for(keys, vals, id, Vote::No)
    &&& votes.abstain == cast_for(keys, vals, id, Vote::Abstain)
    &&& votes.veto == cast_for(keys, vals, id, Vote::Veto)
}

/// What is deposited on one proposal, summed over the deposits.
pub open spec fn deposited(keys: Seq<(u64, Seq<char>)>, vals: Seq<Deposit>, id: u64) -> int {
    sum_all(keys, vals, deposit_amount(id))
}

impl Dao {
    /// The collections are in order and every index lists exactly what the
    /// records say: each proposal under its stored status and under its
    /// proposer, each deposit under its depositor. No proposal has an id
    /// beyond the counter, and every token of the treasury is filed as
    /// native or as cw20.
    pub open spec fn wf(&self) -> bool {
        &&& self.proposals.wf()
        &&& self.idx_props_by_status.wf()
        &&& self.idx_props_by_proposer.wf()
        &&& self.ballots.wf()
        &&& self.deposits.wf()
        &&& self.idx_deposits_by_depositor.wf()
        &&& self.treasury_tokens.wf()
        &&& forall|s: u8, id: u64| #[trigger]
            self.idx_props_by_status.contains((s, id)) <==> (self.proposals.contains(id)
                && status_code(self.proposals.value(id).status) == s)
        &&& forall|a: Seq<char>, id: u64| #[trigger]
            self.idx_props_by_proposer.contains((a, id)) <==> (self.proposals.contains(id)
                && self.proposals.value(id).proposer@ == a)
        &&& forall|a: Seq<char>, id: u64| #[trigger]
            self.idx_deposits_by_depositor.contains((a, id)) <==> self.deposits.contains((id, a))
        &&& forall|id: u64| #[trigger] self.proposals.contains(id) ==> id <= self.proposal_count
        &&& forall|k: (Seq<char>, Seq<char>)| #[trigger]
            self.treasury_tokens.contains(k) ==> (k.0 == "native"@ || k.0 == "cw20"@)
    }

    /// The stored proposal `id` is consistent with the ledgers: its tally can
    /// be evaluated and equals the sums of its ballots, its frozen threshold
    /// is valid and its weight positive, and its total deposit is the sum of
    /// its deposits. No more than the required deposit is kept, and as long
    /// as the proposal is pending less than that. Deposits are due back only
    /// on a proposal that has been rejected or executed.
    pub open spec fn sound(&self, id: u64) -> bool {
        let p = self.proposals.value(id);
        &&& p.countable()
        &&& p.threshold.valid()
        &&& p.total_weight > 0
        &&& tally_matches(p.votes, self.ballots.key_seq(), self.ballots.val_seq(), id)
        &&& p.total_deposit == deposited(self.deposits.key_seq(), self.deposits.val_seq(), id)
        &&& p.total_deposit <= p.deposit_base_amount
        &&& p.status == Status::Pending ==> p.total_deposit < p.deposit_base_amount
        &&& p.deposit_claimable ==> (p.status == Status::Rejected || p.status == Status::Executed)
    }

    /// The state is well formed, the configured threshold is valid, every
    /// proposal is sound, and ballots and deposits exist for stored proposals
    /// only.
    pub open spec fn inv(&self) -> bool {
        &&& self.wf()
        &&& self.config.threshold.valid()
        &&& forall|id: u64| #[trigger] self.proposals.contains(id) ==> self.sound(id)
        &&& forall|id: u64, a: Seq<char>| #[trigger]
            self.ballots.contains((id, a)) ==> self.proposals.contains(id)
        &&& forall|id: u64, a: Seq<char>| #[trigger]
            self.deposits.contains((id, a)) ==> self.proposals.contains(id)
    }

    /// An organization without proposals, holding its governance token as
    /// the first token of its treasury. The threshold of the configuration
    /// has to be valid; nothing is asked of its periods here, as nothing is
    /// when the configuration is replaced later.
    pub fn new(config: Config, gov_token: String, staking_contract: String) -> (r: Result<
        Dao,
        ContractError,
    >)
        ensures
            match r {
                Ok(dao) => {
                    &&& threshold_fault(config.threshold) is None
                    &&& dao.inv()
                    &&& dao.config@ == config@
                    &&& dao.gov_token@ == gov_token@
                    &&& dao.staking_contract@ == staking_contract@
                    &&& dao.paused is None
                    &&& dao.proposal_count == 0
                    &&& dao.proposals.count() == 0
                    &&& dao.ballots.count() == 0
                    &&& dao.deposits.count() == 0
                    &&& dao.treasury_tokens.key_seq() == seq![("native"@, gov_token@)]
                },
                Err(e) => threshold_fault(config.threshold) == Some(e@),
            },
    {
        match config.threshold.validate() {
            Ok(_) => {},
            Err(e) => {
                return Err(e);
            },
        }
        let mut treasury_tokens: OrdMap<(String, String), ()> = OrdMap::new();
        treasury_tokens.set(("native".to_owned(), copy_text(&gov_token)), ());
        let dao = Dao {
            config,
            gov_token,
            staking_contract,
            paused: None,
            proposal_count: 0,
            proposals: OrdMap::new(),
            idx_props_by_status: OrdMap::new(),
            idx_props_by_proposer: OrdMap::new(),
            ballots: OrdMap::new(),
            deposits: OrdMap::new(),
            idx_deposits_by_depositor: OrdMap::new(),
            treasury_tokens,
        };
        proof {
            assert(dao.treasury_tokens.key_seq() =~= seq![("native"@, dao.gov_token@)]);
        }
        Ok(dao)
    }

    /// Sets an organization up: the configuration is checked as a whole,
    /// threshold and periods, and the organization starts without proposals,
    /// holding its governance token as the first token of its treasury.
    pub fn instantiate(config: Config, gov_token: String, staking_contract: String) -> (r: Result<
        Dao,
        ContractError,
    >)
        ensures
            match r {
                Ok(dao) => {
                    &&& config_fault(config@) is None
                    &&& dao.inv()
                    &&& dao.config@ == config@
                    &&& dao.gov_token@ == gov_token@
                    &&& dao.staking_contract@ == staking_contract@
                    &&& dao.paused is None
                    &&& dao.proposal_count == 0
                    &&& dao.proposals.count() == 0
                    &&& dao.ballots.count() == 0
                    &&& dao.deposits.count() == 0
                    &&& dao.treasury_tokens.key_seq() == seq![("native"@, gov_token@)]
                },
                Err(e) => config_fault(config@) == Some(e@),
            },
    {
        match config.validate() {
            Ok(_) => {},
            Err(e) => {
                return Err(e);
            },
        }
        Dao::new(config, gov_token, staking_contract)
    }

    /// The next proposal id: one more than the latest.
    pub fn next_id(&mut self) -> (r: Result<u64, StdError>)
        ensures
            match r {
                Ok(id) => {
                    &&& old(self).proposal_count < u64::MAX
                    &&& id == old(self).proposal_count + 1
                    &&& final(self).proposal_count == id
                },
                Err(e) => {
                    &&& old(self).proposal_count == u64::MAX
                    &&& e@ == StdFault::Overflow
                    &&& final(self).proposal_count == old(self).proposal_count
                },
            },
            final(self).config == old(self).config,
            final(self).gov_token == old(self).gov_token,
            final(self).staking_contract == old(self).staking_contract,
            final(self).paused == old(self).paused,
            final(self).proposals == old(self).proposals,
            final(self).idx_props_by_status == old(self).idx_props_by_status,
            final(self).idx_props_by_proposer == old(self).idx_props_by_proposer,
            final(self).ballots == old(self).ballots,
            final(self).deposits == old(self).deposits,
            final(self).idx_deposits_by_depositor == old(self).idx_deposits_by_depositor,
            final(self).treasury_tokens == old(self).treasury_tokens,
    {
        if self.proposal_count == u64::MAX {
            return Err(StdError::Overflow);
        }
        let id: u64 = self.proposal_count + 1;
        self.proposal_count = id;
        Ok(id)
    }
}

/// The number that eight bytes spell, the most significant byte first.
pub open spec fn be_value(bytes: Seq<u8>) -> nat
    decreases bytes.len(),
{
    if bytes.len() == 0 {
        0
    } else {
        be_value(bytes.drop_last()) * 256 + bytes.last() as nat
    }
}

/// The message of the error for a key that is too short to hold an id.
pub open spec fn corrupted_text() -> Seq<char> {
    "Corrupted data found. 8 byte expected."@
}

/// The proposal id at the start of a raw key: its first eight bytes, the most
/// significant first. A key of fewer than eight bytes is corrupted.
pub fn parse_id(data: &[u8]) -> (r: Result<u64, StdError>)
    ensures
        match r {
            Ok(id) => data@.len() >= 8 && id as nat == be_value(data@.take(8)),
            Err(e) => data@.len() < 8 && e@ == (StdFault::GenericErr { msg: corrupted_text() }),
        },
{
    if data.len() < 8 {
        return Err(StdError::generic_err("Corrupted data found. 8 byte expected."));
    }
    let mut id: u64 = 0;
    let mut i: usize = 0;
    while i < 8
        invariant
            i <= 8,
            data@.len() >= 8,
            id as nat == be_value(data@.take(i as int)),
            id < pow256(i as nat),
        decreases 8 - i,
    {
        proof {
            assert(data@.take(i + 1).drop_last() =~= data@.take(i as int));
            assert(data@.take(i + 1).last() == data@[i as int]);
            lemma_pow256(i as nat);
        }
        id = id * 256 + data[i] as u64;
        i = i + 1;
    }
    Ok(id)
}

/// 256 to the power of `n`.
pub open spec fn pow256(n: nat) -> nat
    decreases n,
{
    if n == 0 {
        1
    } else {
        256 * pow256((n - 1) as nat)
    }
}

proof fn lemma_pow256(n: nat)
    requires
        n < 8,
    ensures
        pow256(n) * 256 == pow256(n + 1),
        pow256(n + 1) <= 0x1_0000_0000_0000_0000,
        pow256(n) >= 1,
{
    reveal_with_fuel(pow256, 10);
}

} // verus!

//! Small computations shared by the operations and the queries.

use vstd::prelude::*;
use crate::decimal::{ratio, Decimal};
use crate::error::{
    oversized_message, oversized_text, PaymentError, PaymentFault, StdError, StdFault,
};
use crate::expiration::{expiry_after, reachable, BlockInfo, Duration, Expiration, Timestamp};
use crate::msg::{Coin, ProposalResponse, ProposalResponseView};
use crate::proposal::{status_at, total_of, BlockTime, Proposal, ProposalView};
use crate::status::Status;
use crate::text::copy_text;

verus! {

/// The point of expiry one `period` after `block`.
pub fn duration_to_expiry(block: &BlockTime, period: &Duration) -> (r: Expiration)
    requires
        reachable(block.height, block.time, *period),
    ensures
        r == expiry_after(block.height, block.time, *period),
{
    match period {
        Duration::Height(height) => Expiration::AtHeight(block.height + *height),
        Duration::Time(time) => Expiration::AtTime(block.time.plus_seconds(*time)),
    }
}

/// Coin `i` is the first whose denomination is not `denom`.
pub open spec fn first_other_at(funds: Seq<Coin>, denom: Seq<char>, i: int) -> bool {
    &&& 0 <= i < funds.len()
    &&& funds[i].denom@ != denom
    &&& forall|j: int| 0 <= j < i ==> (#[trigger] funds[j]).denom@ == denom
}

/// The funds can be looked at as a payment in `denom`: where several coins
/// are sent, at least one of them is of another denomination.
pub open spec fn payable(funds: Seq<Coin>, denom: Seq<char>) -> bool {
    funds.len() >= 2 ==> exists|i: int| first_other_at(funds, denom, i)
}

/// What the funds pay in `denom`: nothing when no funds are sent, the amount
/// when exactly one coin of `denom` is sent. Otherwise the payment is
/// refused, naming the first other denomination. Funds that are not payable,
/// several coins that are all of `denom`, are refused for coming in several
/// coins.
pub open spec fn payment(funds: Seq<Coin>, denom: Seq<char>) -> Result<u128, PaymentFault> {
    if funds.len() == 0 {
        Ok(0)
    } else if funds.len() == 1 && funds[0].denom@ == denom {
        Ok(funds[0].amount)
    } else if exists|i: int| first_other_at(funds, denom, i) {
        Err(PaymentFault::ExtraDenom(funds[choose|i: int| first_other_at(funds, denom, i)].denom@))
    } else {
        Err(PaymentFault::MultipleDenoms)
    }
}

/// Whether the funds can be looked at as a payment in `denom`.
pub fn is_payable(funds: &Vec<Coin>, denom: &String) -> (r: bool)
    ensures
        r == payable(funds@, denom@),
{
    if funds.len() < 2 {
        return true;
    }
    let mut i: usize = 0;
    while i < funds.len()
        invariant
            i <= funds@.len(),
            forall|j: int| 0 <= j < i ==> (#[trigger] funds@[j]).denom@ == denom@,
        decreases funds@.len() - i,
    {
        if funds[i].denom != *denom {
            assert(first_other_at(funds@, denom@, i as int));
            return true;
        }
        i = i + 1;
    }
    false
}

/// The amount of `denom` that comes with a call, where no other denomination
/// may be sent: nothing for no funds, the amount of a single coin of
/// `denom`, and otherwise a refusal that names the first other denomination.
pub fn may_pay(funds: &Vec<Coin>, denom: &String) -> (r: Result<u128, PaymentError>)
    requires
        payable(funds@, denom@),
    ensures
        match r {
            Ok(amount) => payment(funds@, denom@) == Ok::<u128, PaymentFault>(amount),
            Err(e) => payment(funds@, denom@) == Err::<u128, PaymentFault>(e@),
        },
        r matches Err(e) ==> e@ is ExtraDenom,
{
    if funds.len() == 0 {
        return Ok(0);
    }
    if funds.len() == 1 && funds[0].denom == *denom {
        return Ok(funds[0].amount);
    }
    proof {
        if funds@.len() == 1 {
            assert(first_other_at(funds@, denom@, 0));
        }
    }
    let ghost other = choose|k: int| first_other_at(funds@, denom@, k);
    let n = funds.len();
    let mut i: usize = 0;
    while funds[i].denom == *denom
        invariant
            first_other_at(funds@, denom@, other),
            i <= other,
            n == funds@.len(),
        decreases other - i,
    {
        assert(funds@[i as int].denom@ == denom@);
        assert(i < other < n);
        i = i + 1;
    }
    Err(PaymentError::ExtraDenom(copy_text(&funds[i].denom)))
}

/// What the funds of a call pay in `denom`. Funds that are not payable are
/// refused for coming in several coins.
pub fn funds_paid(funds: &Vec<Coin>, denom: &String) -> (r: Result<u128, PaymentError>)
    ensures
        match r {
            Ok(amount) => payment(funds@, denom@) == Ok::<u128, PaymentFault>(amount),
            Err(e) => payment(funds@, denom@) == Err::<u128, PaymentFault>(e@),
        },
{
    if !is_payable(funds, denom) {
        return Err(PaymentError::MultipleDenoms);
    }
    may_pay(funds, denom)
}

/// The limit of a listing: the requested one if it is at most `max`, the
/// default if none is requested. A larger request is refused.
pub fn get_and_check_limit(limit: Option<u32>, max: u32, default: u32) -> (r: Result<u32, StdError>)
    ensures
        match r {
            Ok(l) => match limit {
                Some(x) => x <= max && l == x,
                None => l == default,
            },
            Err(e) => limit matches Some(x) && x > max && e@ == (StdFault::GenericErr {
                msg: oversized_text(x as u64, max as u64),
            }),
        },
{
    match limit {
        Some(l) => {
            if l <= max {
                Ok(l)
            } else {
                Err(StdError::GenericErr { msg: oversized_message(l as u64, max as u64) })
            }
        },
        None => Ok(default),
    }
}

/// The share of the total weight that has voted, as a fraction; zero where
/// there is no weight. `None` where the fraction is too large to represent.
pub open spec fn turnout(total_votes: int, total_weight: int) -> Option<Decimal> {
    if total_weight == 0 {
        Some(Decimal { atomics: 0 })
    } else if ratio(total_votes, total_weight) <= u128::MAX {
        Some(Decimal { atomics: ratio(total_votes, total_weight) as u128 })
    } else {
        None
    }
}

/// What a query reports of a proposal at a given height and time.
pub open spec fn response_of(height: u64, time: Timestamp, id: u64, p: ProposalView) -> Result<
    ProposalResponseView,
    StdFault,
> {
    match turnout(total_of(p.votes), p.total_weight as int) {
        Some(quorum) => Ok(
            ProposalResponseView {
                id,
                title: p.title,
                link: p.link,
                description: p.description,
                proposer: p.proposer,
                msgs: p.msgs,
                status: status_at(p, height, time),
                submitted_at: p.submitted_at,
                deposit_ends_at: p.deposit_ends_at,
                vote_starts_at: p.vote_starts_at,
                vote_ends_at: p.vote_ends_at,
                votes: p.votes,
                quorum,
                threshold: p.threshold,
                total_votes: total_of(p.votes) as u128,
                total_weight: p.total_weight,
                total_deposit: p.total_deposit,
            },
        ),
        None => Err(StdFault::Overflow),
    }
}

/// A proposal as a query reports it in `block`: with the status it has there
/// and the share of the total weight that has voted.
pub fn proposal_to_response(block: &BlockInfo, id: u64, prop: Proposal) -> (r: Result<
    ProposalResponse,
    StdError,
>)
    requires
        total_of(prop.votes) <= u128::MAX,
        prop.status == Status::Open ==> prop.countable(),
    ensures
        match r {
            Ok(resp) => response_of(block.height, block.time, id, prop@) == Ok::<
                ProposalResponseView,
                StdFault,
            >(resp@),
            Err(e) => response_of(block.height, block.time, id, prop@) == Err::<
                ProposalResponseView,
                StdFault,
            >(e@),
        },
{
    let status = prop.current_status(block);
    let total_weight = prop.total_weight;
    let total_votes = prop.votes.total();
    let quorum = if total_weight == 0 {
        Decimal::zero()
    } else {
        match Decimal::checked_from_ratio(total_votes, total_weight) {
            Some(q) => q,
            None => {
                return Err(StdError::Overflow);
            },
        }
    };
    Ok(
        ProposalResponse {
            id,
            title: prop.title,
            link: prop.link,
            description: prop.description,
            proposer: prop.proposer,
            msgs: prop.msgs,
            status,
            submitted_at: prop.submitted_at,
            deposit_ends_at: prop.deposit_ends_at,
            vote_starts_at: prop.vote_starts_at,
            vote_ends_at: prop.vote_ends_at,
            votes: prop.votes,
            quorum,
            threshold: prop.threshold,
            total_votes,
            total_weight,
            total_deposit: prop.total_deposit,
        },
    )
}

} // verus!

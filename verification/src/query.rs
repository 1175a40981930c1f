//! The questions the state of an organization answers.
//!
//! A listing walks one of the ordered collections, upwards or downwards,
//! starts strictly after an optional cursor, and returns at most as many
//! entries as the limit allows.

use vstd::prelude::*;
use crate::error::{oversized_text, StdError, StdFault};
use crate::execute::{deposit_kind, proposal_kind, token_key};
use crate::expiration::BlockInfo;
use crate::helpers::{get_and_check_limit, proposal_to_response, response_of};
use crate::msg::{
    ConfigResponse, Denom, DenomView, DepositResponse, DepositResponseView, DepositsQueryOption,
    DepositsResponse, ProposalResponse, ProposalResponseView, ProposalsQueryOption,
    ProposalsResponse, RangeOrder, TokenListResponse, VoteInfo, VoteInfoView, VoteResponse,
    VotesResponse,
};
use crate::state::Dao;
use crate::status::status_code;
use crate::store::{beyond_pred, cursor_view, page, within_pred, Beyond, Within};
use crate::text::{copy_text, same_text};
use crate::{DEFAULT_LIMIT, MAX_LIMIT};

verus! {

/// The limit a listing runs with: the one asked for, or the default.
pub open spec fn limit_of(limit: Option<u32>) -> int {
    match limit {
        Some(l) => l as int,
        None => DEFAULT_LIMIT as int,
    }
}

/// Why a limit is refused, if it is: it may not exceed [`MAX_LIMIT`].
pub open spec fn limit_fault(limit: Option<u32>) -> Option<StdFault> {
    match limit {
        Some(l) => if l > MAX_LIMIT {
            Some(StdFault::GenericErr { msg: oversized_text(l as u64, MAX_LIMIT as u64) })
        } else {
            None
        },
        None => None,
    }
}

/// Whether a listing runs upwards: it does unless it is asked to run
/// downwards.
pub open spec fn ascends(order: Option<RangeOrder>) -> bool {
    order != Some(RangeOrder::Desc)
}

fn is_ascending(order: &Option<RangeOrder>) -> (r: bool)
    ensures
        r == ascends(*order),
{
    match order {
        Some(o) => o.is_ascending(),
        None => true,
    }
}

/// The keys at the given positions.
pub open spec fn items_at<T>(keys: Seq<T>, positions: Seq<int>) -> Seq<T> {
    positions.map_values(|p: int| keys[p])
}

/// The second components of the keys at the given positions.
pub open spec fn seconds_at<A, B>(keys: Seq<(A, B)>, positions: Seq<int>) -> Seq<B> {
    positions.map_values(|p: int| keys[p].1)
}

/// The keys at the given positions, with their components exchanged.
pub open spec fn swapped_at<A, B>(keys: Seq<(A, B)>, positions: Seq<int>) -> Seq<(B, A)> {
    positions.map_values(|p: int| (keys[p].1, keys[p].0))
}

/// The token that the treasury files under a key.
pub open spec fn token_of(k: (Seq<char>, Seq<char>)) -> DenomView {
    if k.0 == "native"@ {
        DenomView::Native(k.1)
    } else {
        DenomView::Cw20(k.1)
    }
}

fn token_at(dao: &Dao, i: usize) -> (r: Denom)
    requires
        dao.wf(),
        i < dao.treasury_tokens.count(),
    ensures
        r@ == token_of(dao.treasury_tokens.key_seq()[i as int]),
{
    let key = dao.treasury_tokens.key_at(i);
    let native = "native".to_owned();
    if same_text(&key.0, &native) {
        Denom::Native(copy_text(&key.1))
    } else {
        Denom::Cw20(copy_text(&key.1))
    }
}

/// The configuration, the governance token and the staking contract.
pub fn config(dao: &Dao) -> (r: Result<ConfigResponse, StdError>)
    ensures
        r matches Ok(resp) && resp.config@ == dao.config@ && resp.gov_token@ == dao.gov_token@
            && resp.staking_contract@ == dao.staking_contract@,
{
    Ok(
        ConfigResponse {
            config: dao.config.duplicate(),
            gov_token: copy_text(&dao.gov_token),
            staking_contract: copy_text(&dao.staking_contract),
        },
    )
}

/// Every token of the treasury, by kind and name.
pub fn token_list(dao: &Dao) -> (r: TokenListResponse)
    requires
        dao.wf(),
    ensures
        r.token_list@.len() == dao.treasury_tokens.count(),
        forall|i: int|
            0 <= i < r.token_list@.len() ==> (#[trigger] r.token_list@[i])@ == token_of(
                dao.treasury_tokens.key_seq()[i],
            ),
{
    let n = dao.treasury_tokens.len();
    let mut out: Vec<Denom> = Vec::new();
    let mut i: usize = 0;
    while i < n
        invariant
            dao.wf(),
            n == dao.treasury_tokens.count(),
            i <= n,
            out@.len() == i,
            forall|j: int|
                0 <= j < i ==> (#[trigger] out@[j])@ == token_of(dao.treasury_tokens.key_seq()[j]),
        decreases n - i,
    {
        out.push(token_at(dao, i));
        i = i + 1;
    }
    TokenListResponse { token_list: out }
}

/// The positions of one page of treasury tokens: without a cursor the page
/// runs over all tokens, with one over the tokens of the cursor's kind
/// beyond it.
pub open spec fn token_positions(
    dao: &Dao,
    start: Option<DenomView>,
    limit: int,
    ascending: bool,
) -> Seq<int> {
    match start {
        Some(d) => page(
            dao.treasury_tokens.key_seq(),
            within_pred::<String, String>(token_key(d).0, Some(token_key(d).1), ascending),
            limit,
            ascending,
        ),
        None => page(
            dao.treasury_tokens.key_seq(),
            beyond_pred::<(String, String)>(None, ascending),
            limit,
            ascending,
        ),
    }
}

/// One page of the tokens of the treasury, for the caller to look up their
/// balances.
pub fn token_balances(
    dao: &Dao,
    start: Option<Denom>,
    limit: Option<u32>,
    order: Option<RangeOrder>,
) -> (r: Result<Vec<Denom>, StdError>)
    requires
        dao.wf(),
    ensures
        match r {
            Ok(tokens) => {
                let positions = token_positions(
                    dao,
                    match start {
                        Some(d) => Some(d@),
                        None => None,
                    },
                    limit_of(limit),
                    ascends(order),
                );
                &&& limit_fault(limit) is None
                &&& tokens@.len() == positions.len()
                &&& forall|i: int|
                    0 <= i < tokens@.len() ==> (#[trigger] tokens@[i])@ == token_of(
                        dao.treasury_tokens.key_seq()[positions[i]],
                    )
            },
            Err(e) => limit_fault(limit) == Some(e@),
        },
{
    let cap = match get_and_check_limit(limit, MAX_LIMIT, DEFAULT_LIMIT) {
        Ok(l) => l as usize,
        Err(e) => {
            return Err(e);
        },
    };
    let ascending = is_ascending(&order);
    let positions = match &start {
        Some(d) => {
            let key = crate::execute::key_of_token(d);
            let selector = Within { prefix: key.0, cursor: Some(key.1), ascending };
            let found = dao.treasury_tokens.select(&selector, cap, ascending);
            proof {
                selector.lemma_pred();
            }
            found
        },
        None => {
            let selector: Beyond<(String, String)> = Beyond { cursor: None, ascending };
            let found = dao.treasury_tokens.select(&selector, cap, ascending);
            proof {
                selector.lemma_pred();
            }
            found
        },
    };
    let ghost wanted = positions@.map_values(|p: usize| p as int);
    let mut out: Vec<Denom> = Vec::new();
    let mut i: usize = 0;
    while i < positions.len()
        invariant
            dao.wf(),
            i <= positions@.len(),
            wanted == positions@.map_values(|p: usize| p as int),
            forall|n: int|
                0 <= n < positions@.len() ==> (#[trigger] positions@[n])
                    < dao.treasury_tokens.count(),
            out@.len() == i,
            forall|j: int|
                0 <= j < i ==> (#[trigger] out@[j])@ == token_of(
                    dao.treasury_tokens.key_seq()[wanted[j]],
                ),
        decreases positions@.len() - i,
    {
        out.push(token_at(dao, positions[i]));
        i = i + 1;
    }
    Ok(out)
}

/// The proposal `id` as it stands in `block`.
pub fn proposal(dao: &Dao, block: &BlockInfo, id: u64) -> (r: Result<ProposalResponse, StdError>)
    requires
        dao.inv(),
    ensures
        match r {
            Ok(resp) => dao.proposals.contains(id) && response_of(
                block.height,
                block.time,
                id,
                dao.proposals.value(id)@,
            ) == Ok::<ProposalResponseView, StdFault>(resp@),
            Err(e) => if dao.proposals.contains(id) {
                response_of(block.height, block.time, id, dao.proposals.value(id)@) == Err::<
                    ProposalResponseView,
                    StdFault,
                >(e@)
            } else {
                e@ == (StdFault::NotFound { kind: proposal_kind() })
            },
        },
{
    let prop = match dao.proposals.get(&id) {
        Some(p) => p.duplicate(),
        None => {
            return Err(StdError::not_found("ion_dao::proposal::Proposal"));
        },
    };
    proof {
        assert(dao.sound(id));
    }
    proposal_to_response(block, id, prop)
}

/// The ids of one page of proposals, in the order of the listing.
pub open spec fn proposal_ids(
    dao: &Dao,
    query: &ProposalsQueryOption,
    start: Option<u64>,
    limit: int,
    ascending: bool,
) -> Seq<u64> {
    match query {
        ProposalsQueryOption::FindByStatus { status } => {
            let keys = dao.idx_props_by_status.key_seq();
            seconds_at(
                keys,
                page(
                    keys,
                    within_pred::<u8, u64>(status_code(*status), start, ascending),
                    limit,
                    ascending,
                ),
            )
        },
        ProposalsQueryOption::FindByProposer { proposer } => {
            let keys = dao.idx_props_by_proposer.key_seq();
            seconds_at(
                keys,
                page(keys, within_pred::<String, u64>(proposer@, start, ascending), limit,
                    ascending),
            )
        },
        ProposalsQueryOption::Everything {  } => {
            let keys = dao.proposals.key_seq();
            items_at(keys, page(keys, beyond_pred::<u64>(start, ascending), limit, ascending))
        },
    }
}

/// One page of proposals as they stand in `block`: those of one status, those
/// of one proposer, or all, by id.
pub fn proposals(
    dao: &Dao,
    block: &BlockInfo,
    query: ProposalsQueryOption,
    start: Option<u64>,
    limit: Option<u32>,
    order: Option<RangeOrder>,
) -> (r: Result<ProposalsResponse, StdError>)
    requires
        dao.inv(),
    ensures
        match r {
            Ok(resp) => {
                let ids = proposal_ids(dao, &query, start, limit_of(limit), ascends(order));
                &&& limit_fault(limit) is None
                &&& resp.proposals@.len() == ids.len()
                &&& forall|i: int|
                    0 <= i < ids.len() ==> dao.proposals.contains(ids[i]) && response_of(
                        block.height,
                        block.time,
                        ids[i],
                        dao.proposals.value(ids[i])@,
                    ) == Ok::<ProposalResponseView, StdFault>((#[trigger] resp.proposals@[i])@)
            },
            Err(e) => {
                let ids = proposal_ids(dao, &query, start, limit_of(limit), ascends(order));
                if limit_fault(limit) is Some {
                    limit_fault(limit) == Some(e@)
                } else {
                    exists|i: int|
                        0 <= i < ids.len() && #[trigger] response_of(
                            block.height,
                            block.time,
                            ids[i],
                            dao.proposals.value(ids[i])@,
                        ) == Err::<ProposalResponseView, StdFault>(e@)
                }
            },
        },
{
    let cap = match get_and_check_limit(limit, MAX_LIMIT, DEFAULT_LIMIT) {
        Ok(l) => l as usize,
        Err(e) => {
            return Err(e);
        },
    };
    let ascending = is_ascending(&order);
    let mut ids: Vec<u64> = Vec::new();
    match &query {
        ProposalsQueryOption::FindByStatus { status } => {
            let selector = Within { prefix: status.code(), cursor: start, ascending };
            let positions = dao.idx_props_by_status.select(&selector, cap, ascending);
            let ghost keys = dao.idx_props_by_status.key_seq();
            let ghost wanted = positions@.map_values(|p: usize| p as int);
            proof {
                selector.lemma_pred();
                assert(cursor_view(selector.cursor) == start);
            }
            let mut i: usize = 0;
            while i < positions.len()
                invariant
                    dao.wf(),
                    i <= positions@.len(),
                    keys == dao.idx_props_by_status.key_seq(),
                    wanted == positions@.map_values(|p: usize| p as int),
                    forall|n: int|
                        0 <= n < positions@.len() ==> (#[trigger] positions@[n])
                            < dao.idx_props_by_status.count(),
                    ids@ == seconds_at(keys, wanted.take(i as int)),
                decreases positions@.len() - i,
            {
                ids.push(dao.idx_props_by_status.key_at(positions[i]).1);
                assert(ids@ =~= seconds_at(keys, wanted.take(i + 1)));
                i = i + 1;
            }
            proof {
                assert(wanted.take(wanted.len() as int) =~= wanted);
                assert(ids@ == proposal_ids(dao, &query, start, cap as int, ascending));
                assert forall|j: int| 0 <= j < ids@.len() implies dao.proposals.contains(
                    #[trigger] ids@[j],
                ) by {
                    dao.idx_props_by_status.lemma_position(wanted[j]);
                    assert(dao.idx_props_by_status.contains((keys[wanted[j]].0,
                        keys[wanted[j]].1)));
                }
            }
        },
        ProposalsQueryOption::FindByProposer { proposer } => {
            let selector = Within { prefix: copy_text(proposer), cursor: start, ascending };
            let positions = dao.idx_props_by_proposer.select(&selector, cap, ascending);
            let ghost keys = dao.idx_props_by_proposer.key_seq();
            let ghost wanted = positions@.map_values(|p: usize| p as int);
            proof {
                selector.lemma_pred();
                assert(cursor_view(selector.cursor) == start);
            }
            let mut i: usize = 0;
            while i < positions.len()
                invariant
                    dao.wf(),
                    i <= positions@.len(),
                    keys == dao.idx_props_by_proposer.key_seq(),
                    wanted == positions@.map_values(|p: usize| p as int),
                    forall|n: int|
                        0 <= n < positions@.len() ==> (#[trigger] positions@[n])
                            < dao.idx_props_by_proposer.count(),
                    ids@ == seconds_at(keys, wanted.take(i as int)),
                decreases positions@.len() - i,
            {
                ids.push(dao.idx_props_by_proposer.key_at(positions[i]).1);
                assert(ids@ =~= seconds_at(keys, wanted.take(i + 1)));
                i = i + 1;
            }
            proof {
                assert(wanted.take(wanted.len() as int) =~= wanted);
                assert(ids@ == proposal_ids(dao, &query, start, cap as int, ascending));
                assert forall|j: int| 0 <= j < ids@.len() implies dao.proposals.contains(
                    #[trigger] ids@[j],
                ) by {
                    dao.idx_props_by_proposer.lemma_position(wanted[j]);
                    assert(dao.idx_props_by_proposer.contains(
                        (keys[wanted[j]].0, keys[wanted[j]].1),
                    ));
                }
            }
        },
        ProposalsQueryOption::Everything {  } => {
            let selector = Beyond { cursor: start, ascending };
            let positions = dao.proposals.select(&selector, cap, ascending);
            let ghost keys = dao.proposals.key_seq();
            let ghost wanted = positions@.map_values(|p: usize| p as int);
            proof {
                selector.lemma_pred();
                assert(cursor_view(selector.cursor) == start);
            }
            let mut i: usize = 0;
            while i < positions.len()
                invariant
                    dao.wf(),
                    i <= positions@.len(),
                    keys == dao.proposals.key_seq(),
                    wanted == positions@.map_values(|p: usize| p as int),
                    forall|n: int|
                        0 <= n < positions@.len() ==> (#[trigger] positions@[n])
                            < dao.proposals.count(),
                    ids@ == items_at(keys, wanted.take(i as int)),
                decreases positions@.len() - i,
            {
                ids.push(*dao.proposals.key_at(positions[i]));
                assert(ids@ =~= items_at(keys, wanted.take(i + 1)));
                i = i + 1;
            }
            proof {
                assert(wanted.take(wanted.len() as int) =~= wanted);
                assert(ids@ == proposal_ids(dao, &query, start, cap as int, ascending));
                assert forall|j: int| 0 <= j < ids@.len() implies dao.proposals.contains(
                    #[trigger] ids@[j],
                ) by {
                    dao.proposals.lemma_position(wanted[j]);
                }
            }
        },
    }
    let mut out: Vec<ProposalResponse> = Vec::new();
    let mut i: usize = 0;
    while i < ids.len()
        invariant
            dao.inv(),
            i <= ids@.len(),
            out@.len() == i,
            limit_fault(limit) is None,
            ids@ == proposal_ids(dao, &query, start, limit_of(limit), ascends(order)),
            forall|j: int| 0 <= j < ids@.len() ==> dao.proposals.contains(#[trigger] ids@[j]),
            forall|j: int|
                0 <= j < i ==> response_of(
                    block.height,
                    block.time,
                    ids@[j],
                    dao.proposals.value(ids@[j])@,
                ) == Ok::<ProposalResponseView, StdFault>((#[trigger] out@[j])@),
        decreases ids@.len() - i,
    {
        let id = ids[i];
        let prop = match dao.proposals.get(&id) {
            Some(p) => p.duplicate(),
            None => {
                return Err(StdError::Overflow);
            },
        };
        proof {
            assert(dao.sound(id));
        }
        match proposal_to_response(block, id, prop) {
            Ok(resp) => {
                out.push(resp);
            },
            Err(e) => {
                proof {
                    let listed = proposal_ids(dao, &query, start, limit_of(limit), ascends(order));
                    assert(response_of(
                        block.height,
                        block.time,
                        listed[i as int],
                        dao.proposals.value(listed[i as int])@,
                    ) == Err::<ProposalResponseView, StdFault>(e@));
                }
                return Err(e);
            },
        }
        i = i + 1;
    }
    Ok(ProposalsResponse { proposals: out })
}

/// The number of proposals.
pub fn proposal_count(dao: &Dao) -> (r: u64)
    requires
        dao.wf(),
    ensures
        r == dao.proposals.count(),
{
    dao.proposals.len() as u64
}

/// The ballot of `voter` on proposal `proposal_id`, if there is one.
pub fn vote(dao: &Dao, proposal_id: u64, voter: String) -> (r: Result<VoteResponse, StdError>)
    requires
        dao.wf(),
    ensures
        r matches Ok(resp) && match resp.vote {
            Some(info) => {
                &&& dao.ballots.contains((proposal_id, voter@))
                &&& info@ == (VoteInfoView {
                    voter: voter@,
                    vote: dao.ballots.value((proposal_id, voter@)).vote,
                    weight: dao.ballots.value((proposal_id, voter@)).weight,
                })
            },
            None => !dao.ballots.contains((proposal_id, voter@)),
        },
{
    let key = (proposal_id, copy_text(&voter));
    let info = match dao.ballots.get(&key) {
        Some(b) => Some(VoteInfo { voter, vote: b.vote, weight: b.weight }),
        None => None,
    };
    Ok(VoteResponse { vote: info })
}

/// The positions of one page of the ballots on a proposal, by voter.
pub open spec fn vote_positions(
    dao: &Dao,
    proposal_id: u64,
    start: Option<Seq<char>>,
    limit: int,
    ascending: bool,
) -> Seq<int> {
    page(
        dao.ballots.key_seq(),
        within_pred::<u64, String>(proposal_id, start, ascending),
        limit,
        ascending,
    )
}

/// The view of an optional text.
pub open spec fn text_view(s: Option<String>) -> Option<Seq<char>> {
    match s {
        Some(t) => Some(t@),
        None => None,
    }
}

/// One page of the ballots on proposal `proposal_id`, by voter.
pub fn votes(
    dao: &Dao,
    proposal_id: u64,
    start: Option<String>,
    limit: Option<u32>,
    order: Option<RangeOrder>,
) -> (r: Result<VotesResponse, StdError>)
    requires
        dao.wf(),
    ensures
        match r {
            Ok(resp) => {
                let positions = vote_positions(
                    dao,
                    proposal_id,
                    text_view(start),
                    limit_of(limit),
                    ascends(order),
                );
                &&& limit_fault(limit) is None
                &&& resp.votes@.len() == positions.len()
                &&& forall|i: int|
                    0 <= i < positions.len() ==> (#[trigger] resp.votes@[i])@ == (VoteInfoView {
                        voter: dao.ballots.key_seq()[positions[i]].1,
                        vote: dao.ballots.val_seq()[positions[i]].vote,
                        weight: dao.ballots.val_seq()[positions[i]].weight,
                    })
            },
            Err(e) => limit_fault(limit) == Some(e@),
        },
{
    let cap = match get_and_check_limit(limit, MAX_LIMIT, DEFAULT_LIMIT) {
        Ok(l) => l as usize,
        Err(e) => {
            return Err(e);
        },
    };
    let ascending = is_ascending(&order);
    let ghost cursor = text_view(start);
    let selector = Within { prefix: proposal_id, cursor: start, ascending };
    let positions = dao.ballots.select(&selector, cap, ascending);
    let ghost wanted = positions@.map_values(|p: usize| p as int);
    proof {
        selector.lemma_pred();
        assert(cursor_view(selector.cursor) == cursor);
        assert(wanted == vote_positions(dao, proposal_id, cursor, cap as int, ascending));
    }
    let mut out: Vec<VoteInfo> = Vec::new();
    let mut i: usize = 0;
    while i < positions.len()
        invariant
            dao.wf(),
            i <= positions@.len(),
            wanted == positions@.map_values(|p: usize| p as int),
            forall|n: int|
                0 <= n < positions@.len() ==> (#[trigger] positions@[n]) < dao.ballots.count(),
            out@.len() == i,
            forall|j: int|
                0 <= j < i ==> (#[trigger] out@[j])@ == (VoteInfoView {
                    voter: dao.ballots.key_seq()[wanted[j]].1,
                    vote: dao.ballots.val_seq()[wanted[j]].vote,
                    weight: dao.ballots.val_seq()[wanted[j]].weight,
                }),
        decreases positions@.len() - i,
    {
        let at = positions[i];
        let ballot = dao.ballots.val_at(at);
        out.push(
            VoteInfo {
                voter: copy_text(&dao.ballots.key_at(at).1),
                vote: ballot.vote,
                weight: ballot.weight,
            },
        );
        i = i + 1;
    }
    Ok(VotesResponse { votes: out })
}

/// What `depositor` has deposited on proposal `proposal_id`.
pub fn deposit(dao: &Dao, proposal_id: u64, depositor: String) -> (r: Result<
    DepositResponse,
    StdError,
>)
    requires
        dao.wf(),
    ensures
        match r {
            Ok(resp) => {
                &&& dao.deposits.contains((proposal_id, depositor@))
                &&& resp@ == (DepositResponseView {
                    proposal_id,
                    depositor: depositor@,
                    amount: dao.deposits.value((proposal_id, depositor@)).amount,
                })
            },
            Err(e) => !dao.deposits.contains((proposal_id, depositor@)) && e@ == (
            StdFault::NotFound { kind: deposit_kind() }),
        },
{
    let key = (proposal_id, copy_text(&depositor));
    match dao.deposits.get(&key) {
        Some(d) => Ok(DepositResponse { proposal_id, depositor, amount: d.amount }),
        None => Err(StdError::not_found("ion_dao::state::Deposit")),
    }
}

/// The keys, in the ledger of deposits, of one page of the deposits on one
/// proposal, by depositor.
pub open spec fn deposit_keys_by_proposal(
    dao: &Dao,
    proposal_id: u64,
    start: Option<Seq<char>>,
    limit: int,
    ascending: bool,
) -> Seq<(u64, Seq<char>)> {
    let keys = dao.deposits.key_seq();
    items_at(
        keys,
        page(keys, within_pred::<u64, String>(proposal_id, start, ascending), limit, ascending),
    )
}

/// The keys, in the ledger of deposits, of one page of the deposits of one
/// depositor, by proposal.
pub open spec fn deposit_keys_by_depositor(
    dao: &Dao,
    depositor: Seq<char>,
    start: Option<u64>,
    limit: int,
    ascending: bool,
) -> Seq<(u64, Seq<char>)> {
    let keys = dao.idx_deposits_by_depositor.key_seq();
    swapped_at(
        keys,
        page(keys, within_pred::<String, u64>(depositor, start, ascending), limit, ascending),
    )
}

/// The keys of one page of all deposits, by proposal and depositor.
pub open spec fn deposit_keys_all(
    dao: &Dao,
    start: Option<(u64, Seq<char>)>,
    limit: int,
    ascending: bool,
) -> Seq<(u64, Seq<char>)> {
    let keys = dao.deposits.key_seq();
    items_at(keys, page(keys, beyond_pred::<(u64, String)>(start, ascending), limit, ascending))
}

/// The keys, in the ledger of deposits, of one page of deposits: those on one
/// proposal by depositor, those of one depositor by proposal, or all, by
/// proposal and depositor.
pub open spec fn deposit_keys(
    dao: &Dao,
    query: &DepositsQueryOption,
    limit: int,
    ascending: bool,
) -> Seq<(u64, Seq<char>)> {
    match query {
        DepositsQueryOption::FindByProposal { proposal_id, start } => deposit_keys_by_proposal(
            dao,
            *proposal_id,
            text_view(*start),
            limit,
            ascending,
        ),
        DepositsQueryOption::FindByDepositor { depositor, start } => deposit_keys_by_depositor(
            dao,
            depositor@,
            *start,
            limit,
            ascending,
        ),
        DepositsQueryOption::Everything { start } => deposit_keys_all(
            dao,
            cursor_view(*start),
            limit,
            ascending,
        ),
    }
}

/// The answers list what is deposited under each of the keys, in order.
pub open spec fn lists_deposits(
    dao: &Dao,
    keys: Seq<(u64, Seq<char>)>,
    answers: Seq<DepositResponse>,
) -> bool {
    &&& answers.len() == keys.len()
    &&& forall|i: int| 0 <= i < keys.len() ==> dao.deposits.contains(#[trigger] keys[i])
    &&& forall|i: int|
        0 <= i < keys.len() ==> (#[trigger] answers[i])@ == (DepositResponseView {
            proposal_id: keys[i].0,
            depositor: keys[i].1,
            amount: dao.deposits.value(keys[i]).amount,
        })
}

/// A listing stays one when an answer is added for one more key.
proof fn lemma_lists_one_more(
    dao: &Dao,
    keys: Seq<(u64, Seq<char>)>,
    answers: Seq<DepositResponse>,
    k: (u64, Seq<char>),
    item: DepositResponse,
)
    requires
        lists_deposits(dao, keys, answers),
        dao.deposits.contains(k),
        item@ == (DepositResponseView {
            proposal_id: k.0,
            depositor: k.1,
            amount: dao.deposits.value(k).amount,
        }),
    ensures
        lists_deposits(dao, keys.push(k), answers.push(item)),
{
    let keys2 = keys.push(k);
    let answers2 = answers.push(item);
    assert forall|i: int| 0 <= i < keys2.len() implies dao.deposits.contains(
        #[trigger] keys2[i],
    ) by {
        if i < keys.len() {
            assert(keys2[i] == keys[i]);
        }
    }
    assert forall|i: int| 0 <= i < keys2.len() implies (#[trigger] answers2[i])@ == (
    DepositResponseView {
        proposal_id: keys2[i].0,
        depositor: keys2[i].1,
        amount: dao.deposits.value(keys2[i]).amount,
    }) by {
        if i < keys.len() {
            assert(answers2[i] == answers[i]);
            assert(keys2[i] == keys[i]);
        }
    }
}

/// The deposits at the given positions of the ledger.
fn deposits_at(dao: &Dao, positions: &Vec<usize>) -> (r: Vec<DepositResponse>)
    requires
        dao.wf(),
        forall|n: int|
            0 <= n < positions@.len() ==> (#[trigger] positions@[n]) < dao.deposits.count(),
    ensures
        lists_deposits(
            dao,
            items_at(dao.deposits.key_seq(), positions@.map_values(|p: usize| p as int)),
            r@,
        ),
{
    let ghost keys = dao.deposits.key_seq();
    let ghost wanted = positions@.map_values(|p: usize| p as int);
    let mut out: Vec<DepositResponse> = Vec::new();
    let mut i: usize = 0;
    while i < positions.len()
        invariant
            dao.wf(),
            i <= positions@.len(),
            keys == dao.deposits.key_seq(),
            wanted == positions@.map_values(|p: usize| p as int),
            forall|n: int|
                0 <= n < positions@.len() ==> (#[trigger] positions@[n]) < dao.deposits.count(),
            lists_deposits(dao, items_at(keys, wanted.take(i as int)), out@),
        decreases positions@.len() - i,
    {
        let at = positions[i];
        let ghost before = out@;
        proof {
            dao.deposits.lemma_position(at as int);
        }
        let key = dao.deposits.key_at(at);
        let item = DepositResponse {
            proposal_id: key.0,
            depositor: copy_text(&key.1),
            amount: dao.deposits.val_at(at).amount,
        };
        out.push(item);
        proof {
            lemma_lists_one_more(
                dao,
                items_at(keys, wanted.take(i as int)),
                before,
                keys[at as int],
                item,
            );
            assert(items_at(keys, wanted.take(i + 1)) =~= items_at(
                keys,
                wanted.take(i as int),
            ).push(keys[at as int]));
        }
        i = i + 1;
    }
    proof {
        assert(wanted.take(wanted.len() as int) =~= wanted);
    }
    out
}

/// What is deposited under the keys at the given positions of the index by
/// depositor.
fn deposits_indexed_at(dao: &Dao, positions: &Vec<usize>) -> (r: Vec<DepositResponse>)
    requires
        dao.wf(),
        forall|n: int|
            0 <= n < positions@.len() ==> (#[trigger] positions@[n])
                < dao.idx_deposits_by_depositor.count(),
    ensures
        lists_deposits(
            dao,
            swapped_at(
                dao.idx_deposits_by_depositor.key_seq(),
                positions@.map_values(|p: usize| p as int),
            ),
            r@,
        ),
{
    let ghost keys = dao.idx_deposits_by_depositor.key_seq();
    let ghost wanted = positions@.map_values(|p: usize| p as int);
    let mut out: Vec<DepositResponse> = Vec::new();
    let mut i: usize = 0;
    while i < positions.len()
        invariant
            dao.wf(),
            i <= positions@.len(),
            keys == dao.idx_deposits_by_depositor.key_seq(),
            wanted == positions@.map_values(|p: usize| p as int),
            forall|n: int|
                0 <= n < positions@.len() ==> (#[trigger] positions@[n])
                    < dao.idx_deposits_by_depositor.count(),
            lists_deposits(dao, swapped_at(keys, wanted.take(i as int)), out@),
        decreases positions@.len() - i,
    {
        let at = positions[i];
        let ghost before = out@;
        proof {
            dao.idx_deposits_by_depositor.lemma_position(at as int);
            assert(dao.idx_deposits_by_depositor.contains((keys[at as int].0, keys[at as int].1)));
            assert(dao.deposits.contains((keys[at as int].1, keys[at as int].0)));
        }
        let key = dao.idx_deposits_by_depositor.key_at(at);
        let entry = (key.1, copy_text(&key.0));
        let amount = match dao.deposits.get(&entry) {
            Some(d) => d.amount,
            None => 0,
        };
        let item = DepositResponse { proposal_id: entry.0, depositor: entry.1, amount };
        out.push(item);
        proof {
            lemma_lists_one_more(
                dao,
                swapped_at(keys, wanted.take(i as int)),
                before,
                (keys[at as int].1, keys[at as int].0),
                item,
            );
            assert(swapped_at(keys, wanted.take(i + 1)) =~= swapped_at(
                keys,
                wanted.take(i as int),
            ).push((keys[at as int].1, keys[at as int].0)));
        }
        i = i + 1;
    }
    proof {
        assert(wanted.take(wanted.len() as int) =~= wanted);
    }
    out
}

/// One page of deposits.
pub fn deposits(
    dao: &Dao,
    query: DepositsQueryOption,
    limit: Option<u32>,
    order: Option<RangeOrder>,
) -> (r: Result<DepositsResponse, StdError>)
    requires
        dao.wf(),
    ensures
        match r {
            Ok(resp) => {
                &&& limit_fault(limit) is None
                &&& lists_deposits(
                    dao,
                    deposit_keys(dao, &query, limit_of(limit), ascends(order)),
                    resp.deposits@,
                )
            },
            Err(e) => limit_fault(limit) == Some(e@),
        },
{
    let cap = match get_and_check_limit(limit, MAX_LIMIT, DEFAULT_LIMIT) {
        Ok(l) => l as usize,
        Err(e) => {
            return Err(e);
        },
    };
    let ascending = is_ascending(&order);
    let out = match &query {
        DepositsQueryOption::FindByProposal { proposal_id, start } => {
            let cursor = match start {
                Some(s) => Some(copy_text(s)),
                None => None,
            };
            let selector = Within { prefix: *proposal_id, cursor, ascending };
            let positions = dao.deposits.select(&selector, cap, ascending);
            proof {
                selector.lemma_pred();
                assert(cursor_view(selector.cursor) == text_view(*start));
            }
            deposits_at(dao, &positions)
        },
        DepositsQueryOption::FindByDepositor { depositor, start } => {
            let selector = Within { prefix: copy_text(depositor), cursor: *start, ascending };
            let positions = dao.idx_deposits_by_depositor.select(&selector, cap, ascending);
            proof {
                selector.lemma_pred();
                assert(cursor_view(selector.cursor) == *start);
            }
            deposits_indexed_at(dao, &positions)
        },
        DepositsQueryOption::Everything { start } => {
            let cursor = match start {
                Some(c) => Some((c.0, copy_text(&c.1))),
                None => None,
            };
            let selector = Beyond { cursor, ascending };
            let positions = dao.deposits.select(&selector, cap, ascending);
            proof {
                selector.lemma_pred();
                assert(cursor_view(selector.cursor) == cursor_view(*start));
            }
            deposits_at(dao, &positions)
        },
    };
    Ok(DepositsResponse { deposits: out })
}

} // verus!

//! The actions a proposal carries.
//!
//! The engine never looks into an action: it stores the batch with the
//! proposal and hands it back when the proposal is executed.

use vstd::prelude::*;

verus! {

/// `CosmosMsg` of cosmwasm_std: a message for the chain to carry out. Nothing
/// is known of what is inside.
#[verifier::external_type_specification]
#[verifier::external_body]
#[verifier::reject_recursive_types(T)]
pub struct ExCosmosMsg<T>(cosmwasm_std::CosmosMsg<T>);

/// `OsmosisMsg` of osmo_bindings: the messages that only this chain knows.
/// Nothing is known of what is inside.
#[verifier::external_type_specification]
#[verifier::external_body]
pub struct ExOsmosisMsg(osmo_bindings::OsmosisMsg);

/// One action of a proposal.
pub type Msg = cosmwasm_std::CosmosMsg<osmo_bindings::OsmosisMsg>;

/// `Clone::clone` of `CosmosMsg` on the actions of this chain, which
/// cosmwasm_std and osmo_bindings derive down to the last field: the copy
/// equals the action it was made from.
#[verifier::external_body]
pub(crate) fn copy_msg(m: &Msg) -> (r: Msg)
    ensures
        r == *m,
{
    m.clone()
}

/// A copy of a batch of actions.
pub fn clone_msgs(msgs: &Vec<Msg>) -> (r: Vec<Msg>)
    ensures
        r@ == msgs@,
{
    let mut out: Vec<Msg> = Vec::new();
    let mut i: usize = 0;
    while i < msgs.len()
        invariant
            i <= msgs@.len(),
            out@ == msgs@.take(i as int),
        decreases msgs@.len() - i,
    {
        out.push(copy_msg(&msgs[i]));
        assert(out@ =~= msgs@.take(i + 1));
        i = i + 1;
    }
    assert(msgs@.take(msgs@.len() as int) =~= msgs@);
    out
}

} // verus!

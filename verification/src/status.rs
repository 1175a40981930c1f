//! The stages of a proposal's life and the options of a ballot.

use vstd::prelude::*;

verus! {

/// Where a proposal stands in its life cycle.
#[derive(Clone, Copy, Debug, PartialEq, Eq, Structural)]
pub enum Status {
    /// Submitted, still collecting its deposit.
    Pending,
    /// Voting is under way.
    Open,
    /// Voting is over and the proposal failed, or its deposit was never met.
    Rejected,
    /// Voting is over and the proposal passed; it awaits execution.
    Passed,
    /// The proposal passed and its actions were handed out.
    Executed,
}

/// The option a voter chooses.
#[derive(Clone, Copy, Debug, PartialEq, Eq, Structural)]
pub enum Vote {
    /// Supports the proposal.
    Yes,
    /// Opposes the proposal.
    No,
    /// Takes part without an opinion; counts towards the quorum only.
    Abstain,
    /// Opposes the proposal and asks for its deposit to be withheld.
    Veto,
}

/// The number under which a status is filed in the index of proposals.
pub open spec fn status_code(s: Status) -> u8 {
    match s {
        Status::Pending => 1,
        Status::Open => 2,
        Status::Rejected => 3,
        Status::Passed => 4,
        Status::Executed => 5,
    }
}

/// The name of a status.
pub open spec fn status_text(s: Status) -> Seq<char> {
    match s {
        Status::Pending => "Pending"@,
        Status::Open => "Open"@,
        Status::Rejected => "Rejected"@,
        Status::Passed => "Passed"@,
        Status::Executed => "Executed"@,
    }
}

/// The name of a ballot option.
pub open spec fn vote_text(v: Vote) -> Seq<char> {
    match v {
        Vote::Yes => "Yes"@,
        Vote::No => "No"@,
        Vote::Abstain => "Abstain"@,
        Vote::Veto => "Veto"@,
    }
}

/// Distinct statuses are filed under distinct numbers.
pub proof fn lemma_status_code_injective(a: Status, b: Status)
    ensures
        status_code(a) == status_code(b) <==> a == b,
{
}

impl Status {
    /// The number under which this status is filed in the index.
    pub fn code(&self) -> (r: u8)
        ensures
            r == status_code(*self),
    {
        match self {
            Status::Pending => 1,
            Status::Open => 2,
            Status::Rejected => 3,
            Status::Passed => 4,
            Status::Executed => 5,
        }
    }

    /// The name of this status.
    pub fn name(&self) -> (r: String)
        ensures
            r@ == status_text(*self),
    {
        match self {
            Status::Pending => "Pending".to_owned(),
            Status::Open => "Open".to_owned(),
            Status::Rejected => "Rejected".to_owned(),
            Status::Passed => "Passed".to_owned(),
            Status::Executed => "Executed".to_owned(),
        }
    }
}

impl Vote {
    /// The name of this option.
    pub fn name(&self) -> (r: String)
        ensures
            r@ == vote_text(*self),
    {
        match self {
            Vote::Yes => "Yes".to_owned(),
            Vote::No => "No".to_owned(),
            Vote::Abstain => "Abstain".to_owned(),
            Vote::Veto => "Veto".to_owned(),
        }
    }
}

} // verus!

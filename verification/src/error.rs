//! The errors of the engine.

use vstd::prelude::*;
use vstd::string::*;
use crate::text::{decimal_text, u64_to_string};

verus! {

/// Errors of the storage and arithmetic layer.
#[derive(Clone, Debug, PartialEq, Eq)]
pub enum StdError {
    /// A record that was asked for by its key does not exist.
    NotFound { kind: String },
    /// Any other failure, with its message.
    GenericErr { msg: String },
    /// An amount left the range of its type.
    Overflow,
    /// A division by zero was asked for.
    DivideByZero,
}

/// Errors in the funds that come with a call.
#[derive(Clone, Debug, PartialEq, Eq)]
pub enum PaymentError {
    MissingDenom(String),
    ExtraDenom(String),
    MultipleDenoms,
    NoFunds,
    NonPayable,
}

/// Everything an operation of the engine can refuse with.
#[derive(Clone, Debug, PartialEq, Eq)]
pub enum ContractError {
    Std(StdError),
    InstantiateGovTokenError,
    InitialBalancesError,
    ZeroThreshold,
    UnreachableThreshold,
    InvalidPeriod,
    InvalidCw20 { addr: String },
    Unauthorized,
    Payment(PaymentError),
    NotOpen,
    Expired,
    NotExpired,
    WrongExpiration,
    AlreadyVoted,
    InvalidProposalStatus { current: String, desired: String },
    LackOfStakes,
    WrongDepositStatus,
    WrongExecuteStatus,
    WrongCloseStatus,
    DepositNotClaimable,
    DepositAlreadyClaimed,
    UnknownReplyId { id: u64 },
    OversizedRequest { size: u64, max: u64 },
    Paused,
}

/// What a [`StdError`] says.
pub enum StdFault {
    NotFound { kind: Seq<char> },
    GenericErr { msg: Seq<char> },
    Overflow,
    DivideByZero,
}

/// What a [`PaymentError`] says.
pub enum PaymentFault {
    MissingDenom(Seq<char>),
    ExtraDenom(Seq<char>),
    MultipleDenoms,
    NoFunds,
    NonPayable,
}

/// What a [`ContractError`] says.
pub enum Fault {
    Std(StdFault),
    InstantiateGovTokenError,
    InitialBalancesError,
    ZeroThreshold,
    UnreachableThreshold,
    InvalidPeriod,
    InvalidCw20 { addr: Seq<char> },
    Unauthorized,
    Payment(PaymentFault),
    NotOpen,
    Expired,
    NotExpired,
    WrongExpiration,
    AlreadyVoted,
    InvalidProposalStatus { current: Seq<char>, desired: Seq<char> },
    LackOfStakes,
    WrongDepositStatus,
    WrongExecuteStatus,
    WrongCloseStatus,
    DepositNotClaimable,
    DepositAlreadyClaimed,
    UnknownReplyId { id: u64 },
    OversizedRequest { size: u64, max: u64 },
    Paused,
}

impl View for StdError {
    type V = StdFault;

    open spec fn view(&self) -> StdFault {
        match self {
            StdError::NotFound { kind } => StdFault::NotFound { kind: kind@ },
            StdError::GenericErr { msg } => StdFault::GenericErr { msg: msg@ },
            StdError::Overflow => StdFault::Overflow,
            StdError::DivideByZero => StdFault::DivideByZero,
        }
    }
}

impl View for PaymentError {
    type V = PaymentFault;

    open spec fn view(&self) -> PaymentFault {
        match self {
            PaymentError::MissingDenom(d) => PaymentFault::MissingDenom(d@),
            PaymentError::ExtraDenom(d) => PaymentFault::ExtraDenom(d@),
            PaymentError::MultipleDenoms => PaymentFault::MultipleDenoms,
            PaymentError::NoFunds => PaymentFault::NoFunds,
            PaymentError::NonPayable => PaymentFault::NonPayable,
        }
    }
}

impl View for ContractError {
    type V = Fault;

    open spec fn view(&self) -> Fault {
        match self {
            ContractError::Std(e) => Fault::Std(e@),
            ContractError::InstantiateGovTokenError => Fault::InstantiateGovTokenError,
            ContractError::InitialBalancesError => Fault::InitialBalancesError,
            ContractError::ZeroThreshold => Fault::ZeroThreshold,
            ContractError::UnreachableThreshold => Fault::UnreachableThreshold,
            ContractError::InvalidPeriod => Fault::InvalidPeriod,
            ContractError::InvalidCw20 { addr } => Fault::InvalidCw20 { addr: addr@ },
            ContractError::Unauthorized => Fault::Unauthorized,
            ContractError::Payment(e) => Fault::Payment(e@),
            ContractError::NotOpen => Fault::NotOpen,
            ContractError::Expired => Fault::Expired,
            ContractError::NotExpired => Fault::NotExpired,
            ContractError::WrongExpiration => Fault::WrongExpiration,
            ContractError::AlreadyVoted => Fault::AlreadyVoted,
            ContractError::InvalidProposalStatus { current, desired } => {
                Fault::InvalidProposalStatus { current: current@, desired: desired@ }
            },
            ContractError::LackOfStakes => Fault::LackOfStakes,
            ContractError::WrongDepositStatus => Fault::WrongDepositStatus,
            ContractError::WrongExecuteStatus => Fault::WrongExecuteStatus,
            ContractError::WrongCloseStatus => Fault::WrongCloseStatus,
            ContractError::DepositNotClaimable => Fault::DepositNotClaimable,
            ContractError::DepositAlreadyClaimed => Fault::DepositAlreadyClaimed,
            ContractError::UnknownReplyId { id } => Fault::UnknownReplyId { id: *id },
            ContractError::OversizedRequest { size, max } => Fault::OversizedRequest {
                size: *size,
                max: *max,
            },
            ContractError::Paused => Fault::Paused,
        }
    }
}

/// The message of a [`StdError`].
pub open spec fn std_fault_text(f: StdFault) -> Seq<char> {
    match f {
        StdFault::NotFound { kind } => kind + " not found"@,
        StdFault::GenericErr { msg } => "Generic error: "@ + msg,
        StdFault::Overflow => "Overflow"@,
        StdFault::DivideByZero => "Divide by zero"@,
    }
}

/// The message of a [`PaymentError`].
pub open spec fn payment_fault_text(f: PaymentFault) -> Seq<char> {
    match f {
        PaymentFault::MissingDenom(d) => "Must send reserve token '"@ + d + "'"@,
        PaymentFault::ExtraDenom(d) => "Received unsupported denom '"@ + d + "'"@,
        PaymentFault::MultipleDenoms => "Sent more than one denomination"@,
        PaymentFault::NoFunds => "No funds sent"@,
        PaymentFault::NonPayable => "This message does no accept funds"@,
    }
}

/// The message of a request that asks for more than the limit allows.
pub open spec fn oversized_text(size: u64, max: u64) -> Seq<char> {
    "Request size ("@ + decimal_text(size as nat) + ") is above limit of ("@ + decimal_text(
        max as nat,
    ) + ")"@
}

/// The message of a [`ContractError`].
pub open spec fn fault_text(f: Fault) -> Seq<char> {
    match f {
        Fault::Std(e) => std_fault_text(e),
        Fault::InstantiateGovTokenError => "Failed to instantiate governance token"@,
        Fault::InitialBalancesError => "Initial governance token balances must not be empty"@,
        Fault::ZeroThreshold => "Required threshold cannot be zero"@,
        Fault::UnreachableThreshold => "Not possible to reach required (passing) threshold"@,
        Fault::InvalidPeriod => "Invalid voting / deposit period"@,
        Fault::InvalidCw20 { addr } => "Cw20 contract invalid address '"@ + addr + "'"@,
        Fault::Unauthorized => "Unauthorized"@,
        Fault::Payment(e) => payment_fault_text(e),
        Fault::NotOpen => "Proposal is not open"@,
        Fault::Expired => "Proposal voting period has expired"@,
        Fault::NotExpired => "Proposal must expire before you can close it"@,
        Fault::WrongExpiration => "Wrong expiration option"@,
        Fault::AlreadyVoted => "Already voted on this proposal"@,
        Fault::InvalidProposalStatus { current, desired } => "Invalid proposal status. current: "@
            + current + ", desired: "@ + desired,
        Fault::LackOfStakes => "Total staked amount is too low"@,
        Fault::WrongDepositStatus => "Cannot deposit to non-pended proposals"@,
        Fault::WrongExecuteStatus => "Cannot execute completed or unpassed proposals"@,
        Fault::WrongCloseStatus => "Cannot close completed or passed proposals"@,
        Fault::DepositNotClaimable => "Deposit not claimable"@,
        Fault::DepositAlreadyClaimed => "Deposit already claimed"@,
        Fault::UnknownReplyId { id } => "Got a submessage reply with unknown id: "@ + decimal_text(
            id as nat,
        ),
        Fault::OversizedRequest { size, max } => oversized_text(size, max),
        Fault::Paused => "DAO is paused"@,
    }
}

impl StdError {
    /// The error of a missing record of the given kind.
    pub fn not_found(kind: &str) -> (r: StdError)
        ensures
            r@ == (StdFault::NotFound { kind: kind@ }),
    {
        StdError::NotFound { kind: kind.to_owned() }
    }

    /// An error with a free-form message.
    pub fn generic_err(msg: &str) -> (r: StdError)
        ensures
            r@ == (StdFault::GenericErr { msg: msg@ }),
    {
        StdError::GenericErr { msg: msg.to_owned() }
    }

    /// The message of this error.
    pub fn to_string(&self) -> (r: String)
        ensures
            r@ == std_fault_text(self@),
    {
        match self {
            StdError::NotFound { kind } => kind.clone().concat(" not found"),
            StdError::GenericErr { msg } => "Generic error: ".to_owned().concat(msg.as_str()),
            StdError::Overflow => "Overflow".to_owned(),
            StdError::DivideByZero => "Divide by zero".to_owned(),
        }
    }
}

impl PaymentError {
    /// The message of this error.
    pub fn to_string(&self) -> (r: String)
        ensures
            r@ == payment_fault_text(self@),
    {
        match self {
            PaymentError::MissingDenom(d) => "Must send reserve token '".to_owned().concat(
                d.as_str(),
            ).concat("'"),
            PaymentError::ExtraDenom(d) => "Received unsupported denom '".to_owned().concat(
                d.as_str(),
            ).concat("'"),
            PaymentError::MultipleDenoms => "Sent more than one denomination".to_owned(),
            PaymentError::NoFunds => "No funds sent".to_owned(),
            PaymentError::NonPayable => "This message does no accept funds".to_owned(),
        }
    }
}

/// The message of a request of `size` items where `max` is the limit.
pub fn oversized_message(size: u64, max: u64) -> (r: String)
    ensures
        r@ == oversized_text(size, max),
{
    let a = u64_to_string(size);
    let b = u64_to_string(max);
    "Request size (".to_owned().concat(a.as_str()).concat(") is above limit of (").concat(
        b.as_str(),
    ).concat(")")
}

impl ContractError {
    /// The message of this error.
    pub fn to_string(&self) -> (r: String)
        ensures
            r@ == fault_text(self@),
    {
        match self {
            ContractError::Std(e) => e.to_string(),
            ContractError::InstantiateGovTokenError => {
                "Failed to instantiate governance token".to_owned()
            },
            ContractError::InitialBalancesError => {
                "Initial governance token balances must not be empty".to_owned()
            },
            ContractError::ZeroThreshold => "Required threshold cannot be zero".to_owned(),
            ContractError::UnreachableThreshold => {
                "Not possible to reach required (passing) threshold".to_owned()
            },
            ContractError::InvalidPeriod => "Invalid voting / deposit period".to_owned(),
            ContractError::InvalidCw20 { addr } => "Cw20 contract invalid address '".to_owned().concat(
                addr.as_str(),
            ).concat("'"),
            ContractError::Unauthorized => "Unauthorized".to_owned(),
            ContractError::Payment(e) => e.to_string(),
            ContractError::NotOpen => "Proposal is not open".to_owned(),
            ContractError::Expired => "Proposal voting period has expired".to_owned(),
            ContractError::NotExpired => "Proposal must expire before you can close it".to_owned(),
            ContractError::WrongExpiration => "Wrong expiration option".to_owned(),
            ContractError::AlreadyVoted => "Already voted on this proposal".to_owned(),
            ContractError::InvalidProposalStatus { current, desired } => {
                "Invalid proposal status. current: ".to_owned().concat(current.as_str()).concat(
                    ", desired: ",
                ).concat(desired.as_str())
            },
            ContractError::LackOfStakes => "Total staked amount is too low".to_owned(),
            ContractError::WrongDepositStatus => "Cannot deposit to non-pended proposals".to_owned(),
            ContractError::WrongExecuteStatus => {
                "Cannot execute completed or unpassed proposals".to_owned()
            },
            ContractError::WrongCloseStatus => {
                "Cannot close completed or passed proposals".to_owned()
            },
            ContractError::DepositNotClaimable => "Deposit not claimable".to_owned(),
            ContractError::DepositAlreadyClaimed => "Deposit already claimed".to_owned(),
            ContractError::UnknownReplyId { id } => {
                let n = u64_to_string(*id);
                "Got a submessage reply with unknown id: ".to_owned().concat(n.as_str())
            },
            ContractError::OversizedRequest { size, max } => oversized_message(*size, *max),
            ContractError::Paused => "DAO is paused".to_owned(),
        }
    }
}

} // verus!

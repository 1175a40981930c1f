//! The three fractions that decide a vote.

use vstd::prelude::*;
use crate::decimal::{Decimal, DECIMAL_ONE, ratio};
use crate::error::{ContractError, Fault};

verus! {

/// The fractions a proposal has to meet: `threshold` of the opinions must be
/// yes, `quorum` of the total weight must take part, and fewer than
/// `veto_threshold` of the total weight may veto.
#[derive(Clone, Copy, Debug, PartialEq, Eq, Structural)]
pub struct Threshold {
    pub threshold: Decimal,
    pub quorum: Decimal,
    pub veto_threshold: Decimal,
}

/// Why a fraction cannot serve as a requirement, if it cannot: it must be
/// more than zero and at most one.
pub open spec fn percentage_fault(percent: Decimal) -> Option<Fault> {
    if percent.atomics == 0 {
        Some(Fault::ZeroThreshold)
    } else if percent.atomics > DECIMAL_ONE {
        Some(Fault::UnreachableThreshold)
    } else {
        None
    }
}

/// The fault of the first fraction that has one, in the order threshold,
/// quorum, veto threshold.
pub open spec fn threshold_fault(t: Threshold) -> Option<Fault> {
    if percentage_fault(t.threshold) is Some {
        percentage_fault(t.threshold)
    } else if percentage_fault(t.quorum) is Some {
        percentage_fault(t.quorum)
    } else {
        percentage_fault(t.veto_threshold)
    }
}

/// The threshold in use where none is given: one half to pass, one third to
/// take part, one third to veto.
pub open spec fn default_threshold() -> Threshold {
    Threshold {
        threshold: Decimal { atomics: 500_000_000_000_000_000 },
        quorum: Decimal { atomics: 333_333_333_333_333_333 },
        veto_threshold: Decimal { atomics: 333_333_333_333_333_333 },
    }
}

impl Threshold {
    /// All three fractions are more than zero and at most one.
    pub open spec fn valid(&self) -> bool {
        &&& 0 < self.threshold.atomics <= DECIMAL_ONE
        &&& 0 < self.quorum.atomics <= DECIMAL_ONE
        &&& 0 < self.veto_threshold.atomics <= DECIMAL_ONE
    }

    /// Accepts the threshold if each of its fractions is more than zero and
    /// at most one.
    pub fn validate(&self) -> (r: Result<(), ContractError>)
        ensures
            match r {
                Ok(_) => threshold_fault(*self) is None && self.valid(),
                Err(e) => threshold_fault(*self) == Some(e@) && !self.valid(),
            },
    {
        match valid_percentage(&self.threshold) {
            Ok(_) => {},
            Err(e) => {
                return Err(e);
            },
        }
        match valid_percentage(&self.quorum) {
            Ok(_) => {},
            Err(e) => {
                return Err(e);
            },
        }
        valid_percentage(&self.veto_threshold)
    }
}

impl Default for Threshold {
    /// One half to pass, one third to take part, one third to veto.
    fn default() -> (r: Threshold)
        ensures
            r == default_threshold(),
            r.threshold.atomics == ratio(1, 2),
            r.quorum.atomics == ratio(1, 3),
            r.veto_threshold.atomics == ratio(1, 3),
            r.valid(),
    {
        Threshold {
            threshold: Decimal::from_ratio(1, 2),
            quorum: Decimal::from_ratio(1, 3),
            veto_threshold: Decimal::from_ratio(1, 3),
        }
    }
}

/// Accepts a fraction that is more than zero and at most one.
pub fn valid_percentage(percent: &Decimal) -> (r: Result<(), ContractError>)
    ensures
        match r {
            Ok(_) => percentage_fault(*percent) is None,
            Err(e) => percentage_fault(*percent) == Some(e@),
        },
{
    if percent.is_zero() {
        Err(ContractError::ZeroThreshold)
    } else if percent.atomics > DECIMAL_ONE {
        Err(ContractError::UnreachableThreshold)
    } else {
        Ok(())
    }
}

} // verus!

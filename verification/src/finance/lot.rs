//! Forfeited amounts on their way to a distribution.

use super::terms::{FinancialTerms, ProgramError};
use crate::primitives::amounts::{CanonicalTime, Money, SettlementUnit};
use crate::primitives::ids::{AnnualDistributionId, FinancialEventId, PaymentOperationId};
use vstd::prelude::*;

verus! {

#[derive(Clone, Copy, Debug, PartialEq, Eq)]
pub struct Forfeiture {
    pub id: PaymentOperationId,
    pub amount: Money,
    pub unit: SettlementUnit,
    pub forfeited_at: CanonicalTime,
    pub requires_review: bool,
    pub terms: FinancialTerms,
}

impl Forfeiture {
    /// Whether two forfeitures are the same.
    pub fn same(&self, other: &Self) -> (same: bool)
        ensures
            same == (*self == *other),
    {
        self.id == other.id && self.amount == other.amount && self.unit == other.unit
            && self.forfeited_at == other.forfeited_at && self.requires_review
            == other.requires_review && self.terms.same(&other.terms)
    }

    /// The first time at which the amount is mature.
    pub open spec fn matures_at(&self) -> int {
        self.forfeited_at.0 + self.terms.maturity_delay.0
    }
}

#[derive(Clone, Copy, Debug, PartialEq, Eq, Structural)]
pub struct MaturityClearance {
    pub at: CanonicalTime,
    pub evidence: FinancialEventId,
}

#[derive(Clone, Copy, Debug, PartialEq, Eq, Structural)]
pub enum LotLifecycle {
    Pending { held: bool },
    Cleared(MaturityClearance),
    Assessed { clearance: MaturityClearance, distribution: AnnualDistributionId },
}

#[derive(Clone, Copy, Debug, PartialEq, Eq)]
pub struct ForfeitureLot {
    pub source: Forfeiture,
    pub lifecycle: LotLifecycle,
}

impl ForfeitureLot {
    /// The lot held or released, unless it has been assessed.
    pub open spec fn held(self, held: bool) -> Result<Self, ProgramError> {
        if self.lifecycle is Assessed {
            Err(ProgramError::ClosedPeriod)
        } else {
            Ok(ForfeitureLot { lifecycle: LotLifecycle::Pending { held }, ..self })
        }
    }

    /// The lot cleared, if nothing stands against it.
    pub open spec fn cleared(self, evidence: FinancialEventId, at: CanonicalTime) -> Result<
        Self,
        ProgramError,
    > {
        if self.lifecycle == (LotLifecycle::Pending { held: true }) || self.lifecycle is Assessed
            || evidence.0 == 0 {
            Err(ProgramError::InsufficientEvidence)
        } else if self.source.matures_at() > u64::MAX {
            Err(ProgramError::ArithmeticOverflow)
        } else if at.0 < self.source.matures_at() {
            Err(ProgramError::TooEarly)
        } else {
            Ok(
                ForfeitureLot {
                    lifecycle: LotLifecycle::Cleared(MaturityClearance { at, evidence }),
                    ..self
                },
            )
        }
    }

    /// Whether the lot was cleared before a cutoff and not assessed since.
    pub open spec fn eligible(self, cutoff: CanonicalTime) -> bool {
        self.lifecycle matches LotLifecycle::Cleared(clearance) && clearance.at.0 < cutoff.0
    }

    /// The lot assessed in a distribution, if it is cleared.
    pub open spec fn assessed(self, distribution: AnnualDistributionId) -> Result<
        Self,
        ProgramError,
    > {
        match self.lifecycle {
            LotLifecycle::Cleared(clearance) => Ok(
                ForfeitureLot {
                    lifecycle: LotLifecycle::Assessed { clearance, distribution },
                    ..self
                },
            ),
            _ => Err(ProgramError::InsufficientEvidence),
        }
    }

    /// Refuses changes to a lot already assessed in a distribution.
    pub fn set_hold(&mut self, held: bool) -> (result: Result<(), ProgramError>)
        ensures
            match old(self).held(held) {
                Ok(next) => result is Ok && *final(self) == next,
                Err(e) => result == Err::<(), ProgramError>(e) && *final(self) == *old(self),
            },
    {
        match self.lifecycle {
            LotLifecycle::Assessed { .. } => Err(ProgramError::ClosedPeriod),
            _ => {
                self.lifecycle = LotLifecycle::Pending { held };
                Ok(())
            },
        }
    }

    /// Refuses held, immature, assessed, or unidentified clearance evidence.
    pub fn clear(&mut self, evidence: FinancialEventId, at: CanonicalTime) -> (result: Result<
        (),
        ProgramError,
    >)
        ensures
            match old(self).cleared(evidence, at) {
                Ok(next) => result is Ok && *final(self) == next,
                Err(e) => result == Err::<(), ProgramError>(e) && *final(self) == *old(self),
            },
    {
        if matches!(
            self.lifecycle,
            LotLifecycle::Pending { held: true } | LotLifecycle::Assessed { .. }
        ) || evidence.0 == 0 {
            return Err(ProgramError::InsufficientEvidence);
        }
        let mature = match self.source.forfeited_at.checked_add(self.source.terms.maturity_delay) {
            Some(time) => time,
            None => return Err(ProgramError::ArithmeticOverflow),
        };
        if at.0 < mature.0 {
            return Err(ProgramError::TooEarly);
        }
        self.lifecycle = LotLifecycle::Cleared(MaturityClearance { at, evidence });
        Ok(())
    }

    pub fn eligible_at(&self, cutoff: CanonicalTime) -> (eligible: bool)
        ensures
            eligible == self.eligible(cutoff),
    {
        match self.lifecycle {
            LotLifecycle::Cleared(clearance) => clearance.at.0 < cutoff.0,
            _ => false,
        }
    }

    /// Requires a cleared lot that has not already been assessed.
    pub fn assess(&mut self, distribution: AnnualDistributionId) -> (result: Result<
        (),
        ProgramError,
    >)
        ensures
            match old(self).assessed(distribution) {
                Ok(next) => result is Ok && *final(self) == next,
                Err(e) => result == Err::<(), ProgramError>(e) && *final(self) == *old(self),
            },
    {
        match self.lifecycle {
            LotLifecycle::Cleared(clearance) => {
                self.lifecycle = LotLifecycle::Assessed { clearance, distribution };
                Ok(())
            },
            _ => Err(ProgramError::InsufficientEvidence),
        }
    }
}

/// A lot is assessed once: no hold, clearance or second assessment touches it afterwards, and it
/// is eligible for no later distribution.
pub proof fn assessed_lots_are_closed(
    lot: ForfeitureLot,
    held: bool,
    evidence: FinancialEventId,
    at: CanonicalTime,
    distribution: AnnualDistributionId,
    cutoff: CanonicalTime,
)
    requires
        lot.lifecycle is Assessed,
    ensures
        lot.held(held) is Err,
        lot.cleared(evidence, at) is Err,
        lot.assessed(distribution) is Err,
        !lot.eligible(cutoff),
{
}

} // verus!

//! Annual distributions: their calendar, terms and results.

use super::terms::ProgramError;
use crate::primitives::amounts::{CanonicalTime, Duration, Money};
use crate::primitives::calendar::{calendar_date, date_time};
use crate::primitives::ids::{AnnualDistributionId, MemberId, PaymentOperationId};
use crate::primitives::versions::PolicyVersion;
use vstd::prelude::*;

verus! {

#[derive(Clone, Copy, Debug, PartialEq, Eq, Structural)]
pub struct EligibilityPolicy {
    pub version: PolicyVersion,
    pub minimum_tenure: Duration,
    pub minimum_active_days: u32,
}

/// Published reporting and payment terms, independent of subscription renewal.
#[derive(Clone, Copy, Debug, PartialEq, Eq, Structural)]
pub struct DistributionTerms {
    pub version: PolicyVersion,
    pub utility_charge: Money,
    pub due_at: CanonicalTime,
}

impl DistributionTerms {
    /// Refuses unversioned terms and terms without a charge.
    pub fn new(version: PolicyVersion, utility_charge: Money, due_at: CanonicalTime) -> (result:
        Result<Self, ProgramError>)
        ensures
            result == (if version.0 == 0 || utility_charge.0 == 0 {
                Err(ProgramError::InvalidPolicy)
            } else {
                Ok(DistributionTerms { version, utility_charge, due_at })
            }),
    {
        if version.0 == 0 || utility_charge.is_zero() {
            return Err(ProgramError::InvalidPolicy);
        }
        Ok(DistributionTerms { version, utility_charge, due_at })
    }

    pub fn version(&self) -> (version: PolicyVersion)
        ensures
            version == self.version,
    {
        self.version
    }

    pub fn utility_charge(&self) -> (charge: Money)
        ensures
            charge == self.utility_charge,
    {
        self.utility_charge
    }

    pub fn due_at(&self) -> (due: CanonicalTime)
        ensures
            due == self.due_at,
    {
        self.due_at
    }
}

#[derive(Clone, Copy, Debug, PartialEq, Eq, Structural)]
pub struct AnnualDistributionSchedule {
    pub id: AnnualDistributionId,
    pub start: CanonicalTime,
    pub cutoff: CanonicalTime,
    pub eligibility: EligibilityPolicy,
    pub payment: DistributionTerms,
}

/// The schedule of a calendar year, if it may be one: the year and the next are supported, some
/// activity is asked for, and payment is not due before the year ends.
pub open spec fn year_schedule(
    year: int,
    eligibility: EligibilityPolicy,
    payment: DistributionTerms,
) -> Option<AnnualDistributionSchedule> {
    match (date_time(year, 1, 1), date_time(year + 1, 1, 1)) {
        (Some(start), Some(cutoff)) => if eligibility.minimum_active_days == 0 || payment.due_at.0
            < cutoff.0 {
            None
        } else {
            Some(
                AnnualDistributionSchedule {
                    id: AnnualDistributionId(year as u128),
                    start,
                    cutoff,
                    eligibility,
                    payment,
                },
            )
        },
        _ => None,
    }
}

impl AnnualDistributionSchedule {
    /// The schedule is exactly that of the calendar year it names.
    pub open spec fn calendar_year(&self) -> bool {
        &&& self.id.0 <= u16::MAX
        &&& year_schedule(self.id.0 as int, self.eligibility, self.payment) == Some(*self)
    }

    /// Constructs an exact Gregorian calendar year in UTC milliseconds. Invalid calendar values,
    /// eligibility thresholds and due dates are refused.
    pub fn utc(year: u16, eligibility: EligibilityPolicy, payment: DistributionTerms) -> (result:
        Result<Self, ProgramError>)
        ensures
            result == (match year_schedule(year as int, eligibility, payment) {
                Some(schedule) => Ok(schedule),
                None => Err(ProgramError::InvalidPolicy),
            }),
    {
        if eligibility.minimum_active_days == 0 {
            return Err(ProgramError::InvalidPolicy);
        }
        let start = match calendar_date(year, 1, 1) {
            Some(time) => time,
            None => return Err(ProgramError::InvalidPolicy),
        };
        let next = match year.checked_add(1) {
            Some(next) => next,
            None => return Err(ProgramError::InvalidPolicy),
        };
        let cutoff = match calendar_date(next, 1, 1) {
            Some(time) => time,
            None => return Err(ProgramError::InvalidPolicy),
        };
        if payment.due_at.0 < cutoff.0 {
            return Err(ProgramError::InvalidPolicy);
        }
        Ok(
            AnnualDistributionSchedule {
                id: AnnualDistributionId(year as u128),
                start,
                cutoff,
                eligibility,
                payment,
            },
        )
    }

    pub(crate) fn is_calendar_year(&self) -> (exact: bool)
        ensures
            exact == self.calendar_year(),
    {
        if self.id.0 > 65535 {
            return false;
        }
        match Self::utc(self.id.0 as u16, self.eligibility, self.payment) {
            Ok(expected) => expected == *self,
            Err(_) => false,
        }
    }
}

/// A calendar year's schedule starts before it closes, closes before it is due, and leaves a whole
/// number of days between.
pub proof fn year_schedules_are_ordered(schedule: AnnualDistributionSchedule)
    requires
        schedule.calendar_year(),
    ensures
        schedule.start.0 < schedule.cutoff.0 <= schedule.payment.due_at.0,
        schedule.start.0 % 86_400_000 == 0 && schedule.cutoff.0 % 86_400_000 == 0,
        schedule.cutoff.0 - schedule.start.0 == crate::primitives::calendar::year_days(
            schedule.id.0 as int,
        ) * 86_400_000,
{
    let year = schedule.id.0 as int;
    crate::primitives::calendar::dates_fit(year, 1, 1);
    crate::primitives::calendar::dates_fit(year + 1, 1, 1);
}

/// What a distribution decided.
#[derive(Debug, PartialEq, Eq)]
pub struct AnnualAllocation {
    pub schedule: AnnualDistributionSchedule,
    pub finalized_at: CanonicalTime,
    pub members: Vec<MemberId>,
    pub funding: Vec<PaymentOperationId>,
    pub newly_eligible: Money,
    pub corporate_share: Money,
    pub member_contribution: Money,
    pub each: Money,
    pub remainder: Money,
}

pub ghost struct AllocationModel {
    pub schedule: AnnualDistributionSchedule,
    pub finalized_at: CanonicalTime,
    pub members: Seq<MemberId>,
    pub funding: Seq<PaymentOperationId>,
    pub newly_eligible: Money,
    pub corporate_share: Money,
    pub member_contribution: Money,
    pub each: Money,
    pub remainder: Money,
}

impl View for AnnualAllocation {
    type V = AllocationModel;

    open spec fn view(&self) -> AllocationModel {
        AllocationModel {
            schedule: self.schedule,
            finalized_at: self.finalized_at,
            members: self.members@,
            funding: self.funding@,
            newly_eligible: self.newly_eligible,
            corporate_share: self.corporate_share,
            member_contribution: self.member_contribution,
            each: self.each,
            remainder: self.remainder,
        }
    }
}

impl Clone for AnnualAllocation {
    fn clone(&self) -> (copy: Self)
        ensures
            copy@ == self@,
    {
        AnnualAllocation {
            schedule: self.schedule,
            finalized_at: self.finalized_at,
            members: self.members.clone(),
            funding: self.funding.clone(),
            newly_eligible: self.newly_eligible,
            corporate_share: self.corporate_share,
            member_contribution: self.member_contribution,
            each: self.each,
            remainder: self.remainder,
        }
    }
}

/// A distribution is for one calendar year: from its first of January to that of the next year, under
/// the year's number, with some activity asked for and payment due after the year.
pub proof fn distributions_are_for_calendar_years(
    year: int,
    eligibility: EligibilityPolicy,
    payment: DistributionTerms,
)
    requires
        0 <= year <= u16::MAX,
    ensures
        ({
            let result = year_schedule(year, eligibility, payment);
            let schedule = result->Some_0;
            &&& result is Some <==> 1970 <= year <= 9998 && eligibility.minimum_active_days > 0
                && payment.due_at.0 >= date_time(year + 1, 1, 1)->Some_0.0
            &&& result is Some ==> {
                &&& schedule.id.0 == year
                &&& Some(schedule.start) == date_time(year, 1, 1)
                &&& Some(schedule.cutoff) == date_time(year + 1, 1, 1)
                &&& schedule.eligibility == eligibility
                &&& schedule.payment == payment
            }
        }),
{
}

} // verus!

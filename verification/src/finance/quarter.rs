//! Calendar quarters.

use super::distribution::EligibilityPolicy;
use super::terms::ProgramError;
use crate::primitives::amounts::{CanonicalTime, Money};
use crate::primitives::calendar::{calendar_date, date_millis, date_time};
use crate::primitives::ids::{MemberId, PaymentOperationId, QuarterId};
use vstd::prelude::*;

verus! {

#[derive(Clone, Copy, Debug, PartialEq, Eq, Structural)]
pub struct QuarterSchedule {
    pub id: QuarterId,
    pub start: CanonicalTime,
    pub cutoff: CanonicalTime,
    pub eligibility: EligibilityPolicy,
}

/// Midnight at the start of a quarter; the fifth is the first of the next year.
pub open spec fn quarter_start(year: int, quarter: int) -> int {
    if quarter == 5 {
        date_millis(year + 1, 1, 1)
    } else {
        date_millis(year, 3 * quarter - 2, 1)
    }
}

/// The schedule of a calendar quarter, if it may be one.
pub open spec fn quarter_schedule(
    year: int,
    quarter: int,
    eligibility: EligibilityPolicy,
) -> Option<QuarterSchedule> {
    if 1970 <= year <= 9998 && 1 <= quarter <= 4 && eligibility.minimum_active_days != 0 {
        Some(
            QuarterSchedule {
                id: QuarterId((year * 4 + quarter) as u128),
                start: CanonicalTime(quarter_start(year, quarter) as u64),
                cutoff: CanonicalTime(quarter_start(year, quarter + 1) as u64),
                eligibility,
            },
        )
    } else {
        None
    }
}

impl QuarterSchedule {
    /// The schedule is exactly that of the calendar quarter it names.
    pub open spec fn calendar_quarter(&self) -> bool {
        &&& 1 <= self.id.0 <= 4 * 65536
        &&& quarter_schedule(
            ((self.id.0 - 1) / 4) as int,
            (self.id.0 - 1) % 4 + 1,
            self.eligibility,
        ) == Some(*self)
    }

    /// Constructs an exact Gregorian calendar quarter in UTC milliseconds. Invalid calendar values
    /// and eligibility thresholds are refused.
    pub fn utc(year: u16, quarter: u8, eligibility: EligibilityPolicy) -> (result: Result<
        Self,
        ProgramError,
    >)
        ensures
            result == (match quarter_schedule(year as int, quarter as int, eligibility) {
                Some(schedule) => Ok(schedule),
                None => Err(ProgramError::InvalidPolicy),
            }),
    {
        if year < 1970 || year > 9998 || quarter < 1 || quarter > 4
            || eligibility.minimum_active_days == 0 {
            return Err(ProgramError::InvalidPolicy);
        }
        let start = match calendar_date(year, 3 * quarter - 2, 1) {
            Some(time) => time,
            None => return Err(ProgramError::InvalidPolicy),
        };
        let end = if quarter == 4 {
            calendar_date(year + 1, 1, 1)
        } else {
            calendar_date(year, 3 * quarter + 1, 1)
        };
        let cutoff = match end {
            Some(time) => time,
            None => return Err(ProgramError::InvalidPolicy),
        };
        Ok(
            QuarterSchedule {
                id: QuarterId(year as u128 * 4 + quarter as u128),
                start,
                cutoff,
                eligibility,
            },
        )
    }

    /// Whether the schedule is exactly that of the calendar quarter it names.
    pub fn is_calendar_quarter(&self) -> (exact: bool)
        ensures
            exact == self.calendar_quarter(),
    {
        if self.id.0 == 0 {
            return false;
        }
        let index: u128 = self.id.0 - 1;
        if index / 4 > 65535 {
            return false;
        }
        let quarter: u8 = (index % 4 + 1) as u8;
        match Self::utc((index / 4) as u16, quarter, self.eligibility) {
            Ok(expected) => expected == *self,
            Err(_) => false,
        }
    }
}

/// Quarters follow one another without a gap, within a year and from one year to the next.
pub proof fn quarters_are_adjacent(year: int, quarter: int, eligibility: EligibilityPolicy)
    requires
        quarter_schedule(year, quarter, eligibility) is Some,
    ensures
        ({
            let this = quarter_schedule(year, quarter, eligibility)->Some_0;
            let next = if quarter < 4 {
                quarter_schedule(year, quarter + 1, eligibility)
            } else {
                quarter_schedule(year + 1, 1, eligibility)
            };
            &&& quarter < 4 || year < 9998 ==> next is Some
            &&& next is Some ==> next->Some_0.start == this.cutoff && next->Some_0.id.0
                == this.id.0 + 1
        }),
{
}

/// What a quarter decided.
#[derive(Clone, Debug, PartialEq, Eq)]
pub struct QuarterAllocation {
    pub schedule: QuarterSchedule,
    pub finalized_at: CanonicalTime,
    pub members: Vec<MemberId>,
    pub funding: Vec<PaymentOperationId>,
    pub newly_eligible: Money,
    pub corporate_share: Money,
    pub member_contribution: Money,
    pub each: Money,
    pub remainder: Money,
}

/// A quarter runs from the first of January, April, July or October to the first of the month three
/// months on, in the years from 1970 to 9998; its number is four times the year and its place in it.
pub proof fn quarters_are_three_months(year: int, quarter: int, eligibility: EligibilityPolicy)
    ensures
        ({
            let result = quarter_schedule(year, quarter, eligibility);
            let schedule = result->Some_0;
            &&& result is Some <==> 1970 <= year <= 9998 && 1 <= quarter <= 4
                && eligibility.minimum_active_days > 0
            &&& result is Some ==> {
                &&& Some(schedule.start) == if quarter == 1 {
                    date_time(year, 1, 1)
                } else if quarter == 2 {
                    date_time(year, 4, 1)
                } else if quarter == 3 {
                    date_time(year, 7, 1)
                } else {
                    date_time(year, 10, 1)
                }
                &&& Some(schedule.cutoff) == if quarter == 1 {
                    date_time(year, 4, 1)
                } else if quarter == 2 {
                    date_time(year, 7, 1)
                } else if quarter == 3 {
                    date_time(year, 10, 1)
                } else {
                    date_time(year + 1, 1, 1)
                }
                &&& schedule.id.0 == year * 4 + quarter
                &&& schedule.eligibility == eligibility
            }
        }),
{
}

} // verus!

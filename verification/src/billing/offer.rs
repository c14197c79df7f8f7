//! Service periods and the published terms of service.

use crate::finance::payments::PaymentError;
use crate::primitives::amounts::{CanonicalTime, Money, SettlementUnit};
use crate::primitives::calendar::{calendar_date, date_time, dates_are_ordered, dates_fit};
use crate::primitives::versions::PolicyVersion;
use vstd::prelude::*;

verus! {

#[derive(Clone, Copy, Debug, PartialEq, Eq, Structural)]
pub enum BillingError {
    ServiceNotCovered,
    InvalidSchedule,
    Conflict,
    Overflow,
    TooEarly,
    MissingRecord,
    Payment(PaymentError),
}

impl From<PaymentError> for BillingError {
    fn from(e: PaymentError) -> (error: Self) {
        BillingError::Payment(e)
    }
}

impl vstd::std_specs::convert::FromSpecImpl<PaymentError> for BillingError {
    open spec fn obeys_from_spec() -> bool {
        true
    }

    open spec fn from_spec(e: PaymentError) -> Self {
        BillingError::Payment(e)
    }
}

#[derive(Clone, Copy, Debug, PartialEq, Eq, Structural)]
pub enum LeapDayRule {
    February28,
    March1,
}

#[derive(Clone, Copy, Debug, PartialEq, Eq, Structural)]
pub struct PeriodAnchor {
    pub year: u16,
    pub month: u8,
    pub day: u8,
    pub leap_day: LeapDayRule,
}

/// A calendar-year or anniversary-year interval with an explicit leap-day convention.
#[derive(Clone, Copy, Debug, PartialEq, Eq, Structural)]
pub struct ServicePeriod {
    pub anchor: PeriodAnchor,
    pub start: CanonicalTime,
    pub end: CanonicalTime,
}

/// The day of a year on which an anniversary falls: the day itself, or what the rule puts in the
/// place of a leap day.
pub open spec fn anniversary(year: int, month: int, day: int, rule: LeapDayRule) -> Option<
    CanonicalTime,
> {
    match date_time(year, month, day) {
        Some(time) => Some(time),
        None => if month == 2 && day == 29 {
            match rule {
                LeapDayRule::February28 => date_time(year, 2, 28),
                LeapDayRule::March1 => date_time(year, 3, 1),
            }
        } else {
            None
        },
    }
}

/// The year of service from an anchor: from its day to the day a year later.
pub open spec fn year_of_service(anchor: PeriodAnchor) -> Option<ServicePeriod> {
    let (y, m, d) = (anchor.year as int, anchor.month as int, anchor.day as int);
    match (anniversary(y, m, d, anchor.leap_day), anniversary(y + 1, m, d, anchor.leap_day)) {
        (Some(start), Some(end)) => Some(ServicePeriod { anchor, start, end }),
        _ => None,
    }
}

fn find_anniversary(year: u16, month: u8, day: u8, rule: LeapDayRule) -> (time: Option<
    CanonicalTime,
>)
    ensures
        time == anniversary(year as int, month as int, day as int, rule),
{
    match calendar_date(year, month, day) {
        Some(time) => Some(time),
        None => {
            if month != 2 || day != 29 {
                return None;
            }
            match rule {
                LeapDayRule::February28 => calendar_date(year, 2, 28),
                LeapDayRule::March1 => calendar_date(year, 3, 1),
            }
        },
    }
}

impl ServicePeriod {
    /// The interval is exactly the year of service of its anchor.
    pub open spec fn exact(self) -> bool {
        year_of_service(self.anchor) == Some(self)
    }

    pub open spec fn includes(self, at: CanonicalTime) -> bool {
        self.start.0 <= at.0 < self.end.0
    }

    pub open spec fn overlaps(self, other: Self) -> bool {
        self.start.0 < other.end.0 && other.start.0 < self.end.0
    }

    /// A year of service from a day. Invalid dates and years outside the supported calendar are
    /// refused.
    pub fn annual(year: u16, month: u8, day: u8, leap_day: LeapDayRule) -> (result: Result<
        Self,
        BillingError,
    >)
        ensures
            result == (match year_of_service(PeriodAnchor { year, month, day, leap_day }) {
                Some(period) => Ok(period),
                None => Err(BillingError::InvalidSchedule),
            }),
    {
        let anchor = PeriodAnchor { year, month, day, leap_day };
        let start = match find_anniversary(year, month, day, leap_day) {
            Some(time) => time,
            None => return Err(BillingError::InvalidSchedule),
        };
        let next: u16 = match year.checked_add(1) {
            Some(next) => next,
            None => return Err(BillingError::Overflow),
        };
        let end = match find_anniversary(next, month, day, leap_day) {
            Some(time) => time,
            None => return Err(BillingError::InvalidSchedule),
        };
        Ok(ServicePeriod { anchor, start, end })
    }

    pub fn start(self) -> (start: CanonicalTime)
        ensures
            start == self.start,
    {
        self.start
    }

    pub fn end(self) -> (end: CanonicalTime)
        ensures
            end == self.end,
    {
        self.end
    }

    pub fn contains(self, at: CanonicalTime) -> (inside: bool)
        ensures
            inside == self.includes(at),
    {
        self.start.0 <= at.0 && at.0 < self.end.0
    }
}

/// A year of service ends after it starts, and its end is the start of the year that follows it.
pub proof fn years_of_service_follow_one_another(anchor: PeriodAnchor)
    requires
        anchor.year < u16::MAX,
        year_of_service(anchor) is Some,
    ensures
        ({
            let period = year_of_service(anchor)->Some_0;
            &&& period.start.0 < period.end.0
            &&& (year_of_service(PeriodAnchor { year: (anchor.year + 1) as u16, ..anchor }) matches Some(
                next,
            ) ==> next.start == period.end)
        }),
{
    let (y, m, d) = (anchor.year as int, anchor.month as int, anchor.day as int);
    let (m1, d1) = if date_time(y, m, d) is Some {
        (m, d)
    } else {
        match anchor.leap_day {
            LeapDayRule::February28 => (2, 28),
            LeapDayRule::March1 => (3, 1),
        }
    };
    let (m2, d2) = if date_time(y + 1, m, d) is Some {
        (m, d)
    } else {
        match anchor.leap_day {
            LeapDayRule::February28 => (2, 28),
            LeapDayRule::March1 => (3, 1),
        }
    };
    dates_fit(y, m1, d1);
    dates_fit(y + 1, m2, d2);
    dates_are_ordered(y, m1, d1, y + 1, m2, d2);
}

/// Published terms. A purchase references this immutable policy rather than supplying prices.
#[derive(Clone, Copy, Debug, PartialEq, Eq, Structural)]
pub struct ServiceOffer {
    pub version: PolicyVersion,
    pub period: ServicePeriod,
    pub collect_at: CanonicalTime,
    pub price: Money,
    pub unit: SettlementUnit,
}

impl ServiceOffer {
    /// Refuses unversioned and free offers, and collection that is not in advance of service.
    pub fn new(
        version: PolicyVersion,
        period: ServicePeriod,
        collect_at: CanonicalTime,
        price: Money,
        unit: SettlementUnit,
    ) -> (result: Result<Self, BillingError>)
        ensures
            result == (if version.0 == 0 || price.0 == 0 || collect_at.0 >= period.start.0 {
                Err(BillingError::InvalidSchedule)
            } else {
                Ok(ServiceOffer { version, period, collect_at, price, unit })
            }),
    {
        if version.0 == 0 || price.is_zero() || collect_at.0 >= period.start.0 {
            return Err(BillingError::InvalidSchedule);
        }
        Ok(ServiceOffer { version, period, collect_at, price, unit })
    }

    pub fn version(&self) -> (version: PolicyVersion)
        ensures
            version == self.version,
    {
        self.version
    }

    pub fn period(&self) -> (period: ServicePeriod)
        ensures
            period == self.period,
    {
        self.period
    }

    pub fn collect_at(&self) -> (time: CanonicalTime)
        ensures
            time == self.collect_at,
    {
        self.collect_at
    }

    pub fn price(&self) -> (price: Money)
        ensures
            price == self.price,
    {
        self.price
    }

    pub fn unit(&self) -> (unit: SettlementUnit)
        ensures
            unit == self.unit,
    {
        self.unit
    }
}

/// A year of service runs from its day to the same day of the next year. Where its day is the
/// twenty-ninth of February, each end that falls in a year without that day is the twenty-eighth of
/// February or the first of March, as the rule says; no other day is ever moved.
pub proof fn service_runs_from_day_to_day(anchor: PeriodAnchor)
    requires
        year_of_service(anchor) is Some,
    ensures
        ({
            let period = year_of_service(anchor)->Some_0;
            let (y, m, d) = (anchor.year as int, anchor.month as int, anchor.day as int);
            &&& period.anchor == anchor
            &&& date_time(y, m, d) is Some ==> Some(period.start) == date_time(y, m, d)
            &&& date_time(y + 1, m, d) is Some ==> Some(period.end) == date_time(y + 1, m, d)
            &&& date_time(y, m, d) is None ==> m == 2 && d == 29 && Some(period.start)
                == if anchor.leap_day == LeapDayRule::February28 {
                date_time(y, 2, 28)
            } else {
                date_time(y, 3, 1)
            }
            &&& date_time(y + 1, m, d) is None ==> m == 2 && d == 29 && Some(period.end)
                == if anchor.leap_day == LeapDayRule::February28 {
                date_time(y + 1, 2, 28)
            } else {
                date_time(y + 1, 3, 1)
            }
        }),
{
}

/// Which years of service there are: those from a day that the calendar has, or from the
/// twenty-ninth of February, where both ends are in its years.
pub proof fn every_day_starts_a_year_of_service(anchor: PeriodAnchor)
    requires
        1970 <= anchor.year < 9999,
        date_time(2000, anchor.month as int, anchor.day as int) is Some,
    ensures
        year_of_service(anchor) is Some,
{
}

} // verus!

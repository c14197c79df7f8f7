//! Money, time, and positions.

use vstd::prelude::*;
use vstd::string::{StrSliceExecFns, StringExecFns};

verus! {

/// An amount in minor units of a settlement unit.
#[derive(Clone, Copy, Debug, PartialEq, Eq, PartialOrd, Ord, Hash, Structural)]
pub struct Money(pub u64);

/// The decimal digits of a number, without leading zeros.
pub open spec fn decimal(value: nat) -> Seq<char>
    decreases value,
{
    let digit = seq![(('0' as u32 + value % 10) as u32) as char];
    if value < 10 {
        digit
    } else {
        decimal(value / 10) + digit
    }
}

/// A number as its decimal digits.
pub(crate) fn decimal_text(value: u128) -> (text: String)
    ensures
        text@ == decimal(value as nat),
    decreases value,
{
    proof {
        reveal_strlit("0123456789");
    }
    let digit: usize = (value % 10) as usize;
    let last = "0123456789".substring_char(digit, digit + 1);
    assert(last@ =~= seq![(('0' as u32 + value % 10) as u32) as char]);
    if value < 10 {
        last.to_owned()
    } else {
        let mut text = decimal_text(value / 10);
        text.append(last);
        text
    }
}

impl Money {
    /// Nothing.
    pub fn zero() -> (money: Self)
        ensures
            money == Money(0),
    {
        Money(0)
    }

    pub fn from_minor_units(units: u64) -> (money: Self)
        ensures
            money == Money(units),
    {
        Money(units)
    }

    pub fn minor_units(self) -> (units: u64)
        ensures
            units == self.0,
    {
        self.0
    }

    /// The sum, unless it is too large.
    pub fn checked_add(self, other: Self) -> (sum: Option<Self>)
        ensures
            sum == (if self.0 + other.0 > u64::MAX {
                None
            } else {
                Some(Money((self.0 + other.0) as u64))
            }),
    {
        match self.0.checked_add(other.0) {
            Some(units) => Some(Money(units)),
            None => None,
        }
    }

    /// The difference, unless it is below zero.
    pub fn checked_sub(self, other: Self) -> (difference: Option<Self>)
        ensures
            difference == (if self.0 < other.0 {
                None
            } else {
                Some(Money((self.0 - other.0) as u64))
            }),
    {
        match self.0.checked_sub(other.0) {
            Some(units) => Some(Money(units)),
            None => None,
        }
    }

    pub fn is_zero(self) -> (zero: bool)
        ensures
            zero == (self.0 == 0),
    {
        self.0 == 0
    }

    /// The amount as decimal text.
    pub fn text(self) -> (text: String)
        ensures
            text@ == decimal(self.0 as nat),
    {
        decimal_text(self.0 as u128)
    }
}

/// The unit that amounts are settled in.
#[derive(Clone, Copy, Debug, PartialEq, Eq, PartialOrd, Ord, Hash, Structural)]
pub struct SettlementUnit(pub u32);

/// Milliseconds since the start of 1970, UTC.
#[derive(Clone, Copy, Debug, PartialEq, Eq, PartialOrd, Ord, Hash, Structural)]
pub struct CanonicalTime(pub u64);

impl CanonicalTime {
    /// The time `duration` later, unless it is too late to represent.
    pub fn checked_add(self, duration: Duration) -> (later: Option<Self>)
        ensures
            later == (if self.0 + duration.0 > u64::MAX {
                None
            } else {
                Some(CanonicalTime((self.0 + duration.0) as u64))
            }),
    {
        match self.0.checked_add(duration.0) {
            Some(millis) => Some(CanonicalTime(millis)),
            None => None,
        }
    }
}

/// A length of time in milliseconds.
#[derive(Clone, Copy, Debug, PartialEq, Eq, PartialOrd, Ord, Hash, Structural)]
pub struct Duration(pub u64);

/// The time after which a message is no longer valid.
#[derive(Clone, Copy, Debug, PartialEq, Eq, PartialOrd, Ord, Hash, Structural)]
pub struct MessageValidityUntil(pub CanonicalTime);

/// A position in a journal.
#[derive(Clone, Copy, Debug, PartialEq, Eq, PartialOrd, Ord, Hash, Structural)]
pub struct JournalPosition(pub u64);

/// An event, by its position.
#[derive(Clone, Copy, Debug, PartialEq, Eq, PartialOrd, Ord, Hash, Structural)]
pub struct EventRef(pub JournalPosition);

} // verus!

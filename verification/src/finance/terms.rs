//! Terms and errors of the member program.

use super::payments::PaymentError;
use super::scope::FinancialScope;
use crate::ledger::LedgerError;
use crate::primitives::amounts::Duration;
use crate::primitives::versions::PolicyVersion;
use vstd::prelude::*;

verus! {

/// The length of a day in milliseconds.
pub const DAY_MILLIS: u64 = 86_400_000;

#[derive(Clone, Copy, Debug, PartialEq, Eq, Structural)]
pub enum ProgramError {
    InvalidPolicy,
    IncompleteSnapshot,
    DuplicateConflict,
    MissingRecord,
    TooEarly,
    ClosedPeriod,
    TimeRegression,
    InsufficientEvidence,
    InvalidPayment,
    ArithmeticOverflow,
    Ledger(LedgerError),
    Payment(PaymentError),
}

impl From<LedgerError> for ProgramError {
    fn from(e: LedgerError) -> (error: Self) {
        ProgramError::Ledger(e)
    }
}

impl vstd::std_specs::convert::FromSpecImpl<LedgerError> for ProgramError {
    open spec fn obeys_from_spec() -> bool {
        true
    }

    open spec fn from_spec(e: LedgerError) -> Self {
        ProgramError::Ledger(e)
    }
}

impl From<PaymentError> for ProgramError {
    fn from(e: PaymentError) -> (error: Self) {
        ProgramError::Payment(e)
    }
}

impl vstd::std_specs::convert::FromSpecImpl<PaymentError> for ProgramError {
    open spec fn obeys_from_spec() -> bool {
        true
    }

    open spec fn from_spec(e: PaymentError) -> Self {
        ProgramError::Payment(e)
    }
}

#[derive(Clone, Copy, Debug, PartialEq, Eq, Hash)]
pub struct FinancialTerms {
    pub scope: FinancialScope,
    pub policy_version: PolicyVersion,
    pub corporate_basis_points: u16,
    pub maturity_delay: Duration,
}

impl FinancialTerms {
    /// The corporate rate is at most the entire eligible amount.
    pub open spec fn valid(self) -> bool {
        self.corporate_basis_points <= 10_000
    }

    /// Refuses a corporate rate greater than the entire eligible amount.
    pub fn validate(self) -> (result: Result<(), ProgramError>)
        ensures
            result == (if self.valid() {
                Ok(())
            } else {
                Err(ProgramError::InvalidPolicy)
            }),
    {
        if self.corporate_basis_points > 10_000 {
            Err(ProgramError::InvalidPolicy)
        } else {
            Ok(())
        }
    }

    /// Whether two sets of terms are the same.
    pub fn same(&self, other: &Self) -> (same: bool)
        ensures
            same == (*self == *other),
    {
        self.scope.same(&other.scope) && self.policy_version == other.policy_version
            && self.corporate_basis_points == other.corporate_basis_points && self.maturity_delay
            == other.maturity_delay
    }
}

#[derive(Clone, Copy, Debug, PartialEq, Eq, Structural)]
pub struct MembershipStatus {
    pub opted_in: bool,
    pub verified: bool,
    pub suspended: bool,
}

#[derive(Clone, Copy, Debug, PartialEq, Eq, Structural)]
pub enum IntentionalActivity {
    Read,
    Send,
    Decision,
}

} // verus!

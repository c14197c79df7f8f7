//! Why a use case is refused.

use crate::billing::offer::BillingError;
use crate::finance::terms::ProgramError;
use crate::ledger::LedgerError;
use crate::protocol::{ProtocolError, SecurityError};
use vstd::prelude::*;

verus! {

/// Why identity evidence is refused.
#[derive(Clone, Copy, Debug, PartialEq, Eq, Structural)]
pub enum ContractError {
    Invalid,
    Context,
    Conflict,
    Unauthorized,
    Unavailable,
}

/// What an operation may conflict with.
#[derive(Clone, Copy, Debug, PartialEq, Eq, Structural)]
pub enum OperationConflict {
    Version,
    Duplicate,
}

#[derive(Clone, Copy, Debug, PartialEq, Eq, Structural)]
pub enum EngineError {
    Protocol(ProtocolError),
    Ledger(LedgerError),
    DuplicateConflict,
    VersionConflict,
    LockPoisoned,
    ArithmeticOverflow,
    CommandEncoding,
    Finance(ProgramError),
    Billing(BillingError),
    Contract(ContractError),
    Security(SecurityError),
}

impl From<ProtocolError> for EngineError {
    fn from(e: ProtocolError) -> Self {
        EngineError::Protocol(e)
    }
}

impl vstd::std_specs::convert::FromSpecImpl<ProtocolError> for EngineError {
    open spec fn obeys_from_spec() -> bool {
        true
    }

    open spec fn from_spec(e: ProtocolError) -> Self {
        EngineError::Protocol(e)
    }
}

impl From<LedgerError> for EngineError {
    fn from(e: LedgerError) -> Self {
        EngineError::Ledger(e)
    }
}

impl vstd::std_specs::convert::FromSpecImpl<LedgerError> for EngineError {
    open spec fn obeys_from_spec() -> bool {
        true
    }

    open spec fn from_spec(e: LedgerError) -> Self {
        EngineError::Ledger(e)
    }
}

impl From<OperationConflict> for EngineError {
    fn from(e: OperationConflict) -> Self {
        match e {
            OperationConflict::Version => EngineError::VersionConflict,
            OperationConflict::Duplicate => EngineError::DuplicateConflict,
        }
    }
}

impl vstd::std_specs::convert::FromSpecImpl<OperationConflict> for EngineError {
    open spec fn obeys_from_spec() -> bool {
        true
    }

    open spec fn from_spec(e: OperationConflict) -> Self {
        match e {
            OperationConflict::Version => EngineError::VersionConflict,
            OperationConflict::Duplicate => EngineError::DuplicateConflict,
        }
    }
}

} // verus!

//! Identifiers: distinct types over one 128-bit value.

use vstd::prelude::*;

verus! {

/// A person or organisation behind one or more identities.
#[derive(Clone, Copy, Debug, PartialEq, Eq, PartialOrd, Ord, Hash, Structural)]
pub struct PrincipalRef(pub u128);

impl From<u128> for PrincipalRef {
    fn from(value: u128) -> (id: Self) {
        PrincipalRef(value)
    }
}

impl vstd::std_specs::convert::FromSpecImpl<u128> for PrincipalRef {
    open spec fn obeys_from_spec() -> bool {
        true
    }

    open spec fn from_spec(value: u128) -> Self {
        PrincipalRef(value)
    }
}

/// An addressable protocol identity.
#[derive(Clone, Copy, Debug, PartialEq, Eq, PartialOrd, Ord, Hash, Structural)]
pub struct ProtocolIdentity(pub u128);

impl From<u128> for ProtocolIdentity {
    fn from(value: u128) -> (id: Self) {
        ProtocolIdentity(value)
    }
}

impl vstd::std_specs::convert::FromSpecImpl<u128> for ProtocolIdentity {
    open spec fn obeys_from_spec() -> bool {
        true
    }

    open spec fn from_spec(value: u128) -> Self {
        ProtocolIdentity(value)
    }
}

/// A mail provider.
#[derive(Clone, Copy, Debug, PartialEq, Eq, PartialOrd, Ord, Hash, Structural)]
pub struct ProviderRef(pub u128);

impl From<u128> for ProviderRef {
    fn from(value: u128) -> (id: Self) {
        ProviderRef(value)
    }
}

impl vstd::std_specs::convert::FromSpecImpl<u128> for ProviderRef {
    open spec fn obeys_from_spec() -> bool {
        true
    }

    open spec fn from_spec(value: u128) -> Self {
        ProviderRef(value)
    }
}

/// A quote of request terms.
#[derive(Clone, Copy, Debug, PartialEq, Eq, PartialOrd, Ord, Hash, Structural)]
pub struct QuoteId(pub u128);

impl From<u128> for QuoteId {
    fn from(value: u128) -> (id: Self) {
        QuoteId(value)
    }
}

impl vstd::std_specs::convert::FromSpecImpl<u128> for QuoteId {
    open spec fn obeys_from_spec() -> bool {
        true
    }

    open spec fn from_spec(value: u128) -> Self {
        QuoteId(value)
    }
}

/// A relationship request.
#[derive(Clone, Copy, Debug, PartialEq, Eq, PartialOrd, Ord, Hash, Structural)]
pub struct RequestId(pub u128);

impl From<u128> for RequestId {
    fn from(value: u128) -> (id: Self) {
        RequestId(value)
    }
}

impl vstd::std_specs::convert::FromSpecImpl<u128> for RequestId {
    open spec fn obeys_from_spec() -> bool {
        true
    }

    open spec fn from_spec(value: u128) -> Self {
        RequestId(value)
    }
}

/// A message.
#[derive(Clone, Copy, Debug, PartialEq, Eq, PartialOrd, Ord, Hash, Structural)]
pub struct MessageId(pub u128);

impl From<u128> for MessageId {
    fn from(value: u128) -> (id: Self) {
        MessageId(value)
    }
}

impl vstd::std_specs::convert::FromSpecImpl<u128> for MessageId {
    open spec fn obeys_from_spec() -> bool {
        true
    }

    open spec fn from_spec(value: u128) -> Self {
        MessageId(value)
    }
}

/// A stored ciphertext.
#[derive(Clone, Copy, Debug, PartialEq, Eq, PartialOrd, Ord, Hash, Structural)]
pub struct ContentRef(pub u128);

impl From<u128> for ContentRef {
    fn from(value: u128) -> (id: Self) {
        ContentRef(value)
    }
}

impl vstd::std_specs::convert::FromSpecImpl<u128> for ContentRef {
    open spec fn obeys_from_spec() -> bool {
        true
    }

    open spec fn from_spec(value: u128) -> Self {
        ContentRef(value)
    }
}

/// An endpoint content key.
#[derive(Clone, Copy, Debug, PartialEq, Eq, PartialOrd, Ord, Hash, Structural)]
pub struct ContentKeyRef(pub u128);

impl From<u128> for ContentKeyRef {
    fn from(value: u128) -> (id: Self) {
        ContentKeyRef(value)
    }
}

impl vstd::std_specs::convert::FromSpecImpl<u128> for ContentKeyRef {
    open spec fn obeys_from_spec() -> bool {
        true
    }

    open spec fn from_spec(value: u128) -> Self {
        ContentKeyRef(value)
    }
}

/// An intent to deliver one message.
#[derive(Clone, Copy, Debug, PartialEq, Eq, PartialOrd, Ord, Hash, Structural)]
pub struct DeliveryIntentRef(pub u128);

impl From<u128> for DeliveryIntentRef {
    fn from(value: u128) -> (id: Self) {
        DeliveryIntentRef(value)
    }
}

impl vstd::std_specs::convert::FromSpecImpl<u128> for DeliveryIntentRef {
    open spec fn obeys_from_spec() -> bool {
        true
    }

    open spec fn from_spec(value: u128) -> Self {
        DeliveryIntentRef(value)
    }
}

/// A signing key in operation.
#[derive(Clone, Copy, Debug, PartialEq, Eq, PartialOrd, Ord, Hash, Structural)]
pub struct OperationalKeyRef(pub u128);

impl From<u128> for OperationalKeyRef {
    fn from(value: u128) -> (id: Self) {
        OperationalKeyRef(value)
    }
}

impl vstd::std_specs::convert::FromSpecImpl<u128> for OperationalKeyRef {
    open spec fn obeys_from_spec() -> bool {
        true
    }

    open spec fn from_spec(value: u128) -> Self {
        OperationalKeyRef(value)
    }
}

/// A caller's key under which a command takes effect once.
#[derive(Clone, Copy, Debug, PartialEq, Eq, PartialOrd, Ord, Hash, Structural)]
pub struct IdempotencyKey(pub u128);

impl From<u128> for IdempotencyKey {
    fn from(value: u128) -> (id: Self) {
        IdempotencyKey(value)
    }
}

impl vstd::std_specs::convert::FromSpecImpl<u128> for IdempotencyKey {
    open spec fn obeys_from_spec() -> bool {
        true
    }

    open spec fn from_spec(value: u128) -> Self {
        IdempotencyKey(value)
    }
}

/// An audit entry.
#[derive(Clone, Copy, Debug, PartialEq, Eq, PartialOrd, Ord, Hash, Structural)]
pub struct AuditRef(pub u128);

impl From<u128> for AuditRef {
    fn from(value: u128) -> (id: Self) {
        AuditRef(value)
    }
}

impl vstd::std_specs::convert::FromSpecImpl<u128> for AuditRef {
    open spec fn obeys_from_spec() -> bool {
        true
    }

    open spec fn from_spec(value: u128) -> Self {
        AuditRef(value)
    }
}

/// A class of retained records.
#[derive(Clone, Copy, Debug, PartialEq, Eq, PartialOrd, Ord, Hash, Structural)]
pub struct RetentionClassId(pub u128);

impl From<u128> for RetentionClassId {
    fn from(value: u128) -> (id: Self) {
        RetentionClassId(value)
    }
}

impl vstd::std_specs::convert::FromSpecImpl<u128> for RetentionClassId {
    open spec fn obeys_from_spec() -> bool {
        true
    }

    open spec fn from_spec(value: u128) -> Self {
        RetentionClassId(value)
    }
}

/// A source of funds.
#[derive(Clone, Copy, Debug, PartialEq, Eq, PartialOrd, Ord, Hash, Structural)]
pub struct FundingRef(pub u128);

impl From<u128> for FundingRef {
    fn from(value: u128) -> (id: Self) {
        FundingRef(value)
    }
}

impl vstd::std_specs::convert::FromSpecImpl<u128> for FundingRef {
    open spec fn obeys_from_spec() -> bool {
        true
    }

    open spec fn from_spec(value: u128) -> Self {
        FundingRef(value)
    }
}

/// A payment operation.
#[derive(Clone, Copy, Debug, PartialEq, Eq, PartialOrd, Ord, Hash, Structural)]
pub struct PaymentOperationId(pub u128);

impl From<u128> for PaymentOperationId {
    fn from(value: u128) -> (id: Self) {
        PaymentOperationId(value)
    }
}

impl vstd::std_specs::convert::FromSpecImpl<u128> for PaymentOperationId {
    open spec fn obeys_from_spec() -> bool {
        true
    }

    open spec fn from_spec(value: u128) -> Self {
        PaymentOperationId(value)
    }
}

/// A member of the financial program.
#[derive(Clone, Copy, Debug, PartialEq, Eq, PartialOrd, Ord, Hash, Structural)]
pub struct MemberId(pub u128);

impl From<u128> for MemberId {
    fn from(value: u128) -> (id: Self) {
        MemberId(value)
    }
}

impl vstd::std_specs::convert::FromSpecImpl<u128> for MemberId {
    open spec fn obeys_from_spec() -> bool {
        true
    }

    open spec fn from_spec(value: u128) -> Self {
        MemberId(value)
    }
}

/// A billing account.
#[derive(Clone, Copy, Debug, PartialEq, Eq, PartialOrd, Ord, Hash, Structural)]
pub struct BillingAccountId(pub u128);

impl From<u128> for BillingAccountId {
    fn from(value: u128) -> (id: Self) {
        BillingAccountId(value)
    }
}

impl vstd::std_specs::convert::FromSpecImpl<u128> for BillingAccountId {
    open spec fn obeys_from_spec() -> bool {
        true
    }

    open spec fn from_spec(value: u128) -> Self {
        BillingAccountId(value)
    }
}

/// A purchased service contract.
#[derive(Clone, Copy, Debug, PartialEq, Eq, PartialOrd, Ord, Hash, Structural)]
pub struct ServiceContractId(pub u128);

impl From<u128> for ServiceContractId {
    fn from(value: u128) -> (id: Self) {
        ServiceContractId(value)
    }
}

impl vstd::std_specs::convert::FromSpecImpl<u128> for ServiceContractId {
    open spec fn obeys_from_spec() -> bool {
        true
    }

    open spec fn from_spec(value: u128) -> Self {
        ServiceContractId(value)
    }
}

/// A financial program.
#[derive(Clone, Copy, Debug, PartialEq, Eq, PartialOrd, Ord, Hash, Structural)]
pub struct ProgramRef(pub u128);

impl From<u128> for ProgramRef {
    fn from(value: u128) -> (id: Self) {
        ProgramRef(value)
    }
}

impl vstd::std_specs::convert::FromSpecImpl<u128> for ProgramRef {
    open spec fn obeys_from_spec() -> bool {
        true
    }

    open spec fn from_spec(value: u128) -> Self {
        ProgramRef(value)
    }
}

/// A member's allocation.
#[derive(Clone, Copy, Debug, PartialEq, Eq, PartialOrd, Ord, Hash, Structural)]
pub struct AllocationId(pub u128);

impl From<u128> for AllocationId {
    fn from(value: u128) -> (id: Self) {
        AllocationId(value)
    }
}

impl vstd::std_specs::convert::FromSpecImpl<u128> for AllocationId {
    open spec fn obeys_from_spec() -> bool {
        true
    }

    open spec fn from_spec(value: u128) -> Self {
        AllocationId(value)
    }
}

/// An annual distribution.
#[derive(Clone, Copy, Debug, PartialEq, Eq, PartialOrd, Ord, Hash, Structural)]
pub struct AnnualDistributionId(pub u128);

impl From<u128> for AnnualDistributionId {
    fn from(value: u128) -> (id: Self) {
        AnnualDistributionId(value)
    }
}

impl vstd::std_specs::convert::FromSpecImpl<u128> for AnnualDistributionId {
    open spec fn obeys_from_spec() -> bool {
        true
    }

    open spec fn from_spec(value: u128) -> Self {
        AnnualDistributionId(value)
    }
}

/// A financial event.
#[derive(Clone, Copy, Debug, PartialEq, Eq, PartialOrd, Ord, Hash, Structural)]
pub struct FinancialEventId(pub u128);

impl From<u128> for FinancialEventId {
    fn from(value: u128) -> (id: Self) {
        FinancialEventId(value)
    }
}

impl vstd::std_specs::convert::FromSpecImpl<u128> for FinancialEventId {
    open spec fn obeys_from_spec() -> bool {
        true
    }

    open spec fn from_spec(value: u128) -> Self {
        FinancialEventId(value)
    }
}

/// A cross-provider transaction.
#[derive(Clone, Copy, Debug, PartialEq, Eq, PartialOrd, Ord, Hash, Structural)]
pub struct FederationTransactionRef(pub u128);

impl From<u128> for FederationTransactionRef {
    fn from(value: u128) -> (id: Self) {
        FederationTransactionRef(value)
    }
}

impl vstd::std_specs::convert::FromSpecImpl<u128> for FederationTransactionRef {
    open spec fn obeys_from_spec() -> bool {
        true
    }

    open spec fn from_spec(value: u128) -> Self {
        FederationTransactionRef(value)
    }
}

/// A recovery factor.
#[derive(Clone, Copy, Debug, PartialEq, Eq, PartialOrd, Ord, Hash, Structural)]
pub struct RecoveryFactorRef(pub u128);

impl From<u128> for RecoveryFactorRef {
    fn from(value: u128) -> (id: Self) {
        RecoveryFactorRef(value)
    }
}

impl vstd::std_specs::convert::FromSpecImpl<u128> for RecoveryFactorRef {
    open spec fn obeys_from_spec() -> bool {
        true
    }

    open spec fn from_spec(value: u128) -> Self {
        RecoveryFactorRef(value)
    }
}

/// A recovery attempt.
#[derive(Clone, Copy, Debug, PartialEq, Eq, PartialOrd, Ord, Hash, Structural)]
pub struct RecoveryAttemptRef(pub u128);

impl From<u128> for RecoveryAttemptRef {
    fn from(value: u128) -> (id: Self) {
        RecoveryAttemptRef(value)
    }
}

impl vstd::std_specs::convert::FromSpecImpl<u128> for RecoveryAttemptRef {
    open spec fn obeys_from_spec() -> bool {
        true
    }

    open spec fn from_spec(value: u128) -> Self {
        RecoveryAttemptRef(value)
    }
}

/// An express lane.
#[derive(Clone, Copy, Debug, PartialEq, Eq, PartialOrd, Ord, Hash, Structural)]
pub struct LaneId(pub u128);

impl From<u128> for LaneId {
    fn from(value: u128) -> (id: Self) {
        LaneId(value)
    }
}

impl vstd::std_specs::convert::FromSpecImpl<u128> for LaneId {
    open spec fn obeys_from_spec() -> bool {
        true
    }

    open spec fn from_spec(value: u128) -> Self {
        LaneId(value)
    }
}

/// A receipt.
#[derive(Clone, Copy, Debug, PartialEq, Eq, PartialOrd, Ord, Hash, Structural)]
pub struct ReceiptRef(pub u128);

impl From<u128> for ReceiptRef {
    fn from(value: u128) -> (id: Self) {
        ReceiptRef(value)
    }
}

impl vstd::std_specs::convert::FromSpecImpl<u128> for ReceiptRef {
    open spec fn obeys_from_spec() -> bool {
        true
    }

    open spec fn from_spec(value: u128) -> Self {
        ReceiptRef(value)
    }
}

/// A retained record.
#[derive(Clone, Copy, Debug, PartialEq, Eq, PartialOrd, Ord, Hash, Structural)]
pub struct RetentionRecordRef(pub u128);

impl From<u128> for RetentionRecordRef {
    fn from(value: u128) -> (id: Self) {
        RetentionRecordRef(value)
    }
}

impl vstd::std_specs::convert::FromSpecImpl<u128> for RetentionRecordRef {
    open spec fn obeys_from_spec() -> bool {
        true
    }

    open spec fn from_spec(value: u128) -> Self {
        RetentionRecordRef(value)
    }
}

/// A mail account.
#[derive(Clone, Copy, Debug, PartialEq, Eq, PartialOrd, Ord, Hash, Structural)]
pub struct AccountId(pub u128);

impl From<u128> for AccountId {
    fn from(value: u128) -> (id: Self) {
        AccountId(value)
    }
}

impl vstd::std_specs::convert::FromSpecImpl<u128> for AccountId {
    open spec fn obeys_from_spec() -> bool {
        true
    }

    open spec fn from_spec(value: u128) -> Self {
        AccountId(value)
    }
}

/// A calendar quarter.
#[derive(Clone, Copy, Debug, PartialEq, Eq, PartialOrd, Ord, Hash, Structural)]
pub struct QuarterId(pub u128);

impl From<u128> for QuarterId {
    fn from(value: u128) -> (id: Self) {
        QuarterId(value)
    }
}

impl vstd::std_specs::convert::FromSpecImpl<u128> for QuarterId {
    open spec fn obeys_from_spec() -> bool {
        true
    }

    open spec fn from_spec(value: u128) -> Self {
        QuarterId(value)
    }
}

/// A class of relationship requests.
#[derive(Clone, Copy, Debug, PartialEq, Eq, PartialOrd, Ord, Hash, Structural)]
pub struct RequestClassId(pub u128);

impl From<u128> for RequestClassId {
    fn from(value: u128) -> (id: Self) {
        RequestClassId(value)
    }
}

impl vstd::std_specs::convert::FromSpecImpl<u128> for RequestClassId {
    open spec fn obeys_from_spec() -> bool {
        true
    }

    open spec fn from_spec(value: u128) -> Self {
        RequestClassId(value)
    }
}

} // verus!

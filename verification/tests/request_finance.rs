use cs_mail::finance::payments::{
    PaymentError, PaymentKind, PaymentOperation, PaymentProcessor, SimulatedProcessor,
};
use cs_mail::finance::request::{
    RequestFinancialContract, RequestFinancialEffects, RequestFinancials, RequestSettlement,
};
use cs_mail::finance::scope::FinancialScope;
use cs_mail::finance::terms::FinancialTerms;
use cs_mail::ledger::{Account, LedgerState};
use cs_mail::primitives::amounts::{CanonicalTime, Duration, Money, SettlementUnit};
use cs_mail::primitives::ids::{FinancialEventId, PaymentOperationId, ProgramRef, ProviderRef};
use cs_mail::primitives::versions::{PolicyVersion, ProtocolVersion};

fn fixture() -> (RequestFinancials, SimulatedProcessor, LedgerState) {
    let provider = SimulatedProcessor::new([7; 32]);
    let scope = FinancialScope::new(
        [1; 32],
        ProviderRef(1),
        ProgramRef(1),
        [2; 32],
        ProtocolVersion(2),
    );
    let capture = PaymentOperation {
        scope,
        id: PaymentOperationId(1),
        kind: PaymentKind::Capture,
        amount: Money::from_minor_units(10),
        unit: SettlementUnit(1),
        destination: [3; 32],
    };
    let contract = RequestFinancialContract {
        refund_id: PaymentOperationId(2),
        processing_charge: Money::from_minor_units(2),
        collateral: Money::from_minor_units(8),
        terms: FinancialTerms {
            scope,
            policy_version: PolicyVersion(1),
            corporate_basis_points: 300,
            maturity_delay: Duration(1),
        },
        provider_key: provider.verifying_key(),
    };
    (
        RequestFinancials::new(capture, contract).unwrap(),
        provider,
        LedgerState::new(SettlementUnit(1)),
    )
}
fn post(ledger: &mut LedgerState, effects: &RequestFinancialEffects) {
    ledger
        .apply(ledger.view().revision, &effects.postings)
        .unwrap();
    assert_eq!(ledger.view().total_value(), Ok(Money::zero()));
}
#[test]
fn every_settlement_owns_its_postings_and_is_idempotent() {
    for (settlement, refund, revenue, pool) in [
        (RequestSettlement::Accepted, 10, 0, 0),
        (RequestSettlement::Rejected, 0, 2, 8),
        (RequestSettlement::Expired, 8, 2, 0),
        (RequestSettlement::Cancelled, 10, 0, 0),
    ] {
        let (mut finances, mut provider, mut ledger) = fixture();
        let receipt = provider.submit(&finances.capture).unwrap();
        post(&mut ledger, &finances.record_payment(&receipt).unwrap());
        post(
            &mut ledger,
            &finances.settle(settlement, CanonicalTime(3)).unwrap(),
        );
        assert_eq!(
            ledger.balance(Account::RefundPayable(PaymentOperationId(2))),
            Money::from_minor_units(refund)
        );
        assert_eq!(
            ledger.balance(Account::ProcessingRevenue),
            Money::from_minor_units(revenue)
        );
        assert_eq!(
            ledger.balance(Account::RequestEscrow(PaymentOperationId(1))),
            Money::zero()
        );
        assert_eq!(
            ledger
                .view()
                .signed_balance(Account::ProgramClearing(PaymentOperationId(1))),
            i128::from(pool)
        );
        assert_eq!(
            finances.settle(settlement, CanonicalTime(4)).unwrap(),
            RequestFinancialEffects::default()
        );
        assert_eq!(
            finances.record_payment(&receipt).unwrap(),
            RequestFinancialEffects::default()
        );
        if let Some(operation) = finances.refund().operation().cloned() {
            let receipt = provider.submit(&operation).unwrap();
            post(&mut ledger, &finances.record_payment(&receipt).unwrap());
            assert_eq!(
                finances.record_payment(&receipt).unwrap(),
                RequestFinancialEffects::default()
            );
        }
    }
}
#[test]
fn cancelled_capture_can_arrive_late_without_a_request_object() {
    let (mut finances, mut provider, mut ledger) = fixture();
    let effects = finances
        .settle(RequestSettlement::Cancelled, CanonicalTime(1))
        .unwrap();
    assert_eq!(effects.operations, vec![finances.capture.id]);
    let receipt = provider.submit(&finances.capture).unwrap();
    post(&mut ledger, &finances.record_payment(&receipt).unwrap());
    assert_eq!(
        finances.refund().operation().unwrap().amount,
        Money::from_minor_units(10)
    );
    assert_eq!(finances.settlement(), Some(RequestSettlement::Cancelled));
}
#[test]
fn reversals_are_monotonic_and_conflicting_evidence_is_atomic() {
    let (mut finances, mut provider, mut ledger) = fixture();
    let confirmation = provider.submit(&finances.capture).unwrap();
    let reversal = provider
        .reversal(finances.capture.id, FinancialEventId(9))
        .unwrap();
    let before = finances.clone();
    assert!(finances.record_payment(&reversal).is_err());
    assert_eq!(finances, before);
    post(
        &mut ledger,
        &finances.record_payment(&confirmation).unwrap(),
    );
    post(
        &mut ledger,
        &finances
            .settle(RequestSettlement::Rejected, CanonicalTime(2))
            .unwrap(),
    );
    let effects = finances.record_payment(&reversal).unwrap();
    assert_eq!(effects.holds, vec![finances.capture.id]);
    post(&mut ledger, &effects);
    assert_eq!(
        finances.record_payment(&confirmation).unwrap(),
        RequestFinancialEffects::default()
    );
    assert!(finances.capture_reversed());
    let conflict = provider
        .reversal(finances.capture.id, confirmation.evidence.event_id)
        .unwrap();
    let before = finances.clone();
    assert_eq!(
        finances.record_payment(&conflict),
        Err(PaymentError::DuplicateConflict)
    );
    assert_eq!(finances, before);
}

#[test]
fn outages_and_lost_answers_never_charge_twice() {
    let (mut finances, mut provider, _) = fixture();
    let id = finances.capture.id;
    assert_eq!(
        finances.pending_payment(id),
        Some((&finances.capture, false))
    );
    assert_eq!(finances.pending_payment(PaymentOperationId(2)), None);
    provider.fail_next_submission();
    assert_eq!(
        provider.submit(&finances.capture),
        Err(PaymentError::Unavailable)
    );
    assert_eq!(provider.lookup(id), Ok(None));
    provider.lose_next_response();
    assert_eq!(
        provider.submit(&finances.capture),
        Err(PaymentError::Unavailable)
    );
    let kept = provider.lookup(id).unwrap().unwrap();
    assert_eq!(provider.submit(&finances.capture), Ok(kept.clone()));
    assert_eq!(provider.operations.len(), 1);
    let mut other = finances.capture;
    other.amount = Money::from_minor_units(11);
    assert_eq!(
        provider.submit(&other),
        Err(PaymentError::DuplicateConflict)
    );
    other.id = PaymentOperationId(40);
    let foreign = provider.submit(&other).unwrap();
    assert_eq!(
        finances.record_payment(&foreign),
        Err(PaymentError::OperationMismatch)
    );
    finances.record_payment(&kept).unwrap();
    assert!(finances.capture_confirmed() && !finances.capture_voided());
    assert_eq!(finances.pending_payment(id), None);
}

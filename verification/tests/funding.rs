use cs_mail::finance::bank::{BankVerification, VerifiedBankAccount};
use cs_mail::finance::execution::{
    next_state, Attempt, PaymentChange, PaymentExecution, PaymentState,
};
use cs_mail::finance::funding::FundingSource;
use cs_mail::finance::payments::{
    CaptureCancellation, PaymentError, PaymentEvidence, PaymentKind, PaymentOperation,
    PaymentOutcome, PaymentProcessor, SimulatedProcessor,
};
use cs_mail::finance::scope::FinancialScope;
use cs_mail::primitives::amounts::{Money, SettlementUnit};
use cs_mail::primitives::ids::{
    AllocationId, BillingAccountId, FinancialEventId, MemberId, PaymentOperationId, ProgramRef,
    ProviderRef,
};
use cs_mail::primitives::versions::ProtocolVersion;
use ed25519_dalek::SigningKey;
use std::collections::BTreeMap;
fn bank(version: u64) -> VerifiedBankAccount {
    BankVerification {
        scope: operation(1).scope,
        account: BillingAccountId(1),
        member: MemberId(1),
        person: [8; 32],
        bank_token: [9; 32],
        unit: SettlementUnit(1),
        version,
        signature: Vec::new(),
    }
    .sign(&[7; 32])
    .unwrap()
    .verify(&SigningKey::from_bytes(&[7; 32]).verifying_key().to_bytes())
    .unwrap()
}
fn operation(id: u128) -> PaymentOperation {
    PaymentOperation {
        scope: FinancialScope::new(
            [1; 32],
            ProviderRef(2),
            ProgramRef(3),
            [4; 32],
            ProtocolVersion(2),
        ),
        id: PaymentOperationId(id),
        kind: PaymentKind::Capture,
        amount: Money::from_minor_units(100),
        unit: SettlementUnit(1),
        destination: [9; 32],
    }
}
#[test]
fn queued_charge_is_rechecked_before_first_dispatch() {
    let mut source = FundingSource::verified(&bank(1), 2).unwrap();
    let mut processor = SimulatedProcessor::new([7; 32]);
    source.reserve(&operation(1)).unwrap();
    source.reserve(&operation(2)).unwrap();
    source.authorize_dispatch(PaymentOperationId(1)).unwrap();
    processor.pend_next_submission();
    processor.submit(&operation(1)).unwrap();
    let failed = processor
        .resolve(
            PaymentOperationId(1),
            FinancialEventId(90),
            PaymentOutcome::Failed,
        )
        .unwrap();
    source.record(&failed, &processor.verifying_key()).unwrap();
    assert!(source.restricted());
    assert_eq!(
        source.authorize_dispatch(PaymentOperationId(2)),
        Err(PaymentError::FundingRestricted)
    );
    // Already authorized work remains reconcilable; reservation alone grants no dispatch.
    source.authorize_dispatch(PaymentOperationId(1)).unwrap();
    source.reverify(&bank(2)).unwrap();
    source.authorize_dispatch(PaymentOperationId(2)).unwrap();
    assert!(source.reverify(&bank(2)).is_err());
}
#[test]
fn unresolved_limit_is_not_a_lifetime_attempt_limit() {
    let mut source = FundingSource::verified(&bank(1), 1).unwrap();
    let mut processor = SimulatedProcessor::new([7; 32]);
    for id in 1..=3 {
        source.reserve(&operation(id)).unwrap();
        assert!(source.reserve(&operation(id + 1)).is_err());
        source.authorize_dispatch(PaymentOperationId(id)).unwrap();
        let paid = processor.submit(&operation(id)).unwrap();
        source.record(&paid, &processor.verifying_key()).unwrap();
    }
}
#[test]
fn cancellation_reaches_an_already_pending_capture() {
    let mut processor = SimulatedProcessor::new([7; 32]);
    processor.pend_next_submission();
    let pending = processor.submit(&operation(1)).unwrap();
    assert_eq!(pending.evidence.outcome, PaymentOutcome::Pending);
    let cancellation = CaptureCancellation::new(operation(1)).unwrap();
    let voided = processor.cancel_capture(&cancellation).unwrap();
    assert_eq!(voided.evidence.outcome, PaymentOutcome::Voided);
    assert_eq!(processor.cancel_capture(&cancellation).unwrap(), voided);
    assert_eq!(processor.submit(&operation(1)).unwrap(), voided);
    let mut payout = operation(2);
    payout.kind = PaymentKind::MemberPayout {
        allocation: AllocationId(7),
    };
    assert!(CaptureCancellation::new(payout).is_err());
}
#[test]
fn uncertain_attempt_cannot_be_replaced_and_late_conflicting_evidence_is_rejected() {
    let mut processor = SimulatedProcessor::new([7; 32]);
    let op = operation(1);
    let mut payment = PaymentExecution::new(op.clone()).unwrap();
    processor.lose_next_response();
    assert!(processor.submit(&op).is_err());
    assert!(payment.retry(PaymentOperationId(2)).is_err());
    let paid = processor.lookup(op.id).unwrap().unwrap();
    payment.record(&paid, &processor.verifying_key()).unwrap();
    assert!(payment.retry(PaymentOperationId(2)).is_err());
    assert!(
        PaymentExecution::restore(payment.attempts.clone(), payment.events.clone()).is_ok()
    );
    assert!(PaymentExecution::restore(payment.attempts, BTreeMap::new()).is_err());
}
#[test]
fn bank_evidence_is_scoped_signed_and_not_a_numeric_assertion() {
    let mut evidence = bank(1).evidence().clone();
    evidence.account = BillingAccountId(2);
    assert!(
        evidence
            .verify(&SigningKey::from_bytes(&[7; 32]).verifying_key().to_bytes())
            .is_err()
    );
}

#[test]
fn a_failed_receipt_cannot_be_restored_as_a_pending_attempt() {
    let mut processor = SimulatedProcessor::new([7; 32]);
    let op = operation(50);
    let mut payment = PaymentExecution::new(op.clone()).unwrap();
    processor.pend_next_submission();
    processor.submit(&op).unwrap();
    let failed = processor
        .resolve(op.id, FinancialEventId(51), PaymentOutcome::Failed)
        .unwrap();
    payment.record(&failed, &processor.verifying_key()).unwrap();
    let mut attempts = payment.attempts.clone();
    attempts[0] = Attempt {
        state: PaymentState::Pending,
        ..attempts[0]
    };
    assert!(PaymentExecution::restore(attempts, payment.events.clone()).is_err());
    assert!(payment.retry(PaymentOperationId(0)).is_err());
    assert_eq!(payment.attempt_count(), 1);
}

#[test]
fn evidence_changes_a_state_once() {
    let evidence = |event, outcome| PaymentEvidence {
        event_id: FinancialEventId(event),
        operation_id: PaymentOperationId(1),
        operation_digest: operation(1).digest(),
        outcome,
    };
    let id = FinancialEventId;
    let settled = PaymentState::Settled { evidence: id(5) };
    let reversed = PaymentState::Reversed {
        settlement: id(5),
        reversal: id(6),
    };
    let failed = PaymentState::Failed { evidence: id(5) };
    let voided = PaymentState::Voided { evidence: id(5) };
    for (state, news, next, change) in [
        (PaymentState::Pending, evidence(5, PaymentOutcome::Settled), settled, PaymentChange::Settled),
        (PaymentState::Pending, evidence(5, PaymentOutcome::Failed), failed, PaymentChange::Unchanged),
        (PaymentState::Pending, evidence(5, PaymentOutcome::Voided), voided, PaymentChange::Unchanged),
        (settled, evidence(6, PaymentOutcome::Reversed), reversed, PaymentChange::Reversed),
        (settled, evidence(7, PaymentOutcome::Pending), settled, PaymentChange::Unchanged),
        (reversed, evidence(8, PaymentOutcome::Settled), reversed, PaymentChange::Unchanged),
    ] {
        assert_eq!(next_state(state, &news), Ok((next, change)));
        assert_eq!(next_state(next, &news), Ok((next, PaymentChange::Unchanged)));
    }
    for (state, outcome) in [
        (PaymentState::Pending, PaymentOutcome::Reversed),
        (failed, PaymentOutcome::Settled),
        (voided, PaymentOutcome::Failed),
        (settled, PaymentOutcome::Failed),
        (reversed, PaymentOutcome::Voided),
    ] {
        assert_eq!(
            next_state(state, &evidence(9, outcome)),
            Err(PaymentError::InvalidOperation)
        );
    }
}

#[test]
fn pending_operations_are_resolved_once_and_for_good() {
    let mut processor = SimulatedProcessor::new([7; 32]);
    let key = processor.verifying_key();
    let id = PaymentOperationId(1);
    let event = FinancialEventId(80);
    for (outcome, op) in [
        (PaymentOutcome::Settled, 1),
        (PaymentOutcome::Failed, 2),
        (PaymentOutcome::Voided, 3),
    ] {
        processor.pend_next_submission();
        processor.submit(&operation(op)).unwrap();
        let receipt = processor
            .resolve(PaymentOperationId(op), event, outcome)
            .unwrap();
        assert_eq!(receipt.evidence.outcome, outcome);
        assert_eq!(receipt.evidence.event_id, event);
        receipt.verify(&key, &operation(op)).unwrap();
        assert_eq!(
            processor.lookup(PaymentOperationId(op)),
            Ok(Some(receipt))
        );
    }
    assert_eq!(processor.operation_count(), 3);
    for (op, outcome) in [
        (id, PaymentOutcome::Failed),
        (PaymentOperationId(9), PaymentOutcome::Settled),
    ] {
        assert_eq!(
            processor.resolve(op, event, outcome),
            Err(PaymentError::InvalidOperation)
        );
    }
}

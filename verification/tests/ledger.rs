use cs_mail::ledger::{Account, LedgerBatch, LedgerError, LedgerState, LedgerView};
use cs_mail::primitives::amounts::{Money, SettlementUnit};
use cs_mail::primitives::ids::PaymentOperationId;

#[test]
fn failed_batch_is_atomic_and_cannot_spend_refunds_twice() {
    let id = PaymentOperationId(1);
    let account = Account::RefundPayable(id);
    let mut ledger = LedgerState::new(SettlementUnit(1));
    let mut capture = LedgerBatch::new();
    capture.transfer(
        Account::ProcessorClearing,
        account,
        Money::from_minor_units(5),
    );
    ledger.apply(0, &capture).unwrap();
    let before = ledger.clone();
    let mut batch = LedgerBatch::new();
    batch.transfer(
        account,
        Account::ProcessorClearing,
        Money::from_minor_units(4),
    );
    batch.transfer(
        account,
        Account::ProcessorClearing,
        Money::from_minor_units(4),
    );
    assert!(ledger.apply(1, &batch).is_err());
    assert_eq!(ledger, before);
    assert_eq!(ledger.total_value(), Ok(Money::zero()));
}

#[test]
fn overflow_and_stale_revision_leave_ledger_unchanged() {
    let mut ledger = LedgerState::new(SettlementUnit(1));
    let mut batch = LedgerBatch::new();
    batch.transfer(
        Account::ProcessorClearing,
        Account::ProcessingRevenue,
        Money::from_minor_units(u64::MAX),
    );
    ledger.apply(0, &batch).unwrap();
    let before = ledger.clone();
    assert!(ledger.apply(0, &batch).is_err());
    assert!(ledger.apply(1, &batch).is_err());
    assert_eq!(before, ledger);
}

#[test]
fn posting_moves_amounts_exactly_and_conserves_value() {
    let mut ledger = LedgerState::new(SettlementUnit(1));
    let mut batch = LedgerBatch::new();
    batch.transfer(
        Account::ProcessorClearing,
        Account::ProcessingRevenue,
        Money::from_minor_units(7),
    );
    batch.transfer(
        Account::ProcessorClearing,
        Account::RefundPayable(PaymentOperationId(2)),
        Money::from_minor_units(3),
    );
    batch.transfer(
        Account::ProcessorClearing,
        Account::ProcessingRevenue,
        Money::zero(),
    );
    assert_eq!(batch.transfers().len(), 2);
    assert!(batch.is_balanced());
    ledger.apply(0, &batch).unwrap();
    let view = ledger.view();
    assert_eq!(view.revision, 1);
    assert_eq!(view.signed_balance(Account::ProcessorClearing), -10);
    assert_eq!(view.signed_balance(Account::ProcessingRevenue), 7);
    assert_eq!(
        ledger.balance(Account::RefundPayable(PaymentOperationId(2))),
        Money::from_minor_units(3)
    );
    assert_eq!(ledger.balance(Account::ProcessorClearing), Money::zero());
    assert_eq!(ledger.total_value(), Ok(Money::zero()));
}

#[test]
fn a_stale_revision_and_an_overdraft_have_their_own_errors() {
    let mut ledger = LedgerState::new(SettlementUnit(1));
    let account = Account::RefundPayable(PaymentOperationId(1));
    let mut batch = LedgerBatch::new();
    batch.transfer(
        account,
        Account::ProcessorClearing,
        Money::from_minor_units(4),
    );
    assert_eq!(ledger.apply(3, &batch), Err(LedgerError::VersionConflict));
    assert_eq!(
        ledger.apply(0, &batch),
        Err(LedgerError::InsufficientFunds {
            account,
            available: Money::zero(),
            required: Money::from_minor_units(4),
        })
    );
}

#[test]
fn unbalanced_and_overfull_ledgers_have_their_own_errors() {
    let unit = SettlementUnit(1);
    let revenue = Account::ProcessingRevenue;
    let clearing = Account::ProcessorClearing;
    let view = LedgerView::from_balances(4, unit, vec![(revenue, 5), (clearing, -5)]);
    assert_eq!(view.balances().len(), 2);
    assert_eq!(view.total_value(), Ok(Money::zero()));
    assert_eq!(LedgerState::from_view(view).view().revision, 4);
    let unbalanced = LedgerView::from_balances(0, unit, vec![(revenue, 5)]);
    assert_eq!(unbalanced.total_value(), Err(LedgerError::InvalidBatch));
    let mut full = LedgerState::new(unit);
    let mut batch = LedgerBatch::new();
    batch.transfer(clearing, revenue, Money::from_minor_units(u64::MAX));
    full.apply(0, &batch).unwrap();
    assert_eq!(full.apply(1, &batch), Err(LedgerError::ArithmeticOverflow));
}

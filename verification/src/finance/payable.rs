//! One annual allocation, one bank payment. Rebate and excess are reporting values.

use super::bank::{BankVerification, VerifiedBankAccount};
use super::distribution::DistributionTerms;
use super::execution::{
    first_attempt, lemma_recorded_operations, ExecutionModel, PaymentChange, PaymentExecution,
    PaymentState,
};
use super::payments::{PaymentKind, PaymentOperation, SignedPaymentEvidence};
use super::scope::FinancialScope;
use super::terms::ProgramError;
use crate::bytes::{be_bytes, push_all, push_be, push_text, same_32, utf8};
use crate::crypto::{digest_id, id_of};
use crate::ledger::{net, with_transfer, Account, LedgerBatch, Transfer};
use crate::primitives::amounts::{CanonicalTime, Money, SettlementUnit};
use crate::primitives::calendar::{calendar_date, date_time};
use crate::primitives::ids::{
    AllocationId, AnnualDistributionId, FinancialEventId, MemberId, PaymentOperationId,
};
use vstd::prelude::*;

verus! {

#[derive(Debug, PartialEq, Eq)]
pub struct MemberPayable {
    pub id: AllocationId,
    pub member: MemberId,
    pub distribution: AnnualDistributionId,
    pub amount: Money,
    pub terms: DistributionTerms,
    pub scope: FinancialScope,
    pub unit: SettlementUnit,
    pub payment: Option<PaymentExecution>,
    pub correction: Option<FinancialEventId>,
}

pub ghost struct PayableModel {
    pub id: AllocationId,
    pub member: MemberId,
    pub distribution: AnnualDistributionId,
    pub amount: Money,
    pub terms: DistributionTerms,
    pub scope: FinancialScope,
    pub unit: SettlementUnit,
    pub payment: Option<ExecutionModel>,
    pub correction: Option<FinancialEventId>,
}

impl View for MemberPayable {
    type V = PayableModel;

    open spec fn view(&self) -> PayableModel {
        PayableModel {
            id: self.id,
            member: self.member,
            distribution: self.distribution,
            amount: self.amount,
            terms: self.terms,
            scope: self.scope,
            unit: self.unit,
            payment: match self.payment {
                Some(payment) => Some(payment@),
                None => None,
            },
            correction: self.correction,
        }
    }
}

/// What the identifier of a payout attempt is made of.
pub open spec fn payout_bytes(scope: FinancialScope, allocation: AllocationId, attempt: nat) -> Seq<
    u8,
> {
    utf8("cs-mail/distribution-payment/v1"@) + scope.canonical() + be_bytes(
        allocation.0 as nat,
        16,
    ) + be_bytes(attempt, 16)
}

/// The identifier of a payout attempt.
pub open spec fn payout_operation_id(
    scope: FinancialScope,
    allocation: AllocationId,
    attempt: nat,
) -> PaymentOperationId {
    PaymentOperationId(digest_id(payout_bytes(scope, allocation, attempt)))
}

fn payout_id(scope: FinancialScope, allocation: AllocationId, attempt: usize) -> (id:
    PaymentOperationId)
    ensures
        id == payout_operation_id(scope, allocation, attempt as nat),
{
    let mut bytes: Vec<u8> = Vec::new();
    push_text(&mut bytes, "cs-mail/distribution-payment/v1");
    push_all(&mut bytes, scope.canonical_bytes().as_slice());
    push_be(&mut bytes, allocation.0, 16);
    push_be(&mut bytes, attempt as u128, 16);
    assert(bytes@ =~= payout_bytes(scope, allocation, attempt as nat));
    PaymentOperationId(id_of(bytes.as_slice()))
}

impl PayableModel {
    /// A payment that has been set up has an attempt.
    pub open spec fn started(self) -> bool {
        self.payment matches Some(payment) ==> payment.attempts.len() > 0
    }

    pub open spec fn rebate(self) -> Money {
        if self.amount.0 <= self.terms.utility_charge.0 {
            self.amount
        } else {
            self.terms.utility_charge
        }
    }

    pub open spec fn settled(self) -> bool {
        self.payment matches Some(payment) && payment.state() is Settled
    }

    pub open spec fn outstanding(self) -> Money {
        if self.settled() {
            Money(0)
        } else {
            self.amount
        }
    }

    /// The payment is one of this allocation, for its amount.
    pub open spec fn pays(self, operation: PaymentOperation) -> bool {
        &&& operation.scope == self.scope
        &&& operation.unit == self.unit
        &&& operation.amount == self.amount
        &&& operation.kind == (PaymentKind::MemberPayout { allocation: self.id })
    }

    /// Whether the record is one that can have come about in a program, and if not, why.
    pub open spec fn check(self, scope: FinancialScope, unit: SettlementUnit) -> Result<
        (),
        ProgramError,
    > {
        let cutoff = if self.distribution.0 < u16::MAX {
            date_time(self.distribution.0 + 1, 1, 1)
        } else {
            None
        };
        match cutoff {
            None => Err(ProgramError::InvalidPolicy),
            Some(cutoff) => if self.id.0 == 0 || self.member.0 == 0 || self.scope != scope
                || self.unit != unit || self.terms.due_at.0 < cutoff.0 {
                Err(ProgramError::InvalidPayment)
            } else {
                match self.payment {
                    None => Ok(()),
                    Some(payment) => if !payment.consistent() {
                        Err(
                            ProgramError::Payment(
                                super::payments::PaymentError::InvalidOperation,
                            ),
                        )
                    } else if !self.pays(payment.current()) {
                        Err(ProgramError::InvalidPayment)
                    } else {
                        Ok(())
                    },
                }
            },
        }
    }

    /// The operation that pays the allocation out to a bank account.
    pub open spec fn payout(self, bank: BankVerification, attempt: nat) -> PaymentOperation {
        PaymentOperation {
            scope: self.scope,
            id: payout_operation_id(self.scope, self.id, attempt),
            kind: PaymentKind::MemberPayout { allocation: self.id },
            amount: self.amount,
            unit: self.unit,
            destination: bank.bank_token,
        }
    }

    /// The allocation with a payment under way, and its operation if there is one to carry out;
    /// or why there is none.
    pub open spec fn prepared(self, bank: BankVerification, at: CanonicalTime) -> Result<
        (Self, Option<PaymentOperation>),
        ProgramError,
    > {
        if bank.scope != self.scope || bank.unit != self.unit || bank.member != self.member {
            Err(ProgramError::InvalidPayment)
        } else if at.0 < self.terms.due_at.0 {
            Err(ProgramError::TooEarly)
        } else {
            match self.payment {
                Some(payment) => if payment.current().destination != bank.bank_token {
                    Err(ProgramError::InvalidPayment)
                } else {
                    match payment.state() {
                        PaymentState::Pending => Ok((self, Some(payment.current()))),
                        PaymentState::Failed { .. } => {
                            let id = payout_operation_id(
                                self.scope,
                                self.id,
                                payment.attempts.len(),
                            );
                            match payment.retried(id) {
                                Ok(next) => Ok(
                                    (
                                        PayableModel { payment: Some(next), ..self },
                                        Some(next.current()),
                                    ),
                                ),
                                Err(e) => Err(ProgramError::Payment(e)),
                            }
                        },
                        PaymentState::Settled { .. } => Ok((self, None)),
                        _ => Err(ProgramError::InvalidPayment),
                    }
                },
                None => if self.amount.0 == 0 {
                    Ok((self, None))
                } else {
                    let operation = self.payout(bank, 0);
                    if operation.valid() {
                        Ok(
                            (
                                PayableModel { payment: Some(first_attempt(operation)), ..self },
                                Some(operation),
                            ),
                        )
                    } else {
                        Err(
                            ProgramError::Payment(
                                super::payments::PaymentError::InvalidOperation,
                            ),
                        )
                    }
                },
            }
        }
    }

    /// The transfers that go with a change of the payment.
    pub open spec fn postings(self, change: PaymentChange) -> Seq<Transfer> {
        let none = Seq::<Transfer>::empty();
        match change {
            PaymentChange::Settled => with_transfer(
                none,
                Account::MemberPayable(self.id),
                Account::ProcessorClearing,
                self.amount,
            ),
            PaymentChange::Reversed => with_transfer(
                none,
                Account::ProcessorClearing,
                Account::MemberPayable(self.id),
                self.amount,
            ),
            PaymentChange::Unchanged => none,
        }
    }

    /// The allocation after a receipt, and the transfers that go with it; or why the receipt is
    /// refused.
    pub open spec fn receipted(self, receipt: SignedPaymentEvidence, key: [u8; 32]) -> Result<
        (Self, Seq<Transfer>),
        ProgramError,
    > {
        match self.payment {
            None => Err(ProgramError::InvalidPayment),
            Some(payment) => match payment.recorded(receipt, key) {
                Err(e) => Err(ProgramError::Payment(e)),
                Ok((next, change)) => Ok(
                    (PayableModel { payment: Some(next), ..self }, self.postings(change)),
                ),
            },
        }
    }
}

impl MemberPayable {
    /// A new allocation. Inconsistent identifiers and terms are refused.
    pub fn new(
        id: AllocationId,
        member: MemberId,
        distribution: AnnualDistributionId,
        amount: Money,
        terms: DistributionTerms,
        scope: FinancialScope,
        unit: SettlementUnit,
        correction: Option<FinancialEventId>,
    ) -> (result: Result<Self, ProgramError>)
        ensures
            ({
                let model = PayableModel {
                    id,
                    member,
                    distribution,
                    amount,
                    terms,
                    scope,
                    unit,
                    payment: None,
                    correction,
                };
                match model.check(scope, unit) {
                    Ok(()) => result matches Ok(payable) && payable@ == model,
                    Err(e) => result == Err::<Self, ProgramError>(e),
                }
            }),
    {
        let value = MemberPayable {
            id,
            member,
            distribution,
            amount,
            terms,
            scope,
            unit,
            payment: None,
            correction,
        };
        match value.validate(scope, unit) {
            Ok(()) => Ok(value),
            Err(e) => Err(e),
        }
    }

    /// Takes a stored allocation back in, if it is one that can have come about.
    pub fn restore(stored: MemberPayable) -> (result: Result<Self, ProgramError>)
        ensures
            match stored@.check(stored.scope, stored.unit) {
                Ok(()) => result == Ok::<Self, ProgramError>(stored),
                Err(e) => result == Err::<Self, ProgramError>(e),
            },
    {
        match stored.validate(stored.scope, stored.unit) {
            Ok(()) => Ok(stored),
            Err(e) => Err(e),
        }
    }

    pub fn id(&self) -> (id: AllocationId)
        ensures
            id == self@.id,
    {
        self.id
    }

    pub fn member(&self) -> (member: MemberId)
        ensures
            member == self@.member,
    {
        self.member
    }

    pub fn distribution(&self) -> (distribution: AnnualDistributionId)
        ensures
            distribution == self@.distribution,
    {
        self.distribution
    }

    pub fn amount(&self) -> (amount: Money)
        ensures
            amount == self@.amount,
    {
        self.amount
    }

    pub fn correction(&self) -> (correction: Option<FinancialEventId>)
        ensures
            correction == self@.correction,
    {
        self.correction
    }

    pub fn terms(&self) -> (terms: &DistributionTerms)
        ensures
            *terms == self@.terms,
    {
        &self.terms
    }

    pub fn payment(&self) -> (payment: Option<&PaymentExecution>)
        ensures
            match payment {
                Some(p) => self@.payment == Some(p@) && self.payment == Some(*p),
                None => self@.payment is None,
            },
    {
        match &self.payment {
            Some(payment) => Some(payment),
            None => None,
        }
    }

    /// The part of the amount that makes up for the utility charge.
    pub fn rebate(&self) -> (rebate: Money)
        ensures
            rebate == self@.rebate(),
    {
        if self.amount.0 <= self.terms.utility_charge.0 {
            self.amount
        } else {
            self.terms.utility_charge
        }
    }

    /// The part of the amount beyond the utility charge.
    pub fn excess(&self) -> (excess: Money)
        ensures
            excess.0 == self@.amount.0 - self@.rebate().0,
    {
        Money(self.amount.0 - self.rebate().0)
    }

    pub fn outstanding(&self) -> (outstanding: Money)
        requires
            self@.started(),
        ensures
            outstanding == self@.outstanding(),
    {
        match &self.payment {
            Some(payment) => {
                if matches!(payment.state(), PaymentState::Settled { .. }) {
                    Money::zero()
                } else {
                    self.amount
                }
            },
            None => self.amount,
        }
    }

    /// The operation that awaits an outcome.
    pub fn pending(&self) -> (operation: Option<&PaymentOperation>)
        requires
            self@.started(),
        ensures
            match operation {
                Some(o) => self@.payment matches Some(payment) && payment.state()
                    == PaymentState::Pending && *o == payment.current(),
                None => self@.payment matches Some(payment) ==> payment.state()
                    != PaymentState::Pending,
            },
    {
        match &self.payment {
            Some(payment) => payment.pending(),
            None => None,
        }
    }

    /// Sets up the payment of a due allocation to the member's verified bank account.
    pub fn prepare(&mut self, bank: &VerifiedBankAccount, at: CanonicalTime) -> (result: Result<
        Option<PaymentOperation>,
        ProgramError,
    >)
        requires
            old(self)@.started(),
        ensures
            match old(self)@.prepared(bank.proven(), at) {
                Ok((next, operation)) => result == Ok::<Option<PaymentOperation>, ProgramError>(
                    operation,
                ) && final(self)@ == next && next.started(),
                Err(e) => result == Err::<Option<PaymentOperation>, ProgramError>(e) && final(
                    self)@ == old(self)@,
            },
    {
        let evidence = bank.evidence();
        if !evidence.scope.same(&self.scope) || evidence.unit != self.unit || evidence.member
            != self.member {
            return Err(ProgramError::InvalidPayment);
        }
        if at.0 < self.terms.due_at.0 {
            return Err(ProgramError::TooEarly);
        }
        match &self.payment {
            Some(known) => {
                if !same_32(&known.current().destination, &evidence.bank_token) {
                    return Err(ProgramError::InvalidPayment);
                }
                match known.state() {
                    PaymentState::Pending => Ok(Some(*known.current())),
                    PaymentState::Failed { .. } => {
                        let mut payment = known.clone();
                        let id = payout_id(self.scope, self.id, payment.attempt_count());
                        match payment.retry(id) {
                            Ok(operation) => {
                                self.payment = Some(payment);
                                Ok(Some(operation))
                            },
                            Err(e) => Err(ProgramError::Payment(e)),
                        }
                    },
                    PaymentState::Settled { .. } => Ok(None),
                    _ => Err(ProgramError::InvalidPayment),
                }
            },
            None => {
                if self.amount.is_zero() {
                    return Ok(None);
                }
                let operation = PaymentOperation {
                    scope: self.scope,
                    id: payout_id(self.scope, self.id, 0),
                    kind: PaymentKind::MemberPayout { allocation: self.id },
                    amount: self.amount,
                    unit: self.unit,
                    destination: evidence.bank_token,
                };
                match PaymentExecution::new(operation) {
                    Ok(payment) => {
                        self.payment = Some(payment);
                        Ok(Some(operation))
                    },
                    Err(e) => Err(ProgramError::Payment(e)),
                }
            },
        }
    }

    /// Takes in a receipt and gives the transfers that go with it.
    pub fn record_receipt(&mut self, receipt: &SignedPaymentEvidence, key: &[u8; 32]) -> (result:
        Result<LedgerBatch, ProgramError>)
        requires
            old(self)@.started(),
        ensures
            match old(self)@.receipted(*receipt, *key) {
                Ok((next, transfers)) => result matches Ok(batch) && batch.transfers@ == transfers
                    && final(self)@ == next && next.started(),
                Err(e) => result == Err::<LedgerBatch, ProgramError>(e) && final(self)@ == old(
                    self)@,
            },
    {
        let mut payment = match &self.payment {
            Some(payment) => payment.clone(),
            None => return Err(ProgramError::InvalidPayment),
        };
        let ghost before = payment@;
        let mut batch = LedgerBatch::new();
        match payment.record(receipt, key) {
            Ok(PaymentChange::Settled) => {
                batch.transfer(
                    Account::MemberPayable(self.id),
                    Account::ProcessorClearing,
                    self.amount,
                );
            },
            Ok(PaymentChange::Reversed) => {
                batch.transfer(
                    Account::ProcessorClearing,
                    Account::MemberPayable(self.id),
                    self.amount,
                );
            },
            Ok(PaymentChange::Unchanged) => {},
            Err(e) => return Err(ProgramError::Payment(e)),
        }
        proof {
            lemma_recorded_operations(before, *receipt, *key);
        }
        self.payment = Some(payment);
        Ok(batch)
    }

    /// Refuses inconsistent identifiers, amounts, operation purposes, or evidence history.
    pub fn validate(&self, scope: FinancialScope, unit: SettlementUnit) -> (result: Result<
        (),
        ProgramError,
    >)
        ensures
            result == self@.check(scope, unit),
    {
        if self.distribution.0 >= 65535 {
            return Err(ProgramError::InvalidPolicy);
        }
        let cutoff = match calendar_date(self.distribution.0 as u16 + 1, 1, 1) {
            Some(time) => time,
            None => return Err(ProgramError::InvalidPolicy),
        };
        if self.id.0 == 0 || self.member.0 == 0 || !self.scope.same(&scope) || self.unit != unit
            || self.terms.due_at.0 < cutoff.0 {
            return Err(ProgramError::InvalidPayment);
        }
        match &self.payment {
            Some(payment) => {
                match payment.validate() {
                    Ok(()) => {},
                    Err(e) => return Err(ProgramError::Payment(e)),
                }
                let operation = payment.current();
                if !operation.scope.same(&scope) || operation.unit != unit || operation.amount
                    != self.amount || operation.kind != (PaymentKind::MemberPayout {
                    allocation: self.id,
                }) {
                    return Err(ProgramError::InvalidPayment);
                }
            },
            None => {},
        }
        Ok(())
    }
}

impl Clone for MemberPayable {
    fn clone(&self) -> (copy: Self)
        ensures
            copy@ == self@,
    {
        MemberPayable {
            id: self.id,
            member: self.member,
            distribution: self.distribution,
            amount: self.amount,
            terms: self.terms,
            scope: self.scope,
            unit: self.unit,
            payment: match &self.payment {
                Some(payment) => Some(payment.clone()),
                None => None,
            },
            correction: self.correction,
        }
    }
}

/// Rebate and excess make up the amount, and the rebate never exceeds the utility charge.
pub proof fn rebate_and_excess_make_the_amount(payable: PayableModel)
    ensures
        payable.rebate().0 <= payable.amount.0,
        payable.rebate().0 <= payable.terms.utility_charge.0,
        payable.rebate().0 == payable.amount.0 || payable.rebate().0
            == payable.terms.utility_charge.0,
{
}

/// Preparing a payment again, before anything came of it, gives the same operation and changes
/// nothing.
pub proof fn preparation_is_idempotent(
    payable: PayableModel,
    bank: BankVerification,
    at: CanonicalTime,
    later: CanonicalTime,
)
    requires
        payable.started(),
        at.0 <= later.0,
        payable.prepared(bank, at) is Ok,
    ensures
        payable.prepared(bank, at)->Ok_0.0.prepared(bank, later) == payable.prepared(bank, at),
{
}

/// A prepared payment keeps a consistent allocation consistent.
pub proof fn preparation_stays_consistent(
    payable: PayableModel,
    bank: BankVerification,
    at: CanonicalTime,
)
    requires
        payable.check(payable.scope, payable.unit) is Ok,
        payable.prepared(bank, at) is Ok,
    ensures
        ({
            let next = payable.prepared(bank, at)->Ok_0.0;
            next.check(payable.scope, payable.unit) is Ok
        }),
{
    match payable.payment {
        Some(payment) => {
            let id = payout_operation_id(payable.scope, payable.id, payment.attempts.len());
            if payment.state() is Failed {
                super::execution::retries_stay_consistent(payment, id);
            }
        },
        None => {
            if payable.amount.0 != 0 {
                super::execution::new_payments_are_consistent(payable.payout(bank, 0));
            }
        },
    }
}

/// An allocation is paid out to a verified bank account of its member, in its scope and unit, not
/// before it is due, and in full. While the outcome is open the same payment goes on; after a
/// failure there is a further attempt to the same account; and what is paid is not paid again.
pub proof fn payouts_go_to_the_member_when_due(
    payable: PayableModel,
    bank: BankVerification,
    at: CanonicalTime,
)
    requires
        payable.check(payable.scope, payable.unit) is Ok,
        payable.prepared(bank, at) is Ok,
    ensures
        ({
            let (next, operation) = payable.prepared(bank, at)->Ok_0;
            let was = payable.payment->Some_0;
            let is = next.payment->Some_0;
            &&& bank.member == payable.member
            &&& bank.scope == payable.scope
            &&& bank.unit == payable.unit
            &&& at.0 >= payable.terms.due_at.0
            &&& operation matches Some(o) ==> {
                &&& o.amount == payable.amount
                &&& o.amount.0 > 0
                &&& o.unit == payable.unit
                &&& o.scope == payable.scope
                &&& o.destination == bank.bank_token
                &&& o.kind == PaymentKind::MemberPayout { allocation: payable.id }
                &&& next.payment is Some
                &&& is.attempts.last().operation == o
                &&& is.attempts.last().state is Pending
            }
            &&& payable.payment is None ==> (operation is Some <==> payable.amount.0 > 0)
            &&& payable.payment is None && operation is Some ==> is.attempts.len() == 1
            &&& payable.payment is Some ==> {
                let state = was.attempts.last().state;
                &&& was.attempts.last().operation.destination == bank.bank_token
                &&& state is Pending || state is Failed || state is Settled
                &&& operation is None <==> state is Settled
                &&& state is Failed ==> is.attempts.len() == was.attempts.len() + 1
                &&& !(state is Failed) ==> next == payable
                &&& is.events == was.events
            }
            &&& operation is None ==> next == payable
            &&& next.id == payable.id && next.member == payable.member && next.amount
                == payable.amount && next.distribution == payable.distribution && next.terms
                == payable.terms && next.scope == payable.scope && next.unit == payable.unit
                && next.correction == payable.correction
        }),
{
    match payable.payment {
        Some(payment) => {
            if payment.state() is Failed {
                let id = payout_operation_id(payable.scope, payable.id, payment.attempts.len());
                super::execution::retries_stay_consistent(payment, id);
                assert(payment.attempt_consistent(payment.attempts.len() - 1));
            } else {
                assert(payment.attempt_consistent(payment.attempts.len() - 1));
            }
        },
        None => {},
    }
}

/// A payout that is not due, or to an account that is not the member's, or in another scope or
/// unit, is refused.
pub proof fn other_payouts_are_refused(
    payable: PayableModel,
    bank: BankVerification,
    at: CanonicalTime,
)
    ensures
        payable.prepared(bank, at) == Err::<(PayableModel, Option<PaymentOperation>), ProgramError>(
            ProgramError::TooEarly,
        ) <==> bank.member == payable.member && bank.scope == payable.scope && bank.unit
            == payable.unit && at.0 < payable.terms.due_at.0,
        bank.member != payable.member || bank.scope != payable.scope || bank.unit != payable.unit
            ==> payable.prepared(bank, at) == Err::<
            (PayableModel, Option<PaymentOperation>),
            ProgramError,
        >(ProgramError::InvalidPayment),
{
    match payable.payment {
        Some(payment) => {
            let id = payout_operation_id(payable.scope, payable.id, payment.attempts.len());
            assert(payment.retried(id) is Err || payment.retried(id) is Ok);
        },
        None => {},
    }
}

/// A receipt for a payout settles what is owed once, in full: what the member is owed goes down by
/// the amount as the payment settles, and comes back when it is reversed.
pub proof fn payout_receipts_settle_what_is_owed(
    payable: PayableModel,
    receipt: SignedPaymentEvidence,
    key: [u8; 32],
)
    requires
        payable.payment is Some,
        payable.payment->Some_0.consistent(),
        payable.receipted(receipt, key) is Ok,
    ensures
        ({
            let (next, ts) = payable.receipted(receipt, key)->Ok_0;
            let was = payable.payment->Some_0.attempts.last().state;
            let is = next.payment->Some_0.attempts.last().state;
            let owed = net(ts, ts.len(), Account::MemberPayable(payable.id));
            let amount = payable.amount.0 as int;
            &&& next.payment is Some
            &&& owed == if is is Settled && !(was is Settled) {
                -amount
            } else if is is Reversed && !(was is Reversed) {
                amount
            } else {
                0
            }
            &&& net(ts, ts.len(), Account::ProcessorClearing) == -owed
            &&& is is Settled && !(was is Settled) ==> was is Pending
            &&& is is Reversed && !(was is Reversed) ==> was is Settled
            &&& next.id == payable.id && next.member == payable.member && next.amount
                == payable.amount && next.distribution == payable.distribution && next.terms
                == payable.terms && next.scope == payable.scope && next.unit == payable.unit
                && next.correction == payable.correction
        }),
{
    let payment = payable.payment->Some_0;
    let (next, change) = payment.recorded(receipt, key)->Ok_0;
    super::execution::receipts_stay_consistent(payment, receipt, key);
    super::execution::value_is_supplied_once(payment, receipt, key);
    if change == PaymentChange::Unchanged {
        super::execution::unchanged_value_stays(payment, receipt, key);
    }
    super::execution::only_the_last_attempt_moves_value(payment, receipt, key);
    super::execution::lemma_find(payment, receipt.evidence.operation_id);
    reveal_with_fuel(net, 3);
}

/// An allocation can be in a program only if it and its member are named, it is the program's, due
/// after its year, and its payment, if there is one, is for it and for the whole of it.
pub proof fn allocations_belong_to_their_program(
    payable: PayableModel,
    scope: FinancialScope,
    unit: SettlementUnit,
)
    requires
        payable.check(scope, unit) is Ok,
    ensures
        payable.id.0 != 0,
        payable.member.0 != 0,
        payable.scope == scope,
        payable.unit == unit,
        payable.distribution.0 < u16::MAX,
        date_time(payable.distribution.0 + 1, 1, 1) is Some,
        payable.terms.due_at.0 >= date_time(payable.distribution.0 + 1, 1, 1)->Some_0.0,
        payable.payment matches Some(payment) ==> {
            let o = payment.attempts.last().operation;
            &&& o.amount == payable.amount && o.unit == unit && o.scope == scope
            &&& o.kind == PaymentKind::MemberPayout { allocation: payable.id }
        },
{
}

} // verus!

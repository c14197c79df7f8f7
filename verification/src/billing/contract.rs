//! A purchased year of service and the collection of its price.

use super::offer::{BillingError, ServiceOffer};
use crate::bytes::{be_bytes, is_zero_32, push_all, push_be, text_bytes, utf8, zero_32};
use crate::crypto::{digest_id, id_of};
use crate::finance::execution::{
    attempts_are_kept, ended, lemma_find, lemma_recorded_operations,
    only_the_last_attempt_moves_value, receipts_stay_consistent,
    retries_stay_consistent, unchanged_value_stays, value_is_supplied_once, ExecutionModel,
    PaymentChange, PaymentExecution, PaymentState,
};
use crate::finance::payments::{
    PaymentError, PaymentKind, PaymentOperation, SignedPaymentEvidence,
};
use crate::finance::scope::FinancialScope;
use crate::ledger::{net, with_transfer, Account, LedgerBatch, Transfer};
use crate::primitives::amounts::CanonicalTime;
use crate::primitives::ids::{PaymentOperationId, ServiceContractId};
use vstd::prelude::*;

verus! {

/// What the identifier of a billing operation is made of.
pub open spec fn operation_bytes(
    scope: FinancialScope,
    purpose: Seq<u8>,
    owner: u128,
    cycle: u128,
) -> Seq<u8> {
    utf8("cs-mail/billing-operation/v2"@) + scope.canonical() + be_bytes(purpose.len(), 8) + purpose
        + be_bytes(owner as nat, 16) + be_bytes(cycle as nat, 16)
}

/// The identifier of a billing operation.
pub fn operation_id(scope: FinancialScope, purpose: &[u8], owner: u128, cycle: u128) -> (id:
    PaymentOperationId)
    ensures
        id.0 == digest_id(operation_bytes(scope, purpose@, owner, cycle)),
{
    let mut bytes = text_bytes("cs-mail/billing-operation/v2");
    push_all(&mut bytes, scope.canonical_bytes().as_slice());
    push_be(&mut bytes, purpose.len() as u128, 8);
    push_all(&mut bytes, purpose);
    push_be(&mut bytes, owner, 16);
    push_be(&mut bytes, cycle, 16);
    PaymentOperationId(id_of(bytes.as_slice()))
}

#[derive(Clone, Copy, Debug, PartialEq, Eq, Structural)]
pub enum ServiceSettlement {
    Unfunded,
    Funded { at: CanonicalTime },
    Reversed { funded_at: CanonicalTime },
}

#[derive(Debug, PartialEq, Eq)]
pub struct ServiceContract {
    pub id: ServiceContractId,
    pub offer: ServiceOffer,
    pub processor_key: [u8; 32],
    pub collection: PaymentExecution,
    pub settlement: ServiceSettlement,
}

pub ghost struct ContractModel {
    pub id: ServiceContractId,
    pub offer: ServiceOffer,
    pub processor_key: [u8; 32],
    pub collection: ExecutionModel,
    pub settlement: ServiceSettlement,
}

impl View for ServiceContract {
    type V = ContractModel;

    open spec fn view(&self) -> ContractModel {
        ContractModel {
            id: self.id,
            offer: self.offer,
            processor_key: self.processor_key,
            collection: self.collection@,
            settlement: self.settlement,
        }
    }
}

impl Clone for ServiceContract {
    fn clone(&self) -> (copy: Self)
        ensures
            copy@ == self@,
    {
        ServiceContract {
            id: self.id,
            offer: self.offer,
            processor_key: self.processor_key,
            collection: self.collection.clone(),
            settlement: self.settlement,
        }
    }
}

impl ContractModel {
    /// Service is given while the period runs, from when it was paid for.
    pub open spec fn covered(self, at: CanonicalTime) -> bool {
        &&& self.settlement matches ServiceSettlement::Funded { at: paid } && paid.0 <= at.0
        &&& self.offer.period.includes(at)
    }

    /// What was paid and what is on record of the payment agree.
    pub open spec fn settlement_agrees(self) -> bool {
        match (self.collection.state(), self.settlement) {
            (PaymentState::Settled { .. }, ServiceSettlement::Funded { at }) => at.0
                >= self.offer.collect_at.0,
            (PaymentState::Reversed { .. }, ServiceSettlement::Reversed { funded_at }) => funded_at.0
                >= self.offer.collect_at.0,
            (state, ServiceSettlement::Unfunded) => state is Pending || ended(state),
            _ => false,
        }
    }

    /// Whether the record is one that can have come about, and if not, why.
    pub open spec fn check(self) -> Result<(), BillingError> {
        let operation = self.collection.current();
        if !self.collection.consistent() {
            Err(BillingError::Payment(PaymentError::InvalidOperation))
        } else if self.id.0 == 0 || self.collection.find(PaymentOperationId(self.id.0)) is None
            || zero_32(self.processor_key) || operation.kind != PaymentKind::Capture
            || operation.amount != self.offer.price || operation.unit != self.offer.unit
            || !self.settlement_agrees() {
            Err(BillingError::Conflict)
        } else {
            Ok(())
        }
    }

    /// The identifier of the next attempt to collect.
    pub open spec fn next_attempt(self) -> PaymentOperationId {
        PaymentOperationId(
            digest_id(
                operation_bytes(
                    self.collection.current().scope,
                    utf8("service-attempt"@),
                    self.id.0,
                    self.collection.attempts.len() as u128,
                ),
            ),
        )
    }

    /// The contract with a further attempt to collect.
    pub open spec fn retried(self) -> Result<Self, BillingError> {
        match self.collection.retried(self.next_attempt()) {
            Ok(collection) => Ok(ContractModel { collection, ..self }),
            Err(e) => Err(BillingError::Payment(e)),
        }
    }

    /// The contract after a receipt, with the transfers that go with it; or why the receipt is
    /// refused.
    pub open spec fn recorded(self, receipt: SignedPaymentEvidence, at: CanonicalTime) -> Result<
        (Self, Seq<Transfer>),
        BillingError,
    > {
        let none = Seq::<Transfer>::empty();
        if at.0 < self.offer.collect_at.0 {
            Err(BillingError::TooEarly)
        } else {
            match self.collection.recorded(receipt, self.processor_key) {
                Err(e) => Err(BillingError::Payment(e)),
                Ok((collection, PaymentChange::Unchanged)) => Ok(
                    (ContractModel { collection, ..self }, none),
                ),
                Ok((collection, PaymentChange::Settled)) => Ok(
                    (
                        ContractModel {
                            collection,
                            settlement: ServiceSettlement::Funded { at },
                            ..self
                        },
                        with_transfer(
                            none,
                            Account::ProcessorClearing,
                            Account::UtilityServiceReceipts(PaymentOperationId(self.id.0)),
                            self.offer.price,
                        ),
                    ),
                ),
                Ok((collection, PaymentChange::Reversed)) => match self.settlement {
                    ServiceSettlement::Funded { at: funded_at } => Ok(
                        (
                            ContractModel {
                                collection,
                                settlement: ServiceSettlement::Reversed { funded_at },
                                ..self
                            },
                            with_transfer(
                                none,
                                Account::CorporateLossClearing,
                                Account::ProcessorClearing,
                                self.offer.price,
                            ),
                        ),
                    ),
                    _ => Err(BillingError::Conflict),
                },
            }
        }
    }
}

impl ServiceContract {
    pub fn id(&self) -> (id: ServiceContractId)
        ensures
            id == self@.id,
    {
        self.id
    }

    pub fn offer(&self) -> (offer: &ServiceOffer)
        ensures
            *offer == self@.offer,
    {
        &self.offer
    }

    pub fn collection(&self) -> (collection: &PaymentExecution)
        ensures
            collection@ == self@.collection,
            *collection == self.collection,
    {
        &self.collection
    }

    pub fn processor_key(&self) -> (key: &[u8; 32])
        ensures
            *key == self@.processor_key,
    {
        &self.processor_key
    }

    pub fn covers(&self, at: CanonicalTime) -> (covered: bool)
        ensures
            covered == self@.covered(at),
    {
        match self.settlement {
            ServiceSettlement::Funded { at: paid } => paid.0 <= at.0 && self.offer.period.contains(
                at,
            ),
            _ => false,
        }
    }

    /// Starts a further attempt to collect.
    pub(crate) fn retry(&mut self) -> (result: Result<PaymentOperation, BillingError>)
        requires
            old(self)@.collection.attempts.len() > 0,
        ensures
            match old(self)@.retried() {
                Ok(next) => final(self)@ == next && result == Ok::<PaymentOperation, BillingError>(
                    next.collection.current(),
                ),
                Err(e) => result == Err::<PaymentOperation, BillingError>(e) && *final(self)
                    == *old(self),
            },
    {
        let purpose = text_bytes("service-attempt");
        let id = operation_id(
            self.collection.current().scope,
            purpose.as_slice(),
            self.id.0,
            self.collection.attempt_count() as u128,
        );
        match self.collection.retry(id) {
            Ok(operation) => Ok(operation),
            Err(e) => Err(BillingError::Payment(e)),
        }
    }

    /// Takes in a receipt and gives the transfers that go with it.
    pub(crate) fn record(&mut self, receipt: &SignedPaymentEvidence, at: CanonicalTime) -> (result:
        Result<LedgerBatch, BillingError>)
        ensures
            match old(self)@.recorded(*receipt, at) {
                Ok((next, transfers)) => result matches Ok(batch) && batch.transfers@ == transfers
                    && final(self)@ == next,
                Err(e) => result == Err::<LedgerBatch, BillingError>(e) && *final(self) == *old(
                    self),
            },
    {
        if at.0 < self.offer.collect_at.0 {
            return Err(BillingError::TooEarly);
        }
        let mut collection = self.collection.clone();
        let mut batch = LedgerBatch::new();
        match collection.record(receipt, &self.processor_key) {
            Err(e) => return Err(BillingError::Payment(e)),
            Ok(PaymentChange::Settled) => {
                self.settlement = ServiceSettlement::Funded { at };
                batch.transfer(
                    Account::ProcessorClearing,
                    Account::UtilityServiceReceipts(PaymentOperationId(self.id.0)),
                    self.offer.price,
                );
            },
            Ok(PaymentChange::Reversed) => {
                match self.settlement {
                    ServiceSettlement::Funded { at: funded_at } => {
                        self.settlement = ServiceSettlement::Reversed { funded_at };
                    },
                    _ => return Err(BillingError::Conflict),
                }
                batch.transfer(
                    Account::CorporateLossClearing,
                    Account::ProcessorClearing,
                    self.offer.price,
                );
            },
            Ok(PaymentChange::Unchanged) => {},
        }
        self.collection = collection;
        Ok(batch)
    }

    /// Refuses a contract whose collection, terms or settlement disagree.
    pub fn validate(&self) -> (result: Result<(), BillingError>)
        ensures
            result == self@.check(),
    {
        match self.collection.validate() {
            Ok(()) => {},
            Err(e) => return Err(BillingError::Payment(e)),
        }
        let operation = self.collection.current();
        if self.id.0 == 0 || self.collection.operation(PaymentOperationId(self.id.0)).is_none()
            || is_zero_32(&self.processor_key) || operation.kind != PaymentKind::Capture
            || operation.amount != self.offer.price || operation.unit != self.offer.unit {
            return Err(BillingError::Conflict);
        }
        let agrees = match (self.collection.state(), self.settlement) {
            (PaymentState::Settled { .. }, ServiceSettlement::Funded { at }) => at.0
                >= self.offer.collect_at.0,
            (PaymentState::Reversed { .. }, ServiceSettlement::Reversed { funded_at }) => funded_at.0
                >= self.offer.collect_at.0,
            (PaymentState::Pending, ServiceSettlement::Unfunded) => true,
            (PaymentState::Failed { .. }, ServiceSettlement::Unfunded) => true,
            (PaymentState::Voided { .. }, ServiceSettlement::Unfunded) => true,
            _ => false,
        };
        if agrees {
            Ok(())
        } else {
            Err(BillingError::Conflict)
        }
    }
}

/// A receipt that is taken in keeps a contract consistent, and its offer as it was purchased.
pub proof fn collections_stay_consistent(
    contract: ContractModel,
    receipt: SignedPaymentEvidence,
    at: CanonicalTime,
)
    requires
        contract.check() is Ok,
        contract.recorded(receipt, at) is Ok,
    ensures
        contract.recorded(receipt, at)->Ok_0.0.check() is Ok,
        contract.recorded(receipt, at)->Ok_0.0.offer == contract.offer,
        contract.recorded(receipt, at)->Ok_0.0.collection.current()
            == contract.collection.current(),
{
    let (next, transfers) = contract.recorded(receipt, at)->Ok_0;
    let payment = contract.collection;
    let key = contract.processor_key;
    receipts_stay_consistent(payment, receipt, key);
    lemma_recorded_operations(payment, receipt, key);
    value_is_supplied_once(payment, receipt, key);
    if payment.recorded(receipt, key)->Ok_0.1 == PaymentChange::Unchanged {
        unchanged_value_stays(payment, receipt, key);
    }
    let id = PaymentOperationId(contract.id.0);
    attempts_are_kept(payment, receipt, key, id, id);
}

/// A further attempt keeps a contract consistent, and is for the purchased price, to the same
/// destination.
pub proof fn retries_keep_the_purchase(contract: ContractModel)
    requires
        contract.check() is Ok,
        contract.retried() is Ok,
    ensures
        ({
            let next = contract.retried()->Ok_0;
            let (was, is) = (contract.collection.current(), next.collection.current());
            &&& next.check() is Ok
            &&& next.offer == contract.offer
            &&& is.amount == contract.offer.price
            &&& is == (PaymentOperation { id: is.id, ..was })
            &&& is.id != was.id
        }),
{
    let retry = contract.next_attempt();
    let payment = contract.collection;
    retries_stay_consistent(payment, retry);
    let next = contract.retried()->Ok_0;
    let id = PaymentOperationId(contract.id.0);
    let unused = crate::finance::payments::SignedPaymentEvidence {
        evidence: arbitrary(),
        signature: arbitrary(),
    };
    attempts_are_kept(payment, unused, contract.processor_key, retry, id);
    let n = payment.attempts.len();
    assert(next.collection.attempts[n - 1] == payment.attempts[n - 1]);
    assert(next.collection.attempt_consistent(n as int));
    assert(next.collection.attempts[n - 1].operation.id != next.collection.attempts[n as int].operation.id);
}

/// Paying in advance does not start service early, and nothing is covered after the period.
pub proof fn service_keeps_to_its_period(contract: ContractModel, at: CanonicalTime)
    requires
        contract.check() is Ok,
        contract.covered(at),
    ensures
        contract.offer.period.start.0 <= at.0 < contract.offer.period.end.0,
        contract.collection.state() is Settled,
{
}

/// What a receipt that is taken in does to a contract. It comes no earlier than the collection is
/// due. A first settlement pays the price, at the time of the receipt; a reversal is the company's
/// loss of the same amount, and ends the cover; and any other moves nothing and changes no cover.
pub proof fn receipts_pay_or_take_back_the_price(
    contract: ContractModel,
    receipt: SignedPaymentEvidence,
    at: CanonicalTime,
)
    requires
        contract.check() is Ok,
        contract.recorded(receipt, at) is Ok,
    ensures
        ({
            let (next, ts) = contract.recorded(receipt, at)->Ok_0;
            let was = contract.collection.attempts.last().state;
            let is = next.collection.attempts.last().state;
            let price = contract.offer.price.0 as int;
            let receipts = Account::UtilityServiceReceipts(PaymentOperationId(contract.id.0));
            &&& at.0 >= contract.offer.collect_at.0
            &&& next.id == contract.id
            &&& next.offer == contract.offer
            &&& next.processor_key == contract.processor_key
            &&& is is Settled && !(was is Settled) ==> {
                &&& was is Pending
                &&& next.settlement == ServiceSettlement::Funded { at }
                &&& net(ts, ts.len(), receipts) == price
                &&& net(ts, ts.len(), Account::ProcessorClearing) == -price
                &&& net(ts, ts.len(), Account::CorporateLossClearing) == 0
            }
            &&& is is Reversed && !(was is Reversed) ==> {
                &&& was is Settled
                &&& next.settlement is Reversed
                &&& contract.settlement == ServiceSettlement::Funded {
                    at: next.settlement->funded_at,
                }
                &&& net(ts, ts.len(), Account::CorporateLossClearing) == -price
                &&& net(ts, ts.len(), Account::ProcessorClearing) == price
                &&& net(ts, ts.len(), receipts) == 0
            }
            &&& (is is Settled <==> was is Settled) && (is is Reversed <==> was is Reversed) ==> {
                &&& ts.len() == 0
                &&& next.settlement == contract.settlement
            }
        }),
{
    let (next, ts) = contract.recorded(receipt, at)->Ok_0;
    let payment = contract.collection;
    let key = contract.processor_key;
    let (paid, change) = payment.recorded(receipt, key)->Ok_0;
    receipts_stay_consistent(payment, receipt, key);
    value_is_supplied_once(payment, receipt, key);
    if change == PaymentChange::Unchanged {
        unchanged_value_stays(payment, receipt, key);
    }
    only_the_last_attempt_moves_value(payment, receipt, key);
    lemma_find(payment, receipt.evidence.operation_id);
    reveal_with_fuel(net, 3);
}

/// Receipts before a collection is due are refused as too early, whatever they say.
pub proof fn early_receipts_are_refused(
    contract: ContractModel,
    receipt: SignedPaymentEvidence,
    at: CanonicalTime,
)
    ensures
        contract.recorded(receipt, at) == Err::<(ContractModel, Seq<Transfer>), BillingError>(
            BillingError::TooEarly,
        ) <==> at.0 < contract.offer.collect_at.0,
{
}

/// A contract covers exactly the times of its period from when its price was paid, and none while
/// the price is owed or after it was taken back.
pub proof fn contracts_cover_from_payment(contract: ContractModel, at: CanonicalTime)
    ensures
        contract.covered(at) <==> {
            &&& contract.settlement is Funded
            &&& contract.settlement->at.0 <= at.0
            &&& contract.offer.period.start.0 <= at.0
            &&& at.0 < contract.offer.period.end.0
        },
{
}

} // verus!

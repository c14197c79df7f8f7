//! Financial execution outlives the request that caused it.

use super::lot::Forfeiture;
use super::payments::{
    PaymentError, PaymentEvidence, PaymentKind, PaymentOperation, PaymentOutcome,
    SignedPaymentEvidence,
};
use super::terms::FinancialTerms;
use crate::bytes::{is_zero_32, zero_32};
use crate::ledger::{balanced, net, with_transfer, Account, LedgerBatch, Transfer};
use crate::maps::{lookup, put};
use crate::primitives::amounts::{CanonicalTime, Money};
use crate::primitives::ids::PaymentOperationId;
use std::collections::BTreeMap;
use vstd::prelude::*;

verus! {

#[derive(Clone, Copy, Debug, PartialEq, Eq, Structural)]
pub enum CaptureStatus {
    Pending,
    CancellationRequested,
    Confirmed,
    Voided,
    Reversed,
}

#[derive(Clone, Copy, Debug, PartialEq, Eq)]
pub enum RefundStatus {
    Absent,
    Pending(PaymentOperation),
    Confirmed(PaymentOperation),
}

impl RefundStatus {
    pub open spec fn refund(self) -> Option<PaymentOperation> {
        match self {
            RefundStatus::Absent => None,
            RefundStatus::Pending(p) => Some(p),
            RefundStatus::Confirmed(p) => Some(p),
        }
    }

    pub fn operation(&self) -> (operation: Option<&PaymentOperation>)
        ensures
            match operation {
                Some(o) => self.refund() == Some(*o),
                None => self.refund() is None,
            },
    {
        match self {
            RefundStatus::Absent => None,
            RefundStatus::Pending(p) => Some(p),
            RefundStatus::Confirmed(p) => Some(p),
        }
    }
}

#[derive(Clone, Copy, Debug, PartialEq, Eq, Structural)]
pub enum RequestSettlement {
    Accepted,
    Rejected,
    Expired,
    Cancelled,
}

/// Immutable financial evidence; no message, principal or request lifecycle is needed to reconcile
/// an obligation after formation records have been deleted.
#[derive(Clone, Copy, Debug, PartialEq, Eq)]
pub struct RequestFinancialContract {
    pub refund_id: PaymentOperationId,
    pub processing_charge: Money,
    pub collateral: Money,
    pub terms: FinancialTerms,
    pub provider_key: [u8; 32],
}

#[derive(Clone, Debug, PartialEq, Eq)]
pub struct RequestFinancials {
    pub capture: PaymentOperation,
    pub capture_status: CaptureStatus,
    pub refund: RefundStatus,
    pub events: BTreeMap<u128, PaymentEvidence>,
    pub contract: RequestFinancialContract,
    pub settlement: Option<RequestSettlement>,
}

pub ghost struct FinancialsModel {
    pub capture: PaymentOperation,
    pub capture_status: CaptureStatus,
    pub refund: RefundStatus,
    pub events: Map<u128, PaymentEvidence>,
    pub contract: RequestFinancialContract,
    pub settlement: Option<RequestSettlement>,
}

impl View for RequestFinancials {
    type V = FinancialsModel;

    open spec fn view(&self) -> FinancialsModel {
        FinancialsModel {
            capture: self.capture,
            capture_status: self.capture_status,
            refund: self.refund,
            events: self.events@,
            contract: self.contract,
            settlement: self.settlement,
        }
    }
}

/// What follows from a settlement or a receipt.
#[derive(Clone, Debug, PartialEq, Eq)]
pub struct RequestFinancialEffects {
    pub postings: LedgerBatch,
    pub operations: Vec<PaymentOperationId>,
    pub forfeitures: Vec<Forfeiture>,
    pub holds: Vec<PaymentOperationId>,
    pub capture_voided: bool,
}

pub ghost struct EffectsModel {
    pub postings: Seq<Transfer>,
    pub operations: Seq<PaymentOperationId>,
    pub forfeitures: Seq<Forfeiture>,
    pub holds: Seq<PaymentOperationId>,
    pub capture_voided: bool,
}

impl View for RequestFinancialEffects {
    type V = EffectsModel;

    open spec fn view(&self) -> EffectsModel {
        EffectsModel {
            postings: self.postings.transfers@,
            operations: self.operations@,
            forfeitures: self.forfeitures@,
            holds: self.holds@,
            capture_voided: self.capture_voided,
        }
    }
}

/// Nothing follows.
pub open spec fn no_effects() -> EffectsModel {
    EffectsModel {
        postings: Seq::empty(),
        operations: Seq::empty(),
        forfeitures: Seq::empty(),
        holds: Seq::empty(),
        capture_voided: false,
    }
}

impl Default for RequestFinancialEffects {
    fn default() -> (effects: Self)
        ensures
            effects@ == no_effects(),
    {
        RequestFinancialEffects {
            postings: LedgerBatch::new(),
            operations: Vec::new(),
            forfeitures: Vec::new(),
            holds: Vec::new(),
            capture_voided: false,
        }
    }
}

/// The contract covers the capture: charge and collateral make its amount, in one scope, with a
/// refund of its own and a known authority.
pub open spec fn covered(capture: PaymentOperation, contract: RequestFinancialContract) -> bool {
    &&& contract.terms.valid()
    &&& capture.kind == PaymentKind::Capture
    &&& capture.amount.0 != 0
    &&& capture.scope == contract.terms.scope
    &&& contract.processing_charge.0 + contract.collateral.0 == capture.amount.0
    &&& capture.id != contract.refund_id
    &&& !zero_32(contract.provider_key)
}

impl FinancialsModel {
    pub open spec fn confirmed(self) -> bool {
        self.capture_status == CaptureStatus::Confirmed || self.capture_status
            == CaptureStatus::Reversed
    }

    /// The operation that refunds an amount of the capture.
    pub open spec fn refund_of(self, amount: Money) -> PaymentOperation {
        PaymentOperation {
            scope: self.capture.scope,
            id: self.contract.refund_id,
            kind: PaymentKind::Refund { capture: self.capture.id },
            amount,
            unit: self.capture.unit,
            destination: self.capture.destination,
        }
    }

    /// The operation with an identifier: the capture or the refund.
    pub open spec fn find(self, id: PaymentOperationId) -> Option<PaymentOperation> {
        if self.capture.id == id {
            Some(self.capture)
        } else {
            match self.refund.refund() {
                Some(refund) => if refund.id == id {
                    Some(refund)
                } else {
                    None
                },
                None => None,
            }
        }
    }

    /// A refund of an amount set up, with what follows; nothing for nothing, and nothing again for
    /// the refund that is already set up.
    pub open spec fn refunding(self, amount: Money, effects: EffectsModel) -> Result<
        (Self, EffectsModel),
        PaymentError,
    > {
        let operation = self.refund_of(amount);
        if amount.0 == 0 {
            Ok((self, effects))
        } else {
            match self.refund.refund() {
                Some(previous) => if previous == operation {
                    Ok((self, effects))
                } else {
                    Err(PaymentError::DuplicateConflict)
                },
                None => Ok(
                    (
                        FinancialsModel { refund: RefundStatus::Pending(operation), ..self },
                        EffectsModel {
                            postings: with_transfer(
                                effects.postings,
                                Account::RequestEscrow(self.capture.id),
                                Account::RefundPayable(operation.id),
                                amount,
                            ),
                            operations: effects.operations.push(operation.id),
                            ..effects
                        },
                    ),
                ),
            }
        }
    }

    /// The forfeiture of the collateral.
    pub open spec fn forfeiture(self, at: CanonicalTime) -> Forfeiture {
        Forfeiture {
            id: self.capture.id,
            amount: self.contract.collateral,
            unit: self.capture.unit,
            forfeited_at: at,
            terms: self.contract.terms,
            requires_review: self.capture_status == CaptureStatus::Reversed,
        }
    }

    /// The obligation after a settlement, with what follows; or why the settlement is refused.
    pub open spec fn settled(self, settlement: RequestSettlement, at: CanonicalTime) -> Result<
        (Self, EffectsModel),
        PaymentError,
    > {
        let next = FinancialsModel { settlement: Some(settlement), ..self };
        let charged = EffectsModel {
            postings: with_transfer(
                Seq::empty(),
                Account::RequestEscrow(self.capture.id),
                Account::ProcessingRevenue,
                self.contract.processing_charge,
            ),
            ..no_effects()
        };
        match self.settlement {
            Some(previous) => if previous == settlement {
                Ok((self, no_effects()))
            } else {
                Err(PaymentError::DuplicateConflict)
            },
            None => if settlement != RequestSettlement::Cancelled && !self.confirmed() {
                Err(PaymentError::InvalidOperation)
            } else {
                match settlement {
                    RequestSettlement::Cancelled if !self.confirmed() => if self.capture_status
                        == CaptureStatus::Voided {
                        Ok((next, no_effects()))
                    } else {
                        Ok(
                            (
                                FinancialsModel {
                                    capture_status: CaptureStatus::CancellationRequested,
                                    ..next
                                },
                                EffectsModel {
                                    operations: seq![self.capture.id],
                                    ..no_effects()
                                },
                            ),
                        )
                    },
                    RequestSettlement::Accepted | RequestSettlement::Cancelled => next.refunding(
                        self.capture.amount,
                        no_effects(),
                    ),
                    RequestSettlement::Expired => next.refunding(self.contract.collateral, charged),
                    RequestSettlement::Rejected => if self.contract.collateral.0 == 0 {
                        Ok((next, charged))
                    } else {
                        Ok(
                            (
                                next,
                                EffectsModel {
                                    postings: with_transfer(
                                        charged.postings,
                                        Account::RequestEscrow(self.capture.id),
                                        Account::ProgramClearing(self.capture.id),
                                        self.contract.collateral,
                                    ),
                                    forfeitures: seq![self.forfeiture(at)],
                                    ..charged
                                },
                            ),
                        )
                    },
                }
            },
        }
    }

    /// The obligation after an outcome for the capture, or for the refund.
    pub open spec fn outcome(self, of_capture: bool, outcome: PaymentOutcome) -> Result<
        (Self, EffectsModel),
        PaymentError,
    > {
        let captured = EffectsModel {
            postings: with_transfer(
                Seq::empty(),
                Account::ProcessorClearing,
                Account::RequestEscrow(self.capture.id),
                self.capture.amount,
            ),
            ..no_effects()
        };
        match (of_capture, outcome) {
            (true, PaymentOutcome::Settled) => if self.confirmed() {
                Ok((self, no_effects()))
            } else {
                let next = FinancialsModel { capture_status: CaptureStatus::Confirmed, ..self };
                if self.settlement == Some(RequestSettlement::Cancelled) {
                    next.refunding(self.capture.amount, captured)
                } else {
                    Ok((next, captured))
                }
            },
            (true, PaymentOutcome::Voided) => if self.confirmed() {
                Ok((self, no_effects()))
            } else {
                Ok(
                    (
                        FinancialsModel {
                            capture_status: CaptureStatus::Voided,
                            settlement: Some(RequestSettlement::Cancelled),
                            ..self
                        },
                        EffectsModel { capture_voided: true, ..no_effects() },
                    ),
                )
            },
            (true, PaymentOutcome::Reversed) => if !self.confirmed() {
                Err(PaymentError::InvalidOperation)
            } else if self.capture_status == CaptureStatus::Reversed {
                Ok((self, no_effects()))
            } else {
                Ok(
                    (
                        FinancialsModel { capture_status: CaptureStatus::Reversed, ..self },
                        EffectsModel {
                            postings: with_transfer(
                                Seq::empty(),
                                Account::CorporateLossClearing,
                                Account::ProcessorClearing,
                                self.capture.amount,
                            ),
                            holds: if self.settlement == Some(RequestSettlement::Rejected)
                                && self.contract.collateral.0 != 0 {
                                seq![self.capture.id]
                            } else {
                                Seq::empty()
                            },
                            ..no_effects()
                        },
                    ),
                )
            },
            (false, PaymentOutcome::Settled) => match self.refund {
                RefundStatus::Pending(refund) => Ok(
                    (
                        FinancialsModel { refund: RefundStatus::Confirmed(refund), ..self },
                        EffectsModel {
                            postings: with_transfer(
                                Seq::empty(),
                                Account::RefundPayable(refund.id),
                                Account::ProcessorClearing,
                                refund.amount,
                            ),
                            ..no_effects()
                        },
                    ),
                ),
                _ => Ok((self, no_effects())),
            },
            _ => Err(PaymentError::InvalidOperation),
        }
    }

    /// The obligation after a receipt, with what follows; or why the receipt is refused.
    pub open spec fn recorded(self, receipt: SignedPaymentEvidence) -> Result<
        (Self, EffectsModel),
        PaymentError,
    > {
        let event = receipt.evidence;
        match self.find(event.operation_id) {
            None => Err(PaymentError::OperationMismatch),
            Some(operation) => match receipt.verdict(self.contract.provider_key, operation) {
                Err(e) => Err(e),
                Ok(()) => if self.events.contains_key(event.event_id.0) {
                    if self.events[event.event_id.0] == event {
                        Ok((self, no_effects()))
                    } else {
                        Err(PaymentError::DuplicateConflict)
                    }
                } else {
                    match self.outcome(operation.id == self.capture.id, event.outcome) {
                        Err(e) => Err(e),
                        Ok((next, effects)) => Ok(
                            (
                                FinancialsModel {
                                    events: self.events.insert(event.event_id.0, event),
                                    ..next
                                },
                                effects,
                            ),
                        ),
                    }
                },
            },
        }
    }
}

impl RequestFinancials {
    /// Creates a capture obligation from validated immutable financial terms. Inconsistent amounts,
    /// scope, identifiers or provider authority are refused.
    pub fn new(capture: PaymentOperation, contract: RequestFinancialContract) -> (result: Result<
        Self,
        PaymentError,
    >)
        ensures
            result is Ok <==> covered(capture, contract),
            result matches Ok(finances) ==> finances@ == (FinancialsModel {
                capture,
                capture_status: CaptureStatus::Pending,
                refund: RefundStatus::Absent,
                events: Map::empty(),
                contract,
                settlement: None,
            }),
            result matches Err(e) ==> e == PaymentError::InvalidOperation,
    {
        let total = contract.processing_charge.checked_add(contract.collateral);
        let adds_up = match total {
            Some(sum) => sum == capture.amount,
            None => false,
        };
        if contract.terms.validate().is_err() || capture.kind != PaymentKind::Capture
            || capture.amount.is_zero() || !capture.scope.same(&contract.terms.scope) || !adds_up
            || capture.id == contract.refund_id || is_zero_32(&contract.provider_key) {
            return Err(PaymentError::InvalidOperation);
        }
        Ok(
            RequestFinancials {
                capture,
                capture_status: CaptureStatus::Pending,
                refund: RefundStatus::Absent,
                events: BTreeMap::new(),
                contract,
                settlement: None,
            },
        )
    }

    pub fn capture_confirmed(&self) -> (confirmed: bool)
        ensures
            confirmed == self@.confirmed(),
    {
        matches!(self.capture_status, CaptureStatus::Confirmed | CaptureStatus::Reversed)
    }

    pub fn capture_voided(&self) -> (voided: bool)
        ensures
            voided == (self@.capture_status == CaptureStatus::Voided),
    {
        matches!(self.capture_status, CaptureStatus::Voided)
    }

    pub fn capture_reversed(&self) -> (reversed: bool)
        ensures
            reversed == (self@.capture_status == CaptureStatus::Reversed),
    {
        matches!(self.capture_status, CaptureStatus::Reversed)
    }

    /// An operation that awaits the processor, and whether it is to be cancelled.
    pub fn pending_payment(&self, id: PaymentOperationId) -> (pending: Option<
        (&PaymentOperation, bool),
    >)
        ensures
            ({
                let of_capture = id == self@.capture.id && (self@.capture_status
                    == CaptureStatus::Pending || self@.capture_status
                    == CaptureStatus::CancellationRequested);
                let of_refund = self@.refund matches RefundStatus::Pending(p) && p.id == id;
                match pending {
                    Some((operation, cancel)) => if of_capture {
                        *operation == self@.capture && cancel == (self@.capture_status
                            == CaptureStatus::CancellationRequested)
                    } else {
                        of_refund && self@.refund == RefundStatus::Pending(*operation) && !cancel
                    },
                    None => !of_capture && !of_refund,
                }
            }),
    {
        if id == self.capture.id && matches!(
            self.capture_status,
            CaptureStatus::Pending | CaptureStatus::CancellationRequested
        ) {
            return Some(
                (&self.capture, self.capture_status == CaptureStatus::CancellationRequested),
            );
        }
        match &self.refund {
            RefundStatus::Pending(p) => {
                if p.id == id {
                    Some((p, false))
                } else {
                    None
                }
            },
            _ => None,
        }
    }

    pub fn capture_status(&self) -> (status: CaptureStatus)
        ensures
            status == self@.capture_status,
    {
        self.capture_status
    }

    pub fn refund(&self) -> (refund: &RefundStatus)
        ensures
            *refund == self@.refund,
    {
        &self.refund
    }

    pub fn settlement(&self) -> (settlement: Option<RequestSettlement>)
        ensures
            settlement == self@.settlement,
    {
        self.settlement
    }

    pub fn provider_key(&self) -> (key: &[u8; 32])
        ensures
            *key == self@.contract.provider_key,
    {
        &self.contract.provider_key
    }

    pub fn operation(&self, id: PaymentOperationId) -> (operation: Option<&PaymentOperation>)
        ensures
            match operation {
                Some(o) => self@.find(id) == Some(*o),
                None => self@.find(id) is None,
            },
    {
        if self.capture.id == id {
            Some(&self.capture)
        } else {
            match self.refund.operation() {
                Some(operation) => {
                    if operation.id == id {
                        Some(operation)
                    } else {
                        None
                    }
                },
                None => None,
            }
        }
    }

    /// Records an obligation, independently of provider completion. Contradictory settlements and
    /// settlement before capture confirmation are refused, and then nothing changes.
    pub fn settle(&mut self, settlement: RequestSettlement, at: CanonicalTime) -> (result: Result<
        RequestFinancialEffects,
        PaymentError,
    >)
        ensures
            match old(self)@.settled(settlement, at) {
                Ok((next, effects)) => result matches Ok(r) && r@ == effects && final(self)@
                    == next,
                Err(e) => result == Err::<RequestFinancialEffects, PaymentError>(e) && *final(self)
                    == *old(self),
            },
    {
        match self.settlement {
            Some(previous) => {
                return if previous == settlement {
                    Ok(RequestFinancialEffects::default())
                } else {
                    Err(PaymentError::DuplicateConflict)
                };
            },
            None => {},
        }
        if settlement != RequestSettlement::Cancelled && !self.capture_confirmed() {
            return Err(PaymentError::InvalidOperation);
        }
        let mut effects = RequestFinancialEffects::default();
        if settlement == RequestSettlement::Cancelled && !self.capture_confirmed() {
            if !self.capture_voided() {
                self.capture_status = CaptureStatus::CancellationRequested;
                effects.operations.push(self.capture.id);
                assert(effects@.operations =~= seq![self.capture.id]);
            }
        } else {
            match settlement {
                RequestSettlement::Accepted | RequestSettlement::Cancelled => {
                    match self.create_refund(self.capture.amount, &mut effects) {
                        Ok(()) => {},
                        Err(e) => return Err(e),
                    }
                },
                RequestSettlement::Rejected | RequestSettlement::Expired => {
                    effects.postings.transfer(
                        Account::RequestEscrow(self.capture.id),
                        Account::ProcessingRevenue,
                        self.contract.processing_charge,
                    );
                    if settlement == RequestSettlement::Expired {
                        match self.create_refund(self.contract.collateral, &mut effects) {
                            Ok(()) => {},
                            Err(e) => return Err(e),
                        }
                    } else if !self.contract.collateral.is_zero() {
                        effects.postings.transfer(
                            Account::RequestEscrow(self.capture.id),
                            Account::ProgramClearing(self.capture.id),
                            self.contract.collateral,
                        );
                        effects.forfeitures.push(
                            Forfeiture {
                                id: self.capture.id,
                                amount: self.contract.collateral,
                                unit: self.capture.unit,
                                forfeited_at: at,
                                terms: self.contract.terms,
                                requires_review: self.capture_reversed(),
                            },
                        );
                        assert(effects@.forfeitures =~= seq![self@.forfeiture(at)]);
                    }
                },
            }
        }
        self.settlement = Some(settlement);
        Ok(effects)
    }

    fn create_refund(&mut self, amount: Money, effects: &mut RequestFinancialEffects) -> (result:
        Result<(), PaymentError>)
        ensures
            match old(self)@.refunding(amount, old(effects)@) {
                Ok((next, after)) => result is Ok && final(self)@ == next && final(effects)@
                    == after,
                Err(e) => result == Err::<(), PaymentError>(e) && *final(self) == *old(self),
            },
    {
        if amount.is_zero() {
            return Ok(());
        }
        let operation = PaymentOperation {
            scope: self.capture.scope,
            id: self.contract.refund_id,
            kind: PaymentKind::Refund { capture: self.capture.id },
            amount,
            unit: self.capture.unit,
            destination: self.capture.destination,
        };
        match self.refund.operation() {
            Some(previous) => {
                return if previous.same(&operation) {
                    Ok(())
                } else {
                    Err(PaymentError::DuplicateConflict)
                };
            },
            None => {},
        }
        effects.postings.transfer(
            Account::RequestEscrow(self.capture.id),
            Account::RefundPayable(operation.id),
            amount,
        );
        effects.operations.push(operation.id);
        self.refund = RefundStatus::Pending(operation);
        Ok(())
    }

    /// Reconciles verified evidence without consulting a request's conversational state.
    /// Unauthenticated, conflicting, or impossible provider transitions are refused, and then
    /// nothing changes.
    pub fn record_payment(&mut self, receipt: &SignedPaymentEvidence) -> (result: Result<
        RequestFinancialEffects,
        PaymentError,
    >)
        ensures
            match old(self)@.recorded(*receipt) {
                Ok((next, effects)) => result matches Ok(r) && r@ == effects && final(self)@
                    == next,
                Err(e) => result == Err::<RequestFinancialEffects, PaymentError>(e) && *final(self)
                    == *old(self),
            },
    {
        let operation = match self.operation(receipt.evidence.operation_id) {
            Some(operation) => *operation,
            None => return Err(PaymentError::OperationMismatch),
        };
        match receipt.verify(&self.contract.provider_key, &operation) {
            Ok(()) => {},
            Err(e) => return Err(e),
        }
        match lookup(&self.events, receipt.evidence.event_id.0) {
            Some(previous) => {
                return if previous.same(&receipt.evidence) {
                    Ok(RequestFinancialEffects::default())
                } else {
                    Err(PaymentError::DuplicateConflict)
                };
            },
            None => {},
        }
        let mut effects = RequestFinancialEffects::default();
        match (operation.id == self.capture.id, receipt.evidence.outcome) {
            (true, PaymentOutcome::Settled) => {
                if !self.capture_confirmed() {
                    effects.postings.transfer(
                        Account::ProcessorClearing,
                        Account::RequestEscrow(self.capture.id),
                        self.capture.amount,
                    );
                    if self.settlement == Some(RequestSettlement::Cancelled) {
                        match self.create_refund(self.capture.amount, &mut effects) {
                            Ok(()) => {},
                            Err(e) => return Err(e),
                        }
                    }
                    self.capture_status = CaptureStatus::Confirmed;
                }
            },
            (true, PaymentOutcome::Voided) => {
                if !self.capture_confirmed() {
                    self.capture_status = CaptureStatus::Voided;
                    self.settlement = Some(RequestSettlement::Cancelled);
                    effects.capture_voided = true;
                }
            },
            (true, PaymentOutcome::Reversed) => {
                if !self.capture_confirmed() {
                    return Err(PaymentError::InvalidOperation);
                }
                if !self.capture_reversed() {
                    self.capture_status = CaptureStatus::Reversed;
                    effects.postings.transfer(
                        Account::CorporateLossClearing,
                        Account::ProcessorClearing,
                        self.capture.amount,
                    );
                    if self.settlement == Some(RequestSettlement::Rejected)
                        && !self.contract.collateral.is_zero() {
                        effects.holds.push(self.capture.id);
                        assert(effects@.holds =~= seq![self.capture.id]);
                    }
                }
            },
            (false, PaymentOutcome::Settled) => {
                match self.refund {
                    RefundStatus::Pending(refund) => {
                        effects.postings.transfer(
                            Account::RefundPayable(refund.id),
                            Account::ProcessorClearing,
                            refund.amount,
                        );
                        self.refund = RefundStatus::Confirmed(refund);
                    },
                    _ => {},
                }
            },
            _ => return Err(PaymentError::InvalidOperation),
        }
        put(&mut self.events, receipt.evidence.event_id.0, receipt.evidence);
        Ok(effects)
    }
}

/// Settling again in the same way changes nothing and has no effects; settling otherwise is
/// refused.
pub proof fn settlement_is_final(
    finances: FinancialsModel,
    settlement: RequestSettlement,
    at: CanonicalTime,
    other: RequestSettlement,
    later: CanonicalTime,
)
    requires
        finances.settled(settlement, at) is Ok,
    ensures
        ({
            let next = finances.settled(settlement, at)->Ok_0.0;
            next.settled(other, later) == if other == settlement {
                Ok::<(FinancialsModel, EffectsModel), PaymentError>((next, no_effects()))
            } else {
                Err(PaymentError::DuplicateConflict)
            }
        }),
{
}

/// Recording a receipt again changes nothing and has no effects.
pub proof fn receipts_count_once(finances: FinancialsModel, receipt: SignedPaymentEvidence)
    requires
        finances.capture.id != finances.contract.refund_id,
        finances.recorded(receipt) is Ok,
    ensures
        ({
            let next = finances.recorded(receipt)->Ok_0.0;
            next.recorded(receipt) == Ok::<(FinancialsModel, EffectsModel), PaymentError>(
                (next, no_effects()),
            )
        }),
{
}

/// A settlement of a confirmed capture pays the whole captured amount out of escrow, to the
/// payer, the provider, and the program, and to nobody else.
pub proof fn settlement_empties_the_escrow(
    finances: FinancialsModel,
    settlement: RequestSettlement,
    at: CanonicalTime,
)
    requires
        covered(finances.capture, finances.contract),
        finances.settlement is None,
        finances.refund is Absent,
        finances.confirmed(),
    ensures
        finances.settled(settlement, at) is Ok,
        ({
            let (next, effects) = finances.settled(settlement, at)->Ok_0;
            let ts = effects.postings;
            let id = finances.capture.id;
            let (charge, collateral) = (
                finances.contract.processing_charge.0 as int,
                finances.contract.collateral.0 as int,
            );
            let refund = Account::RefundPayable(finances.contract.refund_id);
            &&& balanced(ts)
            &&& net(ts, ts.len(), Account::RequestEscrow(id)) == -(finances.capture.amount.0 as int)
            &&& net(ts, ts.len(), refund) == (match settlement {
                RequestSettlement::Accepted => charge + collateral,
                RequestSettlement::Cancelled => charge + collateral,
                RequestSettlement::Expired => collateral,
                RequestSettlement::Rejected => 0,
            })
            &&& net(ts, ts.len(), Account::ProcessingRevenue) == (match settlement {
                RequestSettlement::Accepted | RequestSettlement::Cancelled => 0,
                RequestSettlement::Rejected | RequestSettlement::Expired => charge,
            })
            &&& net(ts, ts.len(), Account::ProgramClearing(id)) == (if settlement
                == RequestSettlement::Rejected {
                collateral
            } else {
                0
            })
        }),
{
    reveal_with_fuel(net, 4);
}

/// Once captured, always captured: no settlement and no receipt takes the confirmation of a capture
/// back, and a reversal stays a reversal.
pub proof fn captures_are_monotonic(
    finances: FinancialsModel,
    settlement: RequestSettlement,
    at: CanonicalTime,
    receipt: SignedPaymentEvidence,
)
    requires
        finances.confirmed(),
    ensures
        finances.settled(settlement, at) matches Ok((next, _)) ==> next.capture_status
            == finances.capture_status,
        finances.recorded(receipt) matches Ok((next, _)) ==> next.confirmed() && (
        finances.capture_status == CaptureStatus::Reversed ==> next.capture_status
            == CaptureStatus::Reversed),
{
}

/// A capture that comes through after its request was cancelled is refunded in full.
pub proof fn late_captures_are_refunded(finances: FinancialsModel, receipt: SignedPaymentEvidence)
    requires
        finances.capture.amount.0 != 0,
        finances.settlement == Some(RequestSettlement::Cancelled),
        finances.refund is Absent,
        !finances.confirmed(),
        receipt.evidence.operation_id == finances.capture.id,
        receipt.evidence.outcome == PaymentOutcome::Settled,
        !finances.events.contains_key(receipt.evidence.event_id.0),
        receipt.verdict(finances.contract.provider_key, finances.capture) is Ok,
    ensures
        ({
            let result = finances.recorded(receipt);
            &&& result is Ok
            &&& result->Ok_0.0.refund == RefundStatus::Pending(
                finances.refund_of(finances.capture.amount),
            )
            &&& result->Ok_0.0.settlement == Some(RequestSettlement::Cancelled)
            &&& result->Ok_0.1.operations == seq![finances.contract.refund_id]
        }),
{
    assert(Seq::<PaymentOperationId>::empty().push(finances.contract.refund_id) =~= seq![
        finances.contract.refund_id,
    ]);
}

/// What the first `n` forfeitures come to.
pub open spec fn forfeited(forfeitures: Seq<Forfeiture>, n: nat) -> int
    decreases n,
{
    if n == 0 {
        0
    } else {
        forfeited(forfeitures, (n - 1) as nat) + forfeitures[n - 1].amount.0
    }
}

/// What is forfeited is what the program gets: the forfeitures of a settlement come to the net
/// transfer to the program on account of the capture, which is the collateral of a rejected request
/// and nothing otherwise. A forfeiture names the capture, its unit and the contract's terms, and is
/// to be reviewed if the capture was reversed.
pub proof fn the_program_gets_what_is_forfeited(
    finances: FinancialsModel,
    settlement: RequestSettlement,
    at: CanonicalTime,
)
    requires
        finances.settlement is None,
        finances.settled(settlement, at) is Ok,
    ensures
        ({
            let effects = finances.settled(settlement, at)->Ok_0.1;
            let ts = effects.postings;
            let program = net(ts, ts.len(), Account::ProgramClearing(finances.capture.id));
            &&& forfeited(effects.forfeitures, effects.forfeitures.len()) == program
            &&& program == if settlement == RequestSettlement::Rejected {
                finances.contract.collateral.0 as int
            } else {
                0
            }
            &&& effects.forfeitures.len() == if program > 0 {
                1int
            } else {
                0
            }
            &&& forall|i: int|
                0 <= i < effects.forfeitures.len() ==> {
                    &&& (#[trigger] effects.forfeitures[i]).id == finances.capture.id
                    &&& effects.forfeitures[i].unit == finances.capture.unit
                    &&& effects.forfeitures[i].terms == finances.contract.terms
                    &&& effects.forfeitures[i].forfeited_at == at
                    &&& effects.forfeitures[i].requires_review <==> finances.capture_status
                        == CaptureStatus::Reversed
                }
        }),
{
    reveal_with_fuel(net, 4);
    reveal_with_fuel(forfeited, 2);
}

/// Which first settlements are accepted: of a capture that came through any, and of another only
/// the cancellation, which asks for the capture to be cancelled unless it is void already. No
/// settlement of a capture that has not come through moves money.
pub proof fn settlements_take_a_capture(
    finances: FinancialsModel,
    settlement: RequestSettlement,
    at: CanonicalTime,
)
    requires
        finances.settlement is None,
        finances.refund is Absent,
    ensures
        ({
            let came_through = finances.capture_status == CaptureStatus::Confirmed
                || finances.capture_status == CaptureStatus::Reversed;
            let result = finances.settled(settlement, at);
            &&& result is Ok <==> came_through || settlement == RequestSettlement::Cancelled
            &&& result is Err ==> result == Err::<(FinancialsModel, EffectsModel), PaymentError>(
                PaymentError::InvalidOperation,
            )
            &&& result matches Ok((next, effects)) ==> {
                &&& next.settlement == Some(settlement)
                &&& next.capture == finances.capture
                &&& next.contract == finances.contract
                &&& next.events == finances.events
                &&& effects.holds.len() == 0
                &&& !effects.capture_voided
                &&& came_through ==> next.capture_status == finances.capture_status
                &&& !came_through ==> {
                    &&& effects.postings.len() == 0
                    &&& next.refund is Absent
                    &&& next.capture_status == if finances.capture_status == CaptureStatus::Voided {
                        CaptureStatus::Voided
                    } else {
                        CaptureStatus::CancellationRequested
                    }
                    &&& effects.operations.len() == if finances.capture_status
                        == CaptureStatus::Voided {
                        0int
                    } else {
                        1
                    }
                    &&& effects.operations.len() == 1 ==> effects.operations[0]
                        == finances.capture.id
                }
            }
        }),
{
}

/// What a settlement of a capture that came through pays to whom. An accepted or cancelled request
/// is refunded in full; an expired one pays the charge and gets the collateral back; a rejected one
/// pays both. A refund goes back to where the capture came from.
pub proof fn settlements_pay_by_their_outcome(
    finances: FinancialsModel,
    settlement: RequestSettlement,
    at: CanonicalTime,
)
    requires
        finances.settlement is None,
        finances.refund is Absent,
        finances.capture_status == CaptureStatus::Confirmed || finances.capture_status
            == CaptureStatus::Reversed,
        finances.contract.processing_charge.0 + finances.contract.collateral.0
            == finances.capture.amount.0,
    ensures
        finances.settled(settlement, at) is Ok,
        ({
            let (next, effects) = finances.settled(settlement, at)->Ok_0;
            let ts = effects.postings;
            let charge = finances.contract.processing_charge.0 as int;
            let collateral = finances.contract.collateral.0 as int;
            let back = match settlement {
                RequestSettlement::Accepted | RequestSettlement::Cancelled => charge + collateral,
                RequestSettlement::Expired => collateral,
                RequestSettlement::Rejected => 0,
            };
            let kept = match settlement {
                RequestSettlement::Accepted | RequestSettlement::Cancelled => 0,
                RequestSettlement::Expired | RequestSettlement::Rejected => charge,
            };
            &&& net(ts, ts.len(), Account::RequestEscrow(finances.capture.id)) == -(charge
                + collateral)
            &&& net(ts, ts.len(), Account::RefundPayable(finances.contract.refund_id)) == back
            &&& net(ts, ts.len(), Account::ProcessingRevenue) == kept
            &&& net(ts, ts.len(), Account::ProgramClearing(finances.capture.id)) == charge
                + collateral - back - kept
            &&& net(ts, ts.len(), Account::ProcessorClearing) == 0
            &&& back == 0 ==> next.refund is Absent && effects.operations.len() == 0
            &&& back > 0 ==> {
                &&& next.refund is Pending
                &&& next.refund->Pending_0.amount.0 == back
                &&& next.refund->Pending_0.id == finances.contract.refund_id
                &&& next.refund->Pending_0.kind == PaymentKind::Refund {
                    capture: finances.capture.id,
                }
                &&& next.refund->Pending_0.scope == finances.capture.scope
                &&& next.refund->Pending_0.unit == finances.capture.unit
                &&& next.refund->Pending_0.destination == finances.capture.destination
                &&& effects.operations.len() == 1 && effects.operations[0]
                    == finances.contract.refund_id
            }
        }),
{
    reveal_with_fuel(net, 4);
}

/// What a new receipt for a capture does. A settled capture comes into escrow in full, and is
/// refunded in full where the request was cancelled meanwhile. A void one cancels the request. A
/// reversed one is the company's loss in full, and its forfeited collateral is held. Once it came
/// through, a capture cannot be void, and nothing is counted twice.
pub proof fn receipts_account_for_captures(
    finances: FinancialsModel,
    receipt: SignedPaymentEvidence,
)
    requires
        receipt.evidence.operation_id == finances.capture.id,
        receipt.verdict(finances.contract.provider_key, finances.capture) is Ok,
        !finances.events.contains_key(receipt.evidence.event_id.0),
        finances.refund is Absent || finances.settlement is Some,
        finances.settlement == Some(RequestSettlement::Cancelled) && finances.refund !is Absent
            ==> finances.capture_status == CaptureStatus::Confirmed || finances.capture_status
            == CaptureStatus::Reversed,
    ensures
        ({
            let result = finances.recorded(receipt);
            let came_through = finances.capture_status == CaptureStatus::Confirmed
                || finances.capture_status == CaptureStatus::Reversed;
            let (next, effects) = result->Ok_0;
            let ts = effects.postings;
            let amount = finances.capture.amount.0 as int;
            let cancelled = finances.settlement == Some(RequestSettlement::Cancelled);
            let escrow = Account::RequestEscrow(finances.capture.id);
            let refund = Account::RefundPayable(finances.contract.refund_id);
            &&& result is Err <==> receipt.evidence.outcome == PaymentOutcome::Pending
                || receipt.evidence.outcome == PaymentOutcome::Failed || (!came_through
                && receipt.evidence.outcome == PaymentOutcome::Reversed)
            &&& result is Ok ==> {
                &&& next.capture == finances.capture
                &&& next.contract == finances.contract
                &&& forall|k: u128| #[trigger]
                    next.events.contains_key(k) <==> finances.events.contains_key(k) || k
                        == receipt.evidence.event_id.0
                &&& next.events[receipt.evidence.event_id.0] == receipt.evidence
                &&& effects.forfeitures.len() == 0
                &&& effects.capture_voided <==> !came_through && receipt.evidence.outcome
                    == PaymentOutcome::Voided
                &&& net(ts, ts.len(), Account::ProcessingRevenue) == 0
                &&& match receipt.evidence.outcome {
                    PaymentOutcome::Settled => {
                        &&& next.capture_status == if came_through {
                            finances.capture_status
                        } else {
                            CaptureStatus::Confirmed
                        }
                        &&& next.settlement == finances.settlement
                        &&& net(ts, ts.len(), Account::ProcessorClearing) == if came_through {
                            0
                        } else {
                            -amount
                        }
                        &&& net(ts, ts.len(), escrow) == if came_through || cancelled {
                            0
                        } else {
                            amount
                        }
                        &&& net(ts, ts.len(), refund) == if !came_through && cancelled {
                            amount
                        } else {
                            0
                        }
                        &&& effects.holds.len() == 0
                    },
                    PaymentOutcome::Voided => {
                        &&& ts.len() == 0
                        &&& effects.operations.len() == 0
                        &&& effects.holds.len() == 0
                        &&& came_through ==> next.capture_status == finances.capture_status
                            && next.settlement == finances.settlement
                        &&& !came_through ==> next.capture_status == CaptureStatus::Voided
                            && next.settlement == Some(RequestSettlement::Cancelled)
                    },
                    PaymentOutcome::Reversed => {
                        let first = finances.capture_status == CaptureStatus::Confirmed;
                        &&& next.capture_status == CaptureStatus::Reversed
                        &&& next.settlement == finances.settlement
                        &&& next.refund == finances.refund
                        &&& net(ts, ts.len(), Account::CorporateLossClearing) == if first {
                            -amount
                        } else {
                            0
                        }
                        &&& net(ts, ts.len(), Account::ProcessorClearing) == if first {
                            amount
                        } else {
                            0
                        }
                        &&& net(ts, ts.len(), escrow) == 0
                        &&& effects.holds.len() == if first && finances.settlement == Some(
                            RequestSettlement::Rejected,
                        ) && finances.contract.collateral.0 > 0 {
                            1int
                        } else {
                            0
                        }
                        &&& effects.holds.len() == 1 ==> effects.holds[0] == finances.capture.id
                        &&& effects.operations.len() == 0
                    },
                    _ => true,
                }
            }
        }),
{
    reveal_with_fuel(net, 4);
}

/// What a new receipt for a refund does: a settled one pays what was owed once, and nothing else is
/// taken.
pub proof fn receipts_account_for_refunds(
    finances: FinancialsModel,
    receipt: SignedPaymentEvidence,
    refund: PaymentOperation,
)
    requires
        finances.refund == RefundStatus::Pending(refund) || finances.refund
            == RefundStatus::Confirmed(refund),
        refund.id != finances.capture.id,
        receipt.evidence.operation_id == refund.id,
        receipt.verdict(finances.contract.provider_key, refund) is Ok,
        !finances.events.contains_key(receipt.evidence.event_id.0),
    ensures
        ({
            let result = finances.recorded(receipt);
            let (next, effects) = result->Ok_0;
            let ts = effects.postings;
            let due = if finances.refund is Pending {
                refund.amount.0 as int
            } else {
                0
            };
            &&& result is Ok <==> receipt.evidence.outcome == PaymentOutcome::Settled
            &&& result is Ok ==> {
                &&& next.refund == RefundStatus::Confirmed(refund)
                &&& next.capture_status == finances.capture_status
                &&& next.settlement == finances.settlement
                &&& next.capture == finances.capture
                &&& next.contract == finances.contract
                &&& next.events[receipt.evidence.event_id.0] == receipt.evidence
                &&& net(ts, ts.len(), Account::RefundPayable(refund.id)) == -due
                &&& net(ts, ts.len(), Account::ProcessorClearing) == due
                &&& effects.operations.len() == 0
                &&& effects.forfeitures.len() == 0
                &&& effects.holds.len() == 0
                &&& !effects.capture_voided
            }
        }),
{
    reveal_with_fuel(net, 3);
}

/// A receipt for neither the capture nor the refund is refused, and so is one under a known event
/// that is another's.
pub proof fn foreign_receipts_are_refused(
    finances: FinancialsModel,
    receipt: SignedPaymentEvidence,
)
    requires
        ({
            let event = receipt.evidence;
            let foreign = event.operation_id != finances.capture.id && (match finances.refund {
                RefundStatus::Absent => true,
                RefundStatus::Pending(refund) => event.operation_id != refund.id,
                RefundStatus::Confirmed(refund) => event.operation_id != refund.id,
            });
            foreign || (finances.events.contains_key(event.event_id.0)
                && finances.events[event.event_id.0] != event)
        }),
    ensures
        finances.recorded(receipt) is Err,
{
}

/// A contract covers a capture exactly if it is of some amount, in the contract's scope and at no
/// more than the whole rate; the charge and the collateral make its amount; its refund is another
/// operation; and the provider is known.
pub proof fn contracts_account_for_the_whole_capture(
    capture: PaymentOperation,
    contract: RequestFinancialContract,
)
    ensures
        covered(capture, contract) <==> {
            &&& capture.kind == PaymentKind::Capture
            &&& capture.amount.0 > 0
            &&& contract.processing_charge.0 + contract.collateral.0 == capture.amount.0
            &&& capture.scope == contract.terms.scope
            &&& contract.terms.corporate_basis_points <= 10_000
            &&& capture.id != contract.refund_id
            &&& exists|i: int| 0 <= i < 32 && contract.provider_key@[i] != 0
        },
{
    assert(zero_32(contract.provider_key) <==> !exists|i: int|
        0 <= i < 32 && contract.provider_key@[i] != 0);
}

} // verus!

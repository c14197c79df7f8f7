//! One logical payment, with sequential processor attempts and verified terminal evidence.

use super::payments::{
    concerns, PaymentError, PaymentEvidence, PaymentKind, PaymentOperation, PaymentOutcome,
    SignedPaymentEvidence,
};
use crate::bytes::same_bytes;
use crate::maps::{keys_in_order, keys_of, lookup, put};
use crate::primitives::ids::{FinancialEventId, PaymentOperationId};
use std::collections::BTreeMap;
use vstd::prelude::*;

verus! {

#[derive(Clone, Copy, Debug, PartialEq, Eq, Structural)]
pub enum PaymentState {
    Pending,
    Settled { evidence: FinancialEventId },
    Failed { evidence: FinancialEventId },
    Voided { evidence: FinancialEventId },
    Reversed { settlement: FinancialEventId, reversal: FinancialEventId },
}

#[derive(Clone, Copy, Debug, PartialEq, Eq)]
pub struct Attempt {
    pub operation: PaymentOperation,
    pub state: PaymentState,
}

/// What a receipt changed.
#[derive(Clone, Copy, Debug, PartialEq, Eq, Structural)]
pub enum PaymentChange {
    Unchanged,
    Settled,
    Reversed,
}

/// Attempts at one payment, one after another, and the evidence received for them.
#[derive(Debug, PartialEq, Eq)]
pub struct PaymentExecution {
    pub attempts: Vec<Attempt>,
    pub events: BTreeMap<u128, PaymentEvidence>,
}

/// The attempts and the evidence by event.
pub ghost struct ExecutionModel {
    pub attempts: Seq<Attempt>,
    pub events: Map<u128, PaymentEvidence>,
}

impl View for PaymentExecution {
    type V = ExecutionModel;

    open spec fn view(&self) -> ExecutionModel {
        ExecutionModel { attempts: self.attempts@, events: self.events@ }
    }
}

/// The state after a piece of evidence, and what changed.
pub open spec fn state_after(state: PaymentState, evidence: PaymentEvidence) -> Result<
    (PaymentState, PaymentChange),
    PaymentError,
> {
    let id = evidence.event_id;
    match (state, evidence.outcome) {
        (_, PaymentOutcome::Pending) => Ok((state, PaymentChange::Unchanged)),
        (PaymentState::Pending, PaymentOutcome::Settled) => Ok(
            (PaymentState::Settled { evidence: id }, PaymentChange::Settled),
        ),
        (PaymentState::Pending, PaymentOutcome::Failed) => Ok(
            (PaymentState::Failed { evidence: id }, PaymentChange::Unchanged),
        ),
        (PaymentState::Pending, PaymentOutcome::Voided) => Ok(
            (PaymentState::Voided { evidence: id }, PaymentChange::Unchanged),
        ),
        (PaymentState::Settled { evidence: settlement }, PaymentOutcome::Reversed) => Ok(
            (PaymentState::Reversed { settlement, reversal: id }, PaymentChange::Reversed),
        ),
        (PaymentState::Settled { .. }, PaymentOutcome::Settled) => Ok(
            (state, PaymentChange::Unchanged),
        ),
        (PaymentState::Reversed { .. }, PaymentOutcome::Settled) => Ok(
            (state, PaymentChange::Unchanged),
        ),
        (PaymentState::Failed { .. }, PaymentOutcome::Failed) => Ok((state, PaymentChange::Unchanged)),
        (PaymentState::Voided { .. }, PaymentOutcome::Voided) => Ok((state, PaymentChange::Unchanged)),
        (PaymentState::Reversed { .. }, PaymentOutcome::Reversed) => Ok(
            (state, PaymentChange::Unchanged),
        ),
        _ => Err(PaymentError::InvalidOperation),
    }
}

/// The state after a piece of evidence, and what changed; contradictory evidence is refused.
pub fn next_state(state: PaymentState, evidence: &PaymentEvidence) -> (result: Result<
    (PaymentState, PaymentChange),
    PaymentError,
>)
    ensures
        result == state_after(state, *evidence),
{
    let id = evidence.event_id;
    match (state, evidence.outcome) {
        (_, PaymentOutcome::Pending) => Ok((state, PaymentChange::Unchanged)),
        (PaymentState::Pending, PaymentOutcome::Settled) => Ok(
            (PaymentState::Settled { evidence: id }, PaymentChange::Settled),
        ),
        (PaymentState::Pending, PaymentOutcome::Failed) => Ok(
            (PaymentState::Failed { evidence: id }, PaymentChange::Unchanged),
        ),
        (PaymentState::Pending, PaymentOutcome::Voided) => Ok(
            (PaymentState::Voided { evidence: id }, PaymentChange::Unchanged),
        ),
        (PaymentState::Settled { evidence: settlement }, PaymentOutcome::Reversed) => Ok(
            (PaymentState::Reversed { settlement, reversal: id }, PaymentChange::Reversed),
        ),
        (PaymentState::Settled { .. }, PaymentOutcome::Settled) => Ok(
            (state, PaymentChange::Unchanged),
        ),
        (PaymentState::Reversed { .. }, PaymentOutcome::Settled) => Ok(
            (state, PaymentChange::Unchanged),
        ),
        (PaymentState::Failed { .. }, PaymentOutcome::Failed) => Ok((state, PaymentChange::Unchanged)),
        (PaymentState::Voided { .. }, PaymentOutcome::Voided) => Ok((state, PaymentChange::Unchanged)),
        (PaymentState::Reversed { .. }, PaymentOutcome::Reversed) => Ok(
            (state, PaymentChange::Unchanged),
        ),
        _ => Err(PaymentError::InvalidOperation),
    }
}

/// Evidence changes a state once: applied again to what it left, it changes nothing. Value moves only
/// where a pending payment settles or a settled one is reversed; what failed, was voided or was
/// reversed stays so, and news that a payment is pending is no news.
pub proof fn evidence_changes_a_state_once(state: PaymentState, evidence: PaymentEvidence)
    requires
        state_after(state, evidence) is Ok,
    ensures
        ({
            let (next, change) = state_after(state, evidence)->Ok_0;
            &&& state_after(next, evidence) == Ok::<(PaymentState, PaymentChange), PaymentError>(
                (next, PaymentChange::Unchanged),
            )
            &&& change == PaymentChange::Settled <==> state is Pending && evidence.outcome
                == PaymentOutcome::Settled
            &&& change == PaymentChange::Reversed <==> state is Settled && evidence.outcome
                == PaymentOutcome::Reversed
            &&& state is Failed || state is Voided || state is Reversed ==> next == state
            &&& evidence.outcome == PaymentOutcome::Pending ==> next == state
        }),
{
}

/// The first of the first `n` attempts with this operation identifier.
pub open spec fn attempt_index(attempts: Seq<Attempt>, id: PaymentOperationId, n: nat) -> Option<
    int,
>
    decreases n,
{
    if n == 0 {
        None
    } else {
        match attempt_index(attempts, id, (n - 1) as nat) {
            Some(i) => Some(i),
            None => if attempts[n - 1].operation.id == id {
                Some(n - 1)
            } else {
                None
            },
        }
    }
}

/// Whether an attempt ended without a transfer.
pub open spec fn ended(state: PaymentState) -> bool {
    state is Failed || state is Voided
}

/// Evidence of this outcome for this operation is on record.
pub open spec fn on_record(
    events: Map<u128, PaymentEvidence>,
    id: FinancialEventId,
    operation: PaymentOperation,
    outcome: PaymentOutcome,
) -> bool {
    &&& events.contains_key(id.0)
    &&& concerns(events[id.0], operation)
    &&& events[id.0].outcome == outcome
}

/// The evidence on record supports the state of an attempt.
pub open spec fn supported(events: Map<u128, PaymentEvidence>, attempt: Attempt) -> bool {
    match attempt.state {
        PaymentState::Pending => true,
        PaymentState::Settled { evidence } => on_record(
            events,
            evidence,
            attempt.operation,
            PaymentOutcome::Settled,
        ),
        PaymentState::Failed { evidence } => on_record(
            events,
            evidence,
            attempt.operation,
            PaymentOutcome::Failed,
        ),
        PaymentState::Voided { evidence } => attempt.operation.kind == PaymentKind::Capture
            && on_record(events, evidence, attempt.operation, PaymentOutcome::Voided),
        PaymentState::Reversed { settlement, reversal } => on_record(
            events,
            settlement,
            attempt.operation,
            PaymentOutcome::Settled,
        ) && on_record(events, reversal, attempt.operation, PaymentOutcome::Reversed),
    }
}

impl ExecutionModel {
    pub open spec fn find(self, id: PaymentOperationId) -> Option<int> {
        attempt_index(self.attempts, id, self.attempts.len())
    }

    /// An attempt repeats the first under an identifier of its own, has the evidence for its
    /// state, and if it is not the last, ended without a transfer.
    pub open spec fn attempt_consistent(self, i: int) -> bool {
        let attempt = self.attempts[i];
        &&& attempt.operation.valid()
        &&& attempt.operation == (PaymentOperation {
            id: attempt.operation.id,
            ..self.attempts[0].operation
        })
        &&& forall|j: int|
            0 <= j < i ==> (#[trigger] self.attempts[j]).operation.id != attempt.operation.id
        &&& (i + 1 < self.attempts.len() ==> ended(attempt.state))
        &&& supported(self.events, attempt)
    }

    /// A recorded event is filed under its identifier, belongs to an attempt, and says nothing
    /// that the state of the attempt does not already reflect.
    pub open spec fn event_consistent(self, key: u128) -> bool {
        let event = self.events[key];
        match self.find(event.operation_id) {
            None => false,
            Some(i) => {
                let attempt = self.attempts[i];
                &&& key == event.event_id.0
                &&& concerns(event, attempt.operation)
                &&& state_after(attempt.state, event) matches Ok((state, _)) && state
                    == attempt.state
            },
        }
    }

    /// The record of a payment as it can come about.
    pub open spec fn consistent(self) -> bool {
        &&& self.attempts.len() > 0
        &&& forall|i: int| 0 <= i < self.attempts.len() ==> #[trigger] self.attempt_consistent(i)
        &&& forall|k: u128|
            #[trigger] self.events.contains_key(k) ==> self.event_consistent(k)
    }

    pub open spec fn current(self) -> PaymentOperation {
        self.attempts.last().operation
    }

    pub open spec fn state(self) -> PaymentState {
        self.attempts.last().state
    }

    /// A further attempt after one that ended without a transfer.
    pub open spec fn retried(self, id: PaymentOperationId) -> Result<Self, PaymentError> {
        let operation = PaymentOperation { id, ..self.current() };
        if ended(self.state()) && self.find(id) is None && operation.valid() {
            Ok(
                ExecutionModel {
                    attempts: self.attempts.push(
                        Attempt { operation, state: PaymentState::Pending },
                    ),
                    ..self
                },
            )
        } else {
            Err(PaymentError::InvalidOperation)
        }
    }

    /// The record after a receipt, and what it changed; or why it is refused.
    pub open spec fn recorded(self, receipt: SignedPaymentEvidence, key: [u8; 32]) -> Result<
        (Self, PaymentChange),
        PaymentError,
    > {
        let event = receipt.evidence;
        match self.find(event.operation_id) {
            None => Err(PaymentError::OperationMismatch),
            Some(i) => match receipt.verdict(key, self.attempts[i].operation) {
                Err(e) => Err(e),
                Ok(()) => if self.events.contains_key(event.event_id.0) {
                    if self.events[event.event_id.0] == event {
                        Ok((self, PaymentChange::Unchanged))
                    } else {
                        Err(PaymentError::DuplicateConflict)
                    }
                } else {
                    match state_after(self.attempts[i].state, event) {
                        Err(e) => Err(e),
                        Ok((state, change)) => if i + 1 != self.attempts.len() && change
                            != PaymentChange::Unchanged {
                            Err(PaymentError::InvalidOperation)
                        } else {
                            Ok(
                                (
                                    ExecutionModel {
                                        attempts: self.attempts.update(
                                            i,
                                            Attempt { operation: self.attempts[i].operation, state },
                                        ),
                                        events: self.events.insert(event.event_id.0, event),
                                    },
                                    change,
                                ),
                            )
                        },
                    }
                },
            },
        }
    }
}

/// The record of a payment that has just been set up.
pub open spec fn first_attempt(operation: PaymentOperation) -> ExecutionModel {
    ExecutionModel {
        attempts: seq![Attempt { operation, state: PaymentState::Pending }],
        events: Map::empty(),
    }
}

proof fn lemma_index(attempts: Seq<Attempt>, id: PaymentOperationId, n: nat)
    requires
        n <= attempts.len(),
    ensures
        match attempt_index(attempts, id, n) {
            Some(i) => 0 <= i < n && attempts[i].operation.id == id && forall|j: int|
                0 <= j < i ==> (#[trigger] attempts[j]).operation.id != id,
            None => forall|j: int| 0 <= j < n ==> (#[trigger] attempts[j]).operation.id != id,
        },
    decreases n,
{
    if n > 0 {
        lemma_index(attempts, id, (n - 1) as nat);
    }
}

proof fn lemma_index_is(attempts: Seq<Attempt>, i: int, n: nat)
    requires
        0 <= i < n <= attempts.len(),
        forall|j: int|
            0 <= j < i ==> (#[trigger] attempts[j]).operation.id != attempts[i].operation.id,
    ensures
        attempt_index(attempts, attempts[i].operation.id, n) == Some(i),
{
    lemma_index(attempts, attempts[i].operation.id, n);
}

impl PaymentExecution {
    /// Sets up a payment. Invalid operations are refused.
    pub fn new(operation: PaymentOperation) -> (result: Result<Self, PaymentError>)
        ensures
            result is Ok <==> operation.valid(),
            result matches Ok(payment) ==> payment@ == first_attempt(operation),
            result matches Err(e) ==> e == PaymentError::InvalidOperation,
    {
        match operation.validate() {
            Ok(()) => {},
            Err(e) => return Err(e),
        }
        let mut attempts: Vec<Attempt> = Vec::new();
        attempts.push(Attempt { operation, state: PaymentState::Pending });
        assert(attempts@ =~= first_attempt(operation).attempts);
        Ok(PaymentExecution { attempts, events: BTreeMap::new() })
    }

    pub fn current(&self) -> (operation: &PaymentOperation)
        requires
            self@.attempts.len() > 0,
        ensures
            *operation == self@.current(),
    {
        &self.attempts[self.attempts.len() - 1].operation
    }

    pub fn state(&self) -> (state: PaymentState)
        requires
            self@.attempts.len() > 0,
        ensures
            state == self@.state(),
    {
        self.attempts[self.attempts.len() - 1].state
    }

    pub fn attempt_count(&self) -> (count: usize)
        ensures
            count == self@.attempts.len(),
    {
        self.attempts.len()
    }

    fn position(&self, id: PaymentOperationId) -> (index: Option<usize>)
        ensures
            match index {
                Some(i) => self@.find(id) == Some(i as int) && i < self@.attempts.len()
                    && self@.attempts[i as int].operation.id == id,
                None => self@.find(id) is None,
            },
    {
        let mut i: usize = 0;
        while i < self.attempts.len()
            invariant
                0 <= i <= self.attempts@.len(),
                forall|j: int| 0 <= j < i ==> (#[trigger] self.attempts@[j]).operation.id != id,
            decreases self.attempts@.len() - i,
        {
            if self.attempts[i].operation.id == id {
                proof {
                    lemma_index_is(self.attempts@, i as int, self.attempts@.len());
                }
                return Some(i);
            }
            i += 1;
        }
        proof {
            lemma_index(self.attempts@, id, self.attempts@.len());
        }
        None
    }

    /// The operation of the attempt with this identifier.
    pub fn operation(&self, id: PaymentOperationId) -> (operation: Option<&PaymentOperation>)
        ensures
            match operation {
                Some(o) => self@.find(id) matches Some(i) && *o == self@.attempts[i].operation,
                None => self@.find(id) is None,
            },
    {
        match self.position(id) {
            Some(i) => Some(&self.attempts[i].operation),
            None => None,
        }
    }

    /// The current operation while it awaits an outcome.
    pub fn pending(&self) -> (operation: Option<&PaymentOperation>)
        requires
            self@.attempts.len() > 0,
        ensures
            match operation {
                Some(o) => self@.state() == PaymentState::Pending && *o == self@.current(),
                None => self@.state() != PaymentState::Pending,
            },
    {
        if self.state() == PaymentState::Pending {
            Some(self.current())
        } else {
            None
        }
    }

    /// Starts a further attempt. Refused after an unresolved or successful attempt, or for an
    /// identifier that an attempt already has.
    pub fn retry(&mut self, id: PaymentOperationId) -> (result: Result<
        PaymentOperation,
        PaymentError,
    >)
        requires
            old(self)@.attempts.len() > 0,
        ensures
            match old(self)@.retried(id) {
                Ok(next) => result == Ok::<PaymentOperation, PaymentError>(
                    PaymentOperation { id, ..old(self)@.current() },
                ) && final(self)@ == next,
                Err(e) => result == Err::<PaymentOperation, PaymentError>(e) && *final(self)
                    == *old(self),
            },
    {
        if !matches!(self.state(), PaymentState::Failed { .. } | PaymentState::Voided { .. })
            || self.operation(id).is_some() {
            return Err(PaymentError::InvalidOperation);
        }
        let mut operation = *self.current();
        operation.id = id;
        match operation.validate() {
            Ok(()) => {},
            Err(e) => return Err(e),
        }
        self.attempts.push(Attempt { operation, state: PaymentState::Pending });
        Ok(operation)
    }

    /// Takes in a receipt. Unauthenticated, conflicting, or impossible processor evidence is
    /// refused, and changes nothing.
    pub fn record(&mut self, receipt: &SignedPaymentEvidence, key: &[u8; 32]) -> (result: Result<
        PaymentChange,
        PaymentError,
    >)
        ensures
            match old(self)@.recorded(*receipt, *key) {
                Ok((next, change)) => result == Ok::<PaymentChange, PaymentError>(change) && final(
                    self)@ == next,
                Err(e) => result == Err::<PaymentChange, PaymentError>(e) && *final(self) == *old(
                    self),
            },
    {
        let index = match self.position(receipt.evidence.operation_id) {
            Some(i) => i,
            None => return Err(PaymentError::OperationMismatch),
        };
        let operation = self.attempts[index].operation;
        match receipt.verify(key, &operation) {
            Ok(()) => {},
            Err(e) => return Err(e),
        }
        match lookup(&self.events, receipt.evidence.event_id.0) {
            Some(known) => {
                return if known.same(&receipt.evidence) {
                    Ok(PaymentChange::Unchanged)
                } else {
                    Err(PaymentError::DuplicateConflict)
                };
            },
            None => {},
        }
        let (state, change) = match next_state(self.attempts[index].state, &receipt.evidence) {
            Ok(next) => next,
            Err(e) => return Err(e),
        };
        // A previous definitively failed attempt cannot acquire a new economic outcome.
        if index != self.attempts.len() - 1 && change != PaymentChange::Unchanged {
            return Err(PaymentError::InvalidOperation);
        }
        self.attempts[index] = Attempt { operation, state };
        put(&mut self.events, receipt.evidence.event_id.0, receipt.evidence);
        Ok(change)
    }

    fn has_evidence(
        &self,
        operation: &PaymentOperation,
        id: FinancialEventId,
        outcome: PaymentOutcome,
    ) -> (found: bool)
        ensures
            found == on_record(self@.events, id, *operation, outcome),
    {
        match lookup(&self.events, id.0) {
            Some(event) => {
                let digest = operation.digest();
                event.operation_id == operation.id && same_bytes(
                    event.operation_digest.as_slice(),
                    digest.as_slice(),
                ) && event.outcome == outcome
            },
            None => false,
        }
    }

    fn attempt_is_consistent(&self, i: usize) -> (consistent: bool)
        requires
            i < self@.attempts.len(),
        ensures
            consistent == self@.attempt_consistent(i as int),
    {
        let attempt = self.attempts[i];
        if attempt.operation.validate().is_err() {
            return false;
        }
        let mut expected = self.attempts[0].operation;
        expected.id = attempt.operation.id;
        if !attempt.operation.same(&expected) {
            return false;
        }
        let mut j: usize = 0;
        while j < i
            invariant
                0 <= j <= i < self.attempts@.len(),
                attempt == self.attempts@[i as int],
                forall|k: int|
                    0 <= k < j ==> (#[trigger] self.attempts@[k]).operation.id
                        != attempt.operation.id,
            decreases i - j,
        {
            if self.attempts[j].operation.id == attempt.operation.id {
                assert(self.attempts@[j as int].operation.id == attempt.operation.id);
                return false;
            }
            j += 1;
        }
        if i != self.attempts.len() - 1 && !matches!(
            attempt.state,
            PaymentState::Failed { .. } | PaymentState::Voided { .. }
        ) {
            return false;
        }
        match attempt.state {
            PaymentState::Pending => true,
            PaymentState::Settled { evidence } => self.has_evidence(
                &attempt.operation,
                evidence,
                PaymentOutcome::Settled,
            ),
            PaymentState::Failed { evidence } => self.has_evidence(
                &attempt.operation,
                evidence,
                PaymentOutcome::Failed,
            ),
            PaymentState::Voided { evidence } => attempt.operation.kind == PaymentKind::Capture
                && self.has_evidence(&attempt.operation, evidence, PaymentOutcome::Voided),
            PaymentState::Reversed { settlement, reversal } => self.has_evidence(
                &attempt.operation,
                settlement,
                PaymentOutcome::Settled,
            ) && self.has_evidence(&attempt.operation, reversal, PaymentOutcome::Reversed),
        }
    }

    fn event_is_consistent(&self, key: u128) -> (consistent: bool)
        requires
            self@.events.contains_key(key),
        ensures
            consistent == self@.event_consistent(key),
    {
        let event = match lookup(&self.events, key) {
            Some(event) => *event,
            None => return false,
        };
        let attempt = match self.position(event.operation_id) {
            Some(i) => self.attempts[i],
            None => return false,
        };
        let digest = attempt.operation.digest();
        let matching = same_bytes(event.operation_digest.as_slice(), digest.as_slice());
        if key != event.event_id.0 || !matching {
            return false;
        }
        match next_state(attempt.state, &event) {
            Ok((state, _)) => state == attempt.state,
            Err(_) => false,
        }
    }

    /// Refuses inconsistent identifiers, amounts, operation purposes, or evidence history.
    pub fn validate(&self) -> (result: Result<(), PaymentError>)
        ensures
            result is Ok <==> self@.consistent(),
            result matches Err(e) ==> e == PaymentError::InvalidOperation,
    {
        if self.attempts.len() == 0 {
            return Err(PaymentError::InvalidOperation);
        }
        let mut i: usize = 0;
        while i < self.attempts.len()
            invariant
                0 <= i <= self.attempts@.len(),
                forall|j: int| 0 <= j < i ==> #[trigger] self@.attempt_consistent(j),
            decreases self.attempts@.len() - i,
        {
            if !self.attempt_is_consistent(i) {
                return Err(PaymentError::InvalidOperation);
            }
            i += 1;
        }
        let keys = keys_of(&self.events);
        let mut k: usize = 0;
        while k < keys.len()
            invariant
                keys_in_order(keys@, self.events@),
                0 <= k <= keys@.len(),
                forall|j: int| 0 <= j < k ==> self@.event_consistent(#[trigger] keys@[j]),
            decreases keys@.len() - k,
        {
            assert(self@.events.contains_key(keys@[k as int]));
            if !self.event_is_consistent(keys[k]) {
                return Err(PaymentError::InvalidOperation);
            }
            k += 1;
        }
        assert forall|key: u128| #[trigger] self@.events.contains_key(key) implies self@.event_consistent(
            key,
        ) by {
            let j = choose|j: int| 0 <= j < keys@.len() && keys@[j] == key;
            assert(self@.event_consistent(keys@[j]));
        }
        Ok(())
    }

    /// Takes a stored record back in, if it is one that can have come about.
    pub fn restore(attempts: Vec<Attempt>, events: BTreeMap<u128, PaymentEvidence>) -> (result:
        Result<Self, PaymentError>)
        ensures
            ({
                let model = ExecutionModel { attempts: attempts@, events: events@ };
                &&& result is Ok <==> model.consistent()
                &&& result matches Ok(payment) ==> payment@ == model
                &&& result matches Err(e) ==> e == PaymentError::InvalidOperation
            }),
    {
        let payment = PaymentExecution { attempts, events };
        match payment.validate() {
            Ok(()) => Ok(payment),
            Err(e) => Err(e),
        }
    }
}

impl Clone for PaymentExecution {
    fn clone(&self) -> (copy: Self)
        ensures
            copy@ == self@,
    {
        PaymentExecution { attempts: self.attempts.clone(), events: self.events.clone() }
    }
}

/// A payment starts out consistent.
pub proof fn new_payments_are_consistent(operation: PaymentOperation)
    requires
        operation.valid(),
    ensures
        first_attempt(operation).consistent(),
{
    assert(first_attempt(operation).attempt_consistent(0));
}

/// A further attempt keeps the record consistent.
pub proof fn retries_stay_consistent(payment: ExecutionModel, id: PaymentOperationId)
    requires
        payment.consistent(),
        payment.retried(id) is Ok,
    ensures
        payment.retried(id)->Ok_0.consistent(),
{
    let next = payment.retried(id)->Ok_0;
    let n = payment.attempts.len();
    lemma_index(payment.attempts, id, n);
    assert(payment.attempt_consistent(n - 1));
    assert forall|i: int| 0 <= i < next.attempts.len() implies #[trigger] next.attempt_consistent(
        i,
    ) by {
        if i < n {
            assert(payment.attempt_consistent(i));
            assert(next.attempts[i] == payment.attempts[i]);
        } else {
            assert forall|j: int| 0 <= j < i implies (#[trigger] next.attempts[j]).operation.id
                != id by {
                assert(next.attempts[j] == payment.attempts[j]);
            }
        }
    }
    assert forall|k: u128| #[trigger] next.events.contains_key(k) implies next.event_consistent(
        k,
    ) by {
        assert(payment.event_consistent(k));
        let event = payment.events[k];
        lemma_index(payment.attempts, event.operation_id, n);
        let i = payment.find(event.operation_id)->Some_0;
        assert(next.attempts[i] == payment.attempts[i]);
        lemma_index_is(next.attempts, i, next.attempts.len());
    }
}

/// A receipt that is taken in keeps the record consistent.
pub proof fn receipts_stay_consistent(
    payment: ExecutionModel,
    receipt: SignedPaymentEvidence,
    key: [u8; 32],
)
    requires
        payment.consistent(),
        payment.recorded(receipt, key) is Ok,
    ensures
        payment.recorded(receipt, key)->Ok_0.0.consistent(),
{
    let (next, change) = payment.recorded(receipt, key)->Ok_0;
    let event = receipt.evidence;
    if !payment.events.contains_key(event.event_id.0) {
        let n = payment.attempts.len();
        let at = payment.find(event.operation_id)->Some_0;
        lemma_index(payment.attempts, event.operation_id, n);
        assert(payment.attempt_consistent(at));
        assert forall|i: int| 0 <= i < n implies (#[trigger] next.attempts[i]).operation
            == payment.attempts[i].operation by {}
        assert forall|i: int| 0 <= i < next.attempts.len() implies #[trigger] next.attempt_consistent(
            i,
        ) by {
            assert(payment.attempt_consistent(i));
            assert(payment.attempt_consistent(0));
            assert forall|j: int| 0 <= j < i implies (#[trigger] next.attempts[j]).operation.id
                != next.attempts[i].operation.id by {
                assert(payment.attempts[j].operation.id != payment.attempts[i].operation.id);
            }
        }
        assert forall|k: u128| #[trigger] next.events.contains_key(k) implies next.event_consistent(
            k,
        ) by {
            let e = next.events[k];
            if k == event.event_id.0 {
                lemma_index_is(next.attempts, at, n);
            } else {
                assert(payment.events.contains_key(k));
                assert(payment.event_consistent(k));
                let i = payment.find(e.operation_id)->Some_0;
                lemma_index(payment.attempts, e.operation_id, n);
                assert(next.attempts[i].operation.id == e.operation_id);
                assert forall|j: int| 0 <= j < i implies (#[trigger] next.attempts[j]).operation.id
                    != next.attempts[i].operation.id by {
                    assert(payment.attempts[j].operation.id != e.operation_id);
                }
                lemma_index_is(next.attempts, i, n);
            }
        }
    }
}

/// Taking in a receipt a second time changes nothing.
pub proof fn receipts_are_idempotent(
    payment: ExecutionModel,
    receipt: SignedPaymentEvidence,
    key: [u8; 32],
)
    requires
        payment.recorded(receipt, key) is Ok,
    ensures
        payment.recorded(receipt, key)->Ok_0.0.recorded(receipt, key) == Ok::<
            (ExecutionModel, PaymentChange),
            PaymentError,
        >((payment.recorded(receipt, key)->Ok_0.0, PaymentChange::Unchanged)),
{
    let (next, change) = payment.recorded(receipt, key)->Ok_0;
    let event = receipt.evidence;
    let n = payment.attempts.len();
    lemma_index(payment.attempts, event.operation_id, n);
    let at = payment.find(event.operation_id)->Some_0;
    if !payment.events.contains_key(event.event_id.0) {
        assert forall|j: int| 0 <= j < at implies (#[trigger] next.attempts[j]).operation.id
            != next.attempts[at].operation.id by {
            assert(payment.attempts[j].operation.id != event.operation_id);
        }
        lemma_index_is(next.attempts, at, n);
    }
}

/// A payment whose outcome is open, or that settled, has no further attempt.
pub proof fn settled_payments_are_not_retried(payment: ExecutionModel, id: PaymentOperationId)
    requires
        payment.state() is Pending || payment.state() is Settled || payment.state() is Reversed,
    ensures
        payment.retried(id) is Err,
{
}

/// What is found is an attempt.
pub proof fn lemma_find(payment: ExecutionModel, id: PaymentOperationId)
    ensures
        payment.find(id) matches Some(i) ==> 0 <= i < payment.attempts.len(),
{
    lemma_index(payment.attempts, id, payment.attempts.len());
}

/// A receipt leaves the attempted operations as they are.
pub proof fn lemma_recorded_operations(
    payment: ExecutionModel,
    receipt: SignedPaymentEvidence,
    key: [u8; 32],
)
    requires
        payment.recorded(receipt, key) is Ok,
    ensures
        ({
            let next = payment.recorded(receipt, key)->Ok_0.0;
            &&& next.attempts.len() == payment.attempts.len()
            &&& forall|i: int|
                0 <= i < next.attempts.len() ==> (#[trigger] next.attempts[i]).operation
                    == payment.attempts[i].operation
            &&& payment.attempts.len() > 0 ==> next.current() == payment.current()
        }),
{
    lemma_index(payment.attempts, receipt.evidence.operation_id, payment.attempts.len());
}

/// A receipt never changes which operations were attempted, and value is supplied at most once:
/// a receipt that settles finds the last attempt pending, and leaves it settled.
pub proof fn value_is_supplied_once(
    payment: ExecutionModel,
    receipt: SignedPaymentEvidence,
    key: [u8; 32],
)
    requires
        payment.consistent(),
        payment.recorded(receipt, key) is Ok,
    ensures
        ({
            let (next, change) = payment.recorded(receipt, key)->Ok_0;
            &&& next.attempts.len() == payment.attempts.len()
            &&& forall|i: int|
                0 <= i < next.attempts.len() ==> (#[trigger] next.attempts[i]).operation
                    == payment.attempts[i].operation
            &&& (change == PaymentChange::Settled ==> payment.state() is Pending && next.state()
                is Settled)
            &&& (change == PaymentChange::Reversed ==> payment.state() is Settled && next.state()
                is Reversed)
        }),
{
    lemma_index(payment.attempts, receipt.evidence.operation_id, payment.attempts.len());
}

proof fn lemma_same_index(a: Seq<Attempt>, b: Seq<Attempt>, id: PaymentOperationId, n: nat)
    requires
        n <= a.len(),
        n <= b.len(),
        forall|i: int| 0 <= i < n ==> (#[trigger] a[i]).operation.id == b[i].operation.id,
    ensures
        attempt_index(a, id, n) == attempt_index(b, id, n),
    decreases n,
{
    if n > 0 {
        lemma_same_index(a, b, id, (n - 1) as nat);
        assert(a[n - 1].operation.id == b[n - 1].operation.id);
    }
}

/// Neither a receipt nor a further attempt loses an attempt that was made.
pub proof fn attempts_are_kept(
    payment: ExecutionModel,
    receipt: SignedPaymentEvidence,
    key: [u8; 32],
    retry: PaymentOperationId,
    id: PaymentOperationId,
)
    ensures
        payment.recorded(receipt, key) matches Ok((next, _)) ==> next.find(id) == payment.find(id),
        payment.retried(retry) matches Ok(next) ==> (payment.find(id) is Some ==> next.find(id)
            == payment.find(id)),
{
    let n = payment.attempts.len();
    if payment.recorded(receipt, key) is Ok {
        let next = payment.recorded(receipt, key)->Ok_0.0;
        lemma_recorded_operations(payment, receipt, key);
        assert forall|i: int| 0 <= i < n implies (#[trigger] next.attempts[i]).operation.id
            == payment.attempts[i].operation.id by {}
        lemma_same_index(next.attempts, payment.attempts, id, n);
    }
    if payment.retried(retry) is Ok {
        let next = payment.retried(retry)->Ok_0;
        lemma_same_index(next.attempts, payment.attempts, id, n);
    }
}

/// A receipt that changes nothing of value leaves a settled payment settled, a reversed one
/// reversed, and one without a transfer without one.
pub proof fn unchanged_value_stays(
    payment: ExecutionModel,
    receipt: SignedPaymentEvidence,
    key: [u8; 32],
)
    requires
        payment.consistent(),
        payment.recorded(receipt, key) is Ok,
        payment.recorded(receipt, key)->Ok_0.1 == PaymentChange::Unchanged,
    ensures
        ({
            let next = payment.recorded(receipt, key)->Ok_0.0;
            &&& (payment.state() is Settled || payment.state() is Reversed ==> next.state()
                == payment.state())
            &&& (payment.state() is Pending || ended(payment.state()) ==> next.state() is Pending
                || ended(next.state()))
        }),
{
    lemma_index(payment.attempts, receipt.evidence.operation_id, payment.attempts.len());
}

/// Settling evidence settles a payment that has not settled: it is never a repetition, nor about an
/// attempt that has ended.
pub proof fn settled_evidence_settles(
    payment: ExecutionModel,
    receipt: SignedPaymentEvidence,
    key: [u8; 32],
)
    requires
        payment.consistent(),
        payment.state() is Pending || ended(payment.state()),
        receipt.evidence.outcome == PaymentOutcome::Settled,
        payment.recorded(receipt, key) is Ok,
    ensures
        payment.state() is Pending,
        payment.recorded(receipt, key)->Ok_0.1 == PaymentChange::Settled,
        payment.recorded(receipt, key)->Ok_0.0.state() == (PaymentState::Settled {
            evidence: receipt.evidence.event_id,
        }),
{
    let event = receipt.evidence;
    let n = payment.attempts.len();
    lemma_index(payment.attempts, event.operation_id, n);
    let at = payment.find(event.operation_id)->Some_0;
    assert(payment.attempt_consistent(at));
    if payment.events.contains_key(event.event_id.0) {
        assert(payment.event_consistent(event.event_id.0));
    }
}

/// A payment has a further attempt exactly if its last attempt failed or was voided, the new
/// identifier is not zero and no attempt has it. It repeats the last attempt in all else, is open,
/// and leaves the attempts before it and their evidence as they were.
pub proof fn retries_repeat_what_failed(payment: ExecutionModel, id: PaymentOperationId)
    requires
        payment.attempts.len() > 0,
        payment.attempts.last().operation.valid(),
    ensures
        ({
            let last = payment.attempts.last();
            let result = payment.retried(id);
            let next = result->Ok_0;
            &&& result is Ok ==> {
                &&& last.state is Failed || last.state is Voided
                &&& id.0 != 0
                &&& forall|i: int|
                    0 <= i < payment.attempts.len() ==> (#[trigger] payment.attempts[i]).operation.id
                        != id
                &&& next.attempts.len() == payment.attempts.len() + 1
                &&& forall|i: int|
                    0 <= i < payment.attempts.len() ==> #[trigger] next.attempts[i]
                        == payment.attempts[i]
                &&& next.attempts.last().state is Pending
                &&& next.attempts.last().operation.id == id
                &&& next.attempts.last().operation.amount == last.operation.amount
                &&& next.attempts.last().operation.unit == last.operation.unit
                &&& next.attempts.last().operation.kind == last.operation.kind
                &&& next.attempts.last().operation.scope == last.operation.scope
                &&& next.attempts.last().operation.destination == last.operation.destination
                &&& next.events == payment.events
            }
            &&& (last.state is Failed || last.state is Voided) && id.0 != 0 && (forall|i: int|
                0 <= i < payment.attempts.len() ==> (#[trigger] payment.attempts[i]).operation.id
                    != id) && !(last.operation.kind == PaymentKind::Refund { capture: id })
                ==> result is Ok
        }),
{
    lemma_index(payment.attempts, id, payment.attempts.len());
}

/// What a new receipt for the last attempt does to it, by the state that it is in and the outcome
/// that the receipt reports: an open attempt settles, fails or is voided; a settled one can only be
/// reversed; and what contradicts the state is refused. The receipt is noted, and every other
/// attempt stays as it was.
pub proof fn receipts_move_the_last_attempt(
    payment: ExecutionModel,
    receipt: SignedPaymentEvidence,
    key: [u8; 32],
)
    requires
        payment.attempts.len() > 0,
        receipt.evidence.operation_id == payment.attempts.last().operation.id,
        forall|i: int|
            0 <= i < payment.attempts.len() - 1 ==> (#[trigger] payment.attempts[i]).operation.id
                != receipt.evidence.operation_id,
        receipt.verdict(key, payment.attempts.last().operation) is Ok,
        !payment.events.contains_key(receipt.evidence.event_id.0),
    ensures
        ({
            let event = receipt.evidence;
            let n = payment.attempts.len();
            let was = payment.attempts[n - 1].state;
            let result = payment.recorded(receipt, key);
            let (next, change) = result->Ok_0;
            let is = next.attempts[n - 1].state;
            &&& result is Ok <==> match event.outcome {
                PaymentOutcome::Pending => true,
                PaymentOutcome::Settled => was is Pending || was is Settled || was is Reversed,
                PaymentOutcome::Failed => was is Pending || was is Failed,
                PaymentOutcome::Voided => was is Pending || was is Voided,
                PaymentOutcome::Reversed => was is Settled || was is Reversed,
            }
            &&& result is Ok ==> {
                &&& next.attempts.len() == n
                &&& next.attempts[n - 1].operation == payment.attempts[n - 1].operation
                &&& forall|i: int|
                    0 <= i < n - 1 ==> #[trigger] next.attempts[i] == payment.attempts[i]
                &&& next.events.contains_key(event.event_id.0) && next.events[event.event_id.0]
                    == event
                &&& forall|k: u128|
                    k != event.event_id.0 ==> (#[trigger] next.events.contains_key(k)
                        <==> payment.events.contains_key(k)) && next.events[k] == payment.events[k]
                &&& change == PaymentChange::Settled <==> was is Pending && is is Settled
                &&& change == PaymentChange::Reversed <==> was is Settled && is is Reversed
                &&& event.outcome == PaymentOutcome::Pending || !(was is Pending || (was is Settled
                    && event.outcome == PaymentOutcome::Reversed)) ==> is == was
                &&& was is Pending && event.outcome == PaymentOutcome::Settled ==> is
                    == PaymentState::Settled { evidence: event.event_id }
                &&& was is Pending && event.outcome == PaymentOutcome::Failed ==> is
                    == PaymentState::Failed { evidence: event.event_id }
                &&& was is Pending && event.outcome == PaymentOutcome::Voided ==> is
                    == PaymentState::Voided { evidence: event.event_id }
                &&& was is Settled && event.outcome == PaymentOutcome::Reversed ==> is is Reversed
                    && is->settlement == was->Settled_evidence && is->reversal == event.event_id
            }
        }),
{
    let n = payment.attempts.len();
    lemma_index(payment.attempts, receipt.evidence.operation_id, n);
    let at = payment.find(receipt.evidence.operation_id);
    assert(at == Some(n - 1)) by {
        if at is Some {
            let i = at->Some_0;
            if i < n - 1 {
                assert(payment.attempts[i].operation.id == receipt.evidence.operation_id);
            }
        }
    }
}

/// An attempt before the last never moves value: a receipt for it that would settle or reverse it
/// is refused, and so are receipts for operations that were not attempted, that another key signed,
/// and those under a known event that is another's.
pub proof fn only_the_last_attempt_moves_value(
    payment: ExecutionModel,
    receipt: SignedPaymentEvidence,
    key: [u8; 32],
)
    requires
        payment.recorded(receipt, key) is Ok,
    ensures
        exists|i: int|
            0 <= i < payment.attempts.len() && (#[trigger] payment.attempts[i]).operation.id
                == receipt.evidence.operation_id && receipt.verdict(
                key,
                payment.attempts[i].operation,
            ) is Ok,
        payment.recorded(receipt, key)->Ok_0.1 != PaymentChange::Unchanged ==> {
            &&& payment.attempts.last().operation.id == receipt.evidence.operation_id
            &&& !payment.events.contains_key(receipt.evidence.event_id.0)
        },
        payment.events.contains_key(receipt.evidence.event_id.0)
            ==> payment.events[receipt.evidence.event_id.0] == receipt.evidence
            && payment.recorded(receipt, key)->Ok_0.0 == payment,
{
    lemma_index(payment.attempts, receipt.evidence.operation_id, payment.attempts.len());
    let i = payment.find(receipt.evidence.operation_id)->Some_0;
    assert(payment.attempts[i].operation.id == receipt.evidence.operation_id);
}

/// The record of a payment can have come about only if its attempts are one payment, made again under
/// new identifiers: all for the same amount, unit, purpose, scope and destination; all but the last
/// ended without a transfer; and each settled, failed, voided or reversed only on evidence about
/// itself that says so.
pub proof fn records_are_of_one_payment(payment: ExecutionModel, i: int, j: int)
    requires
        payment.consistent(),
        0 <= i < payment.attempts.len(),
        0 <= j < payment.attempts.len(),
    ensures
        ({
            let (a, b) = (payment.attempts[i], payment.attempts[j]);
            let events = payment.events;
            &&& payment.attempts.len() > 0
            &&& a.operation.amount == b.operation.amount
            &&& a.operation.unit == b.operation.unit
            &&& a.operation.kind == b.operation.kind
            &&& a.operation.scope == b.operation.scope
            &&& a.operation.destination == b.operation.destination
            &&& i != j ==> a.operation.id != b.operation.id
            &&& i < payment.attempts.len() - 1 ==> a.state is Failed || a.state is Voided
            &&& match a.state {
                PaymentState::Pending => true,
                PaymentState::Settled { evidence } => events.contains_key(evidence.0)
                    && events[evidence.0].operation_id == a.operation.id
                    && events[evidence.0].outcome == PaymentOutcome::Settled,
                PaymentState::Failed { evidence } => events.contains_key(evidence.0)
                    && events[evidence.0].operation_id == a.operation.id
                    && events[evidence.0].outcome == PaymentOutcome::Failed,
                PaymentState::Voided { evidence } => events.contains_key(evidence.0)
                    && events[evidence.0].operation_id == a.operation.id
                    && events[evidence.0].outcome == PaymentOutcome::Voided && a.operation.kind
                    == PaymentKind::Capture,
                PaymentState::Reversed { settlement, reversal } => events.contains_key(settlement.0)
                    && events[settlement.0].operation_id == a.operation.id
                    && events[settlement.0].outcome == PaymentOutcome::Settled
                    && events.contains_key(reversal.0) && events[reversal.0].operation_id
                    == a.operation.id && events[reversal.0].outcome == PaymentOutcome::Reversed,
            }
        }),
{
    assert(payment.attempt_consistent(i));
    assert(payment.attempt_consistent(j));
    if i < j {
        assert(payment.attempts[i].operation.id != payment.attempts[j].operation.id);
    } else if j < i {
        assert(payment.attempts[j].operation.id != payment.attempts[i].operation.id);
    }
}

/// The evidence on record is filed under its event and is about an attempt that it does not
/// contradict: it would change nothing if it came again.
pub proof fn recorded_evidence_is_reflected(payment: ExecutionModel, k: u128)
    requires
        payment.consistent(),
        payment.events.contains_key(k),
    ensures
        payment.events[k].event_id.0 == k,
        exists|i: int|
            0 <= i < payment.attempts.len() && (#[trigger] payment.attempts[i]).operation.id
                == payment.events[k].operation_id && match payment.events[k].outcome {
                PaymentOutcome::Pending => true,
                PaymentOutcome::Settled => payment.attempts[i].state is Settled
                    || payment.attempts[i].state is Reversed,
                PaymentOutcome::Failed => payment.attempts[i].state is Failed,
                PaymentOutcome::Voided => payment.attempts[i].state is Voided,
                PaymentOutcome::Reversed => payment.attempts[i].state is Reversed,
            },
{
    assert(payment.event_consistent(k));
    lemma_find(payment, payment.events[k].operation_id);
    lemma_index(payment.attempts, payment.events[k].operation_id, payment.attempts.len());
    let i = payment.find(payment.events[k].operation_id)->Some_0;
    assert(payment.attempts[i].operation.id == payment.events[k].operation_id);
}

} // verus!

//! Current restrictions and durable dispatch grants for a verified bank funding source.

use super::bank::VerifiedBankAccount;
use super::execution::{
    first_attempt, lemma_recorded_operations, ExecutionModel, PaymentExecution, PaymentState,
};
use super::payments::{
    PaymentError, PaymentKind, PaymentOperation, PaymentOutcome, SignedPaymentEvidence,
};
use crate::bytes::{is_zero_32, same_32, zero_32};
use crate::maps::{
    add_member, holds, is_member, keys_in_order, keys_of, lemma_sorted_keys, lookup, members_of, put,
    sorted_keys, take,
};
use crate::primitives::ids::PaymentOperationId;
use std::collections::{BTreeMap, BTreeSet};
use vstd::prelude::*;

verus! {

#[derive(Debug, PartialEq, Eq)]
pub struct FundingSource {
    pub token: [u8; 32],
    pub verification: u64,
    pub restricted: bool,
    pub maximum_unresolved: u32,
    pub attempts: BTreeMap<u128, PaymentExecution>,
    pub dispatched: BTreeSet<u128>,
}

pub ghost struct FundingModel {
    pub token: [u8; 32],
    pub verification: u64,
    pub restricted: bool,
    pub maximum_unresolved: u32,
    pub attempts: Map<u128, ExecutionModel>,
    pub dispatched: Set<u128>,
}

/// The payments of a map by their models.
pub open spec fn payment_models(map: Map<u128, PaymentExecution>) -> Map<u128, ExecutionModel> {
    Map::new(|id: u128| map.contains_key(id), |id: u128| map[id]@)
}

impl View for FundingSource {
    type V = FundingModel;

    open spec fn view(&self) -> FundingModel {
        FundingModel {
            token: self.token,
            verification: self.verification,
            restricted: self.restricted,
            maximum_unresolved: self.maximum_unresolved,
            attempts: payment_models(self.attempts@),
            dispatched: self.dispatched@,
        }
    }
}

/// How many of the payments under the first `n` keys await an outcome.
pub open spec fn pending_among(attempts: Map<u128, ExecutionModel>, keys: Seq<u128>, n: nat) -> nat
    decreases n,
{
    if n == 0 {
        0
    } else {
        pending_among(attempts, keys, (n - 1) as nat) + if attempts[keys[n - 1]].state()
            == PaymentState::Pending {
            1nat
        } else {
            0nat
        }
    }
}

impl Clone for FundingSource {
    fn clone(&self) -> (copy: Self)
        ensures
            copy@ == self@,
    {
        FundingSource {
            token: self.token,
            verification: self.verification,
            restricted: self.restricted,
            maximum_unresolved: self.maximum_unresolved,
            attempts: self.attempts.clone(),
            dispatched: self.dispatched.clone(),
        }
    }
}

impl FundingModel {
    /// How many payments await an outcome.
    pub open spec fn unresolved(self) -> nat {
        let keys = sorted_keys(self.attempts);
        pending_among(self.attempts, keys, keys.len())
    }

    /// A payment of this source: one capture from it, filed under its identifier.
    pub open spec fn owns(self, id: u128) -> bool {
        let payment = self.attempts[id];
        &&& payment.attempts.len() == 1
        &&& payment.current().id.0 == id
        &&& payment.current().kind == PaymentKind::Capture
        &&& payment.current().destination == self.token
    }

    /// The record of a source as it can come about.
    pub open spec fn sound(self) -> bool {
        &&& !zero_32(self.token)
        &&& self.verification != 0
        &&& self.maximum_unresolved != 0
        &&& forall|id: u128| #[trigger] self.attempts.contains_key(id) ==> self.owns(id)
        &&& forall|id: u128| #[trigger] self.dispatched.contains(id) ==> self.attempts.contains_key(
            id,
        )
    }

    /// The source with an operation reserved, or why it is not.
    pub open spec fn reserved(self, operation: PaymentOperation) -> Result<Self, PaymentError> {
        if self.attempts.contains_key(operation.id.0) {
            if self.attempts[operation.id.0].current() == operation {
                Ok(self)
            } else {
                Err(PaymentError::DuplicateConflict)
            }
        } else if self.restricted || self.unresolved() >= self.maximum_unresolved
            || operation.destination != self.token || operation.kind != PaymentKind::Capture {
            Err(PaymentError::FundingRestricted)
        } else if !operation.valid() {
            Err(PaymentError::InvalidOperation)
        } else {
            Ok(
                FundingModel {
                    attempts: self.attempts.insert(operation.id.0, first_attempt(operation)),
                    ..self
                },
            )
        }
    }

    /// The source with a dispatch authorized, or why it is not.
    pub open spec fn authorized(self, id: PaymentOperationId) -> Result<Self, PaymentError> {
        if self.dispatched.contains(id.0) {
            Ok(self)
        } else if self.restricted || !self.attempts.contains_key(id.0)
            || self.attempts[id.0].state() != PaymentState::Pending {
            Err(PaymentError::FundingRestricted)
        } else {
            Ok(FundingModel { dispatched: self.dispatched.insert(id.0), ..self })
        }
    }

    /// The source after a receipt, or why the receipt is refused.
    pub open spec fn recorded(self, receipt: SignedPaymentEvidence, key: [u8; 32]) -> Result<
        Self,
        PaymentError,
    > {
        let id = receipt.evidence.operation_id.0;
        if (!self.dispatched.contains(id) && receipt.evidence.outcome != PaymentOutcome::Voided)
            || !self.attempts.contains_key(id) {
            Err(PaymentError::InvalidOperation)
        } else {
            match self.attempts[id].recorded(receipt, key) {
                Err(e) => Err(e),
                Ok((payment, _)) => Ok(
                    FundingModel {
                        attempts: self.attempts.insert(id, payment),
                        restricted: self.restricted || payment.state() is Failed
                            || payment.state() is Reversed,
                        ..self
                    },
                ),
            }
        }
    }
}

impl FundingSource {
    /// A source for a verified bank account. An empty limit of unresolved attempts is refused.
    pub fn verified(bank: &VerifiedBankAccount, maximum_unresolved: u32) -> (result: Result<
        Self,
        PaymentError,
    >)
        ensures
            maximum_unresolved == 0 ==> result == Err::<Self, PaymentError>(
                PaymentError::InvalidOperation,
            ),
            maximum_unresolved != 0 ==> (result matches Ok(source) && source@ == (FundingModel {
                token: bank.proven().bank_token,
                verification: bank.proven().version,
                restricted: false,
                maximum_unresolved,
                attempts: Map::empty(),
                dispatched: Set::empty(),
            }) && source@.sound()),
    {
        if maximum_unresolved == 0 {
            return Err(PaymentError::InvalidOperation);
        }
        let source = FundingSource {
            token: bank.evidence().bank_token,
            verification: bank.evidence().version,
            restricted: false,
            maximum_unresolved,
            attempts: BTreeMap::new(),
            dispatched: BTreeSet::new(),
        };
        assert(source@.attempts =~= Map::empty());
        Ok(source)
    }

    pub fn restricted(&self) -> (restricted: bool)
        ensures
            restricted == self@.restricted,
    {
        self.restricted
    }

    fn unresolved(&self) -> (count: usize)
        requires
            self@.sound(),
        ensures
            count == self@.unresolved(),
    {
        let keys = keys_of(&self.attempts);
        let ghost m = self@.attempts;
        proof {
            assert(m.dom() =~= self.attempts@.dom());
            assert(keys_in_order(keys@, m)) by {
                assert forall|k: u128| #[trigger] m.contains_key(k) implies keys@.contains(k) by {
                    assert(self.attempts@.contains_key(k));
                }
            }
            crate::maps::lemma_keys_unique(keys@, sorted_keys(m), m);
        }
        let mut count: usize = 0;
        let mut i: usize = 0;
        while i < keys.len()
            invariant
                m == self@.attempts,
                self@.sound(),
                keys_in_order(keys@, self.attempts@),
                0 <= i <= keys@.len(),
                count <= i,
                count == pending_among(m, keys@, i as nat),
            decreases keys@.len() - i,
        {
            assert(m.contains_key(keys@[i as int]));
            assert(self@.owns(keys@[i as int]));
            match lookup(&self.attempts, keys[i]) {
                Some(payment) => {
                    if payment.state() == PaymentState::Pending {
                        count += 1;
                    }
                },
                None => {},
            }
            i += 1;
        }
        count
    }

    /// Reserves an operation. Refused for restricted sources, exhausted unresolved capacity, or
    /// conflicting operation identities; a repeated reservation changes nothing.
    pub fn reserve(&mut self, operation: &PaymentOperation) -> (result: Result<(), PaymentError>)
        requires
            old(self)@.sound(),
        ensures
            match old(self)@.reserved(*operation) {
                Ok(next) => result is Ok && final(self)@ == next && next.sound(),
                Err(e) => result == Err::<(), PaymentError>(e) && *final(self) == *old(self),
            },
    {
        match lookup(&self.attempts, operation.id.0) {
            Some(known) => {
                assert(self@.attempts.contains_key(operation.id.0));
                assert(self@.owns(operation.id.0));
                return if known.current().same(operation) {
                    Ok(())
                } else {
                    Err(PaymentError::DuplicateConflict)
                };
            },
            None => {},
        }
        if self.restricted || self.unresolved() >= self.maximum_unresolved as usize || !same_32(
            &operation.destination,
            &self.token,
        ) || operation.kind != PaymentKind::Capture {
            return Err(PaymentError::FundingRestricted);
        }
        let payment = match PaymentExecution::new(*operation) {
            Ok(payment) => payment,
            Err(e) => return Err(e),
        };
        let ghost next = self@.reserved(*operation)->Ok_0;
        put(&mut self.attempts, operation.id.0, payment);
        proof {
            assert(self@.attempts =~= next.attempts);
            assert forall|id: u128| #[trigger] next.attempts.contains_key(id) implies next.owns(
                id,
            ) by {
                if id != operation.id.0 {
                    assert(old(self)@.attempts.contains_key(id));
                    assert(old(self)@.owns(id));
                }
            }
            assert forall|id: u128| #[trigger]
                next.dispatched.contains(id) implies next.attempts.contains_key(id) by {
                assert(old(self)@.attempts.contains_key(id));
            }
        }
        Ok(())
    }

    /// Must be committed under the same source lock as restriction changes, before submission. A
    /// new dispatch is refused when its source is restricted or the reserved attempt is not
    /// pending.
    pub fn authorize_dispatch(&mut self, id: PaymentOperationId) -> (result: Result<
        (),
        PaymentError,
    >)
        requires
            old(self)@.sound(),
        ensures
            match old(self)@.authorized(id) {
                Ok(next) => result is Ok && final(self)@ == next && next.sound(),
                Err(e) => result == Err::<(), PaymentError>(e) && *final(self) == *old(self),
            },
    {
        if is_member(&self.dispatched, id.0) {
            return Ok(());
        }
        if self.restricted {
            return Err(PaymentError::FundingRestricted);
        }
        match lookup(&self.attempts, id.0) {
            Some(payment) => {
                assert(self@.attempts.contains_key(id.0));
                assert(self@.owns(id.0));
                if payment.state() != PaymentState::Pending {
                    return Err(PaymentError::FundingRestricted);
                }
            },
            None => return Err(PaymentError::FundingRestricted),
        }
        let ghost next = self@.authorized(id)->Ok_0;
        add_member(&mut self.dispatched, id.0);
        proof {
            assert forall|k: u128| #[trigger] next.attempts.contains_key(k) implies next.owns(k) by {
                assert(old(self)@.owns(k));
            }
            assert forall|k: u128| #[trigger] next.dispatched.contains(k) implies next.attempts.contains_key(
                k,
            ) by {
                assert(old(self)@.attempts.contains_key(id.0));
            }
        }
        Ok(())
    }

    /// Takes in a receipt; a failure or a reversal restricts the source. Unauthenticated,
    /// conflicting, or impossible processor evidence is refused.
    pub fn record(&mut self, receipt: &SignedPaymentEvidence, key: &[u8; 32]) -> (result: Result<
        (),
        PaymentError,
    >)
        requires
            old(self)@.sound(),
        ensures
            match old(self)@.recorded(*receipt, *key) {
                Ok(next) => result is Ok && final(self)@ == next && next.sound(),
                Err(e) => result == Err::<(), PaymentError>(e) && final(self)@ == old(self)@,
            },
    {
        let id = receipt.evidence.operation_id.0;
        if !is_member(&self.dispatched, id) && receipt.evidence.outcome != PaymentOutcome::Voided {
            return Err(PaymentError::InvalidOperation);
        }
        let ghost before = self@;
        let mut payment = match take(&mut self.attempts, id) {
            Some(payment) => payment,
            None => {
                assert(self@.attempts =~= before.attempts);
                return Err(PaymentError::InvalidOperation);
            },
        };
        proof {
            assert(before.attempts.contains_key(id));
            assert(before.owns(id));
        }
        let ghost unchanged = payment@;
        match payment.record(receipt, key) {
            Ok(_) => {},
            Err(e) => {
                put(&mut self.attempts, id, payment);
                assert(self@.attempts =~= before.attempts);
                return Err(e);
            },
        }
        let ghost next = before.recorded(*receipt, *key)->Ok_0;
        proof {
            lemma_recorded_operations(unchanged, *receipt, *key);
        }
        if matches!(payment.state(), PaymentState::Failed { .. } | PaymentState::Reversed { .. }) {
            self.restricted = true;
        }
        put(&mut self.attempts, id, payment);
        proof {
            assert(self@.attempts =~= next.attempts);
            assert forall|k: u128| #[trigger] next.attempts.contains_key(k) implies next.owns(k) by {
                assert(before.attempts.contains_key(k));
                assert(before.owns(k));
            }
            assert forall|k: u128| #[trigger] next.dispatched.contains(k) implies next.attempts.contains_key(
                k,
            ) by {
                assert(before.attempts.contains_key(k));
            }
        }
        Ok(())
    }

    /// Lifts the restriction on newer evidence for the same bank account. A different bank
    /// association or a replayed verification version is refused.
    pub fn reverify(&mut self, bank: &VerifiedBankAccount) -> (result: Result<(), PaymentError>)
        requires
            old(self)@.sound(),
        ensures
            if bank.proven().bank_token != old(self)@.token || bank.proven().version <= old(
                self)@.verification {
                result == Err::<(), PaymentError>(PaymentError::InvalidOperation) && *final(self)
                    == *old(self)
            } else {
                result is Ok && final(self)@ == (FundingModel {
                    verification: bank.proven().version,
                    restricted: false,
                    ..old(self)@
                }) && final(self)@.sound()
            },
    {
        let evidence = bank.evidence();
        if !same_32(&evidence.bank_token, &self.token) || evidence.version <= self.verification {
            return Err(PaymentError::InvalidOperation);
        }
        self.verification = evidence.version;
        self.restricted = false;
        proof {
            assert forall|k: u128| #[trigger] self@.attempts.contains_key(k) implies self@.owns(k) by {
                assert(old(self)@.attempts.contains_key(k));
                assert(old(self)@.owns(k));
            }
        }
        Ok(())
    }

    /// Takes a stored source back in, if it is one that can have come about.
    pub fn restore(
        token: [u8; 32],
        verification: u64,
        restricted: bool,
        maximum_unresolved: u32,
        attempts: BTreeMap<u128, PaymentExecution>,
        dispatched: BTreeSet<u128>,
    ) -> (result: Result<Self, PaymentError>)
        ensures
            ({
                let model = FundingModel {
                    token,
                    verification,
                    restricted,
                    maximum_unresolved,
                    attempts: payment_models(attempts@),
                    dispatched: dispatched@,
                };
                &&& result is Ok <==> model.sound()
                &&& result matches Ok(source) ==> source@ == model
                &&& result matches Err(e) ==> e == PaymentError::InvalidOperation
            }),
    {
        let source = FundingSource {
            token,
            verification,
            restricted,
            maximum_unresolved,
            attempts,
            dispatched,
        };
        let ghost model = source@;
        if is_zero_32(&source.token) || source.verification == 0 || source.maximum_unresolved == 0 {
            return Err(PaymentError::InvalidOperation);
        }
        let keys = keys_of(&source.attempts);
        let mut i: usize = 0;
        while i < keys.len()
            invariant
                source@ == model,
                model == (FundingModel {
                    token,
                    verification,
                    restricted,
                    maximum_unresolved,
                    attempts: payment_models(attempts@),
                    dispatched: dispatched@,
                }),
                keys_in_order(keys@, source.attempts@),
                0 <= i <= keys@.len(),
                forall|j: int| 0 <= j < i ==> source@.owns(#[trigger] keys@[j]),
            decreases keys@.len() - i,
        {
            let key: u128 = keys[i];
            assert(source@.attempts.contains_key(key));
            match lookup(&source.attempts, key) {
                Some(payment) => {
                    if payment.attempt_count() != 1 || key != payment.current().id.0
                        || payment.current().kind != PaymentKind::Capture || !same_32(
                        &payment.current().destination,
                        &source.token,
                    ) {
                        return Err(PaymentError::InvalidOperation);
                    }
                },
                None => return Err(PaymentError::InvalidOperation),
            }
            i += 1;
        }
        let members = members_of(&source.dispatched);
        let mut k: usize = 0;
        while k < members.len()
            invariant
                source@ == model,
                model == (FundingModel {
                    token,
                    verification,
                    restricted,
                    maximum_unresolved,
                    attempts: payment_models(attempts@),
                    dispatched: dispatched@,
                }),
                members@.to_set() == source.dispatched@,
                0 <= k <= members@.len(),
                forall|j: int|
                    0 <= j < k ==> source.attempts@.contains_key(#[trigger] members@[j]),
            decreases members@.len() - k,
        {
            if !holds(&source.attempts, members[k]) {
                assert(members@.contains(members@[k as int]));
                assert(source@.dispatched.contains(members@[k as int]));
                return Err(PaymentError::InvalidOperation);
            }
            k += 1;
        }
        proof {
            assert forall|id: u128| #[trigger] source@.attempts.contains_key(id) implies source@.owns(
                id,
            ) by {
                assert(source.attempts@.contains_key(id));
                let j = choose|j: int| 0 <= j < keys@.len() && keys@[j] == id;
                assert(source@.owns(keys@[j]));
            }
            assert forall|id: u128| #[trigger] source@.dispatched.contains(id) implies source@.attempts.contains_key(
                id,
            ) by {
                assert(members@.to_set().contains(id));
                let j = choose|j: int| 0 <= j < members@.len() && members@[j] == id;
                assert(source.attempts@.contains_key(members@[j]));
            }
        }
        Ok(source)
    }
}

/// A restricted source grants no new dispatch, and a reservation alone grants none either.
pub proof fn restriction_stops_new_dispatch(source: FundingModel, id: PaymentOperationId)
    requires
        source.restricted,
        !source.dispatched.contains(id.0),
    ensures
        source.authorized(id) == Err::<FundingModel, PaymentError>(PaymentError::FundingRestricted),
{
}

/// Reserving does not dispatch.
pub proof fn reservation_does_not_dispatch(source: FundingModel, operation: PaymentOperation)
    requires
        source.reserved(operation) is Ok,
    ensures
        source.reserved(operation)->Ok_0.dispatched == source.dispatched,
{
}

/// Dispatch that was authorized stays authorized, restricted or not.
pub proof fn authorization_is_durable(
    source: FundingModel,
    id: PaymentOperationId,
    receipt: SignedPaymentEvidence,
    key: [u8; 32],
)
    requires
        source.authorized(id) is Ok,
        source.authorized(id)->Ok_0.recorded(receipt, key) is Ok,
    ensures
        ({
            let later = source.authorized(id)->Ok_0.recorded(receipt, key)->Ok_0;
            later.authorized(id) == Ok::<FundingModel, PaymentError>(later)
        }),
{
}

proof fn lemma_pending(attempts: Map<u128, ExecutionModel>, keys: Seq<u128>, n: nat)
    requires
        n <= keys.len(),
    ensures
        pending_among(attempts, keys, n) == keys.take(n as int).filter(
            |k: u128| attempts[k].attempts.last().state is Pending,
        ).len(),
    decreases n,
{
    let open = |k: u128| attempts[k].attempts.last().state is Pending;
    reveal(Seq::filter);
    if n > 0 {
        lemma_pending(attempts, keys, (n - 1) as nat);
        assert(keys.take(n as int).drop_last() =~= keys.take(n - 1));
    } else {
        assert(keys.take(0) =~= Seq::empty());
    }
}

/// A new capture is reserved exactly if the source is not restricted, fewer than the allowed number
/// of its captures await an outcome, and the capture is a valid one from this source. It awaits its
/// outcome then, and is not dispatched by this.
pub proof fn reservations_stay_within_the_limit(
    source: FundingModel,
    operation: PaymentOperation,
    open: Seq<u128>,
    k: u128,
)
    requires
        !source.attempts.contains_key(operation.id.0),
        open.no_duplicates(),
        forall|i: u128| #[trigger]
            open.contains(i) <==> source.attempts.contains_key(i)
                && source.attempts[i].attempts.last().state is Pending,
    ensures
        ({
            let result = source.reserved(operation);
            let next = result->Ok_0;
            &&& result is Ok <==> !source.restricted && open.len() < source.maximum_unresolved
                && operation.destination == source.token && operation.kind == PaymentKind::Capture
                && operation.valid()
            &&& result is Ok ==> {
                &&& next.attempts.contains_key(operation.id.0)
                &&& next.attempts[operation.id.0].attempts.len() == 1
                &&& next.attempts[operation.id.0].attempts[0].operation == operation
                &&& next.attempts[operation.id.0].attempts[0].state is Pending
                &&& k != operation.id.0 ==> (next.attempts.contains_key(k)
                    <==> source.attempts.contains_key(k)) && next.attempts[k] == source.attempts[k]
                &&& next.dispatched == source.dispatched
                &&& next.token == source.token && next.restricted == source.restricted
                    && next.verification == source.verification && next.maximum_unresolved
                    == source.maximum_unresolved
            }
        }),
{
    let keys = sorted_keys(source.attempts);
    lemma_sorted_keys(source.attempts);
    lemma_pending(source.attempts, keys, keys.len());
    assert(keys.take(keys.len() as int) =~= keys);
    let pending = |i: u128| source.attempts[i].attempts.last().state is Pending;
    let list = keys.filter(pending);
    lemma_filter(keys, pending);
    assert forall|i: u128| #[trigger] list.to_set().contains(i) <==> open.to_set().contains(i) by {
        if open.contains(i) {
            assert(source.attempts.contains_key(i));
            assert(keys.contains(i));
        }
        if keys.contains(i) {
            let m = choose|m: int| 0 <= m < keys.len() && keys[m] == i;
            assert(source.attempts.contains_key(keys[m]));
        }
    }
    assert(list.to_set() =~= open.to_set());
    list.unique_seq_to_set();
    open.unique_seq_to_set();
}

proof fn lemma_filter(keys: Seq<u128>, keep: spec_fn(u128) -> bool)
    requires
        keys.no_duplicates(),
    ensures
        keys.filter(keep).no_duplicates(),
        forall|k: u128| #[trigger]
            keys.filter(keep).contains(k) <==> keys.contains(k) && keep(k),
    decreases keys.len(),
{
    reveal(Seq::filter);
    if keys.len() > 0 {
        let rest = keys.drop_last();
        lemma_filter(rest, keep);
        let before = rest.filter(keep);
        let list = keys.filter(keep);
        assert(!rest.contains(keys.last()));
        assert(!before.contains(keys.last()));
        assert forall|k: u128| keys.contains(k) <==> rest.contains(k) || k == keys.last() by {
            if keys.contains(k) {
                let j = choose|j: int| 0 <= j < keys.len() && keys[j] == k;
                if j < rest.len() {
                    assert(rest[j] == k);
                }
            }
            if rest.contains(k) {
                let j = choose|j: int| 0 <= j < rest.len() && rest[j] == k;
                assert(keys[j] == k);
            }
            if k == keys.last() {
                assert(keys[keys.len() - 1] == k);
            }
        }
        if keep(keys.last()) {
            assert(list == before.push(keys.last()));
            assert forall|k: u128| #[trigger] list.contains(k) <==> before.contains(k) || k
                == keys.last() by {
                if before.contains(k) {
                    let j = choose|j: int| 0 <= j < before.len() && before[j] == k;
                    assert(list[j] == k);
                }
                if k == keys.last() {
                    assert(list[list.len() - 1] == k);
                }
                if list.contains(k) {
                    let j = choose|j: int| 0 <= j < list.len() && list[j] == k;
                    if j < before.len() {
                        assert(before[j] == k);
                    }
                }
            }
            assert forall|i: int, j: int| 0 <= i < j < list.len() implies list[i] != list[j] by {
                if j == before.len() {
                    assert(before.contains(before[i]));
                }
            }
        }
    }
}

/// A capture may be dispatched if it was reserved and awaits its outcome, and the source is not
/// restricted; and once it may, it may always.
pub proof fn dispatch_takes_an_open_reservation(source: FundingModel, id: PaymentOperationId, k: u128)
    ensures
        ({
            let result = source.authorized(id);
            let next = result->Ok_0;
            &&& result is Ok <==> source.dispatched.contains(id.0) || (!source.restricted
                && source.attempts.contains_key(id.0)
                && source.attempts[id.0].attempts.last().state is Pending)
            &&& result is Ok ==> {
                &&& next.dispatched.contains(k) <==> source.dispatched.contains(k) || k == id.0
                &&& next.attempts == source.attempts
                &&& next.token == source.token && next.restricted == source.restricted
                    && next.verification == source.verification && next.maximum_unresolved
                    == source.maximum_unresolved
            }
        }),
{
}

/// A receipt is taken in only for a reserved capture, and only a void outcome for one that was never
/// dispatched. A failure or a reversal restricts the source, and nothing that a receipt says lifts
/// a restriction. No other capture changes.
pub proof fn failures_restrict_the_source(
    source: FundingModel,
    receipt: SignedPaymentEvidence,
    key: [u8; 32],
    k: u128,
)
    requires
        source.recorded(receipt, key) is Ok,
    ensures
        ({
            let next = source.recorded(receipt, key)->Ok_0;
            let id = receipt.evidence.operation_id.0;
            let state = next.attempts[id].attempts.last().state;
            &&& source.attempts.contains_key(id)
            &&& source.dispatched.contains(id) || receipt.evidence.outcome == PaymentOutcome::Voided
            &&& source.attempts[id].recorded(receipt, key) is Ok
            &&& next.attempts[id] == source.attempts[id].recorded(receipt, key)->Ok_0.0
            &&& next.restricted <==> source.restricted || state is Failed || state is Reversed
            &&& k != id ==> (next.attempts.contains_key(k) <==> source.attempts.contains_key(k))
                && next.attempts[k] == source.attempts[k]
            &&& next.dispatched == source.dispatched
            &&& next.token == source.token && next.verification == source.verification
                && next.maximum_unresolved == source.maximum_unresolved
        }),
{
}

/// A capture that was reserved before is reserved again only as the same operation, and nothing
/// changes; anything else under its identifier is refused as a conflict.
pub proof fn reservations_are_repeated_as_they_were(source: FundingModel, operation: PaymentOperation)
    requires
        source.attempts.contains_key(operation.id.0),
    ensures
        source.reserved(operation) == if source.attempts[operation.id.0].attempts.last().operation
            == operation {
            Ok::<FundingModel, PaymentError>(source)
        } else {
            Err(PaymentError::DuplicateConflict)
        },
{
}

} // verus!

//! Enrollment operations, and the confirmations that the identity service is owed for them.

use super::enrollment::{PendingEnrollment, SignedDecision};
use super::errors::ContractError;
use crate::accounts::keys::same_text;
use crate::bytes::utf8;
use crate::primitives::amounts::CanonicalTime;
use vstd::prelude::*;

verus! {

/// How long a worker may take to deliver a confirmation.
pub const CONFIRMATION_LEASE_MILLIS: u64 = 60_000;

/// How long a failed delivery waits for the next attempt.
pub const CONFIRMATION_RETRY_MILLIS: u64 = 30_000;

/// Where the confirmation of an enrollment stands: due from a time on, in a worker's hands until a
/// time, in need of an operator, or done.
#[derive(Clone, Copy, Debug, PartialEq, Eq, Structural)]
pub enum Confirmation {
    Pending(CanonicalTime),
    Leased(CanonicalTime),
    Intervention,
    Confirmed,
}

#[derive(Debug, PartialEq, Eq)]
pub enum OperationState {
    AwaitingEvidence,
    Active { decision: SignedDecision, confirmation: Confirmation },
}

/// An enrollment operation. The generation counts the claims on its confirmation.
#[derive(Debug, PartialEq, Eq)]
pub struct Operation {
    pub name: String,
    pub pending: PendingEnrollment,
    pub state: OperationState,
    pub generation: u64,
}

/// A durable delivery claim. The increasing generation fences expired workers.
#[derive(Debug, PartialEq, Eq)]
pub struct ConfirmationClaim {
    pub decision: SignedDecision,
    pub generation: u64,
}

impl ConfirmationClaim {
    pub fn operation(&self) -> (name: &str)
        ensures
            name@ == self.decision.operation@,
    {
        self.decision.operation.as_str()
    }
}

/// Why a confirmation was not delivered.
#[derive(Clone, Copy, Debug, PartialEq, Eq, Structural)]
pub enum ConfirmationFailure {
    Retryable,
    Intervention(ContractError),
}

impl ConfirmationFailure {
    /// What a delivery error calls for: waiting, where the service was not to be had, and an
    /// operator otherwise.
    pub fn of(error: ContractError) -> (failure: Self)
        ensures
            failure == (if error == ContractError::Unavailable {
                ConfirmationFailure::Retryable
            } else {
                ConfirmationFailure::Intervention(error)
            }),
    {
        if error == ContractError::Unavailable {
            ConfirmationFailure::Retryable
        } else {
            ConfirmationFailure::Intervention(error)
        }
    }

    /// Retry policy, evaluated at the protected failure-recording instant. A time that cannot be
    /// represented is refused.
    pub fn next_attempt(self, at: CanonicalTime) -> (result: Result<CanonicalTime, ContractError>)
        ensures
            result == (if at.0 + CONFIRMATION_RETRY_MILLIS > u64::MAX {
                Err(ContractError::Invalid)
            } else {
                Ok(CanonicalTime((at.0 + CONFIRMATION_RETRY_MILLIS) as u64))
            }),
    {
        match at.0.checked_add(CONFIRMATION_RETRY_MILLIS) {
            Some(time) => Ok(CanonicalTime(time)),
            None => Err(ContractError::Invalid),
        }
    }
}

/// Whether a text comes before another, byte by byte.
pub open spec fn precedes(a: Seq<u8>, b: Seq<u8>) -> bool
    decreases a.len(),
{
    if b.len() == 0 {
        false
    } else if a.len() == 0 {
        true
    } else if a[0] < b[0] {
        true
    } else if a[0] > b[0] {
        false
    } else {
        precedes(a.skip(1), b.skip(1))
    }
}

proof fn lemma_precedes_total(a: Seq<u8>, b: Seq<u8>)
    ensures
        !precedes(a, a),
        a != b ==> precedes(a, b) || precedes(b, a),
        !(precedes(a, b) && precedes(b, a)),
    decreases a.len(),
{
    if a.len() > 0 && b.len() > 0 {
        lemma_precedes_total(a.skip(1), b.skip(1));
        if a[0] == b[0] && a.skip(1) == b.skip(1) {
            assert(a =~= seq![a[0]] + a.skip(1));
            assert(b =~= seq![b[0]] + b.skip(1));
        }
    } else if a.len() > 0 {
        lemma_precedes_total(a.skip(1), b);
    } else {
        assert(b.len() == 0 ==> a =~= b);
    }
}

proof fn lemma_precedes_transitive(a: Seq<u8>, b: Seq<u8>, c: Seq<u8>)
    requires
        precedes(a, b),
        precedes(b, c),
    ensures
        precedes(a, c),
    decreases a.len(),
{
    if a.len() > 0 && a[0] == b[0] && b[0] == c[0] {
        lemma_precedes_transitive(a.skip(1), b.skip(1), c.skip(1));
    }
}

fn comes_before(a: &[u8], b: &[u8]) -> (before: bool)
    ensures
        before == precedes(a@, b@),
{
    let mut i: usize = 0;
    assert(a@.skip(0) =~= a@);
    assert(b@.skip(0) =~= b@);
    while i < a.len() && i < b.len()
        invariant
            0 <= i <= a@.len(),
            i <= b@.len(),
            precedes(a@, b@) == precedes(a@.skip(i as int), b@.skip(i as int)),
        decreases a@.len() - i,
    {
        if a[i] < b[i] {
            return true;
        }
        if a[i] > b[i] {
            return false;
        }
        assert(a@.skip(i as int).skip(1) =~= a@.skip(i + 1));
        assert(b@.skip(i as int).skip(1) =~= b@.skip(i + 1));
        i += 1;
    }
    i < b.len()
}

/// The first operation of a name, from one on.
pub open spec fn named_from(operations: Seq<Operation>, name: Seq<char>, i: int) -> Option<int>
    decreases operations.len() - i,
{
    if i >= operations.len() {
        None
    } else if operations[i].name@ == name {
        Some(i)
    } else {
        named_from(operations, name, i + 1)
    }
}

/// The operation of a name.
pub open spec fn named(operations: Seq<Operation>, name: Seq<char>) -> Option<int> {
    named_from(operations, name, 0)
}

/// What finding an operation means.
pub proof fn lemma_named(operations: Seq<Operation>, name: Seq<char>, from: int)
    requires
        0 <= from,
    ensures
        match named_from(operations, name, from) {
            Some(i) => from <= i < operations.len() && operations[i].name@ == name,
            None => forall|i: int|
                from <= i < operations.len() ==> (#[trigger] operations[i]).name@ != name,
        },
    decreases operations.len() - from,
{
    if from < operations.len() {
        lemma_named(operations, name, from + 1);
    }
}

/// Finds the operation of a name.
pub fn find(operations: &Vec<Operation>, name: &str) -> (index: Option<usize>)
    ensures
        match index {
            Some(i) => named(operations@, name@) == Some(i as int) && i < operations@.len()
                && operations@[i as int].name@ == name@,
            None => named(operations@, name@) is None,
        },
{
    let mut i: usize = 0;
    while i < operations.len()
        invariant
            0 <= i <= operations@.len(),
            named(operations@, name@) == named_from(operations@, name@, i as int),
        decreases operations@.len() - i,
    {
        if same_text(operations[i].name.as_str(), name) {
            return Some(i);
        }
        i += 1;
    }
    None
}

/// Operations stand in the order of their names, each name once.
pub open spec fn ordered(operations: Seq<Operation>) -> bool {
    forall|i: int, j: int|
        0 <= i < j < operations.len() ==> precedes(
            utf8((#[trigger] operations[i]).name@),
            utf8((#[trigger] operations[j]).name@),
        )
}

/// Where a name belongs: behind the names that come before it.
pub open spec fn place_from(operations: Seq<Operation>, name: Seq<char>, i: int) -> int
    decreases operations.len() - i,
{
    if i < operations.len() && precedes(utf8(operations[i].name@), utf8(name)) {
        place_from(operations, name, i + 1)
    } else {
        i
    }
}

pub open spec fn place(operations: Seq<Operation>, name: Seq<char>) -> int {
    place_from(operations, name, 0)
}

proof fn lemma_place(operations: Seq<Operation>, name: Seq<char>, from: int)
    requires
        0 <= from <= operations.len(),
    ensures
        ({
            let at = place_from(operations, name, from);
            &&& from <= at <= operations.len()
            &&& forall|i: int|
                from <= i < at ==> precedes(utf8((#[trigger] operations[i]).name@), utf8(name))
            &&& at < operations.len() ==> !precedes(utf8(operations[at].name@), utf8(name))
        }),
    decreases operations.len() - from,
{
    if from < operations.len() && precedes(utf8(operations[from].name@), utf8(name)) {
        lemma_place(operations, name, from + 1);
    }
}

/// Files a new operation where its name belongs.
pub fn file(operations: &mut Vec<Operation>, operation: Operation)
    ensures
        final(operations)@ == old(operations)@.insert(
            place(old(operations)@, operation.name@),
            operation,
        ),
        0 <= place(old(operations)@, operation.name@) <= old(operations)@.len(),
        ordered(old(operations)@) && named(old(operations)@, operation.name@) is None ==> ordered(
            final(operations)@,
        ),
{
    let ghost before = operations@;
    let ghost name = operation.name@;
    let mut i: usize = 0;
    proof {
        lemma_place(before, name, 0);
    }
    while i < operations.len() && comes_before(
        operations[i].name.as_str().as_bytes(),
        operation.name.as_str().as_bytes(),
    )
        invariant
            operations@ == before,
            name == operation.name@,
            0 <= i <= before.len(),
            place(before, name) == place_from(before, name, i as int),
        decreases before.len() - i,
    {
        i += 1;
    }
    operations.insert(i, operation);
    proof {
        if ordered(before) && named(before, name) is None {
            lemma_filed(before, operation);
        }
    }
}

proof fn lemma_filed(before: Seq<Operation>, operation: Operation)
    requires
        ordered(before),
        named(before, operation.name@) is None,
    ensures
        ordered(before.insert(place(before, operation.name@), operation)),
{
    let name = operation.name@;
    let at = place(before, name);
    lemma_place(before, name, 0);
    lemma_named(before, name, 0);
    let after = before.insert(at, operation);
    assert forall|i: int, j: int| 0 <= i < j < after.len() implies precedes(
        utf8((#[trigger] after[i]).name@),
        utf8((#[trigger] after[j]).name@),
    ) by {
        let i0 = if i < at {
            i
        } else {
            i - 1
        };
        let j0 = if j < at {
            j
        } else {
            j - 1
        };
        if j == at {
            assert(after[i] == before[i]);
        } else if i == at {
            assert(after[j] == before[j - 1]);
            let first = before[at];
            assert(first.name@ != name);
            lemma_precedes_total(utf8(first.name@), utf8(name));
            if utf8(first.name@) == utf8(name) {
                crate::bytes::lemma_utf8_injective(first.name@, name);
            }
            assert(precedes(utf8(name), utf8(first.name@)));
            if j - 1 > at {
                assert(precedes(utf8(before[at].name@), utf8(before[j - 1].name@)));
                lemma_precedes_transitive(
                    utf8(name),
                    utf8(first.name@),
                    utf8(before[j - 1].name@),
                );
            }
        } else {
            assert(after[i] == before[i0]);
            assert(after[j] == before[j0]);
        }
    }
}

impl Operation {
    /// The operation with another generation and confirmation.
    pub open spec fn confirming(self, generation: u64, confirmation: Confirmation) -> Self {
        Operation {
            generation,
            state: match self.state {
                OperationState::Active { decision, .. } => OperationState::Active {
                    decision,
                    confirmation,
                },
                OperationState::AwaitingEvidence => OperationState::AwaitingEvidence,
            },
            ..self
        }
    }

    /// The operation has the name, enrollment and decision that an earlier one had.
    pub open spec fn keeps_decision(self, before: Self) -> bool {
        &&& self.name == before.name
        &&& self.pending == before.pending
        &&& self.state is Active
        &&& before.state is Active
        &&& self.state->decision == before.state->decision
    }

    /// A confirmation is owed and no worker has it.
    pub open spec fn due(self, at: CanonicalTime) -> bool {
        match self.state {
            OperationState::Active { confirmation: Confirmation::Pending(next), .. } => next.0
                <= at.0,
            OperationState::Active { confirmation: Confirmation::Leased(next), .. } => next.0
                <= at.0,
            _ => false,
        }
    }

    fn is_due(&self, at: CanonicalTime) -> (due: bool)
        ensures
            due == self.due(at),
    {
        match &self.state {
            OperationState::Active { confirmation: Confirmation::Pending(next), .. } => next.0
                <= at.0,
            OperationState::Active { confirmation: Confirmation::Leased(next), .. } => next.0
                <= at.0,
            _ => false,
        }
    }
}

fn set_confirmation(
    operations: &mut Vec<Operation>,
    i: usize,
    generation: u64,
    confirmation: Confirmation,
)
    requires
        i < old(operations)@.len(),
    ensures
        final(operations)@ == old(operations)@.update(
            i as int,
            old(operations)@[i as int].confirming(generation, confirmation),
        ),
{
    let ghost before = operations@;
    let operation = operations.remove(i);
    let state = match operation.state {
        OperationState::Active { decision, .. } => OperationState::Active {
            decision,
            confirmation,
        },
        OperationState::AwaitingEvidence => OperationState::AwaitingEvidence,
    };
    operations.insert(
        i,
        Operation { name: operation.name, pending: operation.pending, state, generation },
    );
    assert(operations@ =~= before.update(
        i as int,
        before[i as int].confirming(generation, confirmation),
    ));
}

pub ghost struct ClaimModel {
    pub decision: SignedDecision,
    pub generation: u64,
}

/// Claims due confirmations in order, from an operation on, until there are enough: what becomes
/// of the operations, and the claims. A generation that cannot be counted on ends the run.
pub open spec fn claimed_from(
    operations: Seq<Operation>,
    i: int,
    claims: Seq<ClaimModel>,
    limit: nat,
    at: CanonicalTime,
    until: CanonicalTime,
) -> (Seq<Operation>, Result<Seq<ClaimModel>, ContractError>)
    decreases operations.len() - i,
{
    if i < 0 || i >= operations.len() || claims.len() >= limit {
        (operations, Ok(claims))
    } else if !operations[i].due(at) {
        claimed_from(operations, i + 1, claims, limit, at, until)
    } else if operations[i].generation == u64::MAX {
        (operations, Err(ContractError::Invalid))
    } else {
        let generation = (operations[i].generation + 1) as u64;
        claimed_from(
            operations.update(
                i,
                operations[i].confirming(generation, Confirmation::Leased(until)),
            ),
            i + 1,
            claims.push(
                ClaimModel { decision: operations[i].state->Active_decision, generation },
            ),
            limit,
            at,
            until,
        )
    }
}

/// Claims due confirmations for a worker.
pub open spec fn claimed(operations: Seq<Operation>, limit: nat, at: CanonicalTime) -> (
    Seq<Operation>,
    Result<Seq<ClaimModel>, ContractError>,
) {
    if at.0 + CONFIRMATION_LEASE_MILLIS > u64::MAX {
        (operations, Err(ContractError::Invalid))
    } else {
        claimed_from(
            operations,
            0,
            Seq::empty(),
            limit,
            at,
            CanonicalTime((at.0 + CONFIRMATION_LEASE_MILLIS) as u64),
        )
    }
}

/// The claims are the modelled ones.
pub open spec fn claims_are(claims: Seq<ConfirmationClaim>, models: Seq<ClaimModel>) -> bool {
    &&& claims.len() == models.len()
    &&& forall|k: int|
        0 <= k < claims.len() ==> (#[trigger] claims[k]).generation == models[k].generation
            && claims[k].decision.alike(&models[k].decision)
}

/// Claims due confirmations, at most so many, for the time of a lease.
pub fn claim_confirmations(operations: &mut Vec<Operation>, limit: u32, at: CanonicalTime) -> (result:
    Result<Vec<ConfirmationClaim>, ContractError>)
    ensures
        final(operations)@ == claimed(old(operations)@, limit as nat, at).0,
        match claimed(old(operations)@, limit as nat, at).1 {
            Ok(models) => result matches Ok(claims) && claims_are(claims@, models),
            Err(e) => result == Err::<Vec<ConfirmationClaim>, ContractError>(e),
        },
{
    let until = match at.0.checked_add(CONFIRMATION_LEASE_MILLIS) {
        Some(time) => CanonicalTime(time),
        None => return Err(ContractError::Invalid),
    };
    let ghost before = operations@;
    let ghost mut models: Seq<ClaimModel> = Seq::empty();
    let mut claims: Vec<ConfirmationClaim> = Vec::new();
    let mut i: usize = 0;
    while i < operations.len() && claims.len() < limit as usize
        invariant
            0 <= i <= operations@.len(),
            before == old(operations)@,
            operations@.len() == before.len(),
            claims_are(claims@, models),
            at.0 + CONFIRMATION_LEASE_MILLIS <= u64::MAX,
            until.0 == at.0 + CONFIRMATION_LEASE_MILLIS,
            claimed(before, limit as nat, at) == claimed_from(
                operations@,
                i as int,
                models,
                limit as nat,
                at,
                until,
            ),
        decreases operations@.len() - i,
    {
        if operations[i].is_due(at) {
            let generation: u64 = match operations[i].generation.checked_add(1) {
                Some(generation) => generation,
                None => return Err(ContractError::Invalid),
            };
            match &operations[i].state {
                OperationState::Active { decision, .. } => {
                    proof {
                        models = models.push(ClaimModel { decision: *decision, generation });
                    }
                    claims.push(ConfirmationClaim { decision: decision.clone(), generation });
                },
                OperationState::AwaitingEvidence => {},
            }
            set_confirmation(operations, i, generation, Confirmation::Leased(until));
        }
        i += 1;
    }
    Ok(claims)
}

/// What becomes of an operation whose confirmation a worker reports as delivered.
pub open spec fn delivered(operation: Operation, claim: ConfirmationClaim, now: CanonicalTime) -> Result<
    Operation,
    ContractError,
> {
    match operation.state {
        OperationState::Active { decision, confirmation: Confirmation::Leased(until) } => if
        operation.generation == claim.generation && decision.alike(&claim.decision) && until.0
            > now.0 {
            Ok(operation.confirming(operation.generation, Confirmation::Confirmed))
        } else {
            Err(ContractError::Conflict)
        },
        _ => Err(ContractError::Conflict),
    }
}

/// What becomes of an operation whose confirmation an operator puts up again.
pub open spec fn retried(operation: Operation, at: CanonicalTime) -> Result<
    Operation,
    ContractError,
> {
    match operation.state {
        OperationState::AwaitingEvidence => Err(ContractError::Conflict),
        OperationState::Active { confirmation, .. } => if confirmation == Confirmation::Confirmed
            || operation.generation == u64::MAX {
            Err(ContractError::Invalid)
        } else {
            Ok(
                operation.confirming(
                    (operation.generation + 1) as u64,
                    Confirmation::Pending(at),
                ),
            )
        },
    }
}

/// What becomes of an operation whose confirmation a worker could not deliver.
pub open spec fn failed(
    operation: Operation,
    claim: ConfirmationClaim,
    failure: ConfirmationFailure,
    at: CanonicalTime,
) -> Result<Operation, ContractError> {
    match operation.state {
        OperationState::Active { confirmation: Confirmation::Leased(until), .. } => if
        operation.generation != claim.generation || until.0 <= at.0 {
            Err(ContractError::Conflict)
        } else {
            match failure {
                ConfirmationFailure::Retryable => if at.0 + CONFIRMATION_RETRY_MILLIS > u64::MAX {
                    Err(ContractError::Invalid)
                } else {
                    Ok(
                        operation.confirming(
                            operation.generation,
                            Confirmation::Pending(
                                CanonicalTime((at.0 + CONFIRMATION_RETRY_MILLIS) as u64),
                            ),
                        ),
                    )
                },
                ConfirmationFailure::Intervention(_) => Ok(
                    operation.confirming(operation.generation, Confirmation::Intervention),
                ),
            }
        },
        _ => Err(ContractError::Conflict),
    }
}

/// The operations after a change of the one with a name.
pub open spec fn changed(
    operations: Seq<Operation>,
    name: Seq<char>,
    next: spec_fn(Operation) -> Result<Operation, ContractError>,
) -> Result<Seq<Operation>, ContractError> {
    match named(operations, name) {
        None => Err(ContractError::Invalid),
        Some(i) => match next(operations[i]) {
            Err(e) => Err(e),
            Ok(operation) => Ok(operations.update(i, operation)),
        },
    }
}

/// Records a delivered confirmation. Expired and superseded claims are refused.
pub fn mark_confirmed(
    operations: &mut Vec<Operation>,
    claim: &ConfirmationClaim,
    now: CanonicalTime,
) -> (result: Result<(), ContractError>)
    ensures
        match changed(
            old(operations)@,
            claim.decision.operation@,
            |op: Operation| delivered(op, *claim, now),
        ) {
            Ok(next) => result is Ok && final(operations)@ == next,
            Err(e) => result == Err::<(), ContractError>(e) && final(operations)@
                == old(operations)@,
        },
{
    let i = match find(operations, claim.operation()) {
        Some(i) => i,
        None => return Err(ContractError::Invalid),
    };
    let operation = &operations[i];
    let current = match &operation.state {
        OperationState::Active { decision, confirmation: Confirmation::Leased(until) } => {
            operation.generation == claim.generation && decision.same(&claim.decision) && until.0
                > now.0
        },
        _ => false,
    };
    if !current {
        return Err(ContractError::Conflict);
    }
    let generation: u64 = operation.generation;
    set_confirmation(operations, i, generation, Confirmation::Confirmed);
    Ok(())
}

/// Explicit administrative retry after resolving the reported confirmation failure. Unknown and
/// uncommitted operations are refused; the signed decision never changes.
pub fn retry_confirmation(operations: &mut Vec<Operation>, name: &str, at: CanonicalTime) -> (result:
    Result<(), ContractError>)
    ensures
        match changed(old(operations)@, name@, |op: Operation| retried(op, at)) {
            Ok(next) => result is Ok && final(operations)@ == next,
            Err(e) => result == Err::<(), ContractError>(e) && final(operations)@
                == old(operations)@,
        },
{
    let i = match find(operations, name) {
        Some(i) => i,
        None => return Err(ContractError::Invalid),
    };
    let operation = &operations[i];
    match &operation.state {
        OperationState::AwaitingEvidence => return Err(ContractError::Conflict),
        OperationState::Active { confirmation, .. } => {
            if *confirmation == Confirmation::Confirmed {
                return Err(ContractError::Invalid);
            }
        },
    }
    let generation: u64 = match operation.generation.checked_add(1) {
        Some(generation) => generation,
        None => return Err(ContractError::Invalid),
    };
    set_confirmation(operations, i, generation, Confirmation::Pending(at));
    Ok(())
}

/// Records retry scheduling or the need for operator intervention. Expired and superseded claims
/// are refused.
pub fn confirmation_failed(
    operations: &mut Vec<Operation>,
    claim: &ConfirmationClaim,
    failure: ConfirmationFailure,
    at: CanonicalTime,
) -> (result: Result<(), ContractError>)
    ensures
        match changed(
            old(operations)@,
            claim.decision.operation@,
            |op: Operation| failed(op, *claim, failure, at),
        ) {
            Ok(next) => result is Ok && final(operations)@ == next,
            Err(e) => result == Err::<(), ContractError>(e) && final(operations)@
                == old(operations)@,
        },
{
    let i = match find(operations, claim.operation()) {
        Some(i) => i,
        None => return Err(ContractError::Invalid),
    };
    let operation = &operations[i];
    let current = match &operation.state {
        OperationState::Active { confirmation: Confirmation::Leased(until), .. } => {
            operation.generation == claim.generation && until.0 > at.0
        },
        _ => false,
    };
    if !current {
        return Err(ContractError::Conflict);
    }
    let generation: u64 = operation.generation;
    let confirmation = match failure {
        ConfirmationFailure::Retryable => match failure.next_attempt(at) {
            Ok(time) => Confirmation::Pending(time),
            Err(e) => return Err(e),
        },
        ConfirmationFailure::Intervention(_) => Confirmation::Intervention,
    };
    set_confirmation(operations, i, generation, confirmation);
    Ok(())
}

/// A claim is fenced: once its lease is over, or its operation has been claimed or put up again,
/// neither success nor failure can be reported under it.
pub proof fn claims_are_fenced(
    operation: Operation,
    claim: ConfirmationClaim,
    failure: ConfirmationFailure,
    now: CanonicalTime,
)
    ensures
        claim.generation != operation.generation ==> delivered(operation, claim, now) is Err
            && failed(operation, claim, failure, now) is Err,
        operation.due(now) ==> delivered(operation, claim, now) is Err && failed(
            operation,
            claim,
            failure,
            now,
        ) is Err,
        retried(operation, now) matches Ok(next) ==> next.generation > operation.generation,
{
}

/// What is confirmed stays confirmed: it is not due, not put up again, and not reported on.
pub proof fn confirmations_are_final(
    operation: Operation,
    claim: ConfirmationClaim,
    failure: ConfirmationFailure,
    now: CanonicalTime,
)
    requires
        operation.state is Active,
        operation.state->Active_confirmation == Confirmation::Confirmed,
    ensures
        !operation.due(now),
        retried(operation, now) is Err,
        delivered(operation, claim, now) is Err,
        failed(operation, claim, failure, now) is Err,
{
}

/// Delivery never changes what was decided: neither the signed decision nor the enrollment that it
/// belongs to.
pub proof fn decisions_are_kept(
    operation: Operation,
    claim: ConfirmationClaim,
    failure: ConfirmationFailure,
    now: CanonicalTime,
)
    ensures
        delivered(operation, claim, now) matches Ok(next) ==> next.keeps_decision(operation),
        failed(operation, claim, failure, now) matches Ok(next) ==> next.keeps_decision(operation),
        retried(operation, now) matches Ok(next) ==> next.keeps_decision(operation),
{
}

proof fn lemma_claimed(
    operations: Seq<Operation>,
    i: int,
    claims: Seq<ClaimModel>,
    limit: nat,
    at: CanonicalTime,
    until: CanonicalTime,
)
    requires
        0 <= i,
        claims.len() <= limit,
        until.0 > at.0,
    ensures
        ({
            let (after, made) = claimed_from(operations, i, claims, limit, at, until);
            &&& after.len() == operations.len()
            &&& forall|j: int|
                0 <= j < operations.len() ==> (#[trigger] after[j]) == operations[j] || (i <= j
                    && operations[j].due(at) && operations[j].generation < u64::MAX && after[j]
                    == operations[j].confirming(
                    (operations[j].generation + 1) as u64,
                    Confirmation::Leased(until),
                ))
            &&& made matches Ok(all) ==> all.len() <= limit
        }),
    decreases operations.len() - i,
{
    if i < operations.len() && claims.len() < limit {
        if !operations[i].due(at) {
            lemma_claimed(operations, i + 1, claims, limit, at, until);
        } else if operations[i].generation < u64::MAX {
            let generation = (operations[i].generation + 1) as u64;
            let leased = operations[i].confirming(generation, Confirmation::Leased(until));
            let next = operations.update(i, leased);
            let more = claims.push(
                ClaimModel { decision: operations[i].state->Active_decision, generation },
            );
            lemma_claimed(next, i + 1, more, limit, at, until);
            let after = claimed_from(operations, i, claims, limit, at, until).0;
            assert forall|j: int| 0 <= j < operations.len() implies (#[trigger] after[j])
                == operations[j] || (i <= j && operations[j].due(at) && operations[j].generation
                < u64::MAX && after[j] == operations[j].confirming(
                (operations[j].generation + 1) as u64,
                Confirmation::Leased(until),
            )) by {
                if j != i {
                    assert(next[j] == operations[j]);
                }
            }
        }
    }
}

/// A claim takes an operation out of the hands of others: claiming changes an operation only where
/// it is due, counts its generation up by one, and makes it not due until the lease is over; and it
/// makes no more claims than asked for.
pub proof fn claims_lease_operations(
    operations: Seq<Operation>,
    limit: nat,
    at: CanonicalTime,
    j: int,
    now: CanonicalTime,
)
    requires
        0 <= j < operations.len(),
        at.0 <= now.0 < at.0 + CONFIRMATION_LEASE_MILLIS,
    ensures
        ({
            let (after, made) = claimed(operations, limit, at);
            &&& after.len() == operations.len()
            &&& after[j] != operations[j] ==> operations[j].due(at) && !after[j].due(now)
                && after[j].generation == operations[j].generation + 1
            &&& after[j].name == operations[j].name && after[j].pending == operations[j].pending
            &&& made matches Ok(all) ==> all.len() <= limit
        }),
{
    if at.0 + CONFIRMATION_LEASE_MILLIS <= u64::MAX {
        let until = CanonicalTime((at.0 + CONFIRMATION_LEASE_MILLIS) as u64);
        lemma_claimed(operations, 0, Seq::empty(), limit, at, until);
        let after = claimed(operations, limit, at).0;
        assert(after[j] == operations[j] || after[j] == operations[j].confirming(
            (operations[j].generation + 1) as u64,
            Confirmation::Leased(until),
        ));
    }
}

/// A delivery is recorded exactly for the claim that holds the lease, before the lease is over and
/// for the decision on record; the operation is confirmed then.
pub proof fn deliveries_confirm_the_leased(
    operation: Operation,
    claim: ConfirmationClaim,
    now: CanonicalTime,
)
    ensures
        ({
            let result = delivered(operation, claim, now);
            let next = result->Ok_0;
            let lease = operation.state->Active_confirmation;
            &&& result is Ok <==> {
                &&& operation.state is Active
                &&& lease is Leased
                &&& now.0 < lease->Leased_0.0
                &&& claim.generation == operation.generation
                &&& operation.state->Active_decision.alike(&claim.decision)
            }
            &&& result is Err ==> result == Err::<Operation, ContractError>(ContractError::Conflict)
            &&& result is Ok ==> {
                &&& next.name == operation.name && next.pending == operation.pending
                &&& next.generation == operation.generation
                &&& next.state is Active
                &&& next.state->Active_decision == operation.state->Active_decision
                &&& next.state->Active_confirmation == Confirmation::Confirmed
            }
        }),
{
}

/// A failure is recorded exactly for the claim that holds the lease, before the lease is over. One
/// that can be retried is due again half a minute later; any other waits for an operator.
pub proof fn failures_are_retried_or_wait(
    operation: Operation,
    claim: ConfirmationClaim,
    failure: ConfirmationFailure,
    at: CanonicalTime,
)
    ensures
        ({
            let result = failed(operation, claim, failure, at);
            let next = result->Ok_0;
            let lease = operation.state->Active_confirmation;
            let holds = operation.state is Active && lease is Leased && at.0 < lease->Leased_0.0
                && claim.generation == operation.generation;
            &&& result is Ok <==> holds && (failure is Retryable ==> at.0 + 30_000 <= u64::MAX)
            &&& result == Err::<Operation, ContractError>(ContractError::Conflict) <==> !holds
            &&& result is Ok ==> {
                &&& next.name == operation.name && next.pending == operation.pending
                &&& next.generation == operation.generation
                &&& next.state is Active
                &&& next.state->Active_decision == operation.state->Active_decision
                &&& failure is Retryable ==> next.state->Active_confirmation is Pending
                    && next.state->Active_confirmation->Pending_0.0 == at.0 + 30_000
                &&& failure is Intervention ==> next.state->Active_confirmation
                    == Confirmation::Intervention
            }
        }),
{
}

/// An operator puts up again any decided operation that is not confirmed, which is due at once and
/// ends every claim on it.
pub proof fn operators_put_up_what_is_not_confirmed(operation: Operation, at: CanonicalTime)
    ensures
        ({
            let result = retried(operation, at);
            let next = result->Ok_0;
            &&& result is Ok <==> operation.state is Active && operation.state->Active_confirmation
                != Confirmation::Confirmed && operation.generation < u64::MAX
            &&& result is Ok ==> {
                &&& next.name == operation.name && next.pending == operation.pending
                &&& next.generation == operation.generation + 1
                &&& next.state is Active
                &&& next.state->Active_decision == operation.state->Active_decision
                &&& next.state->Active_confirmation is Pending
                &&& next.state->Active_confirmation->Pending_0 == at
            }
        }),
{
}

/// A confirmation that is owed is due from the time it is put up for, or from when a lease on it is
/// over.
pub open spec fn owed(operation: Operation, at: CanonicalTime) -> bool {
    operation.state is Active && match operation.state->Active_confirmation {
        Confirmation::Pending(from) => from.0 <= at.0,
        Confirmation::Leased(until) => until.0 <= at.0,
        _ => false,
    }
}

spec fn claim_of(was: Operation, is: Operation, claim: ClaimModel, at: CanonicalTime) -> bool {
    was.due(at) && was.generation + 1 == claim.generation && claim.decision
        == was.state->Active_decision && is != was
}

proof fn lemma_all_claimed(
    operations: Seq<Operation>,
    i: int,
    claims: Seq<ClaimModel>,
    limit: nat,
    at: CanonicalTime,
    until: CanonicalTime,
)
    requires
        0 <= i,
        claims.len() <= limit,
        until.0 > at.0,
        claimed_from(operations, i, claims, limit, at, until).1 is Ok,
    ensures
        ({
            let (after, made) = claimed_from(operations, i, claims, limit, at, until);
            let all = made->Ok_0;
            &&& claims.len() <= all.len()
            &&& forall|c: int|
                0 <= c < claims.len() ==> #[trigger] all[c] == claims[c]
            &&& all.len() < limit ==> forall|j: int|
                i <= j < operations.len() && operations[j].due(at) ==> (#[trigger] after[j])
                    == operations[j].confirming(
                    (operations[j].generation + 1) as u64,
                    Confirmation::Leased(until),
                ) && operations[j].generation < u64::MAX
        }),
    decreases operations.len() - i,
{
    lemma_claimed(operations, i, claims, limit, at, until);
    if i < operations.len() && claims.len() < limit {
        let (after, made) = claimed_from(operations, i, claims, limit, at, until);
        let all = made->Ok_0;
        if !operations[i].due(at) {
            lemma_all_claimed(operations, i + 1, claims, limit, at, until);
        } else {
            let generation = (operations[i].generation + 1) as u64;
            let leased = operations[i].confirming(generation, Confirmation::Leased(until));
            let next = operations.update(i, leased);
            let more = claims.push(
                ClaimModel { decision: operations[i].state->Active_decision, generation },
            );
            lemma_claimed(next, i + 1, more, limit, at, until);
            lemma_all_claimed(next, i + 1, more, limit, at, until);
            assert(after[i] == next[i] || after[i] == leased);
            assert(after[i] == leased);
            assert(leased != operations[i]);
            assert forall|c: int| 0 <= c < claims.len() implies #[trigger] all[c] == claims[c] by {
                assert(all[c] == more[c]);
            }
            assert forall|j: int|
                all.len() < limit && i <= j < operations.len() && operations[j].due(
                    at,
                ) implies (#[trigger] after[j]) == operations[j].confirming(
                (operations[j].generation + 1) as u64,
                Confirmation::Leased(until),
            ) && operations[j].generation < u64::MAX by {
                if j > i {
                    assert(next[j] == operations[j]);
                }
            }
        }
    }
}

proof fn lemma_claim_made(
    operations: Seq<Operation>,
    i: int,
    claims: Seq<ClaimModel>,
    limit: nat,
    at: CanonicalTime,
    until: CanonicalTime,
    c: int,
) -> (j: int)
    requires
        0 <= i,
        claims.len() <= limit,
        until.0 > at.0,
        claimed_from(operations, i, claims, limit, at, until).1 is Ok,
        claims.len() <= c < claimed_from(operations, i, claims, limit, at, until).1->Ok_0.len(),
    ensures
        i <= j < operations.len(),
        ({
            let (after, made) = claimed_from(operations, i, claims, limit, at, until);
            claim_of(operations[j], after[j], made->Ok_0[c], at)
        }),
    decreases operations.len() - i,
{
    lemma_claimed(operations, i, claims, limit, at, until);
    if i < operations.len() && claims.len() < limit {
        if !operations[i].due(at) {
            lemma_claim_made(operations, i + 1, claims, limit, at, until, c)
        } else {
            let generation = (operations[i].generation + 1) as u64;
            let leased = operations[i].confirming(generation, Confirmation::Leased(until));
            let next = operations.update(i, leased);
            let claim = ClaimModel { decision: operations[i].state->Active_decision, generation };
            let more = claims.push(claim);
            lemma_claimed(next, i + 1, more, limit, at, until);
            if c == claims.len() {
                lemma_all_claimed(next, i + 1, more, limit, at, until);
                let (after, made) = claimed_from(operations, i, claims, limit, at, until);
                assert(made->Ok_0[c] == more[c]);
                assert(after[i] == next[i] || after[i].generation == generation + 1);
                i
            } else {
                let j = lemma_claim_made(next, i + 1, more, limit, at, until, c);
                assert(next[j] == operations[j]);
                j
            }
        }
    } else {
        i
    }
}

/// Claiming leases every operation that is due, for a minute, unless as many as asked for are
/// claimed; each claim is for the decision of an operation that was due, under the generation that
/// the operation has from then on; and what is not due stays as it is.
pub proof fn claims_take_all_that_is_due(
    operations: Seq<Operation>,
    limit: nat,
    at: CanonicalTime,
    j: int,
    c: int,
)
    requires
        0 <= j < operations.len(),
        claimed(operations, limit, at).1 is Ok,
        0 <= c < claimed(operations, limit, at).1->Ok_0.len(),
    ensures
        ({
            let (after, made) = claimed(operations, limit, at);
            let all = made->Ok_0;
            &&& after.len() == operations.len()
            &&& all.len() <= limit
            &&& !owed(operations[j], at) ==> after[j] == operations[j]
            &&& after[j] != operations[j] || (owed(operations[j], at) && all.len() < limit) ==> {
                &&& owed(operations[j], at)
                &&& after[j].generation == operations[j].generation + 1
                &&& after[j].name == operations[j].name
                &&& after[j].pending == operations[j].pending
                &&& after[j].state is Active
                &&& after[j].state->Active_decision == operations[j].state->Active_decision
                &&& after[j].state->Active_confirmation is Leased
                &&& after[j].state->Active_confirmation->Leased_0.0 == at.0 + 60_000
            }
            &&& exists|k: int|
                0 <= k < operations.len() && owed(#[trigger] operations[k], at)
                    && after[k].generation == all[c].generation
                    && operations[k].state->Active_decision == all[c].decision
        }),
{
    let until = CanonicalTime((at.0 + CONFIRMATION_LEASE_MILLIS) as u64);
    lemma_claimed(operations, 0, Seq::empty(), limit, at, until);
    lemma_all_claimed(operations, 0, Seq::empty(), limit, at, until);
    let (after, made) = claimed(operations, limit, at);
    assert(after[j] == operations[j] || operations[j].due(at));
    let all = made->Ok_0;
    let k = lemma_claim_made(operations, 0, Seq::empty(), limit, at, until, c);
    assert(after[k] == operations[k].confirming(
        (operations[k].generation + 1) as u64,
        Confirmation::Leased(until),
    ));
    assert(owed(operations[k], at));
}

} // verus!

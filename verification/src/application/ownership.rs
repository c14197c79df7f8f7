//! What the books keep: a reservation, a persona and an identity have one owner each.

use super::book::BookModel;
use super::confirmations::{
    changed, claimed, claims_lease_operations, delivered, failed, named, place, retried,
    ConfirmationClaim, ConfirmationFailure, Operation,
};
use super::enrollment::{
    ActivationFacts, EnrollmentRecords, PendingEnrollment, SignedDecision,
};
use super::operations::{EventFacts, KeyFacts, SignedSecurityEvent};
use crate::accounts::account::EnrollmentInput;
use crate::accounts::control::{AccountCommand, SignedAccountCommand};
use crate::accounts::keys::KeyClaim;
use crate::billing::account::BillingAccount;
use crate::billing::offer::BillingError;
use crate::finance::bank::BankVerification;
use crate::primitives::amounts::CanonicalTime;
use crate::primitives::ids::ProtocolIdentity;
use vstd::prelude::*;

verus! {

/// No two enrollments reserved the same account, member, bank, persona or key.
pub open spec fn reservations_exclusive(operations: Seq<Operation>) -> bool {
    forall|i: int, j: int|
        0 <= i < operations.len() && 0 <= j < operations.len() && i != j ==> !(
        #[trigger] operations[i]).pending.input.conflicts(
            &(#[trigger] operations[j]).pending.input,
        )
}

/// No two accounts have the same persona, and no account has a persona that another's enrollment
/// reserved.
pub open spec fn personas_exclusive(book: BookModel) -> bool {
    &&& forall|a: u128, b: u128, persona: u128| #[trigger]
        book.managed.contains_key(a) && #[trigger] book.managed.contains_key(b)
            && #[trigger] book.managed[a].state.control.personas.contains(persona)
            && book.managed[b].state.control.personas.contains(persona) ==> a == b
    &&& forall|a: u128, i: int|
        #![trigger book.managed.contains_key(a), book.operations[i]]
        book.managed.contains_key(a) && 0 <= i < book.operations.len()
            && book.managed[a].state.control.personas.contains(
            book.operations[i].pending.input.persona.0,
        ) ==> a == book.operations[i].pending.account.0
}

/// No two accounts are bound to the same identity.
pub open spec fn identities_exclusive(book: BookModel) -> bool {
    forall|a: u128, b: u128| #[trigger]
        book.product_accounts.contains_key(a) && #[trigger] book.product_accounts.contains_key(b)
            && book.product_accounts[a].account.binding.alike(
            &book.product_accounts[b].account.binding,
        ) ==> a == b
}

/// Every reservation, persona and identity has one owner.
pub open spec fn exclusive(book: BookModel) -> bool {
    &&& reservations_exclusive(book.operations)
    &&& personas_exclusive(book)
    &&& identities_exclusive(book)
}

/// Reserving keeps ownership exclusive, where the attempt is made for the input that was checked.
pub proof fn reservations_keep_ownership_exclusive(
    book: BookModel,
    input: EnrollmentInput,
    filed: Operation,
    claim: KeyClaim,
)
    requires
        exclusive(book),
        !book.spoken_for(input),
        filed.pending.input.alike(&input),
        0 <= place(book.operations, filed.name@) <= book.operations.len(),
    ensures
        exclusive(book.reserved(filed, claim, input.key_ref)),
{
    let after = book.reserved(filed, claim, input.key_ref);
    let at = place(book.operations, filed.name@);
    assert forall|i: int, j: int|
        0 <= i < after.operations.len() && 0 <= j < after.operations.len() && i != j implies !(
    #[trigger] after.operations[i]).pending.input.conflicts(
        &(#[trigger] after.operations[j]).pending.input,
    ) by {
        let i0 = if i < at {
            i
        } else {
            i - 1
        };
        let j0 = if j < at {
            j
        } else {
            j - 1
        };
        if i == at {
            assert(after.operations[j] == book.operations[j0]);
            assert(!input.conflicts(&book.operations[j0].pending.input));
        } else if j == at {
            assert(after.operations[i] == book.operations[i0]);
            assert(!input.conflicts(&book.operations[i0].pending.input));
        } else {
            assert(after.operations[i] == book.operations[i0]);
            assert(after.operations[j] == book.operations[j0]);
        }
    }
    assert forall|a: u128, i: int|
        #![trigger after.managed.contains_key(a), after.operations[i]]
        after.managed.contains_key(a) && 0 <= i < after.operations.len()
            && after.managed[a].state.control.personas.contains(
            after.operations[i].pending.input.persona.0,
        ) implies a == after.operations[i].pending.account.0 by {
        if i == at {
            assert(book.managed.contains_key(a));
            assert(book.persona_managed(input.persona, None));
        } else {
            let i0 = if i < at {
                i
            } else {
                i - 1
            };
            assert(after.operations[i] == book.operations[i0]);
            assert(book.managed.contains_key(a));
        }
    }
}

/// Activation keeps ownership exclusive.
pub proof fn activation_keeps_ownership_exclusive(
    book: BookModel,
    decision: SignedDecision,
    facts: ActivationFacts,
    records: EnrollmentRecords,
    at: CanonicalTime,
)
    requires
        exclusive(book),
        book.commitment_fault(decision, facts) is None,
        ({
            let i = named(book.operations, decision.operation@)->Some_0;
            &&& book.operations[i].state is AwaitingEvidence
            &&& records.created_from(
                book.operations[i].pending,
                book.bank_key->Some_0,
                facts,
                at,
            )
        }),
    ensures
        exclusive(
            book.enrolled(
                named(book.operations, decision.operation@)->Some_0,
                decision,
                records,
            ),
        ),
{
    let k = named(book.operations, decision.operation@)->Some_0;
    super::confirmations::lemma_named(book.operations, decision.operation@, 0);
    let after = book.enrolled(k, decision, records);
    let pending = book.operations[k].pending;
    let id = pending.account.0;
    let persona = pending.input.persona.0;
    assert forall|j: int| 0 <= j < after.operations.len() implies (
    #[trigger] after.operations[j]).pending == book.operations[j].pending by {}
    assert forall|a: u128, b: u128, p: u128| #[trigger]
        after.managed.contains_key(a) && #[trigger] after.managed.contains_key(b)
            && #[trigger] after.managed[a].state.control.personas.contains(p)
            && after.managed[b].state.control.personas.contains(p) implies a == b by {
        if a == id && b != id {
            assert(p == persona);
            assert(book.managed.contains_key(b) && book.operations[k].pending.account.0 == id);
        } else if b == id && a != id {
            assert(p == persona);
            assert(book.managed.contains_key(a) && book.operations[k].pending.account.0 == id);
        } else if a != id {
            assert(book.managed.contains_key(a) && book.managed.contains_key(b));
            assert(book.managed[a].state.control.personas.contains(p));
        }
    }
    assert forall|a: u128, j: int|
        #![trigger after.managed.contains_key(a), after.operations[j]]
        after.managed.contains_key(a) && 0 <= j < after.operations.len()
            && after.managed[a].state.control.personas.contains(
            after.operations[j].pending.input.persona.0,
        ) implies a == after.operations[j].pending.account.0 by {
        assert(after.operations[j].pending == book.operations[j].pending);
        if a == id {
            if j != k {
                assert(!book.operations[j].pending.input.conflicts(
                    &book.operations[k].pending.input,
                ));
            }
        } else {
            assert(book.managed.contains_key(a));
        }
    }
    assert forall|a: u128, b: u128| #[trigger]
        after.product_accounts.contains_key(a) && #[trigger] after.product_accounts.contains_key(b)
            && after.product_accounts[a].account.binding.alike(
            &after.product_accounts[b].account.binding,
        ) implies a == b by {
        if a == id && b != id {
            assert(book.product_accounts.contains_key(b));
        } else if b == id && a != id {
            assert(book.product_accounts.contains_key(a));
        } else if a != id {
            assert(book.product_accounts.contains_key(a) && book.product_accounts.contains_key(b));
        }
    }
}

/// Commands keep ownership exclusive.
pub proof fn commands_keep_ownership_exclusive(
    book: BookModel,
    signed: SignedAccountCommand,
    facts: KeyFacts,
    at: CanonicalTime,
)
    requires
        exclusive(book),
        book.commanded(signed, facts) is Ok,
        book.commanded(signed, facts)->Ok_0 is Some,
    ensures
        exclusive(book.after_command(signed, book.commanded(signed, facts)->Ok_0->Some_0, at)),
{
    let next = book.commanded(signed, facts)->Ok_0->Some_0;
    let after = book.after_command(signed, next, at);
    let id = signed.account.0;
    let before = book.managed[id].state.control.personas;
    assert(book.managed.contains_key(id));
    let added = super::operations::added_persona(signed);
    assert forall|p: u128| next.personas.contains(p) implies before.contains(p) || added == Some(
        ProtocolIdentity(p),
    ) by {
        match signed.command {
            AccountCommand::AddPersona(persona) => {
                assert(next.personas == before.insert(persona.0));
            },
            _ => {
                assert(next.personas == before);
            },
        }
    }
    assert forall|a: u128, b: u128, p: u128| #[trigger]
        after.managed.contains_key(a) && #[trigger] after.managed.contains_key(b)
            && #[trigger] after.managed[a].state.control.personas.contains(p)
            && after.managed[b].state.control.personas.contains(p) implies a == b by {
        assert(book.managed.contains_key(a) && book.managed.contains_key(b));
        if a == id && b != id {
            if before.contains(p) {
                assert(book.managed[a].state.control.personas.contains(p));
            } else {
                assert(book.persona_managed(ProtocolIdentity(p), Some(id)));
            }
        } else if b == id && a != id {
            if before.contains(p) {
                assert(book.managed[a].state.control.personas.contains(p));
            } else {
                assert(book.persona_managed(ProtocolIdentity(p), Some(id)));
            }
        } else if a != id {
            assert(book.managed[a].state.control.personas.contains(p));
        }
    }
    assert forall|a: u128, j: int|
        #![trigger after.managed.contains_key(a), after.operations[j]]
        after.managed.contains_key(a) && 0 <= j < after.operations.len()
            && after.managed[a].state.control.personas.contains(
            after.operations[j].pending.input.persona.0,
        ) implies a == after.operations[j].pending.account.0 by {
        assert(book.managed.contains_key(a));
        assert(after.operations[j] == book.operations[j]);
        let p = book.operations[j].pending.input.persona;
        if a == id && !before.contains(p.0) {
            if book.operations[j].pending.account != signed.account {
                assert(book.persona_reserved(p, signed.account));
            }
        }
    }
}

/// Identity events keep ownership exclusive.
pub proof fn events_keep_ownership_exclusive(
    book: BookModel,
    event: SignedSecurityEvent,
    bank: Option<BankVerification>,
    rebound: Result<BillingAccount, BillingError>,
    facts: EventFacts,
    at: CanonicalTime,
)
    requires
        exclusive(book),
        book.notified(event, bank, rebound, facts) is Ok,
        book.notified(event, bank, rebound, facts)->Ok_0 is Some,
    ensures
        ({
            let (next, recovered) = book.notified(event, bank, rebound, facts)->Ok_0->Some_0;
            exclusive(book.after_event(event, bank, rebound, facts, next, recovered, at))
        }),
{
    let (next, recovered) = book.notified(event, bank, rebound, facts)->Ok_0->Some_0;
    let after = book.after_event(event, bank, rebound, facts, next, recovered, at);
    let id = super::enrollment::parsed(crate::bytes::utf8(event.account@))->Some_0;
    assert(book.managed.contains_key(id));
    assert(next.personas == book.managed[id].state.control.personas);
    assert forall|a: u128| after.managed.contains_key(a) implies book.managed.contains_key(a)
        && after.managed[a].state.control.personas
        == book.managed[a].state.control.personas by {}
    assert forall|a: u128, b: u128, p: u128| #[trigger]
        after.managed.contains_key(a) && #[trigger] after.managed.contains_key(b)
            && #[trigger] after.managed[a].state.control.personas.contains(p)
            && after.managed[b].state.control.personas.contains(p) implies a == b by {
        assert(book.managed.contains_key(a) && book.managed.contains_key(b));
        assert(book.managed[a].state.control.personas.contains(p));
    }
    assert forall|a: u128, j: int|
        #![trigger after.managed.contains_key(a), after.operations[j]]
        after.managed.contains_key(a) && 0 <= j < after.operations.len()
            && after.managed[a].state.control.personas.contains(
            after.operations[j].pending.input.persona.0,
        ) implies a == after.operations[j].pending.account.0 by {
        assert(book.managed.contains_key(a));
        assert(after.operations[j] == book.operations[j]);
    }
}

/// Operations that keep their names and attempts keep their owners.
pub open spec fn same_attempts(a: Seq<Operation>, b: Seq<Operation>) -> bool {
    &&& a.len() == b.len()
    &&& forall|i: int|
        0 <= i < a.len() ==> (#[trigger] a[i]).name == b[i].name && a[i].pending == b[i].pending
}

proof fn lemma_same_attempts(book: BookModel, operations: Seq<Operation>)
    requires
        exclusive(book),
        same_attempts(operations, book.operations),
    ensures
        exclusive(BookModel { operations, ..book }),
{
    let after = BookModel { operations, ..book };
    assert forall|i: int, j: int|
        0 <= i < operations.len() && 0 <= j < operations.len() && i != j implies !(
    #[trigger] operations[i]).pending.input.conflicts(&(#[trigger] operations[j]).pending.input) by {
        assert(!book.operations[i].pending.input.conflicts(&book.operations[j].pending.input));
    }
    assert forall|a: u128, i: int|
        #![trigger after.managed.contains_key(a), after.operations[i]]
        after.managed.contains_key(a) && 0 <= i < after.operations.len()
            && after.managed[a].state.control.personas.contains(
            after.operations[i].pending.input.persona.0,
        ) implies a == after.operations[i].pending.account.0 by {
        assert(operations[i].pending == book.operations[i].pending);
        assert(book.managed.contains_key(a));
    }
}

/// Confirming, failing to, and trying again change no ownership.
pub proof fn confirmations_keep_ownership_exclusive(
    book: BookModel,
    name: Seq<char>,
    claim: ConfirmationClaim,
    failure: ConfirmationFailure,
    limit: nat,
    at: CanonicalTime,
)
    requires
        exclusive(book),
    ensures
        exclusive(BookModel { operations: claimed(book.operations, limit, at).0, ..book }),
        changed(book.operations, name, |op: Operation| delivered(op, claim, at)) matches Ok(next)
            ==> exclusive(BookModel { operations: next, ..book }),
        changed(book.operations, name, |op: Operation| failed(op, claim, failure, at)) matches Ok(
            next,
        ) ==> exclusive(BookModel { operations: next, ..book }),
        changed(book.operations, name, |op: Operation| retried(op, at)) matches Ok(next)
            ==> exclusive(BookModel { operations: next, ..book }),
{
    let operations = book.operations;
    super::confirmations::lemma_named(operations, name, 0);
    let leased = claimed(operations, limit, at).0;
    if operations.len() > 0 {
        claims_lease_operations(operations, limit, at, 0, at);
    } else {
        assert(leased =~= operations);
    }
    assert forall|i: int| 0 <= i < leased.len() implies (#[trigger] leased[i]).name
        == operations[i].name && leased[i].pending == operations[i].pending by {
        claims_lease_operations(operations, limit, at, i, at);
    }
    lemma_same_attempts(book, leased);
    let after = changed(operations, name, |op: Operation| delivered(op, claim, at));
    if after is Ok {
        assert(same_attempts(after->Ok_0, operations));
        lemma_same_attempts(book, after->Ok_0);
    }
    let after = changed(operations, name, |op: Operation| failed(op, claim, failure, at));
    if after is Ok {
        assert(same_attempts(after->Ok_0, operations));
        lemma_same_attempts(book, after->Ok_0);
    }
    let after = changed(operations, name, |op: Operation| retried(op, at));
    if after is Ok {
        assert(same_attempts(after->Ok_0, operations));
        lemma_same_attempts(book, after->Ok_0);
    }
}

/// Renewal keeps ownership exclusive, where it keeps account and input.
pub proof fn renewals_keep_ownership_exclusive(
    book: BookModel,
    i: int,
    renewed: PendingEnrollment,
)
    requires
        exclusive(book),
        0 <= i < book.operations.len(),
        renewed.account == book.operations[i].pending.account,
        renewed.input.alike(&book.operations[i].pending.input),
    ensures
        exclusive(
            BookModel {
                operations: book.operations.update(
                    i,
                    Operation { pending: renewed, ..book.operations[i] },
                ),
                ..book
            },
        ),
{
    let operations = book.operations.update(
        i,
        Operation { pending: renewed, ..book.operations[i] },
    );
    let after = BookModel { operations, ..book };
    assert forall|j: int, k: int|
        0 <= j < operations.len() && 0 <= k < operations.len() && j != k implies !(
    #[trigger] operations[j]).pending.input.conflicts(&(#[trigger] operations[k]).pending.input) by {
        assert(!book.operations[j].pending.input.conflicts(&book.operations[k].pending.input));
    }
    assert forall|a: u128, j: int|
        #![trigger after.managed.contains_key(a), after.operations[j]]
        after.managed.contains_key(a) && 0 <= j < after.operations.len()
            && after.managed[a].state.control.personas.contains(
            after.operations[j].pending.input.persona.0,
        ) implies a == after.operations[j].pending.account.0 by {
        assert(book.managed.contains_key(a));
        assert(operations[j].pending.input.persona == book.operations[j].pending.input.persona);
        assert(operations[j].pending.account == book.operations[j].pending.account);
    }
}

} // verus!

//! What the books and the desk keep: who may take what, and what each decision leaves of the rest.

use super::billing::{BillingScope, WritesModel};
use super::book::{lemma_token, token_at, BookModel, ProductAccount};
use super::confirmations::{lemma_named, Confirmation, OperationState};
use super::desk::{owner_from, DeskedModel};
use super::distribution::{account_from, distributed, prepared, ProgramStateModel};
use super::enrollment::{
    activated, parsed, ActivationFacts, EnrollmentRecords, PendingEnrollment, SignedDecision,
};
use super::errors::{ContractError, EngineError};
use super::operations::{AccountEffectRecords, EventFacts, KeyFacts, SignedSecurityEvent};
use crate::accounts::account::EnrollmentInput;
use crate::accounts::control::{AccountCommand, ControlModel, SignedAccountCommand};
use crate::accounts::keys::{KeyAuthorityOwner, KeyClaim};
use crate::billing::account::{BillingAccount, BillingModel};
use crate::billing::offer::BillingError;
use crate::bytes::utf8;
use crate::finance::bank::BankVerification;
use crate::finance::payments::{PaymentKind, PaymentOperation};
use crate::finance::program::ProgramModel;
use crate::maps::{lemma_sorted_keys, sorted_keys};
use crate::primitives::amounts::{CanonicalTime, SettlementUnit};
use crate::primitives::ids::{
    AccountId, AllocationId, BillingAccountId, MemberId, OperationalKeyRef, ProtocolIdentity,
};
use crate::protocol::{ActorRef, SecurityError};
use vstd::prelude::*;

verus! {

/// A new reservation is in the books' scope and claims nothing that anyone has: under a free name,
/// with a billing account, member, bank, persona and key that no other attempt named, a key that
/// nobody has, and a persona of no account.
pub proof fn reservations_claim_what_is_free(
    book: BookModel,
    operation: Seq<char>,
    input: EnrollmentInput,
    fresh: Result<PendingEnrollment, ContractError>,
    i: int,
    id: u128,
)
    requires
        book.reservation(operation, input, fresh) == Ok::<bool, EngineError>(true),
    ensures
        book.bank_key is Some,
        input.bank.verdict(book.bank_key->Some_0) is Ok,
        input.bank.scope == book.scope,
        fresh is Ok,
        !book.keys.contains_key(input.key_ref.0),
        0 <= i < book.operations.len() ==> {
            let other = book.operations[i].pending.input;
            &&& book.operations[i].name@ != operation
            &&& other.bank.account != input.bank.account
            &&& other.bank.member != input.bank.member
            &&& other.bank.bank_token != input.bank.bank_token
            &&& other.persona != input.persona
            &&& other.key_ref != input.key_ref
        },
        book.managed.contains_key(id) ==> !book.managed[id].state.control.personas.contains(
            input.persona.0,
        ),
{
    lemma_named(book.operations, operation, 0);
    if 0 <= i < book.operations.len() {
        assert(!input.conflicts(&book.operations[i].pending.input));
    }
    if book.managed.contains_key(id) {
        assert(!book.persona_managed(input.persona, None));
    }
}

/// A name that is reserved is reserved again only with the same input, and then nothing is new.
pub proof fn reservations_again_are_not_new(
    book: BookModel,
    operation: Seq<char>,
    input: EnrollmentInput,
    fresh: Result<PendingEnrollment, ContractError>,
    i: int,
)
    requires
        0 <= i < book.operations.len(),
        book.operations[i].name@ == operation,
        forall|j: int|
            0 <= j < book.operations.len() && j != i ==> (#[trigger] book.operations[j]).name@
                != operation,
        book.bank_key is Some,
        input.bank.scope == book.scope,
    ensures
        book.reservation(operation, input, fresh) == if book.operations[i].pending.input.alike(
            &input,
        ) {
            Ok::<bool, EngineError>(false)
        } else {
            Err(EngineError::Contract(ContractError::Conflict))
        },
{
    lemma_named(book.operations, operation, 0);
}

/// An attempt that is newly activated has an identity that no account has, and a billing account
/// that there is not yet.
pub proof fn activations_are_of_new_identities(
    book: BookModel,
    decision: SignedDecision,
    facts: ActivationFacts,
    i: int,
    id: u128,
)
    requires
        book.commitment_fault(decision, facts) is None,
        0 <= i < book.operations.len(),
        book.operations[i].name@ == decision.operation@,
        forall|j: int|
            0 <= j < book.operations.len() && j != i ==> (#[trigger] book.operations[j]).name@
                != decision.operation@,
    ensures
        ({
            let operation = book.operations[i];
            let pending = operation.pending;
            let account = activated(pending, facts.digests, facts.verified)->Ok_0;
            let held = book.product_accounts[id].account.binding;
            match operation.state {
                OperationState::Active { decision: before, .. } => before.operation@
                    == decision.operation@ && before.encoded@ == decision.encoded@,
                OperationState::AwaitingEvidence => {
                    &&& activated(pending, facts.digests, facts.verified) is Ok
                    &&& book.bank_key is Some
                    &&& book.keys.contains_key(pending.input.key_ref.0)
                    &&& pending.input.bank.verdict(book.bank_key->Some_0) is Ok
                    &&& !book.billing_accounts.contains_key(pending.input.bank.account.0)
                    &&& book.product_accounts.contains_key(id) ==> !(held.issuer@
                        == account.binding.issuer@ && held.product@ == account.binding.product@
                        && held.subject_ref@ == account.binding.subject_ref@ && held.version
                        == account.binding.version)
                },
            }
        }),
{
    lemma_named(book.operations, decision.operation@, 0);
}

/// What an account takes on is not another's: a key that nobody has claimed, a persona of no other
/// account and of no other attempt, and a bank of no other attempt and no other owner.
pub proof fn effects_take_what_is_free(
    book: BookModel,
    id: AccountId,
    key: Option<OperationalKeyRef>,
    persona: Option<ProtocolIdentity>,
    bank: Option<([u8; 32], BillingAccountId)>,
    i: int,
    other: u128,
)
    requires
        book.effects_fault(id, key, persona, bank) is None,
    ensures
        key is Some ==> !book.keys.contains_key(key->Some_0.0),
        persona is Some && book.managed.contains_key(other) && other != id.0
            ==> !book.managed[other].state.control.personas.contains(persona->Some_0.0),
        0 <= i < book.operations.len() && book.operations[i].pending.account != id ==> {
            &&& persona is Some ==> book.operations[i].pending.input.persona != persona->Some_0
            &&& bank is Some ==> book.operations[i].pending.input.bank.bank_token
                != bank->Some_0.0
        },
{
    if persona is Some {
        assert(!book.persona_managed(persona->Some_0, Some(id.0)));
        assert(!book.persona_reserved(persona->Some_0, id));
    }
    if bank is Some {
        assert(!book.token_reserved(bank->Some_0.0, id));
    }
}

/// A command on an account takes effect only where the account is on record, and leaves a registered
/// key and an added persona the account's alone.
pub proof fn commands_take_what_is_free(
    book: BookModel,
    signed: SignedAccountCommand,
    facts: KeyFacts,
    i: int,
    other: u128,
)
    requires
        book.commanded(signed, facts) is Ok,
        book.commanded(signed, facts)->Ok_0 is Some,
    ensures
        ({
            let next = book.commanded(signed, facts)->Ok_0->Some_0;
            let state = book.managed[signed.account.0].state;
            &&& book.managed.contains_key(signed.account.0)
            &&& state.control.applied(signed.command)->Ok_0 == next
            &&& !book.managed[signed.account.0].commands.contains_key(signed.idempotency_key.0)
            &&& match signed.command {
                AccountCommand::RegisterKey(key) => !book.keys.contains_key(key.reference.0),
                AccountCommand::AddPersona(persona) => {
                    &&& book.managed.contains_key(other) && other != signed.account.0
                        ==> !book.managed[other].state.control.personas.contains(persona.0)
                    &&& 0 <= i < book.operations.len() && book.operations[i].pending.account
                        != signed.account ==> book.operations[i].pending.input.persona != persona
                },
                _ => true,
            }
        }),
{
    match signed.command {
        AccountCommand::AddPersona(persona) => {
            assert(!book.persona_managed(persona, Some(signed.account.0)));
            assert(!book.persona_reserved(persona, signed.account));
        },
        _ => {},
    }
}

/// What is left after a command: the account as the command leaves it, with the command and its
/// answer on record, a registered key claimed for the account, and everything else as it was.
pub proof fn commands_change_their_account_alone(
    book: BookModel,
    signed: SignedAccountCommand,
    next: ControlModel,
    at: CanonicalTime,
    k: u128,
)
    ensures
        ({
            let after = book.after_command(signed, next, at);
            let was = book.managed[signed.account.0];
            let is = after.managed[signed.account.0];
            &&& after.managed.contains_key(signed.account.0)
            &&& is.state.control == next
            &&& is.state.product == was.state.product
            &&& is.version == was.version && is.events == was.events
            &&& is.commands.contains_key(signed.idempotency_key.0)
            &&& is.commands[signed.idempotency_key.0] == (signed, next)
            &&& k != signed.idempotency_key.0 ==> (is.commands.contains_key(k)
                <==> was.commands.contains_key(k)) && is.commands[k] == was.commands[k]
            &&& k != signed.account.0 ==> (after.managed.contains_key(k)
                <==> book.managed.contains_key(k)) && after.managed[k] == book.managed[k]
            &&& after.keys.contains_key(k) <==> book.keys.contains_key(k) || (signed.command
                is RegisterKey && signed.command->RegisterKey_0.reference.0 == k)
            &&& after.operations == book.operations
            &&& after.product_accounts == book.product_accounts
            &&& after.billing_accounts == book.billing_accounts
            &&& after.billing_ledgers == book.billing_ledgers
            &&& after.funding_sources == book.funding_sources
        }),
{
}

/// What a billing decision writes is about the account's own funding source, and each receipt and
/// each command is entered once. Nothing of another account changes.
pub proof fn writes_stay_with_their_account(
    all: DeskedModel,
    account: BillingAccountId,
    writes: WritesModel,
    k: u128,
    e: (u128, u128),
    i: int,
)
    requires
        all.written(account, writes) is Ok,
    ensures
        ({
            let next = all.written(account, writes)->Ok_0;
            let entry = writes.source->Some_0;
            &&& k != account.0 ==> (next.book.billing_accounts.contains_key(k)
                <==> all.book.billing_accounts.contains_key(k)) && next.book.billing_accounts[k]
                == all.book.billing_accounts[k] && (next.book.billing_ledgers.contains_key(k)
                <==> all.book.billing_ledgers.contains_key(k)) && next.book.billing_ledgers[k]
                == all.book.billing_ledgers[k]
            &&& writes.account is Some ==> next.book.billing_accounts.contains_key(account.0)
                && next.book.billing_accounts[account.0] == writes.account->Some_0
            &&& writes.account is None ==> next.book.billing_accounts == all.book.billing_accounts
            &&& writes.ledger is Some ==> next.book.billing_ledgers.contains_key(account.0)
                && next.book.billing_ledgers[account.0] == writes.ledger->Some_0
            &&& writes.ledger is None ==> next.book.billing_ledgers == all.book.billing_ledgers
            &&& next.book.funding_sources.len() == all.book.funding_sources.len()
            &&& 0 <= i < all.book.funding_sources.len() && next.book.funding_sources[i]
                != all.book.funding_sources[i] ==> writes.source is Some
                && all.book.funding_sources[i].owner == account && all.book.funding_sources[i].token
                == entry.token && next.book.funding_sources[i] == entry
            &&& writes.journal is Some ==> {
                let at = (account.0, writes.journal->Some_0.evidence.event_id.0);
                &&& !all.desk.journal.contains_key(at)
                &&& next.desk.journal.contains_key(at) && next.desk.journal[at]
                    == writes.journal->Some_0
                &&& e != at ==> (next.desk.journal.contains_key(e) <==> all.desk.journal.contains_key(
                    e,
                )) && next.desk.journal[e] == all.desk.journal[e]
            }
            &&& writes.journal is None ==> next.desk.journal == all.desk.journal
            &&& writes.command is Some ==> {
                let at = (account.0, writes.command->Some_0.0.idempotency_key.0);
                &&& !all.desk.commands.contains_key(at)
                &&& next.desk.commands.contains_key(at) && next.desk.commands[at]
                    == writes.command->Some_0
                &&& e != at ==> (next.desk.commands.contains_key(e)
                    <==> all.desk.commands.contains_key(e)) && next.desk.commands[e]
                    == all.desk.commands[e]
            }
            &&& writes.command is None ==> next.desk.commands == all.desk.commands
            &&& writes.work is None ==> next.desk.collections == all.desk.collections
            &&& writes.work is Some ==> next.desk.collections.contains_key(
                writes.work->Some_0.operation.0,
            ) && next.desk.collections[writes.work->Some_0.operation.0] == writes.work->Some_0
            &&& next.book.managed == all.book.managed && next.book.keys == all.book.keys
            &&& next.book.operations == all.book.operations
            &&& next.desk.offers == all.desk.offers && next.desk.payouts == all.desk.payouts
                && next.desk.arrangement == all.desk.arrangement
        }),
{
    if writes.source is Some {
        lemma_token(all.book.funding_sources, writes.source->Some_0.token, 0);
        let at = token_at(all.book.funding_sources, writes.source->Some_0.token)->Some_0;
        assert(0 <= at < all.book.funding_sources.len());
    }
}

/// A payout is prepared only for an allocation of the account's own member, in the account's scope
/// and unit, and moves no money.
pub proof fn payouts_are_to_the_accounts_member(
    account: BillingModel,
    bank: BankVerification,
    program: ProgramModel,
    allocation: AllocationId,
    at: CanonicalTime,
)
    requires
        prepared(account, bank, program, allocation, at) is Ok,
        program.records.payables[allocation.0].check(program.scope, program.unit) is Ok,
    ensures
        ({
            let (next, operation) = prepared(account, bank, program, allocation, at)->Ok_0;
            let owed = program.records.payables[allocation.0];
            &&& program.records.payables.contains_key(allocation.0)
            &&& owed.member == account.bank.member
            &&& bank.member == account.bank.member
            &&& program.scope == account.bank.scope
            &&& program.unit == account.bank.unit
            &&& at.0 >= owed.terms.due_at.0
            &&& operation matches Some(o) ==> o.amount == owed.amount && o.destination
                == bank.bank_token && o.kind == PaymentKind::MemberPayout { allocation: owed.id }
            &&& next.ledger == program.ledger
        }),
{
    crate::finance::changes::payouts_are_of_what_is_owed(program, allocation, bank, at, 0);
}

/// What an activated attempt leaves in the books: the account with its first persona and manager, its
/// billing account with an empty ledger and its own source for its bank, and its key; the attempt is
/// decided and its confirmation owed. No other account changes.
pub proof fn activation_opens_one_account(
    book: BookModel,
    i: int,
    decision: SignedDecision,
    records: EnrollmentRecords,
    k: u128,
)
    requires
        0 <= i < book.operations.len(),
    ensures
        ({
            let after = book.enrolled(i, decision, records);
            let pending = book.operations[i].pending;
            let billing = records.billing@.bank.account.0;
            let id = pending.account.0;
            let done = after.operations[i];
            &&& after.managed.contains_key(id)
            &&& after.managed[id].state.control == records.control@
            &&& after.managed[id].state.product == pending.intent.product@
            &&& after.managed[id].version == 1
            &&& after.product_accounts.contains_key(id)
            &&& after.product_accounts[id].account == records.product
            &&& after.product_accounts[id].maximum_unresolved == pending.input.maximum_unresolved
            &&& after.billing_accounts.contains_key(billing)
            &&& after.billing_accounts[billing] == records.billing@
            &&& after.billing_ledgers.contains_key(billing)
            &&& after.billing_ledgers[billing] == records.ledger@
            &&& after.keys.contains_key(pending.input.key_ref.0)
            &&& after.keys[pending.input.key_ref.0] == records.key_claim
            &&& done.state is Active
            &&& done.state->Active_decision == decision
            &&& done.state->Active_confirmation == Confirmation::Pending(records.at)
            &&& done.name == book.operations[i].name && done.pending == pending
            &&& after.operations.len() == book.operations.len()
            &&& k != id ==> (after.managed.contains_key(k) <==> book.managed.contains_key(k))
                && after.managed[k] == book.managed[k] && after.product_accounts[k]
                == book.product_accounts[k]
            &&& k != billing ==> (after.billing_accounts.contains_key(k)
                <==> book.billing_accounts.contains_key(k)) && after.billing_accounts[k]
                == book.billing_accounts[k] && after.billing_ledgers[k] == book.billing_ledgers[k]
            &&& k != pending.input.key_ref.0 ==> (after.keys.contains_key(k)
                <==> book.keys.contains_key(k)) && after.keys[k] == book.keys[k]
        }),
{
}

/// What is left after a security event: the account as the event leaves it, at the event's version
/// and with the event on record; a recovered key is the account's; and no other account changes.
pub proof fn events_change_their_account_alone(
    book: BookModel,
    event: SignedSecurityEvent,
    bank: Option<BankVerification>,
    rebound: Result<BillingAccount, BillingError>,
    facts: EventFacts,
    next: ControlModel,
    recovered: Option<(OperationalKeyRef, ProtocolIdentity)>,
    at: CanonicalTime,
    k: u128,
)
    ensures
        ({
            let after = book.after_event(event, bank, rebound, facts, next, recovered, at);
            let id = parsed(utf8(event.account@))->Some_0;
            let was = book.managed[id];
            let is = after.managed[id];
            &&& after.managed.contains_key(id)
            &&& is.state.control == next
            &&& is.state.product == was.state.product
            &&& is.version == event.security_version
            &&& is.events.contains_key(event.security_version as u128)
            &&& is.events[event.security_version as u128] == event
            &&& is.commands == was.commands
            &&& k != id ==> (after.managed.contains_key(k) <==> book.managed.contains_key(k))
                && after.managed[k] == book.managed[k]
            &&& after.keys.contains_key(k) <==> book.keys.contains_key(k) || (recovered is Some
                && recovered->Some_0.0.0 == k)
            &&& recovered is Some ==> after.keys[recovered->Some_0.0.0] == KeyClaim::Assigned {
                owner: KeyAuthorityOwner::Account(AccountId(id)),
                actor: ActorRef::Sender(recovered->Some_0.1),
                key: event.initial_key,
            }
            &&& !(event.change is RebindBank) ==> after.billing_accounts == book.billing_accounts
                && after.funding_sources == book.funding_sources
            &&& event.change is RebindBank ==> after.billing_accounts.contains_key(
                rebound->Ok_0@.bank.account.0,
            ) && after.billing_accounts[rebound->Ok_0@.bank.account.0] == rebound->Ok_0@
            &&& after.operations == book.operations
            &&& after.product_accounts == book.product_accounts
            &&& after.billing_ledgers == book.billing_ledgers
        }),
{
}

proof fn lemma_owner(
    accounts: Map<u128, ProductAccount>,
    ids: Seq<u128>,
    billing: BillingAccountId,
    from: int,
)
    requires
        0 <= from,
    ensures
        match owner_from(accounts, ids, billing, from) {
            Some(owner) => accounts[owner].account.billing == billing && exists|i: int|
                from <= i < ids.len() && #[trigger] ids[i] == owner,
            None => forall|i: int|
                from <= i < ids.len() ==> accounts[#[trigger] ids[i]].account.billing != billing,
        },
    decreases ids.len() - from,
{
    if from < ids.len() {
        lemma_owner(accounts, ids, billing, from + 1);
        if accounts[ids[from]].account.billing == billing {
            assert(ids[from] == owner_from(accounts, ids, billing, from)->Some_0);
        }
    }
}

/// Billing is decided under its owner's authority: where a decision is made for a billing account,
/// that account and its ledger are on record, and the managers are those of a product account that
/// it belongs to; the processor and the authority are those of the desk's arrangement, in whose unit
/// the account is.
pub proof fn billing_is_decided_for_its_owner(
    all: DeskedModel,
    scope: BillingScope,
    signer: Result<[u8; 32], SecurityError>,
)
    requires
        all.context_fault(scope) is None,
    ensures
        ({
            let context = all.context(scope, signer);
            let id = scope.account.0;
            &&& all.book.billing_accounts.contains_key(id)
            &&& context.account == all.book.billing_accounts[id]
            &&& all.book.billing_ledgers.contains_key(id)
            &&& context.ledger == all.book.billing_ledgers[id]
            &&& context.sources == all.book.funding_sources
            &&& context.signer == signer
            &&& exists|owner: u128| #[trigger]
                all.book.product_accounts.contains_key(owner)
                    && all.book.product_accounts[owner].account.billing == scope.account
                    && all.book.managed.contains_key(owner) && context.control
                    == all.book.managed[owner].state.control
            &&& all.desk.arrangement is Some
            &&& context.processor == all.desk.arrangement->Some_0.processor
            &&& context.bank_authority == all.desk.arrangement->Some_0.authority
            &&& context.account.bank.unit == all.desk.arrangement->Some_0.unit
            &&& scope.offer is Some ==> all.desk.offers.contains_key(scope.offer->Some_0.0 as u128)
                && context.offer == Some(all.desk.offers[scope.offer->Some_0.0 as u128])
            &&& context.prior is Some <==> scope.command is Some && all.desk.commands.contains_key(
                (id, scope.command->Some_0.0),
            )
        }),
{
    let accounts = all.book.product_accounts;
    let ids = sorted_keys(accounts);
    lemma_sorted_keys(accounts);
    lemma_owner(accounts, ids, scope.account, 0);
    let owner = owner_from(accounts, ids, scope.account, 0)->Some_0;
    let i = choose|i: int| 0 <= i < ids.len() && #[trigger] ids[i] == owner;
    assert(accounts.contains_key(ids[i]));
}

proof fn lemma_account(
    accounts: Map<u128, BillingAccount>,
    ids: Seq<u128>,
    member: MemberId,
    from: int,
)
    requires
        0 <= from,
    ensures
        account_from(accounts, ids, member, from) matches Some(id) ==> accounts[id]@.bank.member
            == member && exists|i: int| from <= i < ids.len() && #[trigger] ids[i] == id,
    decreases ids.len() - from,
{
    if from < ids.len() {
        lemma_account(accounts, ids, member, from + 1);
        if accounts[ids[from]]@.bank.member == member {
            assert(ids[from] == account_from(accounts, ids, member, from)->Some_0);
        }
    }
}

/// A distribution is paid out to a billing account of its member: the work that is added is the whole
/// of what is owed, to that account's bank; only the program of the unit changes, and no payout that
/// was there is replaced by another.
pub proof fn distributions_are_paid_to_their_member(
    accounts: Map<u128, BillingAccount>,
    programs: Map<u128, ProgramStateModel>,
    payouts: Map<u128, PaymentOperation>,
    unit: SettlementUnit,
    allocation: AllocationId,
    at: CanonicalTime,
    k: u128,
)
    requires
        distributed(accounts, programs, payouts, unit, allocation, at) is Ok,
        ({
            let program = programs[unit.0 as u128].program;
            program.records.payables[allocation.0].check(program.scope, program.unit) is Ok
        }),
    ensures
        ({
            let (after, work) = distributed(accounts, programs, payouts, unit, allocation, at)->Ok_0;
            let program = programs[unit.0 as u128].program;
            let owed = program.records.payables[allocation.0];
            &&& programs.contains_key(unit.0 as u128)
            &&& program.records.payables.contains_key(allocation.0)
            &&& exists|id: u128| #[trigger]
                accounts.contains_key(id) && accounts[id]@.bank.member == owed.member
            &&& payouts.contains_key(k) ==> work.contains_key(k) && work[k] == payouts[k]
            &&& work.contains_key(k) && !payouts.contains_key(k) ==> work[k].amount == owed.amount
                && work[k].id.0 == k && work[k].kind == PaymentKind::MemberPayout {
                allocation: owed.id,
            }
            &&& k != unit.0 ==> (after.contains_key(k) <==> programs.contains_key(k)) && after[k]
                == programs[k]
            &&& after[unit.0 as u128].program.ledger == program.ledger
            &&& after[unit.0 as u128].financial_commands
                == programs[unit.0 as u128].financial_commands
        }),
{
    let program = programs[unit.0 as u128].program;
    let owed = program.records.payables[allocation.0];
    let ids = sorted_keys(accounts);
    lemma_sorted_keys(accounts);
    lemma_account(accounts, ids, owed.member, 0);
    let id = account_from(accounts, ids, owed.member, 0)->Some_0;
    let i = choose|i: int| 0 <= i < ids.len() && #[trigger] ids[i] == id;
    assert(accounts.contains_key(ids[i]));
    payouts_are_to_the_accounts_member(
        accounts[id]@,
        accounts[id].bank.proven(),
        program,
        allocation,
        at,
    );
}

/// An event is considered only for an account that is on record, in the books and as a product
/// account, and, where it changes the bank, has its billing account.
pub proof fn events_are_for_known_accounts(book: BookModel, event: SignedSecurityEvent, bank: bool)
    requires
        book.event_context_fault(event, bank) is None,
    ensures
        ({
            let id = parsed(utf8(event.account@));
            &&& id is Some
            &&& book.managed.contains_key(id->Some_0)
            &&& book.product_accounts.contains_key(id->Some_0)
            &&& book.bank_key is Some
            &&& bank ==> book.billing_accounts.contains_key(
                book.product_accounts[id->Some_0].account.billing.0,
            )
        }),
{
}

/// An attempt is renewed only under its name and as long as it is not decided.
pub proof fn attempts_are_renewed_until_decided(
    book: BookModel,
    operation: Seq<char>,
    renewed: Result<PendingEnrollment, ContractError>,
)
    requires
        book.renewal_fault(operation, renewed) is None,
    ensures
        renewed is Ok,
        exists|i: int|
            0 <= i < book.operations.len() && (#[trigger] book.operations[i]).name@ == operation
                && book.operations[i].state is AwaitingEvidence,
{
    lemma_named(book.operations, operation, 0);
}

/// A bank that another owner has a funding source for is not taken over.
pub proof fn banks_stay_with_their_owner(
    book: BookModel,
    id: AccountId,
    key: Option<OperationalKeyRef>,
    persona: Option<ProtocolIdentity>,
    bank: Option<([u8; 32], BillingAccountId)>,
    i: int,
)
    requires
        book.effects_fault(id, key, persona, bank) is None,
        bank is Some,
        0 <= i < book.funding_sources.len(),
        book.funding_sources[i].token == bank->Some_0.0,
        forall|j: int|
            0 <= j < book.funding_sources.len() && j != i ==> (
            #[trigger] book.funding_sources[j]).token != bank->Some_0.0,
    ensures
        book.funding_sources[i].owner == bank->Some_0.1,
{
    lemma_token(book.funding_sources, bank->Some_0.0, 0);
}

/// What effects leave in the books: the account's state as decided, a key claimed where one is, and
/// the billing account of a new bank; a funding source that is there stays as it is, and one is added
/// only for a bank without any. Nothing else changes.
pub proof fn effects_are_kept_as_decided(
    book: BookModel,
    id: AccountId,
    records: AccountEffectRecords,
    k: u128,
    i: int,
)
    ensures
        ({
            let after = book.effected(id, records);
            let n = book.funding_sources.len();
            &&& after.managed.contains_key(id.0)
            &&& after.managed[id.0].state == records.state@
            &&& after.managed[id.0].commands == book.managed[id.0].commands
            &&& after.managed[id.0].events == book.managed[id.0].events
            &&& after.managed[id.0].version == book.managed[id.0].version
            &&& k != id.0 ==> (after.managed.contains_key(k) <==> book.managed.contains_key(k))
                && after.managed[k] == book.managed[k]
            &&& records.key is None ==> after.keys == book.keys
            &&& records.key is Some ==> after.keys.contains_key(records.key->Some_0.0.0)
                && after.keys[records.key->Some_0.0.0] == records.key->Some_0.1
            &&& records.bank is None ==> after.billing_accounts == book.billing_accounts
                && after.funding_sources == book.funding_sources
            &&& records.bank is Some ==> {
                let (account, source) = records.bank->Some_0;
                &&& after.billing_accounts.contains_key(account@.bank.account.0)
                &&& after.billing_accounts[account@.bank.account.0] == account@
                &&& after.funding_sources.len() > n ==> after.funding_sources.len() == n + 1
                    && after.funding_sources[n as int].token == source@.token
                    && after.funding_sources[n as int].owner == account@.bank.account
                    && after.funding_sources[n as int].source == source@
                &&& after.funding_sources.len() > n && 0 <= i < n
                    ==> book.funding_sources[i].token != source@.token
                &&& after.funding_sources.len() == n ==> exists|j: int|
                    0 <= j < n && (#[trigger] book.funding_sources[j]).token == source@.token
            }
            &&& 0 <= i < n ==> after.funding_sources[i] == book.funding_sources[i]
            &&& after.operations == book.operations
            &&& after.product_accounts == book.product_accounts
            &&& after.billing_ledgers == book.billing_ledgers
        }),
{
    if records.bank is Some {
        lemma_token(book.funding_sources, records.bank->Some_0.1@.token, 0);
    }
}

} // verus!

//! Product management decisions, made from a protected snapshot of an account.

use super::enrollment::{parse_number, parsed};
use super::errors::{ContractError, EngineError};
use crate::accounts::control::{
    AccountCommand, AccountControl, AccountStatus, ControlModel, SignedAccountCommand,
};
use crate::accounts::keys::{same_text, KeyAuthorityOwner, KeyClaim};
use crate::billing::account::{BillingAccount, BillingModel};
use crate::billing::offer::BillingError;
use crate::bytes::{copy_bytes, same_32, same_bytes, utf8};
use crate::crypto::ed25519_accepts_strictly;
use crate::finance::bank::BankVerification;
use crate::finance::funding::{FundingModel, FundingSource};
use crate::finance::payments::PaymentError;
use crate::maps::is_member;
use crate::primitives::amounts::CanonicalTime;
use crate::primitives::ids::{AccountId, OperationalKeyRef, ProtocolIdentity};
use crate::protocol::{ActorRef, SecurityError};
use vstd::prelude::*;

verus! {

/// A change to a registry of operational keys.
#[derive(Clone, Copy, Debug, PartialEq, Eq)]
pub enum KeyChange {
    Revoke { reference: OperationalKeyRef, version: u64 },
    Register { reference: OperationalKeyRef, actor: ActorRef, key: [u8; 32] },
}

/// A change to a registry, and when it was made.
#[derive(Clone, Copy, Debug, PartialEq, Eq)]
pub struct KeyEntry {
    pub at: CanonicalTime,
    pub change: KeyChange,
}

/// A registry's changes with more of them, made at one time.
pub open spec fn entered(
    registry: Seq<KeyEntry>,
    changes: Seq<KeyChange>,
    at: CanonicalTime,
) -> Seq<KeyEntry> {
    registry + Seq::new(changes.len(), |i: int| KeyEntry { at, change: changes[i] })
}

fn enter_all(registry: &mut Vec<KeyEntry>, changes: &Vec<KeyChange>, at: CanonicalTime)
    ensures
        final(registry)@ == entered(old(registry)@, changes@, at),
{
    let ghost before = registry@;
    let mut i: usize = 0;
    while i < changes.len()
        invariant
            0 <= i <= changes@.len(),
            registry@ == entered(before, changes@.take(i as int), at),
        decreases changes@.len() - i,
    {
        registry.push(KeyEntry { at, change: changes[i] });
        assert(registry@ =~= entered(before, changes@.take(i + 1), at));
        i += 1;
    }
    assert(changes@.take(i as int) =~= changes@);
}

/// An account's lifecycle and authority in its product, and all changes to its registry of keys, in
/// order.
pub struct AccountState {
    pub control: AccountControl,
    pub registry: Vec<KeyEntry>,
    pub product: String,
}

pub ghost struct StateModel {
    pub control: ControlModel,
    pub registry: Seq<KeyEntry>,
    pub product: Seq<char>,
}

impl View for AccountState {
    type V = StateModel;

    open spec fn view(&self) -> StateModel {
        StateModel {
            control: self.control@,
            registry: self.registry@,
            product: self.product@,
        }
    }
}

impl Clone for AccountState {
    fn clone(&self) -> (copy: Self)
        ensures
            copy@ == self@,
    {
        AccountState {
            control: self.control.clone(),
            registry: self.registry.clone(),
            product: self.product.clone(),
        }
    }
}

/// What the account's key registry says at the time of a command: the key of the signer, whether
/// the key that is to manage is active, and whether the key that is to be registered can be.
pub struct KeyFacts {
    pub signer: Result<[u8; 32], SecurityError>,
    pub grantee: Result<(), SecurityError>,
    pub registration: Result<(), SecurityError>,
}

pub struct CommandContext {
    pub state: AccountState,
    pub prior: Option<(SignedAccountCommand, AccountControl)>,
}

/// What a decision changes.
pub struct AccountEffectRecords {
    pub state: AccountState,
    pub key: Option<(OperationalKeyRef, KeyClaim)>,
    pub persona: Option<ProtocolIdentity>,
    pub bank: Option<(BillingAccount, FundingSource)>,
    pub authorized_at: CanonicalTime,
}

/// Only the use cases construct these effects. Stores persist them without reinterpreting the
/// originating command or identity event.
pub struct AccountEffects {
    records: AccountEffectRecords,
}

impl AccountEffects {
    pub closed spec fn carried(&self) -> AccountEffectRecords {
        self.records
    }

    pub fn into_records(self) -> (records: AccountEffectRecords)
        ensures
            records == self.carried(),
    {
        self.records
    }
}

/// A recorded replay requires no new writes; a fresh decision carries its complete effects.
pub struct AccountDecision<T> {
    outcome: T,
    effects: Option<AccountEffects>,
}

impl<T> AccountDecision<T> {
    pub closed spec fn answer(&self) -> T {
        self.outcome
    }

    pub closed spec fn brings(&self) -> Option<AccountEffects> {
        self.effects
    }

    pub fn into_parts(self) -> (parts: (T, Option<AccountEffects>))
        ensures
            parts == (self.answer(), self.brings()),
    {
        (self.outcome, self.effects)
    }
}

/// What a command is refused for before it is applied, if it is.
pub open spec fn command_fault(
    state: StateModel,
    prior: bool,
    signed: SignedAccountCommand,
    facts: KeyFacts,
) -> Option<EngineError> {
    match facts.signer {
        Err(e) => Some(EngineError::Security(e)),
        Ok(key) => if !(signed.addressed() && ed25519_accepts_strictly(
            key@,
            signed.statement(),
            signed.signature@,
        )) || state.product != signed.product@ || !state.control.managers.contains(
            signed.operational_key.0,
        ) {
            Some(EngineError::Contract(ContractError::Unauthorized))
        } else if prior {
            None
        } else if state.control.revision != signed.expected_revision {
            Some(EngineError::VersionConflict)
        } else {
            match signed.command {
                AccountCommand::GrantManager(_) => match facts.grantee {
                    Err(e) => Some(EngineError::Security(e)),
                    Ok(()) => None,
                },
                AccountCommand::RegisterKey(key) => if !ed25519_accepts_strictly(
                    key.key@,
                    key.statement(signed.account, signed.product@),
                    key.proof@,
                ) {
                    Some(EngineError::Contract(ContractError::Unauthorized))
                } else {
                    match facts.registration {
                        Err(e) => Some(EngineError::Security(e)),
                        Ok(()) => None,
                    }
                },
                _ => None,
            }
        },
    }
}

/// The command of an earlier decision.
pub open spec fn prior_command(prior: Option<(SignedAccountCommand, AccountControl)>) -> Option<
    SignedAccountCommand,
> {
    match prior {
        Some((before, _)) => Some(before),
        None => None,
    }
}

/// What a command leaves of an account; none where it was decided before.
pub open spec fn command_outcome(
    state: StateModel,
    prior: Option<SignedAccountCommand>,
    signed: SignedAccountCommand,
    facts: KeyFacts,
) -> Result<Option<ControlModel>, EngineError> {
    match command_fault(state, prior is Some, signed, facts) {
        Some(e) => Err(e),
        None => match prior {
            Some(before) => if before.alike(&signed) {
                Ok(None)
            } else {
                Err(EngineError::DuplicateConflict)
            },
            None => match state.control.applied(signed.command) {
                Err(_) => Err(EngineError::Contract(ContractError::Conflict)),
                Ok(next) => Ok(Some(next)),
            },
        },
    }
}

/// The claim that a command makes on a key.
pub open spec fn registered_claim(signed: SignedAccountCommand) -> Option<
    (OperationalKeyRef, KeyClaim),
> {
    match signed.command {
        AccountCommand::RegisterKey(key) => Some(
            (
                key.reference,
                KeyClaim::Assigned {
                    owner: KeyAuthorityOwner::Account(signed.account),
                    actor: key.actor,
                    key: key.key,
                },
            ),
        ),
        _ => None,
    }
}

/// What a command changes in the registry of keys.
pub open spec fn command_keys(signed: SignedAccountCommand) -> Seq<KeyChange> {
    match signed.command {
        AccountCommand::RegisterKey(key) => seq![
            KeyChange::Register { reference: key.reference, actor: key.actor, key: key.key },
        ],
        _ => Seq::empty(),
    }
}

/// The persona that a command adds.
pub open spec fn added_persona(signed: SignedAccountCommand) -> Option<ProtocolIdentity> {
    match signed.command {
        AccountCommand::AddPersona(persona) => Some(persona),
        _ => None,
    }
}

/// Decides an account command. Invalid authority, stale revisions, altered retries, keys that are
/// not its holder's and impossible transitions are refused; an exact retry is answered as before.
pub fn execute_command(
    context: CommandContext,
    signed: &SignedAccountCommand,
    facts: &KeyFacts,
    at: CanonicalTime,
) -> (result: Result<AccountDecision<AccountControl>, EngineError>)
    ensures
        match command_outcome(context.state@, prior_command(context.prior), *signed, *facts) {
            Err(e) => result == Err::<AccountDecision<AccountControl>, EngineError>(e),
            Ok(None) => result matches Ok(decision) && decision.answer()
                == context.prior->Some_0.1 && decision.brings() is None,
            Ok(Some(next)) => result matches Ok(decision) && decision.answer()@ == next && (
            decision.brings() matches Some(effects) && {
                let records = effects.carried();
                &&& records.state@ == (StateModel {
                    control: next,
                    registry: entered(context.state@.registry, command_keys(*signed), at),
                    ..context.state@
                })
                &&& records.key == registered_claim(*signed)
                &&& records.persona == added_persona(*signed)
                &&& records.bank is None
                &&& records.authorized_at == at
            }),
        },
{
    let mut state = context.state;
    let key = match facts.signer {
        Ok(key) => key,
        Err(e) => return Err(EngineError::Security(e)),
    };
    if signed.verify(&key).is_err() {
        return Err(EngineError::Contract(ContractError::Unauthorized));
    }
    if state.product != signed.product || !state.control.is_manager(signed.operational_key) {
        return Err(EngineError::Contract(ContractError::Unauthorized));
    }
    match context.prior {
        Some((prior, outcome)) => {
            if !prior.same(signed) {
                return Err(EngineError::DuplicateConflict);
            }
            return Ok(AccountDecision { outcome, effects: None });
        },
        None => {},
    }
    if state.control.revision() != signed.expected_revision {
        return Err(EngineError::VersionConflict);
    }
    let mut claim: Option<(OperationalKeyRef, KeyClaim)> = None;
    let mut persona: Option<ProtocolIdentity> = None;
    let mut changes: Vec<KeyChange> = Vec::new();
    match &signed.command {
        AccountCommand::GrantManager(_) => match facts.grantee {
            Ok(()) => {},
            Err(e) => return Err(EngineError::Security(e)),
        },
        AccountCommand::RegisterKey(key) => {
            if key.verify(signed.account, signed.product.as_str()).is_err() {
                return Err(EngineError::Contract(ContractError::Unauthorized));
            }
            match facts.registration {
                Ok(()) => {},
                Err(e) => return Err(EngineError::Security(e)),
            }
            changes.push(
                KeyChange::Register { reference: key.reference, actor: key.actor, key: key.key },
            );
            claim = Some(
                (
                    key.reference,
                    KeyClaim::Assigned {
                        owner: KeyAuthorityOwner::Account(signed.account),
                        actor: key.actor,
                        key: key.key,
                    },
                ),
            );
        },
        AccountCommand::AddPersona(added) => {
            persona = Some(*added);
        },
        _ => {},
    }
    match state.control.apply(&signed.command) {
        Ok(()) => {},
        Err(_) => return Err(EngineError::Contract(ContractError::Conflict)),
    }
    assert(changes@ =~= command_keys(*signed));
    enter_all(&mut state.registry, &changes, at);
    let outcome = state.control.clone();
    Ok(
        AccountDecision {
            outcome,
            effects: Some(
                AccountEffects {
                    records: AccountEffectRecords {
                        state,
                        key: claim,
                        persona,
                        bank: None,
                        authorized_at: at,
                    },
                },
            ),
        },
    )
}

/// What an identity event changes.
#[derive(Debug, PartialEq, Eq)]
pub enum IdentityChange {
    RecoverDevice { key_reference: String, persona: String },
    RebindBank,
    LinkLogin,
}

/// A security event of the identity service as it was received: what it says, and its exact bytes.
#[derive(Debug, PartialEq, Eq)]
pub struct SignedSecurityEvent {
    pub product: String,
    pub account: String,
    pub subject_ref: String,
    pub security_version: u64,
    pub change: IdentityChange,
    pub initial_key: [u8; 32],
    pub bank_digest: [u8; 32],
    pub encoded: Vec<u8>,
}

impl IdentityChange {
    pub open spec fn alike(&self, other: &Self) -> bool {
        match (self, other) {
            (
                IdentityChange::RecoverDevice { key_reference: a, persona: p },
                IdentityChange::RecoverDevice { key_reference: b, persona: q },
            ) => a@ == b@ && p@ == q@,
            (IdentityChange::RebindBank, IdentityChange::RebindBank) => true,
            (IdentityChange::LinkLogin, IdentityChange::LinkLogin) => true,
            _ => false,
        }
    }

    fn same(&self, other: &Self) -> (same: bool)
        ensures
            same == self.alike(other),
    {
        match (self, other) {
            (
                IdentityChange::RecoverDevice { key_reference: a, persona: p },
                IdentityChange::RecoverDevice { key_reference: b, persona: q },
            ) => *a == *b && *p == *q,
            (IdentityChange::RebindBank, IdentityChange::RebindBank) => true,
            (IdentityChange::LinkLogin, IdentityChange::LinkLogin) => true,
            _ => false,
        }
    }
}

impl SignedSecurityEvent {
    pub open spec fn alike(&self, other: &Self) -> bool {
        &&& self.product@ == other.product@
        &&& self.account@ == other.account@
        &&& self.subject_ref@ == other.subject_ref@
        &&& self.security_version == other.security_version
        &&& self.change.alike(&other.change)
        &&& self.initial_key == other.initial_key
        &&& self.bank_digest == other.bank_digest
        &&& self.encoded@ == other.encoded@
    }

    /// Whether two events are the same.
    pub fn same(&self, other: &Self) -> (same: bool)
        ensures
            same == self.alike(other),
    {
        self.product == other.product && self.account == other.account && self.subject_ref
            == other.subject_ref && self.security_version == other.security_version
            && self.change.same(&other.change) && same_32(&self.initial_key, &other.initial_key)
            && same_32(&self.bank_digest, &other.bank_digest) && same_bytes(
            self.encoded.as_slice(),
            other.encoded.as_slice(),
        )
    }
}

impl Clone for SignedSecurityEvent {
    fn clone(&self) -> (copy: Self)
        ensures
            copy.alike(self),
    {
        SignedSecurityEvent {
            product: self.product.clone(),
            account: self.account.clone(),
            subject_ref: self.subject_ref.clone(),
            security_version: self.security_version,
            change: match &self.change {
                IdentityChange::RecoverDevice { key_reference, persona } => {
                    IdentityChange::RecoverDevice {
                        key_reference: key_reference.clone(),
                        persona: persona.clone(),
                    }
                },
                IdentityChange::RebindBank => IdentityChange::RebindBank,
                IdentityChange::LinkLogin => IdentityChange::LinkLogin,
            },
            initial_key: self.initial_key,
            bank_digest: self.bank_digest,
            encoded: copy_bytes(&self.encoded),
        }
    }
}

/// The billing account that a bank change is about, and that account as it is once it is bound to
/// the new bank, or why it cannot be.
pub struct BankChangeContext {
    pub account: BillingAccount,
    pub rebound: Result<BillingAccount, BillingError>,
    pub authority: [u8; 32],
    pub maximum_unresolved: u32,
}

pub ghost struct BankChangeModel {
    pub account: BillingModel,
    pub rebound: Result<BillingModel, BillingError>,
    pub authority: [u8; 32],
    pub maximum_unresolved: u32,
}

impl View for BankChangeContext {
    type V = BankChangeModel;

    open spec fn view(&self) -> BankChangeModel {
        BankChangeModel {
            account: self.account@,
            rebound: match self.rebound {
                Ok(account) => Ok(account@),
                Err(e) => Err(e),
            },
            authority: self.authority,
            maximum_unresolved: self.maximum_unresolved,
        }
    }
}

pub open spec fn bank_change(context: Option<BankChangeContext>) -> Option<BankChangeModel> {
    match context {
        Some(change) => Some(change@),
        None => None,
    }
}

pub struct SecurityContext {
    pub state: AccountState,
    pub subject: String,
    pub version: u64,
    pub prior: Option<SignedSecurityEvent>,
    pub bank: Option<BankChangeContext>,
}

/// The revocation of every registered key at its version, in their order, and then the registration
/// of a recovered device's key for its persona as a sender.
pub open spec fn replaced_keys(
    records: Seq<(OperationalKeyRef, u64)>,
    reference: OperationalKeyRef,
    persona: ProtocolIdentity,
    key: [u8; 32],
) -> Seq<KeyChange> {
    Seq::new(
        records.len(),
        |i: int| KeyChange::Revoke { reference: records[i].0, version: records[i].1 },
    ).push(KeyChange::Register { reference, actor: ActorRef::Sender(persona), key })
}

/// What a registry is asked to do when a device is recovered, all of it at the time of the event:
/// one revocation for each registered key, in order, and the registration of the recovered one. The
/// registry may refuse any of them, and then nothing of the event is applied.
pub fn replacement_plan(
    records: &Vec<(OperationalKeyRef, u64)>,
    reference: OperationalKeyRef,
    persona: ProtocolIdentity,
    key: [u8; 32],
) -> (plan: Vec<KeyChange>)
    ensures
        plan@ == replaced_keys(records@, reference, persona, key),
{
    let mut plan: Vec<KeyChange> = Vec::new();
    let mut i: usize = 0;
    while i < records.len()
        invariant
            0 <= i <= records@.len(),
            plan@.len() == i,
            forall|j: int|
                0 <= j < i ==> #[trigger] plan@[j] == (KeyChange::Revoke {
                    reference: records@[j].0,
                    version: records@[j].1,
                }),
        decreases records@.len() - i,
    {
        let (reference, version) = records[i];
        plan.push(KeyChange::Revoke { reference, version });
        i += 1;
    }
    plan.push(KeyChange::Register { reference, actor: ActorRef::Sender(persona), key });
    assert(plan@ =~= replaced_keys(records@, reference, persona, key));
    plan
}

/// The keys that stand after the first `n` changes of a plan.
pub open spec fn standing_keys(keys: Set<u128>, plan: Seq<KeyChange>, n: nat) -> Set<u128>
    decreases n,
{
    if n == 0 {
        keys
    } else {
        let before = standing_keys(keys, plan, (n - 1) as nat);
        match plan[n - 1] {
            KeyChange::Revoke { reference, .. } => before.remove(reference.0),
            KeyChange::Register { reference, .. } => before.insert(reference.0),
        }
    }
}

proof fn lemma_revoked(
    keys: Set<u128>,
    records: Seq<(OperationalKeyRef, u64)>,
    plan: Seq<KeyChange>,
    n: nat,
)
    requires
        n <= records.len() <= plan.len(),
        forall|i: int|
            0 <= i < records.len() ==> #[trigger] plan[i] == (KeyChange::Revoke {
                reference: records[i].0,
                version: records[i].1,
            }),
    ensures
        forall|k: u128| #[trigger]
            standing_keys(keys, plan, n).contains(k) <==> keys.contains(k) && !(exists|i: int|
                0 <= i < n && (#[trigger] records[i]).0.0 == k),
    decreases n,
{
    if n > 0 {
        lemma_revoked(keys, records, plan, (n - 1) as nat);
        let before = standing_keys(keys, plan, (n - 1) as nat);
        assert(plan[n - 1] == (KeyChange::Revoke {
            reference: records[n - 1].0,
            version: records[n - 1].1,
        }));
        assert forall|k: u128| #[trigger]
            standing_keys(keys, plan, n).contains(k) <==> keys.contains(k) && !(exists|i: int|
                0 <= i < n && (#[trigger] records[i]).0.0 == k) by {
            assert(before.contains(k) <==> keys.contains(k) && !(exists|i: int|
                0 <= i < n - 1 && (#[trigger] records[i]).0.0 == k));
            if exists|i: int| 0 <= i < n && (#[trigger] records[i]).0.0 == k {
                let i = choose|i: int| 0 <= i < n && (#[trigger] records[i]).0.0 == k;
                if i < n - 1 {
                    assert(records[i].0.0 == k);
                }
            }
            if records[n - 1].0.0 == k {
                assert(records[n - 1].0.0 == k);
            }
        }
    }
}

/// Recovery leaves one key: where every standing key is on record, only the recovered one stands
/// once the plan is carried out.
pub proof fn recovery_leaves_one_key(
    keys: Set<u128>,
    records: Seq<(OperationalKeyRef, u64)>,
    reference: OperationalKeyRef,
    persona: ProtocolIdentity,
    key: [u8; 32],
)
    requires
        forall|k: u128| #[trigger]
            keys.contains(k) ==> exists|i: int|
                0 <= i < records.len() && (#[trigger] records[i]).0.0 == k,
    ensures
        ({
            let plan = replaced_keys(records, reference, persona, key);
            standing_keys(keys, plan, plan.len()) == Set::empty().insert(reference.0)
        }),
{
    let plan = replaced_keys(records, reference, persona, key);
    lemma_revoked(keys, records, plan, records.len());
    assert(standing_keys(keys, plan, records.len()) =~= Set::empty());
}

/// The keys that stand after all changes to a registry.
pub open spec fn standing_in(registry: Seq<KeyEntry>) -> Set<u128> {
    standing_keys(
        Set::empty(),
        Seq::new(registry.len(), |i: int| registry[i].change),
        registry.len(),
    )
}

proof fn lemma_standing_after(
    registry: Seq<KeyEntry>,
    changes: Seq<KeyChange>,
    at: CanonicalTime,
    n: nat,
)
    requires
        n <= changes.len(),
    ensures
        ({
            let all = entered(registry, changes, at);
            standing_keys(
                Set::empty(),
                Seq::new(all.len(), |i: int| all[i].change),
                registry.len() + n,
            ) == standing_keys(standing_in(registry), changes, n)
        }),
    decreases n,
{
    let all = entered(registry, changes, at);
    let whole = Seq::new(all.len(), |i: int| all[i].change);
    if n == 0 {
        lemma_same_start(
            Seq::new(registry.len(), |i: int| registry[i].change),
            whole,
            registry.len(),
        );
    } else {
        lemma_standing_after(registry, changes, at, (n - 1) as nat);
        assert(whole[registry.len() + n - 1] == changes[n - 1]);
    }
}

proof fn lemma_same_start(a: Seq<KeyChange>, b: Seq<KeyChange>, n: nat)
    requires
        n <= a.len(),
        n <= b.len(),
        forall|i: int| 0 <= i < n ==> a[i] == b[i],
    ensures
        standing_keys(Set::empty(), a, n) == standing_keys(Set::empty(), b, n),
    decreases n,
{
    if n > 0 {
        lemma_same_start(a, b, (n - 1) as nat);
    }
}

/// A registration adds one key to those that stand, and recovery leaves only the recovered one,
/// where every key that stood was on record. Neither takes an earlier change away.
pub proof fn registries_follow_their_account(
    registry: Seq<KeyEntry>,
    signed: SignedAccountCommand,
    event: SignedSecurityEvent,
    recovered: (OperationalKeyRef, ProtocolIdentity),
    facts: EventFacts,
    at: CanonicalTime,
)
    ensures
        registry.is_prefix_of(entered(registry, command_keys(signed), at)),
        registry.is_prefix_of(entered(registry, event_keys(event, Some(recovered), facts), at)),
        standing_in(entered(registry, command_keys(signed), at)) == (match signed.command {
            AccountCommand::RegisterKey(key) => standing_in(registry).insert(key.reference.0),
            _ => standing_in(registry),
        }),
        (forall|k: u128| #[trigger]
            standing_in(registry).contains(k) ==> exists|i: int|
                0 <= i < facts.records@.len() && (#[trigger] facts.records@[i]).0.0 == k)
            ==> standing_in(entered(registry, event_keys(event, Some(recovered), facts), at))
            == Set::empty().insert(recovered.0.0),
{
    let (a, b) = (command_keys(signed), event_keys(event, Some(recovered), facts));
    assert(entered(registry, a, at).take(registry.len() as int) =~= registry);
    assert(entered(registry, b, at).take(registry.len() as int) =~= registry);
    lemma_standing_after(registry, a, at, a.len());
    lemma_standing_after(registry, b, at, b.len());
    reveal_with_fuel(standing_keys, 2);
    if forall|k: u128| #[trigger]
        standing_in(registry).contains(k) ==> exists|i: int|
            0 <= i < facts.records@.len() && (#[trigger] facts.records@[i]).0.0 == k {
        recovery_leaves_one_key(
            standing_in(registry),
            facts.records@,
            recovered.0,
            recovered.1,
            event.initial_key,
        );
    }
}

/// What is known of an event outside of its store: the verdict on its signature and time, the keys
/// in the registry at their versions, whether the registry carries the replacement plan for them
/// out, and the digest of the bank evidence.
pub struct EventFacts {
    pub verified: Result<(), ContractError>,
    pub records: Vec<(OperationalKeyRef, u64)>,
    pub replacement: Result<(), SecurityError>,
    pub bank_digest: Result<[u8; 32], ContractError>,
}

/// The device key that an event puts in place of all others, or why it cannot.
pub open spec fn recovered_key(
    state: StateModel,
    key_reference: Seq<char>,
    persona: Seq<char>,
    facts: EventFacts,
) -> Result<(OperationalKeyRef, ProtocolIdentity), EngineError> {
    match parsed(utf8(persona)) {
        None => Err(EngineError::Contract(ContractError::Invalid)),
        Some(number) => if !state.control.personas.contains(number) {
            Err(EngineError::Contract(ContractError::Unauthorized))
        } else {
            match parsed(utf8(key_reference)) {
                None => Err(EngineError::Contract(ContractError::Invalid)),
                Some(reference) => match facts.replacement {
                    Err(e) => Err(EngineError::Security(e)),
                    Ok(()) => Ok((OperationalKeyRef(reference), ProtocolIdentity(number))),
                },
            }
        },
    }
}

/// Why a bank is not rebound, if it is not. The rebound account has to be the one on record, of the
/// same member, with exactly the verified evidence.
pub open spec fn rebinding_fault(
    bank: Option<BankVerification>,
    context: Option<BankChangeModel>,
    event: SignedSecurityEvent,
    facts: EventFacts,
) -> Option<EngineError> {
    match (bank, context) {
        (Some(evidence), Some(change)) => match facts.bank_digest {
            Err(e) => Some(EngineError::Contract(e)),
            Ok(digest) => if digest != event.bank_digest || evidence.account
                != change.account.bank.account {
                Some(EngineError::Contract(ContractError::Context))
            } else {
                match evidence.verdict(change.authority) {
                    Err(e) => Some(EngineError::Billing(BillingError::Payment(e))),
                    Ok(()) => if change.maximum_unresolved == 0 {
                        Some(
                            EngineError::Billing(
                                BillingError::Payment(PaymentError::InvalidOperation),
                            ),
                        )
                    } else {
                        match change.rebound {
                            Err(e) => Some(EngineError::Billing(e)),
                            Ok(account) => if account.bank != evidence@ || account.authority
                                != change.authority || account.bank.member
                                != change.account.bank.member {
                                Some(EngineError::Contract(ContractError::Context))
                            } else {
                                None
                            },
                        }
                    },
                }
            },
        },
        _ => Some(EngineError::Contract(ContractError::Invalid)),
    }
}

/// Why an event does not count as the account's next one, if it does not. An event at the version
/// of one that was applied before has to be the same one.
pub open spec fn event_fault(
    state: StateModel,
    subject: Seq<char>,
    version: u64,
    prior: Option<SignedSecurityEvent>,
    event: SignedSecurityEvent,
    facts: EventFacts,
) -> Option<EngineError> {
    match facts.verified {
        Err(e) => Some(EngineError::Contract(e)),
        Ok(()) => if subject != event.subject_ref@ || state.product != event.product@ {
            Some(EngineError::Contract(ContractError::Context))
        } else {
            match prior {
                Some(before) => if before.alike(&event) {
                    None
                } else {
                    Some(EngineError::DuplicateConflict)
                },
                None => if version + 1 != event.security_version {
                    Some(EngineError::VersionConflict)
                } else if parsed(utf8(event.account@)) is None {
                    Some(EngineError::Contract(ContractError::Invalid))
                } else {
                    None
                },
            }
        },
    }
}

/// The key that replaces an account's managers under an event, if one does.
pub open spec fn replacement_of(
    state: StateModel,
    bank: Option<BankVerification>,
    context: Option<BankChangeModel>,
    event: SignedSecurityEvent,
    facts: EventFacts,
) -> Result<Option<(OperationalKeyRef, ProtocolIdentity)>, EngineError> {
    match event.change {
        IdentityChange::RecoverDevice { key_reference, persona } => match recovered_key(
            state,
            key_reference@,
            persona@,
            facts,
        ) {
            Err(e) => Err(e),
            Ok(recovered) => Ok(Some(recovered)),
        },
        IdentityChange::RebindBank => match rebinding_fault(bank, context, event, facts) {
            Some(e) => Err(e),
            None => Ok(None),
        },
        IdentityChange::LinkLogin => Ok(None),
    }
}

pub open spec fn key_of(recovered: Option<(OperationalKeyRef, ProtocolIdentity)>) -> Option<
    OperationalKeyRef,
> {
    match recovered {
        Some((reference, _)) => Some(reference),
        None => None,
    }
}

/// What an event leaves of an account; none where it was applied before.
pub open spec fn event_outcome(
    state: StateModel,
    subject: Seq<char>,
    version: u64,
    prior: Option<SignedSecurityEvent>,
    change: Option<BankChangeModel>,
    bank: Option<BankVerification>,
    event: SignedSecurityEvent,
    facts: EventFacts,
) -> Result<
    Option<(ControlModel, Option<(OperationalKeyRef, ProtocolIdentity)>)>,
    EngineError,
> {
    match event_fault(state, subject, version, prior, event, facts) {
        Some(e) => Err(e),
        None => if prior is Some {
            Ok(None)
        } else {
            match replacement_of(state, bank, change, event, facts) {
                Err(e) => Err(e),
                Ok(recovered) => match state.control.secured(key_of(recovered)) {
                    Err(_) => Err(EngineError::Contract(ContractError::Invalid)),
                    Ok(next) => Ok(Some((next, recovered))),
                },
            }
        },
    }
}

/// What an event changes in the registry of keys.
pub open spec fn event_keys(
    event: SignedSecurityEvent,
    recovered: Option<(OperationalKeyRef, ProtocolIdentity)>,
    facts: EventFacts,
) -> Seq<KeyChange> {
    match recovered {
        None => Seq::empty(),
        Some((reference, persona)) => replaced_keys(
            facts.records@,
            reference,
            persona,
            event.initial_key,
        ),
    }
}

/// The claim on the device key that an event puts in place of all others.
pub open spec fn recovered_claim(
    event: SignedSecurityEvent,
    recovered: Option<(OperationalKeyRef, ProtocolIdentity)>,
) -> Option<(OperationalKeyRef, KeyClaim)> {
    match recovered {
        None => None,
        Some((reference, persona)) => Some(
            (
                reference,
                KeyClaim::Assigned {
                    owner: KeyAuthorityOwner::Account(
                        AccountId(parsed(utf8(event.account@))->Some_0),
                    ),
                    actor: ActorRef::Sender(persona),
                    key: event.initial_key,
                },
            ),
        ),
    }
}

/// The source that bank evidence makes.
pub open spec fn rebound_source(bank: BankVerification, maximum_unresolved: u32) -> FundingModel {
    FundingModel {
        token: bank.bank_token,
        verification: bank.version,
        restricted: false,
        maximum_unresolved,
        attempts: Map::empty(),
        dispatched: Set::empty(),
    }
}

/// Decides an identity event. Substituted, stale and noncontiguous events and invalid financial
/// evidence are refused; an exact replay changes nothing.
pub fn apply_identity_change(
    context: SecurityContext,
    event: &SignedSecurityEvent,
    bank: &Option<BankVerification>,
    facts: &EventFacts,
    at: CanonicalTime,
) -> (result: Result<AccountDecision<()>, EngineError>)
    ensures
        match event_outcome(
            context.state@,
            context.subject@,
            context.version,
            context.prior,
            bank_change(context.bank),
            *bank,
            *event,
            *facts,
        ) {
            Err(e) => result == Err::<AccountDecision<()>, EngineError>(e),
            Ok(None) => result matches Ok(decision) && decision.brings() is None,
            Ok(Some((next, recovered))) => result matches Ok(decision) && (
            decision.brings() matches Some(effects) && {
                let records = effects.carried();
                &&& records.state@ == (StateModel {
                    control: next,
                    registry: entered(
                        context.state@.registry,
                        event_keys(*event, recovered, *facts),
                        at,
                    ),
                    ..context.state@
                })
                &&& records.key == recovered_claim(*event, recovered)
                &&& records.persona is None
                &&& match event.change {
                    IdentityChange::RebindBank => records.bank matches Some((account, source))
                        && context.bank->Some_0.rebound == Ok::<BillingAccount, BillingError>(
                        account,
                    ) && source@ == rebound_source(
                        bank->Some_0,
                        context.bank->Some_0.maximum_unresolved,
                    ),
                    _ => records.bank is None,
                }
                &&& records.authorized_at == at
            }),
        },
{
    let mut state = context.state;
    match facts.verified {
        Ok(()) => {},
        Err(e) => return Err(EngineError::Contract(e)),
    }
    if !same_text(context.subject.as_str(), event.subject_ref.as_str()) || state.product
        != event.product {
        return Err(EngineError::Contract(ContractError::Context));
    }
    match context.prior {
        Some(prior) => {
            if !prior.same(event) {
                return Err(EngineError::DuplicateConflict);
            }
            return Ok(AccountDecision { outcome: (), effects: None });
        },
        None => {},
    }
    if context.version.checked_add(1) != Some(event.security_version) {
        return Err(EngineError::VersionConflict);
    }
    let owner = match parse_number(event.account.as_str()) {
        Some(number) => AccountId(number),
        None => return Err(EngineError::Contract(ContractError::Invalid)),
    };
    let mut claim: Option<(OperationalKeyRef, KeyClaim)> = None;
    let mut financial: Option<(BillingAccount, FundingSource)> = None;
    let mut replacement: Option<OperationalKeyRef> = None;
    let mut changes: Vec<KeyChange> = Vec::new();
    match &event.change {
        IdentityChange::RecoverDevice { key_reference, persona } => {
            let persona = match parse_number(persona.as_str()) {
                Some(number) => ProtocolIdentity(number),
                None => return Err(EngineError::Contract(ContractError::Invalid)),
            };
            if !is_member(state.control.personas(), persona.0) {
                return Err(EngineError::Contract(ContractError::Unauthorized));
            }
            let reference = match parse_number(key_reference.as_str()) {
                Some(number) => OperationalKeyRef(number),
                None => return Err(EngineError::Contract(ContractError::Invalid)),
            };
            match facts.replacement {
                Ok(()) => {},
                Err(e) => return Err(EngineError::Security(e)),
            }
            claim = Some(
                (
                    reference,
                    KeyClaim::Assigned {
                        owner: KeyAuthorityOwner::Account(owner),
                        actor: ActorRef::Sender(persona),
                        key: event.initial_key,
                    },
                ),
            );
            changes = replacement_plan(&facts.records, reference, persona, event.initial_key);
            replacement = Some(reference);
        },
        IdentityChange::RebindBank => {
            let evidence = match bank {
                Some(evidence) => evidence,
                None => return Err(EngineError::Contract(ContractError::Invalid)),
            };
            let change = match context.bank {
                Some(change) => change,
                None => return Err(EngineError::Contract(ContractError::Invalid)),
            };
            let digest = match facts.bank_digest {
                Ok(digest) => digest,
                Err(e) => return Err(EngineError::Contract(e)),
            };
            if !same_32(&digest, &event.bank_digest) || evidence.account != change.account.id() {
                return Err(EngineError::Contract(ContractError::Context));
            }
            let verified = match evidence.verify(&change.authority) {
                Ok(verified) => verified,
                Err(e) => return Err(EngineError::Billing(BillingError::Payment(e))),
            };
            let source = match FundingSource::verified(&verified, change.maximum_unresolved) {
                Ok(source) => source,
                Err(e) => return Err(EngineError::Billing(BillingError::Payment(e))),
            };
            match change.rebound {
                Ok(account) => {
                    if !account.bank().evidence().same(evidence) || !same_32(
                        account.bank().authority(),
                        &change.authority,
                    ) || account.member() != change.account.member() {
                        return Err(EngineError::Contract(ContractError::Context));
                    }
                    financial = Some((account, source));
                },
                Err(e) => return Err(EngineError::Billing(e)),
            }
        },
        IdentityChange::LinkLogin => {},
    }
    match state.control.apply_security_change(replacement) {
        Ok(()) => {},
        Err(_) => return Err(EngineError::Contract(ContractError::Invalid)),
    }
    enter_all(&mut state.registry, &changes, at);
    Ok(
        AccountDecision {
            outcome: (),
            effects: Some(
                AccountEffects {
                    records: AccountEffectRecords {
                        state,
                        key: claim,
                        persona: None,
                        bank: financial,
                        authorized_at: at,
                    },
                },
            ),
        },
    )
}

/// A command needs its account's authority: the signature of a key that manages the account, in
/// the account's product, at the account's revision.
pub proof fn commands_need_a_manager(
    state: StateModel,
    prior: Option<SignedAccountCommand>,
    signed: SignedAccountCommand,
    facts: KeyFacts,
)
    requires
        command_outcome(state, prior, signed, facts) is Ok,
    ensures
        facts.signer is Ok,
        ed25519_accepts_strictly(facts.signer->Ok_0@, signed.statement(), signed.signature@),
        state.control.managers.contains(signed.operational_key.0),
        state.product == signed.product@,
        command_outcome(state, prior, signed, facts)->Ok_0 is Some ==> state.control.revision
            == signed.expected_revision,
{
}

/// Events are applied one after the other: the next one counts, one that was applied changes
/// nothing, and every applied one suspends the account unless it is closed.
pub proof fn events_are_contiguous(
    state: StateModel,
    subject: Seq<char>,
    version: u64,
    prior: Option<SignedSecurityEvent>,
    change: Option<BankChangeModel>,
    bank: Option<BankVerification>,
    event: SignedSecurityEvent,
    facts: EventFacts,
)
    requires
        event_outcome(state, subject, version, prior, change, bank, event, facts) is Ok,
    ensures
        event_outcome(
            state,
            subject,
            version,
            prior,
            change,
            bank,
            event,
            facts,
        )->Ok_0 matches Some((next, _)) ==> {
            &&& prior is None
            &&& event.security_version == version + 1
            &&& next.revision == state.control.revision + 1
            &&& next.status != AccountStatus::Active
            &&& next.personas == state.control.personas
        },
        prior is Some ==> event_outcome(
            state,
            subject,
            version,
            prior,
            change,
            bank,
            event,
            facts,
        )->Ok_0 is None,
{
}

/// When a command is refused, and why. A command that was not decided before needs the signature of
/// a manager in the account's own product and the account's present revision; a key that is
/// registered has to be signed by itself, and a key that is to manage has to be active; one that was
/// decided before is answered again only if it is the same.
pub proof fn commands_are_refused_by_cause(
    state: StateModel,
    prior: Option<SignedAccountCommand>,
    signed: SignedAccountCommand,
    facts: KeyFacts,
)
    ensures
        ({
            let result = command_outcome(state, prior, signed, facts);
            let authentic = facts.signer is Ok && signed.product@.len() > 0 && signed.account.0 != 0
                && ed25519_accepts_strictly(
                facts.signer->Ok_0@,
                signed.statement(),
                signed.signature@,
            ) && state.product == signed.product@ && state.control.managers.contains(
                signed.operational_key.0,
            );
            let vouched = match signed.command {
                AccountCommand::GrantManager(_) => facts.grantee is Ok,
                AccountCommand::RegisterKey(key) => facts.registration is Ok
                    && ed25519_accepts_strictly(
                    key.key@,
                    key.statement(signed.account, signed.product@),
                    key.proof@,
                ),
                _ => true,
            };
            &&& !authentic ==> result is Err
            &&& result == Ok::<Option<ControlModel>, EngineError>(None) <==> authentic && prior
                is Some && prior->Some_0.alike(&signed)
            &&& prior is Some && result is Ok ==> result->Ok_0 is None
            &&& authentic && prior is Some && !prior->Some_0.alike(&signed) ==> result == Err::<
                Option<ControlModel>,
                EngineError,
            >(EngineError::DuplicateConflict)
            &&& authentic && prior is None && signed.expected_revision != state.control.revision
                ==> result == Err::<Option<ControlModel>, EngineError>(EngineError::VersionConflict)
            &&& prior is None ==> (result is Ok <==> authentic && signed.expected_revision
                == state.control.revision && vouched && state.control.applied(signed.command)
                is Ok)
            &&& prior is None && result is Ok ==> result->Ok_0 == Some(
                state.control.applied(signed.command)->Ok_0,
            )
        }),
{
}

/// When a security event takes effect: it is verified, about the account's own subject and product,
/// not applied before, and the next after the last applied one. A recovered device is one of the
/// account's personas' and alone manages the account afterwards; no other event changes who does.
pub proof fn events_take_effect_in_turn(
    state: StateModel,
    subject: Seq<char>,
    version: u64,
    prior: Option<SignedSecurityEvent>,
    change: Option<BankChangeModel>,
    bank: Option<BankVerification>,
    event: SignedSecurityEvent,
    facts: EventFacts,
    x: u128,
)
    requires
        event_outcome(state, subject, version, prior, change, bank, event, facts) is Ok,
    ensures
        ({
            let outcome = event_outcome(
                state,
                subject,
                version,
                prior,
                change,
                bank,
                event,
                facts,
            )->Ok_0;
            let (next, recovered) = outcome->Some_0;
            &&& facts.verified is Ok
            &&& subject == event.subject_ref@
            &&& state.product == event.product@
            &&& outcome is None <==> prior is Some
            &&& prior is Some ==> prior->Some_0.alike(&event)
            &&& outcome is Some ==> {
                &&& event.security_version == version + 1
                &&& next.revision == state.control.revision + 1
                &&& next.personas == state.control.personas
                &&& next.status == if state.control.status == AccountStatus::Closed {
                    AccountStatus::Closed
                } else {
                    AccountStatus::Suspended
                }
                &&& recovered is Some <==> event.change is RecoverDevice
                &&& recovered is Some ==> {
                    &&& facts.replacement is Ok
                    &&& state.control.personas.contains(recovered->Some_0.1.0)
                    &&& recovered->Some_0.0.0 != 0
                    &&& next.managers.contains(x) <==> x == recovered->Some_0.0.0
                }
                &&& recovered is None ==> next.managers == state.control.managers
                &&& event.change is RebindBank ==> {
                    &&& bank is Some && change is Some
                    &&& facts.bank_digest is Ok && facts.bank_digest->Ok_0 == event.bank_digest
                    &&& bank->Some_0.account == change->Some_0.account.bank.account
                    &&& bank->Some_0.verdict(change->Some_0.authority) is Ok
                    &&& change->Some_0.rebound is Ok
                    &&& change->Some_0.rebound->Ok_0.bank == bank->Some_0@
                    &&& change->Some_0.rebound->Ok_0.authority == change->Some_0.authority
                    &&& change->Some_0.rebound->Ok_0.bank.member
                        == change->Some_0.account.bank.member
                    &&& change->Some_0.maximum_unresolved > 0
                }
            }
        }),
{
}

} // verus!

//! Product lifecycle and explicitly granted management authority.

use super::account::AccountError;
use crate::bytes::{push_all, push_text, text_bytes, utf8};
use crate::crypto::{
    ed25519_accepts_strictly, ed25519_public, ed25519_signature, public_key, sign, verify_strict,
};
use crate::json::{
    json_bytes, json_number, json_string, push_byte_array, push_number, push_string,
};
use crate::maps::{add_member, count_members, drop_member, is_member};
use crate::primitives::ids::{AccountId, IdempotencyKey, OperationalKeyRef, ProtocolIdentity};
use crate::protocol::ActorRef;
use std::collections::BTreeSet;
use vstd::prelude::*;

verus! {

#[derive(Clone, Copy, Debug, PartialEq, Eq, Structural)]
pub enum AccountStatus {
    Active,
    Suspended,
    Closed,
}

impl AccountStatus {
    pub open spec fn json(self) -> Seq<u8> {
        match self {
            AccountStatus::Active => utf8("\"Active\""@),
            AccountStatus::Suspended => utf8("\"Suspended\""@),
            AccountStatus::Closed => utf8("\"Closed\""@),
        }
    }
}

#[derive(Debug, PartialEq, Eq)]
pub struct NewOperationalKey {
    pub reference: OperationalKeyRef,
    pub actor: ActorRef,
    pub key: [u8; 32],
    pub proof: Vec<u8>,
}

impl Clone for NewOperationalKey {
    fn clone(&self) -> (copy: Self)
        ensures
            copy.alike(self),
    {
        NewOperationalKey {
            reference: self.reference,
            actor: self.actor,
            key: self.key,
            proof: crate::bytes::copy_bytes(&self.proof),
        }
    }
}

impl NewOperationalKey {
    pub open spec fn alike(&self, other: &Self) -> bool {
        &&& self.reference == other.reference
        &&& self.actor == other.actor
        &&& self.key == other.key
        &&& self.proof@ == other.proof@
    }

    /// What the key signs to show that its holder has it.
    pub open spec fn statement(&self, account: AccountId, product: Seq<char>) -> Seq<u8> {
        utf8("[\"cs-mail/account-key-possession/v1\","@) + json_number(account.0 as nat) + utf8(
            ","@,
        ) + json_string(product) + utf8(","@) + json_number(self.reference.0 as nat) + utf8(","@)
            + self.actor.json() + utf8(","@) + json_bytes(self.key@) + utf8("]"@)
    }

    /// The key with its proof, as a JSON object.
    pub open spec fn json(&self) -> Seq<u8> {
        utf8("{\"reference\":"@) + json_number(self.reference.0 as nat) + utf8(",\"actor\":"@)
            + self.actor.json() + utf8(",\"key\":"@) + json_bytes(self.key@) + utf8(",\"proof\":"@)
            + json_bytes(self.proof@) + utf8("}"@)
    }

    fn bytes(&self, account: AccountId, product: &str) -> (bytes: Vec<u8>)
        ensures
            bytes@ == self.statement(account, product@),
    {
        let mut out = text_bytes("[\"cs-mail/account-key-possession/v1\",");
        push_number(&mut out, account.0);
        push_text(&mut out, ",");
        push_string(&mut out, product);
        push_text(&mut out, ",");
        push_number(&mut out, self.reference.0);
        push_text(&mut out, ",");
        push_all(&mut out, self.actor.json_bytes().as_slice());
        push_text(&mut out, ",");
        push_byte_array(&mut out, self.key.as_slice());
        push_text(&mut out, "]");
        out
    }

    fn json_bytes(&self) -> (bytes: Vec<u8>)
        ensures
            bytes@ == self.json(),
    {
        let mut out = text_bytes("{\"reference\":");
        push_number(&mut out, self.reference.0);
        push_text(&mut out, ",\"actor\":");
        push_all(&mut out, self.actor.json_bytes().as_slice());
        push_text(&mut out, ",\"key\":");
        push_byte_array(&mut out, self.key.as_slice());
        push_text(&mut out, ",\"proof\":");
        push_byte_array(&mut out, self.proof.as_slice());
        push_text(&mut out, "}");
        out
    }

    /// A key with proof of its possession; proving never fails.
    pub fn prove(
        account: AccountId,
        product: &str,
        reference: OperationalKeyRef,
        actor: ActorRef,
        secret: &[u8; 32],
    ) -> (result: Result<Self, AccountError>)
        ensures
            result matches Ok(key) && key.reference == reference && key.actor == actor && key.key@
                == ed25519_public(secret@) && key.proof@ == ed25519_signature(
                secret@,
                key.statement(account, product@),
            ),
    {
        let mut value = NewOperationalKey {
            reference,
            actor,
            key: public_key(secret),
            proof: Vec::new(),
        };
        let bytes = value.bytes(account, product);
        let ghost statement = value.statement(account, product@);
        value.proof = sign(secret, bytes.as_slice());
        assert(value.statement(account, product@) == statement);
        Ok(value)
    }

    /// Refuses malformed keys, signatures and substituted context.
    pub fn verify(&self, account: AccountId, product: &str) -> (result: Result<(), AccountError>)
        ensures
            result == (if ed25519_accepts_strictly(
                self.key@,
                self.statement(account, product@),
                self.proof@,
            ) {
                Ok(())
            } else {
                Err(AccountError::InvalidInput)
            }),
    {
        let bytes = self.bytes(account, product);
        if verify_strict(&self.key, bytes.as_slice(), self.proof.as_slice()) {
            Ok(())
        } else {
            Err(AccountError::InvalidInput)
        }
    }
}

#[derive(Debug, PartialEq, Eq)]
pub enum AccountCommand {
    RegisterKey(NewOperationalKey),
    SetStatus(AccountStatus),
    AddPersona(ProtocolIdentity),
    GrantManager(OperationalKeyRef),
    RevokeManager(OperationalKeyRef),
}

impl Clone for AccountCommand {
    fn clone(&self) -> (copy: Self)
        ensures
            copy.alike(self),
    {
        match self {
            AccountCommand::RegisterKey(key) => AccountCommand::RegisterKey(key.clone()),
            AccountCommand::SetStatus(status) => AccountCommand::SetStatus(*status),
            AccountCommand::AddPersona(persona) => AccountCommand::AddPersona(*persona),
            AccountCommand::GrantManager(key) => AccountCommand::GrantManager(*key),
            AccountCommand::RevokeManager(key) => AccountCommand::RevokeManager(*key),
        }
    }
}

impl AccountCommand {
    pub open spec fn alike(&self, other: &Self) -> bool {
        match (self, other) {
            (AccountCommand::RegisterKey(a), AccountCommand::RegisterKey(b)) => a.alike(b),
            (AccountCommand::SetStatus(a), AccountCommand::SetStatus(b)) => a == b,
            (AccountCommand::AddPersona(a), AccountCommand::AddPersona(b)) => a == b,
            (AccountCommand::GrantManager(a), AccountCommand::GrantManager(b)) => a == b,
            (AccountCommand::RevokeManager(a), AccountCommand::RevokeManager(b)) => a == b,
            _ => false,
        }
    }

    /// Whether two commands are the same.
    pub fn same(&self, other: &Self) -> (same: bool)
        ensures
            same == self.alike(other),
    {
        match (self, other) {
            (AccountCommand::RegisterKey(a), AccountCommand::RegisterKey(b)) => a.reference
                == b.reference && a.actor == b.actor && crate::bytes::same_32(&a.key, &b.key)
                && crate::bytes::same_bytes(a.proof.as_slice(), b.proof.as_slice()),
            (AccountCommand::SetStatus(a), AccountCommand::SetStatus(b)) => *a == *b,
            (AccountCommand::AddPersona(a), AccountCommand::AddPersona(b)) => *a == *b,
            (AccountCommand::GrantManager(a), AccountCommand::GrantManager(b)) => *a == *b,
            (AccountCommand::RevokeManager(a), AccountCommand::RevokeManager(b)) => *a == *b,
            _ => false,
        }
    }

    /// The command as a JSON object named after what it does.
    pub open spec fn json(&self) -> Seq<u8> {
        match self {
            AccountCommand::RegisterKey(key) => utf8("{\"RegisterKey\":"@) + key.json() + utf8(
                "}"@,
            ),
            AccountCommand::SetStatus(status) => utf8("{\"SetStatus\":"@) + status.json() + utf8(
                "}"@,
            ),
            AccountCommand::AddPersona(persona) => utf8("{\"AddPersona\":"@) + json_number(
                persona.0 as nat,
            ) + utf8("}"@),
            AccountCommand::GrantManager(key) => utf8("{\"GrantManager\":"@) + json_number(
                key.0 as nat,
            ) + utf8("}"@),
            AccountCommand::RevokeManager(key) => utf8("{\"RevokeManager\":"@) + json_number(
                key.0 as nat,
            ) + utf8("}"@),
        }
    }

    fn json_bytes(&self) -> (bytes: Vec<u8>)
        ensures
            bytes@ == self.json(),
    {
        match self {
            AccountCommand::RegisterKey(key) => {
                let mut out = text_bytes("{\"RegisterKey\":");
                push_all(&mut out, key.json_bytes().as_slice());
                push_text(&mut out, "}");
                out
            },
            AccountCommand::SetStatus(status) => {
                let mut out = text_bytes("{\"SetStatus\":");
                match status {
                    AccountStatus::Active => push_text(&mut out, "\"Active\""),
                    AccountStatus::Suspended => push_text(&mut out, "\"Suspended\""),
                    AccountStatus::Closed => push_text(&mut out, "\"Closed\""),
                }
                push_text(&mut out, "}");
                out
            },
            AccountCommand::AddPersona(persona) => {
                let mut out = text_bytes("{\"AddPersona\":");
                push_number(&mut out, persona.0);
                push_text(&mut out, "}");
                out
            },
            AccountCommand::GrantManager(key) => {
                let mut out = text_bytes("{\"GrantManager\":");
                push_number(&mut out, key.0);
                push_text(&mut out, "}");
                out
            },
            AccountCommand::RevokeManager(key) => {
                let mut out = text_bytes("{\"RevokeManager\":");
                push_number(&mut out, key.0);
                push_text(&mut out, "}");
                out
            },
        }
    }
}

#[derive(Debug, PartialEq, Eq)]
pub struct SignedAccountCommand {
    pub account: AccountId,
    pub operational_key: OperationalKeyRef,
    pub expected_revision: u64,
    pub idempotency_key: IdempotencyKey,
    pub product: String,
    pub command: AccountCommand,
    pub signature: Vec<u8>,
}

impl Clone for SignedAccountCommand {
    fn clone(&self) -> (copy: Self)
        ensures
            copy.alike(self),
    {
        SignedAccountCommand {
            account: self.account,
            operational_key: self.operational_key,
            expected_revision: self.expected_revision,
            idempotency_key: self.idempotency_key,
            product: self.product.clone(),
            command: self.command.clone(),
            signature: crate::bytes::copy_bytes(&self.signature),
        }
    }
}

impl SignedAccountCommand {
    pub open spec fn alike(&self, other: &Self) -> bool {
        &&& self.account == other.account
        &&& self.operational_key == other.operational_key
        &&& self.expected_revision == other.expected_revision
        &&& self.idempotency_key == other.idempotency_key
        &&& self.product@ == other.product@
        &&& self.command.alike(&other.command)
        &&& self.signature@ == other.signature@
    }

    /// Whether two signed commands are the same.
    pub fn same(&self, other: &Self) -> (same: bool)
        ensures
            same == self.alike(other),
    {
        self.account == other.account && self.operational_key == other.operational_key
            && self.expected_revision == other.expected_revision && self.idempotency_key
            == other.idempotency_key && self.product == other.product && self.command.same(
            &other.command,
        ) && crate::bytes::same_bytes(self.signature.as_slice(), other.signature.as_slice())
    }

    /// The command names a product and an account.
    pub open spec fn addressed(&self) -> bool {
        self.product@.len() != 0 && self.account.0 != 0
    }

    /// What a manager signs: everything but the signature, as a JSON array.
    pub open spec fn statement(&self) -> Seq<u8> {
        utf8("[\"cs-mail/product-account-command/v1\","@) + json_number(self.account.0 as nat)
            + utf8(","@) + json_number(self.operational_key.0 as nat) + utf8(","@) + json_number(
            self.expected_revision as nat,
        ) + utf8(","@) + json_number(self.idempotency_key.0 as nat) + utf8(","@) + json_string(
            self.product@,
        ) + utf8(","@) + self.command.json() + utf8("]"@)
    }

    fn bytes(&self) -> (result: Result<Vec<u8>, AccountError>)
        ensures
            if self.addressed() {
                result matches Ok(bytes) && bytes@ == self.statement()
            } else {
                result == Err::<Vec<u8>, AccountError>(AccountError::InvalidInput)
            },
    {
        if self.product.as_str().is_empty() || self.account.0 == 0 {
            return Err(AccountError::InvalidInput);
        }
        let mut out = text_bytes("[\"cs-mail/product-account-command/v1\",");
        push_number(&mut out, self.account.0);
        push_text(&mut out, ",");
        push_number(&mut out, self.operational_key.0);
        push_text(&mut out, ",");
        push_number(&mut out, self.expected_revision as u128);
        push_text(&mut out, ",");
        push_number(&mut out, self.idempotency_key.0);
        push_text(&mut out, ",");
        push_string(&mut out, self.product.as_str());
        push_text(&mut out, ",");
        push_all(&mut out, self.command.json_bytes().as_slice());
        push_text(&mut out, "]");
        Ok(out)
    }

    /// Signs the command. Invalid context is refused.
    pub fn sign(self, secret: &[u8; 32]) -> (result: Result<Self, AccountError>)
        ensures
            if self.addressed() {
                result matches Ok(signed) && signed.account == self.account
                    && signed.operational_key == self.operational_key && signed.expected_revision
                    == self.expected_revision && signed.idempotency_key == self.idempotency_key
                    && signed.product == self.product && signed.command == self.command
                    && signed.signature@ == ed25519_signature(secret@, self.statement())
            } else {
                result == Err::<Self, AccountError>(AccountError::InvalidInput)
            },
    {
        let bytes = match self.bytes() {
            Ok(bytes) => bytes,
            Err(e) => return Err(e),
        };
        let mut signed = self;
        signed.signature = sign(secret, bytes.as_slice());
        Ok(signed)
    }

    /// Refuses malformed keys, signatures and substituted context.
    pub fn verify(&self, key: &[u8; 32]) -> (result: Result<(), AccountError>)
        ensures
            result == (if self.addressed() && ed25519_accepts_strictly(
                key@,
                self.statement(),
                self.signature@,
            ) {
                Ok(())
            } else {
                Err(AccountError::InvalidInput)
            }),
    {
        let bytes = match self.bytes() {
            Ok(bytes) => bytes,
            Err(e) => return Err(e),
        };
        if verify_strict(key, bytes.as_slice(), self.signature.as_slice()) {
            Ok(())
        } else {
            Err(AccountError::InvalidInput)
        }
    }
}

#[derive(Debug, PartialEq, Eq)]
pub struct AccountControl {
    pub status: AccountStatus,
    pub revision: u64,
    pub personas: BTreeSet<u128>,
    pub managers: BTreeSet<u128>,
}

pub ghost struct ControlModel {
    pub status: AccountStatus,
    pub revision: u64,
    pub personas: Set<u128>,
    pub managers: Set<u128>,
}

impl View for AccountControl {
    type V = ControlModel;

    open spec fn view(&self) -> ControlModel {
        ControlModel {
            status: self.status,
            revision: self.revision,
            personas: self.personas@,
            managers: self.managers@,
        }
    }
}

impl Clone for AccountControl {
    fn clone(&self) -> (copy: Self)
        ensures
            copy@ == self@,
    {
        AccountControl {
            status: self.status,
            revision: self.revision,
            personas: self.personas.clone(),
            managers: self.managers.clone(),
        }
    }
}

impl ControlModel {
    /// An account always has a persona and a manager, each identified.
    pub open spec fn sound(self) -> bool {
        &&& self.personas.finite() && self.managers.finite()
        &&& self.personas.len() > 0
        &&& !self.personas.contains(0)
        &&& self.managers.len() > 0
        &&& !self.managers.contains(0)
    }

    /// The account after a security change, or why there is none.
    pub open spec fn secured(self, replacement: Option<OperationalKeyRef>) -> Result<
        Self,
        AccountError,
    > {
        if (replacement matches Some(key) && key.0 == 0) || self.revision == u64::MAX {
            Err(AccountError::InvalidInput)
        } else {
            Ok(
                ControlModel {
                    revision: (self.revision + 1) as u64,
                    status: if self.status == AccountStatus::Closed {
                        AccountStatus::Closed
                    } else {
                        AccountStatus::Suspended
                    },
                    managers: match replacement {
                        Some(key) => Set::empty().insert(key.0),
                        None => self.managers,
                    },
                    ..self
                },
            )
        }
    }

    /// The account after a command, before its revision is counted.
    pub open spec fn commanded(self, command: AccountCommand) -> Option<Self> {
        let active = self.status == AccountStatus::Active;
        match command {
            AccountCommand::RegisterKey(key) => if active && key.reference.0 != 0 && (
            key.actor.acting_persona() matches Some(persona) && self.personas.contains(persona.0)) {
                Some(self)
            } else {
                None
            },
            AccountCommand::SetStatus(status) => Some(ControlModel { status, ..self }),
            AccountCommand::AddPersona(persona) => if active && persona.0 != 0
                && !self.personas.contains(persona.0) {
                Some(ControlModel { personas: self.personas.insert(persona.0), ..self })
            } else {
                None
            },
            AccountCommand::GrantManager(key) => if active && key.0 != 0 && !self.managers.contains(
                key.0,
            ) {
                Some(ControlModel { managers: self.managers.insert(key.0), ..self })
            } else {
                None
            },
            AccountCommand::RevokeManager(key) => if self.managers.len() > 1
                && self.managers.contains(key.0) {
                Some(ControlModel { managers: self.managers.remove(key.0), ..self })
            } else {
                None
            },
        }
    }

    /// The account after a command, or why there is none.
    pub open spec fn applied(self, command: AccountCommand) -> Result<Self, AccountError> {
        if self.status == AccountStatus::Closed || self.revision == u64::MAX {
            Err(AccountError::InvalidInput)
        } else {
            match self.commanded(command) {
                None => Err(AccountError::InvalidInput),
                Some(next) => Ok(ControlModel { revision: (self.revision + 1) as u64, ..next }),
            }
        }
    }
}

fn single(member: u128) -> (set: BTreeSet<u128>)
    ensures
        set@ == Set::<u128>::empty().insert(member),
{
    let mut set: BTreeSet<u128> = BTreeSet::new();
    add_member(&mut set, member);
    set
}

impl AccountControl {
    /// Refuses empty persona or manager identifiers.
    pub fn new(persona: ProtocolIdentity, manager: OperationalKeyRef) -> (result: Result<
        Self,
        AccountError,
    >)
        ensures
            if persona.0 == 0 || manager.0 == 0 {
                result == Err::<Self, AccountError>(AccountError::InvalidInput)
            } else {
                result matches Ok(control) && control@ == (ControlModel {
                    status: AccountStatus::Active,
                    revision: 0,
                    personas: Set::empty().insert(persona.0),
                    managers: Set::empty().insert(manager.0),
                }) && control@.sound()
            },
    {
        if persona.0 == 0 || manager.0 == 0 {
            return Err(AccountError::InvalidInput);
        }
        Ok(
            AccountControl {
                status: AccountStatus::Active,
                revision: 0,
                personas: single(persona.0),
                managers: single(manager.0),
            },
        )
    }

    /// Takes a stored account back in, if it has personas and managers, each identified.
    pub fn restore(
        status: AccountStatus,
        revision: u64,
        personas: BTreeSet<u128>,
        managers: BTreeSet<u128>,
    ) -> (result: Result<Self, AccountError>)
        ensures
            ({
                let valid = personas@.len() > 0 && !personas@.contains(0) && managers@.len() > 0
                    && !managers@.contains(0);
                if valid {
                    result matches Ok(control) && control@ == (ControlModel {
                        status,
                        revision,
                        personas: personas@,
                        managers: managers@,
                    })
                } else {
                    result == Err::<Self, AccountError>(AccountError::InvalidInput)
                }
            }),
    {
        if count_members(&personas) == 0 || is_member(&personas, 0) || count_members(&managers) == 0
            || is_member(&managers, 0) {
            return Err(AccountError::InvalidInput);
        }
        Ok(AccountControl { status, revision, personas, managers })
    }

    pub fn status(&self) -> (status: AccountStatus)
        ensures
            status == self@.status,
    {
        self.status
    }

    pub fn revision(&self) -> (revision: u64)
        ensures
            revision == self@.revision,
    {
        self.revision
    }

    /// The numbers of the account's personas.
    pub fn personas(&self) -> (personas: &BTreeSet<u128>)
        ensures
            personas@ == self@.personas,
    {
        &self.personas
    }

    pub fn is_manager(&self, key: OperationalKeyRef) -> (manager: bool)
        ensures
            manager == self@.managers.contains(key.0),
    {
        is_member(&self.managers, key.0)
    }

    pub fn allows_service(&self) -> (allowed: bool)
        ensures
            allowed == (self@.status == AccountStatus::Active),
    {
        matches!(self.status, AccountStatus::Active)
    }

    /// Used only after the application verifies an ordered identity-security event. Invalid
    /// replacement authority and revision overflow are refused.
    pub fn apply_security_change(&mut self, replacement_manager: Option<OperationalKeyRef>) -> (result:
        Result<(), AccountError>)
        ensures
            match old(self)@.secured(replacement_manager) {
                Ok(next) => result is Ok && final(self)@ == next,
                Err(e) => result == Err::<(), AccountError>(e) && *final(self) == *old(self),
            },
            old(self)@.sound() ==> final(self)@.sound(),
    {
        match replacement_manager {
            Some(key) => {
                if key.0 == 0 {
                    return Err(AccountError::InvalidInput);
                }
            },
            None => {},
        }
        match self.revision.checked_add(1) {
            Some(next) => {
                self.revision = next;
            },
            None => return Err(AccountError::InvalidInput),
        }
        if self.status != AccountStatus::Closed {
            self.status = AccountStatus::Suspended;
        }
        match replacement_manager {
            Some(key) => {
                self.managers = single(key.0);
            },
            None => {},
        }
        Ok(())
    }

    /// Pure transition; the application verifies signature, ownership and revision first. Invalid
    /// lifecycle or authority transitions and revision overflow are refused, and then nothing
    /// changes.
    pub fn apply(&mut self, command: &AccountCommand) -> (result: Result<(), AccountError>)
        ensures
            match old(self)@.applied(*command) {
                Ok(next) => result is Ok && final(self)@ == next,
                Err(e) => result == Err::<(), AccountError>(e) && final(self)@ == old(self)@,
            },
            old(self)@.sound() ==> final(self)@.sound(),
    {
        if self.status == AccountStatus::Closed || self.revision == u64::MAX {
            return Err(AccountError::InvalidInput);
        }
        match command {
            AccountCommand::RegisterKey(key) => {
                let own = match key.actor.persona() {
                    Some(persona) => is_member(&self.personas, persona.0),
                    None => false,
                };
                if !self.allows_service() || key.reference.0 == 0 || !own {
                    return Err(AccountError::InvalidInput);
                }
            },
            AccountCommand::SetStatus(status) => {
                self.status = *status;
            },
            AccountCommand::AddPersona(persona) => {
                if !self.allows_service() || persona.0 == 0 || is_member(
                    &self.personas,
                    persona.0,
                ) {
                    return Err(AccountError::InvalidInput);
                }
                add_member(&mut self.personas, persona.0);
            },
            AccountCommand::GrantManager(key) => {
                if !self.allows_service() || key.0 == 0 || is_member(&self.managers, key.0) {
                    return Err(AccountError::InvalidInput);
                }
                add_member(&mut self.managers, key.0);
            },
            AccountCommand::RevokeManager(key) => {
                if count_members(&self.managers) <= 1 || !is_member(&self.managers, key.0) {
                    return Err(AccountError::InvalidInput);
                }
                drop_member(&mut self.managers, key.0);
            },
        }
        self.revision = self.revision + 1;
        Ok(())
    }
}

/// Closing is final: no command and no security change reopens an account.
pub proof fn closing_is_final(
    control: ControlModel,
    command: AccountCommand,
    replacement: Option<OperationalKeyRef>,
)
    requires
        control.status == AccountStatus::Closed,
    ensures
        control.applied(command) is Err,
        control.secured(replacement) matches Ok(next) ==> next.status == AccountStatus::Closed,
{
}

/// No command takes away the last manager, and every change counts the revision on by one.
pub proof fn accounts_keep_a_manager(control: ControlModel, command: AccountCommand)
    requires
        control.sound(),
        control.applied(command) is Ok,
    ensures
        control.applied(command)->Ok_0.sound(),
        control.applied(command)->Ok_0.revision == control.revision + 1,
{
}

/// A security change suspends service, and a replaced manager alone has authority afterwards.
pub proof fn security_changes_suspend(control: ControlModel, key: OperationalKeyRef)
    requires
        control.secured(Some(key)) is Ok,
    ensures
        ({
            let next = control.secured(Some(key))->Ok_0;
            &&& next.status != AccountStatus::Active
            &&& next.managers == Set::<u128>::empty().insert(key.0)
        }),
{
}

/// What each command does to an account that is not closed, and when. Keys are registered for one
/// of the account's own personas; personas and managers are added to an active account, each once;
/// a manager is removed as long as another is left; and a status is set as it is asked for.
pub proof fn commands_do_one_thing(control: ControlModel, command: AccountCommand, x: u128)
    ensures
        ({
            let result = control.applied(command);
            let next = result->Ok_0;
            let active = control.status == AccountStatus::Active;
            let fitting = match command {
                AccountCommand::RegisterKey(key) => active && key.reference.0 != 0
                    && key.actor.acting_persona() is Some && control.personas.contains(
                    key.actor.acting_persona()->Some_0.0,
                ),
                AccountCommand::SetStatus(_) => true,
                AccountCommand::AddPersona(persona) => active && persona.0 != 0
                    && !control.personas.contains(persona.0),
                AccountCommand::GrantManager(key) => active && key.0 != 0
                    && !control.managers.contains(key.0),
                AccountCommand::RevokeManager(key) => control.managers.contains(key.0)
                    && control.managers.len() > 1,
            };
            &&& result is Ok <==> control.status != AccountStatus::Closed && fitting
                && control.revision < u64::MAX
            &&& result is Err ==> result == Err::<ControlModel, AccountError>(
                AccountError::InvalidInput,
            )
            &&& result is Ok ==> {
                &&& next.revision == control.revision + 1
                &&& next.status == match command {
                    AccountCommand::SetStatus(status) => status,
                    _ => control.status,
                }
                &&& next.personas.contains(x) <==> control.personas.contains(x) || match command {
                    AccountCommand::AddPersona(persona) => x == persona.0,
                    _ => false,
                }
                &&& next.managers.contains(x) <==> match command {
                    AccountCommand::GrantManager(key) => control.managers.contains(x) || x == key.0,
                    AccountCommand::RevokeManager(key) => control.managers.contains(x) && x
                        != key.0,
                    _ => control.managers.contains(x),
                }
            }
        }),
{
}

/// A security change suspends an account that is not closed, leaves a closed one closed, keeps its
/// personas, and leaves either the managers it had or, where a key replaces them, that key alone.
pub proof fn security_changes_replace_managers(
    control: ControlModel,
    replacement: Option<OperationalKeyRef>,
    x: u128,
)
    ensures
        ({
            let result = control.secured(replacement);
            let next = result->Ok_0;
            &&& result is Ok <==> control.revision < u64::MAX && (replacement is None
                || replacement->Some_0.0 != 0)
            &&& result is Ok ==> {
                &&& next.revision == control.revision + 1
                &&& next.status != AccountStatus::Active
                &&& next.status == AccountStatus::Closed <==> control.status
                    == AccountStatus::Closed
                &&& next.personas == control.personas
                &&& next.managers.contains(x) <==> if replacement is Some {
                    x == replacement->Some_0.0
                } else {
                    control.managers.contains(x)
                }
            }
        }),
{
}

} // verus!

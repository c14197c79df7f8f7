//! Deterministic, explicitly scoped consent. Authentication is supplied by the application.

use crate::bytes::{is_zero_32, utf8, zero_32};
use crate::content::certificate::EndpointPublicKey;
use crate::maps::{is_member, members_of};
use crate::primitives::amounts::CanonicalTime;
use crate::primitives::ids::{AccountId, MessageId, OperationalKeyRef, ProtocolIdentity};
use std::collections::BTreeSet;
use vstd::prelude::*;

verus! {

/// The most messages that one grant covers.
pub const MAX_SCOPE_MESSAGES: usize = 100;

/// The longest that a grant lasts, in milliseconds.
pub const MAX_GRANT_LIFETIME_MS: u64 = 86_400_000;

#[derive(Clone, Copy, Debug, PartialEq, Eq, Structural)]
pub enum ConsentError {
    Invalid,
    Unauthorized,
    ScopeDenied,
    Expired,
    Revoked,
    Unavailable,
    Conflict,
}

/// The identifier of a grant, never zero.
#[derive(Clone, Copy, Debug, PartialEq, Eq, Structural)]
pub struct GrantId(pub u128);

impl GrantId {
    /// Refuses an empty identifier.
    pub fn new(value: u128) -> (result: Result<Self, ConsentError>)
        ensures
            result == (if value == 0 {
                Err(ConsentError::Invalid)
            } else {
                Ok(GrantId(value))
            }),
    {
        if value == 0 {
            Err(ConsentError::Invalid)
        } else {
            Ok(GrantId(value))
        }
    }

    pub fn value(self) -> (value: u128)
        ensures
            value == self.0,
    {
        self.0
    }
}

/// The messages that a grant covers: at least one, at most a hundred, each identified.
#[derive(Debug, PartialEq, Eq)]
pub struct ContentScope(BTreeSet<u128>);

/// Messages that a grant can cover.
pub open spec fn valid_scope(messages: Set<u128>) -> bool {
    &&& 1 <= messages.len() <= MAX_SCOPE_MESSAGES
    &&& !messages.contains(0)
}

impl ContentScope {
    pub closed spec fn covered(&self) -> Set<u128> {
        self.0@
    }

    #[verifier::type_invariant]
    spec fn well_formed(self) -> bool {
        valid_scope(self.covered())
    }

    /// Refuses an empty scope, too large a scope, and unidentified messages.
    pub fn new(messages: BTreeSet<u128>) -> (result: Result<Self, ConsentError>)
        ensures
            result is Ok <==> valid_scope(messages@),
            result matches Ok(scope) ==> scope.covered() == messages@,
            result matches Err(e) ==> e == ConsentError::Invalid,
    {
        let list = members_of(&messages);
        proof {
            list@.unique_seq_to_set();
        }
        if list.len() == 0 || list.len() > MAX_SCOPE_MESSAGES || is_member(&messages, 0) {
            return Err(ConsentError::Invalid);
        }
        Ok(ContentScope(messages))
    }

    /// The numbers of the messages that are covered.
    pub fn messages(&self) -> (messages: &BTreeSet<u128>)
        ensures
            messages@ == self.covered(),
            valid_scope(self.covered()),
    {
        proof {
            use_type_invariant(self);
        }
        &self.0
    }
}

impl Clone for ContentScope {
    fn clone(&self) -> (copy: Self)
        ensures
            copy.covered() == self.covered(),
    {
        proof {
            use_type_invariant(self);
        }
        ContentScope(self.0.clone())
    }
}

#[derive(Debug, PartialEq, Eq)]
pub enum DecryptionPurpose {
    Display,
    CsqdProcessing { operation: String },
}

impl Clone for DecryptionPurpose {
    fn clone(&self) -> (copy: Self)
        ensures
            copy == *self,
    {
        match self {
            DecryptionPurpose::Display => DecryptionPurpose::Display,
            DecryptionPurpose::CsqdProcessing { operation } => DecryptionPurpose::CsqdProcessing {
                operation: operation.clone(),
            },
        }
    }
}

/// A letter, a digit, a dot, an underscore or a hyphen.
pub open spec fn operation_byte(b: u8) -> bool {
    (0x61 <= b <= 0x7a) || (0x41 <= b <= 0x5a) || (0x30 <= b <= 0x39) || b == 0x2e || b == 0x5f || b
        == 0x2d
}

/// The name of a processing operation.
pub open spec fn valid_operation(name: Seq<u8>) -> bool {
    &&& 1 <= name.len() <= 64
    &&& forall|i: int| 0 <= i < name.len() ==> operation_byte(#[trigger] name[i])
}

impl DecryptionPurpose {
    pub open spec fn valid(&self) -> bool {
        self matches DecryptionPurpose::CsqdProcessing { operation } ==> valid_operation(
            utf8(operation@),
        )
    }

    pub open spec fn alike(&self, other: &Self) -> bool {
        match (self, other) {
            (DecryptionPurpose::Display, DecryptionPurpose::Display) => true,
            (
                DecryptionPurpose::CsqdProcessing { operation: a },
                DecryptionPurpose::CsqdProcessing { operation: b },
            ) => a@ == b@,
            _ => false,
        }
    }

    /// Requires a bounded explicit processing operation, never a wildcard purpose.
    pub fn validate(&self) -> (result: Result<(), ConsentError>)
        ensures
            result == (if self.valid() {
                Ok(())
            } else {
                Err(ConsentError::Invalid)
            }),
    {
        match self {
            DecryptionPurpose::Display => Ok(()),
            DecryptionPurpose::CsqdProcessing { operation } => {
                let bytes = operation.as_str().as_bytes();
                if bytes.len() == 0 || bytes.len() > 64 {
                    return Err(ConsentError::Invalid);
                }
                let mut i: usize = 0;
                while i < bytes.len()
                    invariant
                        bytes@ == utf8(operation@),
                        0 <= i <= bytes@.len(),
                        *self == (DecryptionPurpose::CsqdProcessing { operation: *operation }),
                        forall|j: int| 0 <= j < i ==> operation_byte(#[trigger] bytes@[j]),
                    decreases bytes@.len() - i,
                {
                    let b = bytes[i];
                    if !((0x61 <= b && b <= 0x7a) || (0x41 <= b && b <= 0x5a) || (0x30 <= b && b
                        <= 0x39) || b == 0x2e || b == 0x5f || b == 0x2d) {
                        assert(!operation_byte(bytes@[i as int]));
                        return Err(ConsentError::Invalid);
                    }
                    i += 1;
                }
                Ok(())
            },
        }
    }

    /// Whether two purposes are the same.
    pub fn same(&self, other: &Self) -> (same: bool)
        ensures
            same == self.alike(other),
    {
        match (self, other) {
            (DecryptionPurpose::Display, DecryptionPurpose::Display) => true,
            (
                DecryptionPurpose::CsqdProcessing { operation: a },
                DecryptionPurpose::CsqdProcessing { operation: b },
            ) => *a == *b,
            _ => false,
        }
    }
}

#[derive(Clone, Copy, Debug, PartialEq, Eq, Structural)]
pub enum DecryptionActor {
    UserDevice(OperationalKeyRef),
    CsqdProcessor(OperationalKeyRef),
}

#[derive(Debug, PartialEq, Eq)]
pub struct GrantUse {
    pub actor: DecryptionActor,
    pub purpose: DecryptionPurpose,
    pub destination: EndpointPublicKey,
}

impl Clone for GrantUse {
    fn clone(&self) -> (copy: Self)
        ensures
            copy == *self,
    {
        GrantUse {
            actor: self.actor,
            purpose: self.purpose.clone(),
            destination: self.destination,
        }
    }
}

impl GrantUse {
    /// Devices display and processors process, each with a key, to a key.
    pub open spec fn valid(&self) -> bool {
        &&& self.purpose.valid()
        &&& match self.actor {
            DecryptionActor::UserDevice(key) => self.purpose is Display && key.0 != 0,
            DecryptionActor::CsqdProcessor(key) => self.purpose is CsqdProcessing && key.0 != 0,
        }
        &&& self.destination.reference.0 != 0
        &&& !zero_32(self.destination.bytes)
    }

    /// Refuses mixed display/processor roles and empty key identities.
    pub fn validate(&self) -> (result: Result<(), ConsentError>)
        ensures
            result == (if self.valid() {
                Ok(())
            } else {
                Err(ConsentError::Invalid)
            }),
    {
        match self.purpose.validate() {
            Ok(()) => {},
            Err(e) => return Err(e),
        }
        let key = match (&self.actor, &self.purpose) {
            (DecryptionActor::UserDevice(key), DecryptionPurpose::Display) => *key,
            (DecryptionActor::CsqdProcessor(key), DecryptionPurpose::CsqdProcessing { .. }) => *key,
            _ => return Err(ConsentError::Invalid),
        };
        if key.0 == 0 || self.destination.reference.0 == 0 || is_zero_32(&self.destination.bytes) {
            return Err(ConsentError::Invalid);
        }
        Ok(())
    }

    pub open spec fn alike(&self, other: &Self) -> bool {
        self.actor == other.actor && self.purpose.alike(&other.purpose) && self.destination
            == other.destination
    }

    /// Whether two uses are the same.
    pub fn same(&self, other: &Self) -> (same: bool)
        ensures
            same == self.alike(other),
    {
        self.actor == other.actor && self.purpose.same(&other.purpose) && self.destination.same(
            &other.destination,
        )
    }
}

#[derive(Clone, Copy, Debug, PartialEq, Eq, Structural)]
pub enum GrantState {
    Active,
    Revoked { at: CanonicalTime },
}

#[derive(Clone, Copy, Debug, PartialEq, Eq, Structural)]
pub enum GrantStatus {
    Active,
    Expired,
    Revoked,
}

#[derive(Debug, PartialEq, Eq)]
pub struct GrantTerms {
    pub id: GrantId,
    pub account: AccountId,
    pub persona: ProtocolIdentity,
    pub issuer: OperationalKeyRef,
    pub scope: ContentScope,
    pub usage: GrantUse,
    pub issued_at: CanonicalTime,
    pub expires_at: CanonicalTime,
}

impl Clone for GrantTerms {
    fn clone(&self) -> (copy: Self)
        ensures
            copy.alike(self),
    {
        GrantTerms {
            id: self.id,
            account: self.account,
            persona: self.persona,
            issuer: self.issuer,
            scope: self.scope.clone(),
            usage: self.usage.clone(),
            issued_at: self.issued_at,
            expires_at: self.expires_at,
        }
    }
}

impl GrantTerms {
    pub open spec fn alike(&self, other: &Self) -> bool {
        &&& self.id == other.id
        &&& self.account == other.account
        &&& self.persona == other.persona
        &&& self.issuer == other.issuer
        &&& self.scope.covered() == other.scope.covered()
        &&& self.usage == other.usage
        &&& self.issued_at == other.issued_at
        &&& self.expires_at == other.expires_at
    }

    /// Terms that a grant can have: identified parties, a bounded lifetime, and for a device's own
    /// use the device itself as issuer.
    pub open spec fn valid(&self) -> bool {
        &&& self.usage.valid()
        &&& self.account.0 != 0
        &&& self.persona.0 != 0
        &&& self.issuer.0 != 0
        &&& self.issued_at.0 < self.expires_at.0
        &&& self.expires_at.0 - self.issued_at.0 <= MAX_GRANT_LIFETIME_MS
        &&& self.usage.actor matches DecryptionActor::UserDevice(key) ==> key == self.issuer
    }
}

/// A revocation does not precede the grant.
pub open spec fn state_fits(terms: GrantTerms, state: GrantState) -> bool {
    state matches GrantState::Revoked { at } ==> at.0 >= terms.issued_at.0
}

/// A grant with valid terms, active or revoked since.
#[derive(Debug, PartialEq, Eq)]
pub struct DecryptionGrant {
    terms: GrantTerms,
    state: GrantState,
}

pub ghost struct GrantModel {
    pub id: GrantId,
    pub account: AccountId,
    pub persona: ProtocolIdentity,
    pub issuer: OperationalKeyRef,
    pub scope: Set<u128>,
    pub usage: GrantUse,
    pub issued_at: CanonicalTime,
    pub expires_at: CanonicalTime,
    pub state: GrantState,
}

impl GrantTerms {
    /// A grant on these terms.
    pub open spec fn grant(&self, state: GrantState) -> GrantModel {
        GrantModel {
            id: self.id,
            account: self.account,
            persona: self.persona,
            issuer: self.issuer,
            scope: self.scope.covered(),
            usage: self.usage,
            issued_at: self.issued_at,
            expires_at: self.expires_at,
            state,
        }
    }
}

impl View for DecryptionGrant {
    type V = GrantModel;

    open spec fn view(&self) -> GrantModel {
        self.granted().grant(self.standing())
    }
}

impl DecryptionGrant {
    pub closed spec fn granted(&self) -> GrantTerms {
        self.terms
    }

    pub closed spec fn standing(&self) -> GrantState {
        self.state
    }

    #[verifier::type_invariant]
    spec fn well_formed(self) -> bool {
        self.granted().valid() && state_fits(self.granted(), self.standing())
    }

    /// The status of the grant at a time.
    pub open spec fn status(&self, now: CanonicalTime) -> GrantStatus {
        if self.standing() is Revoked {
            GrantStatus::Revoked
        } else if now.0 >= self.granted().expires_at.0 {
            GrantStatus::Expired
        } else {
            GrantStatus::Active
        }
    }

    /// Whether the grant lets an actor read a message for a purpose, and if not, why.
    pub open spec fn authorization(
        &self,
        actor: DecryptionActor,
        purpose: DecryptionPurpose,
        message: MessageId,
        now: CanonicalTime,
    ) -> Result<(), ConsentError> {
        if now.0 < self.granted().issued_at.0 {
            Err(ConsentError::Unauthorized)
        } else if self.status(now) == GrantStatus::Expired {
            Err(ConsentError::Expired)
        } else if self.status(now) == GrantStatus::Revoked {
            Err(ConsentError::Revoked)
        } else if self.granted().usage.actor != actor || !self.granted().usage.purpose.alike(
            &purpose,
        ) || !self.granted().scope.covered().contains(message.0) {
            Err(ConsentError::ScopeDenied)
        } else {
            Ok(())
        }
    }

    /// Takes a grant back in with its state. Checks ownership identifiers, recipient role, bounded
    /// lifetime and the time of revocation.
    pub fn restore(terms: GrantTerms, state: GrantState) -> (result: Result<Self, ConsentError>)
        ensures
            result is Ok <==> terms.valid() && state_fits(terms, state),
            result matches Ok(grant) ==> grant.granted() == terms && grant.standing() == state,
            result matches Err(e) ==> e == ConsentError::Invalid,
    {
        match terms.usage.validate() {
            Ok(()) => {},
            Err(e) => return Err(e),
        }
        let late = match state {
            GrantState::Revoked { at } => at.0 < terms.issued_at.0,
            GrantState::Active => false,
        };
        let foreign = match terms.usage.actor {
            DecryptionActor::UserDevice(key) => key != terms.issuer,
            DecryptionActor::CsqdProcessor(_) => false,
        };
        if terms.account.0 == 0 || terms.persona.0 == 0 || terms.issuer.0 == 0
            || terms.expires_at.0 <= terms.issued_at.0 || terms.expires_at.0 - terms.issued_at.0
            > MAX_GRANT_LIFETIME_MS || late || foreign {
            return Err(ConsentError::Invalid);
        }
        Ok(DecryptionGrant { terms, state })
    }

    /// Issues a grant. Checks ownership identifiers, recipient role, scope and bounded lifetime.
    pub fn issue(terms: GrantTerms) -> (result: Result<Self, ConsentError>)
        ensures
            result is Ok <==> terms.valid(),
            result matches Ok(grant) ==> grant.granted() == terms && grant.standing()
                == GrantState::Active,
            result matches Err(e) ==> e == ConsentError::Invalid,
    {
        Self::restore(terms, GrantState::Active)
    }

    pub fn terms(&self) -> (terms: &GrantTerms)
        ensures
            *terms == self.granted(),
            self.granted().valid(),
    {
        proof {
            use_type_invariant(self);
        }
        &self.terms
    }

    pub fn state(&self) -> (state: GrantState)
        ensures
            state == self.standing(),
    {
        self.state
    }

    pub fn status_at(&self, now: CanonicalTime) -> (status: GrantStatus)
        ensures
            status == self.status(now),
    {
        if matches!(self.state, GrantState::Revoked { .. }) {
            GrantStatus::Revoked
        } else if now.0 >= self.terms.expires_at.0 {
            GrantStatus::Expired
        } else {
            GrantStatus::Active
        }
    }

    /// The grant revoked. Time before issue is refused. Repeated revocation preserves the first
    /// fact.
    pub fn revoke(&self, at: CanonicalTime) -> (result: Result<Self, ConsentError>)
        ensures
            at.0 < self.granted().issued_at.0 ==> result == Err::<Self, ConsentError>(
                ConsentError::Invalid,
            ),
            at.0 >= self.granted().issued_at.0 ==> (result matches Ok(grant)
                && grant.granted().alike(&self.granted()) && grant.standing()
                == self.revoked_state(at)),
    {
        proof {
            use_type_invariant(self);
        }
        if at.0 < self.terms.issued_at.0 {
            return Err(ConsentError::Invalid);
        }
        let state = match self.state {
            GrantState::Active => GrantState::Revoked { at },
            GrantState::Revoked { at: first } => GrantState::Revoked { at: first },
        };
        Ok(DecryptionGrant { terms: self.terms.clone(), state })
    }

    /// The state after a revocation: the first one stands.
    pub open spec fn revoked_state(&self, at: CanonicalTime) -> GrantState {
        match self.standing() {
            GrantState::Active => GrantState::Revoked { at },
            GrantState::Revoked { at: first } => GrantState::Revoked { at: first },
        }
    }

    /// Consent cannot confer content entitlement: the application checks retained copies
    /// separately.
    pub fn authorize(
        &self,
        actor: DecryptionActor,
        purpose: &DecryptionPurpose,
        message: MessageId,
        now: CanonicalTime,
    ) -> (result: Result<(), ConsentError>)
        ensures
            result == self.authorization(actor, *purpose, message, now),
    {
        if now.0 < self.terms.issued_at.0 {
            return Err(ConsentError::Unauthorized);
        }
        match self.status_at(now) {
            GrantStatus::Expired => return Err(ConsentError::Expired),
            GrantStatus::Revoked => return Err(ConsentError::Revoked),
            GrantStatus::Active => {},
        }
        if self.terms.usage.actor != actor || !self.terms.usage.purpose.same(purpose) || !is_member(
            self.terms.scope.messages(),
            message.0,
        ) {
            return Err(ConsentError::ScopeDenied);
        }
        Ok(())
    }
}

impl Clone for DecryptionGrant {
    fn clone(&self) -> (copy: Self)
        ensures
            copy.granted().alike(&self.granted()),
            copy.standing() == self.standing(),
            copy@ == self@,
    {
        proof {
            use_type_invariant(self);
        }
        DecryptionGrant { terms: self.terms.clone(), state: self.state }
    }
}

/// Consent ends: after revocation or expiry, and before issue, nothing is authorized; and nothing
/// outside the granted scope ever is.
pub proof fn consent_ends(
    grant: DecryptionGrant,
    actor: DecryptionActor,
    purpose: DecryptionPurpose,
    message: MessageId,
    now: CanonicalTime,
)
    ensures
        grant.standing() is Revoked ==> grant.authorization(actor, purpose, message, now) is Err,
        now.0 >= grant.granted().expires_at.0 || now.0 < grant.granted().issued_at.0
            ==> grant.authorization(actor, purpose, message, now) is Err,
        !grant.granted().scope.covered().contains(message.0) ==> grant.authorization(
            actor,
            purpose,
            message,
            now,
        ) is Err,
{
}

/// When a grant lets an actor read a message for a purpose: from its issue to its expiry, unless it
/// was revoked, for the actor, the purpose and the messages that it was granted for.
pub proof fn grants_permit_what_they_were_given_for(
    grant: DecryptionGrant,
    actor: DecryptionActor,
    purpose: DecryptionPurpose,
    message: MessageId,
    now: CanonicalTime,
)
    ensures
        ({
            let result = grant.authorization(actor, purpose, message, now);
            let terms = grant.granted();
            let meant = match (terms.usage.purpose, purpose) {
                (DecryptionPurpose::Display, DecryptionPurpose::Display) => true,
                (
                    DecryptionPurpose::CsqdProcessing { operation: a },
                    DecryptionPurpose::CsqdProcessing { operation: b },
                ) => a@ == b@,
                _ => false,
            };
            &&& result is Ok <==> {
                &&& terms.issued_at.0 <= now.0
                &&& now.0 < terms.expires_at.0
                &&& grant.standing() is Active
                &&& terms.usage.actor == actor
                &&& meant
                &&& terms.scope.covered().contains(message.0)
            }
            &&& result == Err::<(), ConsentError>(ConsentError::Revoked) <==> terms.issued_at.0
                <= now.0 && grant.standing() is Revoked
            &&& result == Err::<(), ConsentError>(ConsentError::Expired) <==> terms.issued_at.0
                <= now.0 && now.0 >= terms.expires_at.0 && grant.standing() is Active
        }),
{
}

/// Valid terms are for at most a day, with every party named. A device grants itself nothing but
/// display, and a processor nothing but a named operation; what is released has a key to go to.
pub proof fn grants_are_short_and_specific(terms: GrantTerms)
    requires
        terms.valid(),
    ensures
        terms.account.0 != 0,
        terms.persona.0 != 0,
        terms.issuer.0 != 0,
        terms.issued_at.0 < terms.expires_at.0,
        terms.expires_at.0 - terms.issued_at.0 <= 24 * 60 * 60 * 1000,
        match terms.usage.actor {
            DecryptionActor::UserDevice(key) => key == terms.issuer && terms.usage.purpose
                is Display,
            DecryptionActor::CsqdProcessor(key) => key.0 != 0 && terms.usage.purpose
                is CsqdProcessing && 1 <= utf8(terms.usage.purpose->operation@).len() <= 64,
        },
        terms.usage.destination.reference.0 != 0,
        exists|i: int| 0 <= i < 32 && terms.usage.destination.bytes@[i] != 0,
{
    assert(!zero_32(terms.usage.destination.bytes));
}

/// A scope names between one and a hundred messages, none of them zero.
pub proof fn scopes_are_bounded(messages: Set<u128>)
    ensures
        valid_scope(messages) <==> 0 < messages.len() <= 100 && !messages.contains(0),
{
}

/// A processing operation has a name of one to 64 letters, digits, dots, underscores and hyphens.
pub proof fn operations_have_plain_names(purpose: DecryptionPurpose, i: int)
    requires
        purpose.valid(),
        purpose is CsqdProcessing,
        0 <= i < utf8(purpose->operation@).len(),
    ensures
        ({
            let b = utf8(purpose->operation@)[i];
            &&& utf8(purpose->operation@).len() <= 64
            &&& (0x61 <= b && b <= 0x7a) || (0x41 <= b && b <= 0x5a) || (0x30 <= b && b <= 0x39) || b
                == 0x2e || b == 0x5f || b == 0x2d
        }),
{
    assert(operation_byte(utf8(purpose->operation@)[i]));
}

} // verus!

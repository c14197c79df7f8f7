//! Accounts and what they are enrolled with.

use crate::bytes::same_32;
use crate::finance::bank::BankVerification;
use crate::primitives::ids::{
    AccountId, BillingAccountId, MemberId, OperationalKeyRef, PrincipalRef, ProtocolIdentity,
};
use crate::protocol::ActorRef;
use vstd::prelude::*;

verus! {

/// Domain validation errors are independent of HTTP and signature verification.
#[derive(Clone, Copy, Debug, PartialEq, Eq, Structural)]
pub enum AccountError {
    InvalidInput,
}

#[derive(Debug, PartialEq, Eq)]
pub struct EnrollmentInput {
    pub bank: BankVerification,
    pub persona: ProtocolIdentity,
    pub actor: ActorRef,
    pub key_ref: OperationalKeyRef,
    pub initial_key: [u8; 32],
    pub maximum_unresolved: u32,
}

impl Clone for EnrollmentInput {
    fn clone(&self) -> (copy: Self)
        ensures
            copy.alike(self),
    {
        EnrollmentInput {
            bank: self.bank.clone(),
            persona: self.persona,
            actor: self.actor,
            key_ref: self.key_ref,
            initial_key: self.initial_key,
            maximum_unresolved: self.maximum_unresolved,
        }
    }
}

impl EnrollmentInput {
    pub open spec fn alike(&self, other: &Self) -> bool {
        &&& self.bank.alike(&other.bank)
        &&& self.persona == other.persona
        &&& self.actor == other.actor
        &&& self.key_ref == other.key_ref
        &&& self.initial_key == other.initial_key
        &&& self.maximum_unresolved == other.maximum_unresolved
    }

    /// Whether two inputs are the same.
    pub fn same(&self, other: &Self) -> (same: bool)
        ensures
            same == self.alike(other),
    {
        self.bank.same(&other.bank) && self.persona == other.persona && self.actor == other.actor
            && self.key_ref == other.key_ref && same_32(&self.initial_key, &other.initial_key)
            && self.maximum_unresolved == other.maximum_unresolved
    }
}

impl EnrollmentInput {
    /// Two enrollments claim something in common.
    pub open spec fn conflicts(&self, other: &Self) -> bool {
        ||| self.bank.account == other.bank.account
        ||| self.bank.member == other.bank.member
        ||| self.bank.bank_token == other.bank.bank_token
        ||| self.persona == other.persona
        ||| self.key_ref == other.key_ref
    }

    /// The persona acts for itself, with a key, and may have unresolved payments.
    pub open spec fn valid(&self) -> bool {
        &&& self.persona.0 != 0
        &&& self.key_ref.0 != 0
        &&& self.maximum_unresolved != 0
        &&& self.actor.acting_persona() == Some(self.persona)
    }

    /// Ownership reserved by one operation cannot be claimed by another.
    pub fn conflicts_with(&self, other: &Self) -> (conflict: bool)
        ensures
            conflict == self.conflicts(other),
    {
        self.bank.account == other.bank.account || self.bank.member == other.bank.member || same_32(
            &self.bank.bank_token,
            &other.bank.bank_token,
        ) || self.persona == other.persona || self.key_ref == other.key_ref
    }

    /// Refuses non-persona authority, empty identifiers and funding limits.
    pub fn validate(&self) -> (result: Result<(), AccountError>)
        ensures
            result == (if self.valid() {
                Ok(())
            } else {
                Err(AccountError::InvalidInput)
            }),
    {
        let own = match self.actor.persona() {
            Some(persona) => persona == self.persona,
            None => false,
        };
        if self.persona.0 == 0 || self.key_ref.0 == 0 || self.maximum_unresolved == 0 || !own {
            return Err(AccountError::InvalidInput);
        }
        Ok(())
    }
}

/// Which product account an identity's account is.
#[derive(Debug, PartialEq, Eq)]
pub struct AccountIdentityBinding {
    pub issuer: String,
    pub product: String,
    pub subject_ref: String,
    pub version: u64,
}

impl Clone for AccountIdentityBinding {
    fn clone(&self) -> (copy: Self)
        ensures
            copy == *self,
    {
        AccountIdentityBinding {
            issuer: self.issuer.clone(),
            product: self.product.clone(),
            subject_ref: self.subject_ref.clone(),
            version: self.version,
        }
    }
}

impl AccountIdentityBinding {
    pub open spec fn alike(&self, other: &Self) -> bool {
        &&& self.issuer@ == other.issuer@
        &&& self.product@ == other.product@
        &&& self.subject_ref@ == other.subject_ref@
        &&& self.version == other.version
    }

    /// Refuses absent deployment identity and an unsupported binding version.
    pub fn new(issuer: String, product: String, subject_ref: String, version: u64) -> (result: Result<
        Self,
        AccountError,
    >)
        ensures
            result == (if issuer@.len() == 0 || product@.len() == 0 || version != 1 {
                Err(AccountError::InvalidInput)
            } else {
                Ok(AccountIdentityBinding { issuer, product, subject_ref, version })
            }),
    {
        if issuer.as_str().is_empty() || product.as_str().is_empty() || version != 1 {
            return Err(AccountError::InvalidInput);
        }
        Ok(AccountIdentityBinding { issuer, product, subject_ref, version })
    }

    pub fn issuer(&self) -> (text: &str)
        ensures
            text@ == self.issuer@,
    {
        self.issuer.as_str()
    }

    pub fn product(&self) -> (text: &str)
        ensures
            text@ == self.product@,
    {
        self.product.as_str()
    }

    pub fn subject_ref(&self) -> (text: &str)
        ensures
            text@ == self.subject_ref@,
    {
        self.subject_ref.as_str()
    }

    pub fn version(&self) -> (version: u64)
        ensures
            version == self.version,
    {
        self.version
    }

    /// Whether two bindings are the same.
    pub fn same(&self, other: &Self) -> (same: bool)
        ensures
            same == self.alike(other),
    {
        self.issuer == other.issuer && self.product == other.product && self.subject_ref
            == other.subject_ref && self.version == other.version
    }
}

#[derive(Debug, PartialEq, Eq)]
pub struct Account {
    pub id: AccountId,
    pub principal: PrincipalRef,
    pub billing: BillingAccountId,
    pub member: MemberId,
    pub binding: AccountIdentityBinding,
}

impl Clone for Account {
    fn clone(&self) -> (copy: Self)
        ensures
            copy == *self,
    {
        Account {
            id: self.id,
            principal: self.principal,
            billing: self.billing,
            member: self.member,
            binding: self.binding.clone(),
        }
    }
}

impl Account {
    /// Constructs domain state; authorization belongs to the application activation boundary.
    /// Invalid identifiers and account input are refused.
    pub fn new(
        id: AccountId,
        principal: PrincipalRef,
        input: &EnrollmentInput,
        binding: AccountIdentityBinding,
    ) -> (result: Result<Self, AccountError>)
        ensures
            result == (if !input.valid() || id.0 == 0 || principal.0 == 0 {
                Err(AccountError::InvalidInput)
            } else {
                Ok(
                    Account {
                        id,
                        principal,
                        billing: input.bank.account,
                        member: input.bank.member,
                        binding,
                    },
                )
            }),
    {
        match input.validate() {
            Ok(()) => {},
            Err(e) => return Err(e),
        }
        if id.0 == 0 || principal.0 == 0 {
            return Err(AccountError::InvalidInput);
        }
        Ok(
            Account {
                id,
                principal,
                billing: input.bank.account,
                member: input.bank.member,
                binding,
            },
        )
    }

    pub fn id(&self) -> (id: AccountId)
        ensures
            id == self.id,
    {
        self.id
    }

    pub fn principal(&self) -> (principal: PrincipalRef)
        ensures
            principal == self.principal,
    {
        self.principal
    }

    pub fn billing(&self) -> (billing: BillingAccountId)
        ensures
            billing == self.billing,
    {
        self.billing
    }

    pub fn member(&self) -> (member: MemberId)
        ensures
            member == self.member,
    {
        self.member
    }

    pub fn binding(&self) -> (binding: &AccountIdentityBinding)
        ensures
            *binding == self.binding,
    {
        &self.binding
    }
}

/// Claiming something in common is mutual, and every enrollment conflicts with itself.
pub proof fn conflicts_are_mutual(a: EnrollmentInput, b: EnrollmentInput)
    ensures
        a.conflicts(&b) == b.conflicts(&a),
        a.conflicts(&a),
{
}

/// Two enrollments conflict exactly if they claim the same billing account, member, bank account,
/// persona or key; and an enrollment that is valid is for a persona that acts for itself.
pub proof fn claims_are_exclusive(a: EnrollmentInput, b: EnrollmentInput)
    ensures
        !a.conflicts(&b) <==> a.bank.account != b.bank.account && a.bank.member != b.bank.member
            && a.bank.bank_token != b.bank.bank_token && a.persona != b.persona && a.key_ref
            != b.key_ref,
        a.valid() <==> a.persona.0 != 0 && a.key_ref.0 != 0 && a.maximum_unresolved > 0 && (a.actor
            == ActorRef::Sender(a.persona) || a.actor == ActorRef::Recipient(a.persona)),
{
}

} // verus!

//! Exclusive key ownership, independent of the registries that use a key.

use super::account::AccountError;
use crate::primitives::ids::{AccountId, ProviderRef};
use crate::protocol::ActorRef;
use vstd::prelude::*;

verus! {

#[derive(Clone, Copy, Debug, PartialEq, Eq, Structural)]
pub enum KeyAuthorityOwner {
    Account(AccountId),
    Provider(ProviderRef),
    Scheduler(ProviderRef),
}

#[derive(Debug, PartialEq, Eq)]
pub enum KeyClaim {
    Reserved { enrollment: String, intended_owner: AccountId, actor: ActorRef, key: [u8; 32] },
    Assigned { owner: KeyAuthorityOwner, actor: ActorRef, key: [u8; 32] },
}

impl Clone for KeyClaim {
    fn clone(&self) -> (copy: Self)
        ensures
            copy == *self,
    {
        match self {
            KeyClaim::Reserved { enrollment, intended_owner, actor, key } => KeyClaim::Reserved {
                enrollment: enrollment.clone(),
                intended_owner: *intended_owner,
                actor: *actor,
                key: *key,
            },
            KeyClaim::Assigned { owner, actor, key } => KeyClaim::Assigned {
                owner: *owner,
                actor: *actor,
                key: *key,
            },
        }
    }
}

/// Whether two texts have the same characters.
pub fn same_text(a: &str, b: &str) -> (same: bool)
    ensures
        same == (a@ == b@),
{
    let same = crate::bytes::same_bytes(a.as_bytes(), b.as_bytes());
    proof {
        if same {
            crate::bytes::lemma_utf8_injective(a@, b@);
        }
    }
    same
}

impl KeyClaim {
    /// The claim assigned to its owner, if this enrollment reserved it for this account.
    pub open spec fn activated(&self, enrollment: Seq<char>, account: AccountId) -> Result<
        Self,
        AccountError,
    > {
        match self {
            KeyClaim::Reserved { enrollment: expected, intended_owner, actor, key } => if expected@
                == enrollment && *intended_owner == account {
                Ok(
                    KeyClaim::Assigned {
                        owner: KeyAuthorityOwner::Account(account),
                        actor: *actor,
                        key: *key,
                    },
                )
            } else {
                Err(AccountError::InvalidInput)
            },
            _ => Err(AccountError::InvalidInput),
        }
    }

    /// Only the enrollment that reserved a key can assign it to its fixed owner.
    pub fn activate(&self, enrollment: &str, account: AccountId) -> (result: Result<
        Self,
        AccountError,
    >)
        ensures
            result == self.activated(enrollment@, account),
    {
        match self {
            KeyClaim::Reserved { enrollment: expected, intended_owner, actor, key } => {
                if same_text(expected.as_str(), enrollment) && *intended_owner == account {
                    Ok(
                        KeyClaim::Assigned {
                            owner: KeyAuthorityOwner::Account(account),
                            actor: *actor,
                            key: *key,
                        },
                    )
                } else {
                    Err(AccountError::InvalidInput)
                }
            },
            KeyClaim::Assigned { .. } => Err(AccountError::InvalidInput),
        }
    }
}

/// A key is assigned once: no enrollment can claim it afterwards.
pub proof fn keys_are_assigned_once(
    claim: KeyClaim,
    enrollment: Seq<char>,
    account: AccountId,
    other: Seq<char>,
    rival: AccountId,
)
    requires
        claim.activated(enrollment, account) is Ok,
    ensures
        claim.activated(enrollment, account)->Ok_0.activated(other, rival) is Err,
{
}

/// A reserved key becomes the account's, for the same actor and with the same bytes, exactly where
/// the enrollment that reserved it activates it for the owner that it was reserved for.
pub proof fn reserved_keys_go_to_their_owner(
    claim: KeyClaim,
    enrollment: Seq<char>,
    account: AccountId,
)
    ensures
        ({
            let result = claim.activated(enrollment, account);
            match claim {
                KeyClaim::Reserved { enrollment: by, intended_owner, actor, key } => {
                    &&& result is Ok <==> by@ == enrollment && intended_owner == account
                    &&& result is Ok ==> result->Ok_0 == KeyClaim::Assigned {
                        owner: KeyAuthorityOwner::Account(account),
                        actor,
                        key,
                    }
                },
                _ => result is Err,
            }
        }),
{
}

} // verus!

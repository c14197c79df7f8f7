//! Parties and relationships as the other modules speak of them.

use crate::bytes::{push_text, text_bytes, utf8};
use crate::json::{json_number, push_number};
use crate::primitives::amounts::CanonicalTime;
use crate::primitives::ids::{LaneId, ProtocolIdentity, ProviderRef};
use crate::primitives::references::{RelationshipRef, RequestHistoryRef};
use crate::primitives::versions::{RelationshipVersion, Version};
use vstd::prelude::*;

verus! {

/// Who acts.
#[derive(Clone, Copy, Debug, PartialEq, Eq, Structural)]
pub enum ActorRef {
    Sender(ProtocolIdentity),
    Recipient(ProtocolIdentity),
    Provider(ProviderRef),
}

impl ActorRef {
    /// The persona that acts, as a sender or as a recipient.
    pub open spec fn acting_persona(self) -> Option<ProtocolIdentity> {
        match self {
            ActorRef::Sender(persona) => Some(persona),
            ActorRef::Recipient(persona) => Some(persona),
            ActorRef::Provider(_) => None,
        }
    }

    /// The persona that acts, as a sender or as a recipient.
    pub fn persona(self) -> (persona: Option<ProtocolIdentity>)
        ensures
            persona == self.acting_persona(),
    {
        match self {
            ActorRef::Sender(persona) => Some(persona),
            ActorRef::Recipient(persona) => Some(persona),
            ActorRef::Provider(_) => None,
        }
    }

    /// The actor as a JSON object.
    pub open spec fn json(self) -> Seq<u8> {
        match self {
            ActorRef::Sender(persona) => utf8("{\"Sender\":"@) + json_number(persona.0 as nat)
                + utf8("}"@),
            ActorRef::Recipient(persona) => utf8("{\"Recipient\":"@) + json_number(persona.0 as nat)
                + utf8("}"@),
            ActorRef::Provider(provider) => utf8("{\"Provider\":"@) + json_number(
                provider.0 as nat,
            ) + utf8("}"@),
        }
    }

    /// The actor as a JSON object.
    pub fn json_bytes(self) -> (bytes: Vec<u8>)
        ensures
            bytes@ == self.json(),
    {
        match self {
            ActorRef::Sender(persona) => {
                let mut out = text_bytes("{\"Sender\":");
                push_number(&mut out, persona.0);
                push_text(&mut out, "}");
                out
            },
            ActorRef::Recipient(persona) => {
                let mut out = text_bytes("{\"Recipient\":");
                push_number(&mut out, persona.0);
                push_text(&mut out, "}");
                out
            },
            ActorRef::Provider(provider) => {
                let mut out = text_bytes("{\"Provider\":");
                push_number(&mut out, provider.0);
                push_text(&mut out, "}");
                out
            },
        }
    }
}

/// How a recipient stands to a sender.
#[derive(Clone, Copy, Debug, PartialEq, Eq, Structural)]
pub enum RelationshipState {
    Unsettled,
    Accepted,
    Rejected,
    Blocked,
}

/// Who a relationship is between; it is directed.
#[derive(Clone, Copy, PartialEq, Eq)]
pub struct RelationshipKey {
    pub sender: ProtocolIdentity,
    pub recipient: ProtocolIdentity,
    pub reference: RelationshipRef,
}

/// A directed relationship as it stands.
#[derive(Clone, Copy, PartialEq, Eq)]
pub struct Relationship {
    pub key: RelationshipKey,
    pub history: RequestHistoryRef,
    pub state: RelationshipState,
    pub version: RelationshipVersion,
    pub changed_at: CanonicalTime,
}

/// Why a message was let through.
#[allow(inconsistent_fields)]
#[derive(Clone, Copy, Debug, PartialEq, Eq, Structural)]
pub enum AdmissionBasis {
    AcceptedRelationship { version: RelationshipVersion },
    ExpressLane { lane: LaneId, version: Version },
}

/// Why the protocol refuses a command.
#[derive(Clone, Copy, Debug, PartialEq, Eq, Structural)]
pub enum ProtocolError {
    AdmissionRefused,
    BackoffActive,
    ContactBlocked,
    DuplicateConflict,
    FollowupNotAllowed,
    PaymentNotConfirmed,
    PolicyInvalid,
    RequestAlreadyExists,
    RequestClassOutsidePolicy,
    RequestSubmissionCancelled,
    SubmissionWindowClosed,
    VersionConflict,
}

/// Why keys are refused: the key is another's, the actor is another, the signature is meant for
/// elsewhere, or the registry of keys has its own reasons.
#[derive(Clone, Copy, Debug, PartialEq, Eq, Structural)]
pub enum SecurityError {
    DuplicateKey,
    ActorMismatch,
    SigningScopeMismatch,
    KeyRefused,
}

} // verus!

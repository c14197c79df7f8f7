//! Conversations between two personas, and who may reuse what is said in them.

use crate::primitives::ids::ProtocolIdentity;
use vstd::prelude::*;

verus! {

#[derive(Clone, Copy, Debug, PartialEq, Eq, Structural)]
pub enum CorrespondenceError {
    Invalid,
    Unauthorized,
    Conflict,
    PolicyRestricted,
    PolicyUnresolved,
    Unavailable,
}

/// The identifier of a conversation, never zero.
#[derive(Clone, Copy, Debug, PartialEq, Eq, PartialOrd, Ord, Structural)]
pub struct ConversationId(pub u128);

impl ConversationId {
    /// Refuses the empty identifier.
    pub fn new(value: u128) -> (result: Result<Self, CorrespondenceError>)
        ensures
            result == (if value == 0 {
                Err(CorrespondenceError::Invalid)
            } else {
                Ok(ConversationId(value))
            }),
    {
        if value == 0 {
            return Err(CorrespondenceError::Invalid);
        }
        Ok(ConversationId(value))
    }

    pub fn value(self) -> (value: u128)
        ensures
            value == self.0,
    {
        self.0
    }
}

/// An unordered persona pair, not a contact grant or a shared person identifier. The lower identity
/// comes first.
#[derive(Clone, Copy, Debug, PartialEq, Eq, PartialOrd, Ord, Structural)]
pub struct CorrespondenceRef {
    pub lower: ProtocolIdentity,
    pub higher: ProtocolIdentity,
}

/// The pair of two personas, if they are a pair.
pub open spec fn persona_pair(a: ProtocolIdentity, b: ProtocolIdentity) -> Option<
    CorrespondenceRef,
> {
    if a.0 == 0 || b.0 == 0 || a == b {
        None
    } else if a.0 < b.0 {
        Some(CorrespondenceRef { lower: a, higher: b })
    } else {
        Some(CorrespondenceRef { lower: b, higher: a })
    }
}

impl CorrespondenceRef {
    pub open spec fn valid(self) -> bool {
        0 < self.lower.0 < self.higher.0
    }

    pub open spec fn includes(self, actor: ProtocolIdentity) -> bool {
        actor == self.lower || actor == self.higher
    }

    pub open spec fn partner(self, actor: ProtocolIdentity) -> Result<
        ProtocolIdentity,
        CorrespondenceError,
    > {
        if actor == self.lower {
            Ok(self.higher)
        } else if actor == self.higher {
            Ok(self.lower)
        } else {
            Err(CorrespondenceError::Unauthorized)
        }
    }

    /// Requires two distinct nonzero personas.
    pub fn new(a: ProtocolIdentity, b: ProtocolIdentity) -> (result: Result<
        Self,
        CorrespondenceError,
    >)
        ensures
            match persona_pair(a, b) {
                Some(pair) => result == Ok::<Self, CorrespondenceError>(pair) && pair.valid(),
                None => result == Err::<Self, CorrespondenceError>(CorrespondenceError::Invalid),
            },
    {
        if a.0 == 0 || b.0 == 0 || a == b {
            return Err(CorrespondenceError::Invalid);
        }
        if a.0 < b.0 {
            Ok(CorrespondenceRef { lower: a, higher: b })
        } else {
            Ok(CorrespondenceRef { lower: b, higher: a })
        }
    }

    pub fn participants(self) -> (pair: [ProtocolIdentity; 2])
        ensures
            pair@ == seq![self.lower, self.higher],
    {
        let pair = [self.lower, self.higher];
        assert(pair@ =~= seq![self.lower, self.higher]);
        pair
    }

    pub fn contains(self, actor: ProtocolIdentity) -> (included: bool)
        ensures
            included == self.includes(actor),
    {
        actor == self.lower || actor == self.higher
    }

    /// Refuses a nonparticipant without disclosing another participant.
    pub fn other(self, actor: ProtocolIdentity) -> (result: Result<
        ProtocolIdentity,
        CorrespondenceError,
    >)
        ensures
            result == self.partner(actor),
    {
        if actor == self.lower {
            Ok(self.higher)
        } else if actor == self.higher {
            Ok(self.lower)
        } else {
            Err(CorrespondenceError::Unauthorized)
        }
    }
}

/// A pair has no order, and each of the two is the other's partner.
pub proof fn pairs_are_unordered(a: ProtocolIdentity, b: ProtocolIdentity)
    ensures
        persona_pair(a, b) == persona_pair(b, a),
        persona_pair(a, b) matches Some(pair) ==> pair.partner(a) == Ok::<
            ProtocolIdentity,
            CorrespondenceError,
        >(b) && pair.partner(b) == Ok::<ProtocolIdentity, CorrespondenceError>(a),
{
}

#[derive(Clone, Copy, Debug, PartialEq, Eq, Structural)]
pub enum ReusePolicy {
    AcrossRelationships,
    OriginatingRelationshipOnly,
}

#[derive(Clone, Copy, Debug, PartialEq, Eq, Structural)]
pub enum PolicyAction {
    Restrict,
    ProposeRelaxation,
    ApproveRelaxation,
}

#[derive(Clone, Copy, Debug, PartialEq, Eq, Structural)]
pub struct Conversation {
    pub id: ConversationId,
    pub scope: CorrespondenceRef,
    pub policy: ReusePolicy,
    pub revision: u64,
    pub relaxation_proposer: Option<ProtocolIdentity>,
}

impl Conversation {
    /// A relaxation is proposed by a participant, in a restricted conversation that has changed
    /// before.
    pub open spec fn valid(self) -> bool {
        self.relaxation_proposer matches Some(proposer) ==> self.scope.includes(proposer)
            && self.policy == ReusePolicy::OriginatingRelationshipOnly && self.revision != 0
    }

    pub open spec fn permitted(self, destination: CorrespondenceRef) -> bool {
        self.policy == ReusePolicy::AcrossRelationships || self.scope == destination
    }

    /// The conversation after an action, before its revision is counted.
    pub open spec fn acted(self, actor: ProtocolIdentity, action: PolicyAction) -> Option<Self> {
        match action {
            PolicyAction::Restrict => Some(
                Conversation {
                    policy: ReusePolicy::OriginatingRelationshipOnly,
                    relaxation_proposer: None,
                    ..self
                },
            ),
            PolicyAction::ProposeRelaxation => if self.policy
                == ReusePolicy::OriginatingRelationshipOnly && self.relaxation_proposer is None {
                Some(Conversation { relaxation_proposer: Some(actor), ..self })
            } else {
                None
            },
            PolicyAction::ApproveRelaxation => if self.relaxation_proposer matches Some(proposer)
                && proposer != actor {
                Some(
                    Conversation {
                        policy: ReusePolicy::AcrossRelationships,
                        relaxation_proposer: None,
                        ..self
                    },
                )
            } else {
                None
            },
        }
    }

    /// The conversation after a change, or why there is none.
    pub open spec fn changed(self, actor: ProtocolIdentity, revision: u64, action: PolicyAction) -> Result<
        Self,
        CorrespondenceError,
    > {
        if !self.scope.includes(actor) {
            Err(CorrespondenceError::Unauthorized)
        } else if revision != self.revision {
            Err(CorrespondenceError::Conflict)
        } else {
            match self.acted(actor, action) {
                None => Err(CorrespondenceError::Conflict),
                Some(next) => if revision == u64::MAX {
                    Err(CorrespondenceError::Invalid)
                } else {
                    Ok(Conversation { revision: (revision + 1) as u64, ..next })
                },
            }
        }
    }

    pub fn new(id: ConversationId, scope: CorrespondenceRef) -> (conversation: Self)
        ensures
            conversation == (Conversation {
                id,
                scope,
                policy: ReusePolicy::AcrossRelationships,
                revision: 0,
                relaxation_proposer: None,
            }),
            conversation.valid(),
    {
        Conversation {
            id,
            scope,
            policy: ReusePolicy::AcrossRelationships,
            revision: 0,
            relaxation_proposer: None,
        }
    }

    /// Takes a stored conversation back in, if it is one that can have come about.
    pub fn restore(stored: Conversation) -> (result: Result<Self, CorrespondenceError>)
        ensures
            result == (if stored.valid() {
                Ok(stored)
            } else {
                Err(CorrespondenceError::Invalid)
            }),
    {
        match stored.relaxation_proposer {
            Some(proposer) => {
                if !stored.scope.contains(proposer) || stored.policy
                    != ReusePolicy::OriginatingRelationshipOnly || stored.revision == 0 {
                    return Err(CorrespondenceError::Invalid);
                }
            },
            None => {},
        }
        Ok(stored)
    }

    pub fn id(&self) -> (id: ConversationId)
        ensures
            id == self.id,
    {
        self.id
    }

    pub fn scope(&self) -> (scope: CorrespondenceRef)
        ensures
            scope == self.scope,
    {
        self.scope
    }

    pub fn policy(&self) -> (policy: ReusePolicy)
        ensures
            policy == self.policy,
    {
        self.policy
    }

    pub fn revision(&self) -> (revision: u64)
        ensures
            revision == self.revision,
    {
        self.revision
    }

    pub fn relaxation_proposer(&self) -> (proposer: Option<ProtocolIdentity>)
        ensures
            proposer == self.relaxation_proposer,
    {
        self.relaxation_proposer
    }

    pub fn permits(&self, destination: CorrespondenceRef) -> (permitted: bool)
        ensures
            permitted == self.permitted(destination),
    {
        self.policy == ReusePolicy::AcrossRelationships || self.scope == destination
    }

    /// Refuses foreign actors, stale proposals, self-approval and revision overflow.
    pub fn change(&self, actor: ProtocolIdentity, revision: u64, action: PolicyAction) -> (result:
        Result<Self, CorrespondenceError>)
        ensures
            result == self.changed(actor, revision, action),
    {
        if !self.scope.contains(actor) {
            return Err(CorrespondenceError::Unauthorized);
        }
        if revision != self.revision {
            return Err(CorrespondenceError::Conflict);
        }
        let mut next = *self;
        match action {
            PolicyAction::Restrict => {
                next.policy = ReusePolicy::OriginatingRelationshipOnly;
                next.relaxation_proposer = None;
            },
            PolicyAction::ProposeRelaxation => {
                if self.policy != ReusePolicy::OriginatingRelationshipOnly
                    || self.relaxation_proposer.is_some() {
                    return Err(CorrespondenceError::Conflict);
                }
                next.relaxation_proposer = Some(actor);
            },
            PolicyAction::ApproveRelaxation => {
                match self.relaxation_proposer {
                    Some(proposer) => {
                        if proposer == actor {
                            return Err(CorrespondenceError::Conflict);
                        }
                    },
                    None => return Err(CorrespondenceError::Conflict),
                }
                next.policy = ReusePolicy::AcrossRelationships;
                next.relaxation_proposer = None;
            },
        }
        match revision.checked_add(1) {
            Some(counted) => {
                next.revision = counted;
                Ok(next)
            },
            None => Err(CorrespondenceError::Invalid),
        }
    }
}

/// A change keeps a conversation valid, its identity and its participants.
pub proof fn changes_stay_valid(
    conversation: Conversation,
    actor: ProtocolIdentity,
    revision: u64,
    action: PolicyAction,
)
    requires
        conversation.valid(),
        conversation.changed(actor, revision, action) is Ok,
    ensures
        ({
            let next = conversation.changed(actor, revision, action)->Ok_0;
            &&& next.valid()
            &&& next.id == conversation.id
            &&& next.scope == conversation.scope
            &&& next.revision == conversation.revision + 1
        }),
{
}

/// It takes two to relax: a restricted conversation becomes open only when one participant
/// approves what the other proposed.
pub proof fn relaxation_takes_two(
    conversation: Conversation,
    actor: ProtocolIdentity,
    revision: u64,
    action: PolicyAction,
)
    requires
        conversation.valid(),
        conversation.policy == ReusePolicy::OriginatingRelationshipOnly,
        conversation.changed(actor, revision, action) is Ok,
        conversation.changed(actor, revision, action)->Ok_0.policy
            == ReusePolicy::AcrossRelationships,
    ensures
        action == PolicyAction::ApproveRelaxation,
        conversation.relaxation_proposer matches Some(proposer) && proposer != actor
            && conversation.scope.includes(proposer) && conversation.scope.includes(actor),
{
}

/// Either participant can restrict at any time, and what they restrict stays where it was said.
pub proof fn restriction_needs_one(
    conversation: Conversation,
    actor: ProtocolIdentity,
    destination: CorrespondenceRef,
)
    requires
        conversation.scope.includes(actor),
        conversation.revision < u64::MAX,
        destination != conversation.scope,
    ensures
        ({
            let result = conversation.changed(
                actor,
                conversation.revision,
                PolicyAction::Restrict,
            );
            result is Ok && !result->Ok_0.permitted(destination)
        }),
{
}

/// What each change does, and when: only a participant who names the present revision changes the
/// policy. A restriction always takes effect and drops any proposal. A relaxation is proposed only
/// while the conversation is restricted and nothing is proposed, which relaxes nothing yet; and
/// only the other participant can approve it, which opens the conversation again.
pub proof fn policies_change_step_by_step(
    conversation: Conversation,
    actor: ProtocolIdentity,
    revision: u64,
    action: PolicyAction,
)
    ensures
        ({
            let result = conversation.changed(actor, revision, action);
            let next = result->Ok_0;
            let takes_part = actor == conversation.scope.lower || actor == conversation.scope.higher;
            let restricted = conversation.policy == ReusePolicy::OriginatingRelationshipOnly;
            let fitting = match action {
                PolicyAction::Restrict => true,
                PolicyAction::ProposeRelaxation => restricted
                    && conversation.relaxation_proposer is None,
                PolicyAction::ApproveRelaxation => conversation.relaxation_proposer is Some
                    && conversation.relaxation_proposer->Some_0 != actor,
            };
            &&& result is Ok <==> takes_part && revision == conversation.revision && fitting
                && revision < u64::MAX
            &&& result == Err::<Conversation, CorrespondenceError>(
                CorrespondenceError::Unauthorized,
            ) <==> !takes_part
            &&& result == Err::<Conversation, CorrespondenceError>(CorrespondenceError::Conflict)
                <==> takes_part && (revision != conversation.revision || !fitting)
            &&& result is Ok ==> {
                &&& next.id == conversation.id
                &&& next.scope == conversation.scope
                &&& next.revision == conversation.revision + 1
                &&& match action {
                    PolicyAction::Restrict => next.policy
                        == ReusePolicy::OriginatingRelationshipOnly
                        && next.relaxation_proposer is None,
                    PolicyAction::ProposeRelaxation => next.policy
                        == ReusePolicy::OriginatingRelationshipOnly && next.relaxation_proposer
                        == Some(actor),
                    PolicyAction::ApproveRelaxation => next.policy
                        == ReusePolicy::AcrossRelationships && next.relaxation_proposer is None,
                }
            }
        }),
{
}

/// A conversation may be drawn on towards another only while it is not restricted, and always
/// towards itself.
pub proof fn restricted_conversations_keep_to_themselves(
    conversation: Conversation,
    destination: CorrespondenceRef,
)
    ensures
        conversation.permitted(destination) <==> conversation.policy
            == ReusePolicy::AcrossRelationships || (conversation.scope.lower == destination.lower
            && conversation.scope.higher == destination.higher),
{
}

/// Two personas make a pair exactly if they are two, and neither is zero; the lower stands first.
pub proof fn pairs_are_of_two(a: ProtocolIdentity, b: ProtocolIdentity)
    ensures
        persona_pair(a, b) is Some <==> a.0 != 0 && b.0 != 0 && a.0 != b.0,
        persona_pair(a, b) matches Some(pair) ==> pair.lower.0 < pair.higher.0 && (pair.lower == a
            || pair.higher == a) && (pair.lower == b || pair.higher == b),
{
}

} // verus!

//! Relationship-level lane acceptance coordinates permission and request settlement.

use crate::capabilities::grant::{CapabilityError, LaneGrant, LaneMode};
use crate::capabilities::lane::{fresh_lane, Lane, LaneModel, LaneState, ValidatedLaneGrant};
use crate::primitives::amounts::CanonicalTime;
use crate::protocol::{ProtocolError, Relationship, RelationshipState};
use vstd::prelude::*;

verus! {

/// Why a lane is not accepted.
#[derive(Clone, Copy, Debug, PartialEq, Eq, Structural)]
pub enum LaneAcceptanceError {
    Protocol(ProtocolError),
    Capability(CapabilityError),
}

/// A lane that starts, with the settlement of the request that it answers.
pub struct LaneAcceptance<M> {
    lane: Lane,
    settlement: M,
}

/// Whether a grant is accepted in a relationship: none where the same lane is there already.
pub open spec fn acceptance(
    relationship: Relationship,
    existing: Option<LaneModel>,
    grant: LaneGrant,
    now: CanonicalTime,
) -> Result<Option<LaneModel>, LaneAcceptanceError> {
    match fresh_lane(grant) {
        Err(e) => Err(LaneAcceptanceError::Capability(e)),
        Ok(lane) => if relationship.state == RelationshipState::Blocked {
            Err(LaneAcceptanceError::Protocol(ProtocolError::ContactBlocked))
        } else if grant.sender != relationship.key.sender || grant.recipient
            != relationship.key.recipient {
            Err(LaneAcceptanceError::Capability(CapabilityError::NotAuthorized))
        } else if existing matches Some(held) && held.alike(lane) {
            Ok(None)
        } else if existing matches Some(held) && (held.grant.id != grant.id || grant.version.0
            <= held.grant.version.0) {
            Err(LaneAcceptanceError::Protocol(ProtocolError::DuplicateConflict))
        } else if !lane.gives_access(now) {
            Err(LaneAcceptanceError::Capability(CapabilityError::NotAuthorized))
        } else {
            Ok(Some(lane))
        },
    }
}

impl<M> LaneAcceptance<M> {
    pub closed spec fn accepted(&self) -> LaneModel {
        self.lane@
    }

    pub closed spec fn settled(&self) -> M {
        self.settlement
    }

    /// The caller establishes recipient signature authority under protected context. Exact stored
    /// grants replay without a second settlement. Changed grants need a new version. `settlement`
    /// is what the protocol makes of the acceptance. Foreign, inactive, blocked and conflicting
    /// grants are refused, and so are invalid settlements.
    pub fn decide(
        relationship: &Relationship,
        existing: &Option<Lane>,
        grant: ValidatedLaneGrant,
        settlement: Result<M, ProtocolError>,
        now: CanonicalTime,
    ) -> (result: Result<Option<Self>, LaneAcceptanceError>)
        ensures
            match acceptance(
                *relationship,
                match existing {
                    Some(lane) => Some(lane@),
                    None => None,
                },
                grant.granted(),
                now,
            ) {
                Err(e) => result == Err::<Option<Self>, LaneAcceptanceError>(e),
                Ok(None) => result == Ok::<Option<Self>, LaneAcceptanceError>(None),
                Ok(Some(lane)) => match settlement {
                    Err(e) => result == Err::<Option<Self>, LaneAcceptanceError>(
                        LaneAcceptanceError::Protocol(e),
                    ),
                    Ok(made) => result matches Ok(Some(acceptance)) && acceptance.accepted()
                        == lane && acceptance.settled() == made,
                },
            },
    {
        let lane = match Lane::from_grant(grant.into_grant()) {
            Ok(lane) => lane,
            Err(e) => return Err(LaneAcceptanceError::Capability(e)),
        };
        if relationship.state == RelationshipState::Blocked {
            return Err(LaneAcceptanceError::Protocol(ProtocolError::ContactBlocked));
        }
        if lane.grant.sender != relationship.key.sender || lane.grant.recipient
            != relationship.key.recipient {
            return Err(LaneAcceptanceError::Capability(CapabilityError::NotAuthorized));
        }
        match existing {
            Some(held) => {
                if held.same_unused(&lane) {
                    return Ok(None);
                }
                if held.grant.id != lane.grant.id || lane.grant.version.0 <= held.grant.version.0 {
                    return Err(LaneAcceptanceError::Protocol(ProtocolError::DuplicateConflict));
                }
            },
            None => {},
        }
        if !lane.provides_relationship_access(now) {
            return Err(LaneAcceptanceError::Capability(CapabilityError::NotAuthorized));
        }
        match settlement {
            Ok(settlement) => Ok(Some(LaneAcceptance { lane, settlement })),
            Err(e) => Err(LaneAcceptanceError::Protocol(e)),
        }
    }

    pub fn into_effects(self) -> (effects: (Lane, M))
        ensures
            effects.0@ == self.accepted(),
            effects.1 == self.settled(),
    {
        (self.lane, self.settlement)
    }
}

/// A blocked relationship accepts no lane, an accepted grant replays without a second settlement,
/// and an earlier version never takes the place of a later one.
pub proof fn acceptance_is_guarded(
    relationship: Relationship,
    existing: Option<LaneModel>,
    grant: LaneGrant,
    now: CanonicalTime,
    later: CanonicalTime,
)
    ensures
        relationship.state == RelationshipState::Blocked ==> acceptance(
            relationship,
            existing,
            grant,
            now,
        ) is Err,
        acceptance(relationship, existing, grant, now) matches Ok(Some(lane)) ==> acceptance(
            relationship,
            Some(lane),
            grant,
            later,
        ) == Ok::<Option<LaneModel>, LaneAcceptanceError>(None) && (existing matches Some(held)
            ==> held.grant.id == grant.id && held.grant.version.0 < grant.version.0),
{
}

/// A lane is accepted exactly if its grant is valid, between the two personas of a relationship that
/// is not blocked, in force now, and, where there is a lane already, of the same identifier and a
/// later version. It starts unused. The grant of an unused lane again changes nothing.
pub proof fn lanes_are_accepted_within_a_relationship(
    relationship: Relationship,
    existing: Option<LaneModel>,
    grant: LaneGrant,
    now: CanonicalTime,
)
    requires
        acceptance(relationship, existing, grant, now) is Ok,
        acceptance(relationship, existing, grant, now)->Ok_0 is Some,
    ensures
        ({
            let lane = acceptance(relationship, existing, grant, now)->Ok_0->Some_0;
            &&& grant.check() is Ok
            &&& relationship.state != RelationshipState::Blocked
            &&& grant.sender == relationship.key.sender
            &&& grant.recipient == relationship.key.recipient
            &&& existing matches Some(held) ==> held.grant.id == grant.id && held.grant.version.0
                < grant.version.0
            &&& now.0 < grant.not_after.0
            &&& grant.mode == LaneMode::Persistent || now.0 < lane.horizon_at.0
            &&& lane.grant == grant
            &&& lane.state == LaneState::Active
            &&& lane.messages_in_rate_window == 0
            &&& lane.version.0 == 0
            &&& forall|m: u128| !(#[trigger] lane.admitted_messages.contains(m))
        }),
{
}

/// Where a lane is not accepted although its grant is valid and its horizon can be represented, it is
/// because the relationship is blocked, the grant is between others, it is not newer than the lane
/// that there is, or it is over.
pub proof fn lanes_are_refused_for_cause(
    relationship: Relationship,
    existing: Option<LaneModel>,
    grant: LaneGrant,
    now: CanonicalTime,
)
    requires
        grant.check() is Ok,
        grant.issued_at.0 + grant.lifetime.0 <= u64::MAX,
        relationship.state != RelationshipState::Blocked,
        grant.sender == relationship.key.sender,
        grant.recipient == relationship.key.recipient,
        existing matches Some(held) ==> held.grant.id == grant.id && held.grant.version.0
            < grant.version.0,
        now.0 < grant.not_after.0,
        grant.mode == LaneMode::Persistent || now.0 < grant.issued_at.0 + grant.lifetime.0,
    ensures
        acceptance(relationship, existing, grant, now) is Ok,
        acceptance(relationship, existing, grant, now)->Ok_0 is Some,
{
}

} // verus!

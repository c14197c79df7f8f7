//! A bounded book of lanes.

use super::grant::{CapabilityError, SignedLaneGrant};
use super::lane::{fresh_lane, Lane, LaneModel, LaneState};
use crate::crypto::ed25519_accepts;
use crate::maps::{count, holds, lookup, put};
use crate::primitives::ids::{IdempotencyKey, LaneId};
use crate::primitives::schedule::{ScheduleChange, ScheduleTask};
use std::collections::BTreeMap;
use vstd::prelude::*;

verus! {

#[derive(Clone, Debug, PartialEq, Eq)]
pub struct LaneBook {
    pub max_records: usize,
    pub lanes: BTreeMap<u128, Lane>,
    pub operations: BTreeMap<u128, LaneId>,
}

pub ghost struct BookModel {
    pub max_records: nat,
    pub lanes: Map<u128, LaneModel>,
    pub operations: Map<u128, LaneId>,
}

pub open spec fn lane_models(map: Map<u128, Lane>) -> Map<u128, LaneModel> {
    Map::new(|id: u128| map.contains_key(id), |id: u128| map[id]@)
}

impl View for LaneBook {
    type V = BookModel;

    open spec fn view(&self) -> BookModel {
        BookModel {
            max_records: self.max_records as nat,
            lanes: lane_models(self.lanes@),
            operations: self.operations@,
        }
    }
}

impl BookModel {
    /// The book after a grant is recorded, and the task to schedule; or why it is not.
    pub open spec fn granted(
        self,
        signed: SignedLaneGrant,
        key: [u8; 32],
        idempotency: IdempotencyKey,
    ) -> Result<(Self, ScheduleChange), CapabilityError> {
        let id = signed.grant.id;
        match signed.verdict(key) {
            Err(e) => Err(e),
            Ok(()) => if self.operations.contains_key(idempotency.0) {
                if self.operations[idempotency.0] != id {
                    Err(CapabilityError::DuplicateConflict)
                } else if !self.lanes.contains_key(id.0) {
                    Err(CapabilityError::MissingLane)
                } else {
                    Ok((self, self.lanes[id.0].due()))
                }
            } else if self.lanes.dom().len() >= self.max_records && !self.lanes.contains_key(id.0) {
                Err(CapabilityError::CapacityExceeded)
            } else {
                match fresh_lane(signed.grant) {
                    Err(e) => Err(e),
                    Ok(lane) => if self.lanes.contains_key(id.0) {
                        if self.lanes[id.0].alike(lane) {
                            Ok(
                                (
                                    BookModel {
                                        operations: self.operations.insert(idempotency.0, id),
                                        ..self
                                    },
                                    self.lanes[id.0].due(),
                                ),
                            )
                        } else {
                            Err(CapabilityError::DuplicateConflict)
                        }
                    } else {
                        Ok(
                            (
                                BookModel {
                                    lanes: self.lanes.insert(id.0, lane),
                                    operations: self.operations.insert(idempotency.0, id),
                                    ..self
                                },
                                lane.due(),
                            ),
                        )
                    },
                }
            },
        }
    }
}

impl LaneBook {
    pub fn new(max_records: usize) -> (book: Self)
        ensures
            book@ == (BookModel {
                max_records: max_records as nat,
                lanes: Map::empty(),
                operations: Map::empty(),
            }),
    {
        let book = LaneBook { max_records, lanes: BTreeMap::new(), operations: BTreeMap::new() };
        assert(book@.lanes =~= Map::empty());
        book
    }

    /// Verifies and idempotently records a grant in the bounded in-memory book. Fails for invalid
    /// authority, conflict, capacity, or arithmetic failure, and then changes nothing.
    pub fn grant(
        &mut self,
        signed: SignedLaneGrant,
        recipient_key: &[u8; 32],
        idempotency: IdempotencyKey,
    ) -> (result: Result<ScheduleChange, CapabilityError>)
        ensures
            match old(self)@.granted(signed, *recipient_key, idempotency) {
                Ok((next, change)) => result == Ok::<ScheduleChange, CapabilityError>(change)
                    && final(self)@ == next,
                Err(e) => result == Err::<ScheduleChange, CapabilityError>(e) && *final(self)
                    == *old(self),
            },
    {
        match signed.verify(recipient_key) {
            Ok(()) => {},
            Err(e) => return Err(e),
        }
        let id = signed.grant.id;
        match lookup(&self.operations, idempotency.0) {
            Some(existing) => {
                return if *existing == id {
                    match lookup(&self.lanes, id.0) {
                        Some(lane) => Ok(lane.schedule_change()),
                        None => Err(CapabilityError::MissingLane),
                    }
                } else {
                    Err(CapabilityError::DuplicateConflict)
                };
            },
            None => {},
        }
        assert(self@.lanes.dom() =~= self.lanes@.dom());
        if count(&self.lanes) >= self.max_records && !holds(&self.lanes, id.0) {
            return Err(CapabilityError::CapacityExceeded);
        }
        let lane = match Lane::from_grant(signed.grant) {
            Ok(lane) => lane,
            Err(e) => return Err(e),
        };
        let change = match lookup(&self.lanes, id.0) {
            Some(existing) => {
                if !existing.same_unused(&lane) {
                    return Err(CapabilityError::DuplicateConflict);
                }
                existing.schedule_change()
            },
            None => {
                let change = lane.schedule_change();
                proof {
                    assert(lane_models(self.lanes@.insert(id.0, lane)) =~= lane_models(
                        self.lanes@,
                    ).insert(id.0, lane@));
                }
                put(&mut self.lanes, id.0, lane);
                change
            },
        };
        put(&mut self.operations, idempotency.0, id);
        Ok(change)
    }

    pub fn lane(&self, id: LaneId) -> (lane: Option<&Lane>)
        ensures
            match lane {
                Some(l) => self@.lanes.contains_key(id.0) && l@ == self@.lanes[id.0],
                None => !self@.lanes.contains_key(id.0),
            },
    {
        lookup(&self.lanes, id.0)
    }
}

/// Recording a grant again under the same key changes nothing.
pub proof fn grants_are_idempotent(
    book: BookModel,
    signed: SignedLaneGrant,
    key: [u8; 32],
    idempotency: IdempotencyKey,
)
    requires
        book.granted(signed, key, idempotency) is Ok,
    ensures
        ({
            let (next, change) = book.granted(signed, key, idempotency)->Ok_0;
            next.granted(signed, key, idempotency) == Ok::<
                (BookModel, ScheduleChange),
                CapabilityError,
            >((next, change))
        }),
{
}

/// A book never holds more lanes than it was made for.
pub proof fn books_are_bounded(
    book: BookModel,
    signed: SignedLaneGrant,
    key: [u8; 32],
    idempotency: IdempotencyKey,
)
    requires
        book.lanes.dom().finite(),
        book.lanes.dom().len() <= book.max_records,
        book.granted(signed, key, idempotency) is Ok,
    ensures
        ({
            let next = book.granted(signed, key, idempotency)->Ok_0.0;
            next.lanes.dom().len() <= next.max_records
        }),
{
    let next = book.granted(signed, key, idempotency)->Ok_0.0;
    let id = signed.grant.id.0;
    if !book.lanes.contains_key(id) && next.lanes.contains_key(id) {
        assert(next.lanes.dom() =~= book.lanes.dom().insert(id));
    }
}

/// A book takes a grant only under its recipient's signature. A new one makes a lane that is active
/// and unused, and there is one more lane only if there is room for it; no other lane changes. Each
/// operation stands for one grant, and the answer is when the lane is due.
pub proof fn books_hold_signed_grants(
    book: BookModel,
    signed: SignedLaneGrant,
    key: [u8; 32],
    idempotency: IdempotencyKey,
    k: u128,
)
    requires
        book.granted(signed, key, idempotency) is Ok,
    ensures
        ({
            let (next, change) = book.granted(signed, key, idempotency)->Ok_0;
            let id = signed.grant.id;
            let lane = next.lanes[id.0];
            &&& ed25519_accepts(key@, signed.grant.canonical(), signed.signature@)
            &&& next.max_records == book.max_records
            &&& next.lanes.contains_key(id.0)
            &&& next.operations.contains_key(idempotency.0) && next.operations[idempotency.0] == id
            &&& change == ScheduleChange::Schedule {
                task: ScheduleTask::LaneHorizon(lane.grant.id),
                at: lane.horizon_at,
            }
            &&& k != id.0 || book.lanes.contains_key(id.0) ==> (next.lanes.contains_key(k)
                <==> book.lanes.contains_key(k)) && next.lanes[k] == book.lanes[k]
            &&& k != idempotency.0 ==> (next.operations.contains_key(k)
                <==> book.operations.contains_key(k)) && next.operations[k] == book.operations[k]
            &&& !book.lanes.contains_key(id.0) ==> {
                &&& book.lanes.dom().len() < book.max_records
                &&& lane.grant == signed.grant
                &&& lane.state == LaneState::Active
                &&& lane.messages_in_rate_window == 0
                &&& lane.version.0 == 0
                &&& forall|m: u128| !(#[trigger] lane.admitted_messages.contains(m))
            }
        }),
{
}

/// A grant that is signed and valid, under a new operation and for a lane that the book does not
/// have, is refused only for want of room or for a horizon too late to represent; and an operation
/// that stands for another grant is refused.
pub proof fn books_refuse_for_cause(
    book: BookModel,
    signed: SignedLaneGrant,
    key: [u8; 32],
    idempotency: IdempotencyKey,
)
    requires
        signed.verdict(key) is Ok,
    ensures
        ({
            let result = book.granted(signed, key, idempotency);
            let id = signed.grant.id;
            &&& !book.operations.contains_key(idempotency.0) && !book.lanes.contains_key(id.0)
                ==> (result is Ok <==> book.lanes.dom().len() < book.max_records
                && signed.grant.issued_at.0 + signed.grant.lifetime.0 <= u64::MAX)
            &&& book.operations.contains_key(idempotency.0) && book.operations[idempotency.0] != id
                ==> result == Err::<(BookModel, ScheduleChange), CapabilityError>(
                CapabilityError::DuplicateConflict,
            )
        }),
{
}

} // verus!

//! Members of the program and what qualifies them.

use super::distribution::AnnualDistributionSchedule;
use super::terms::{MembershipStatus, DAY_MILLIS};
use crate::maps::days_of;
use crate::primitives::amounts::CanonicalTime;
use crate::primitives::ids::MemberId;
use std::collections::BTreeSet;
use vstd::prelude::*;

verus! {

#[derive(Debug, PartialEq, Eq)]
pub struct Member {
    pub id: MemberId,
    pub identity_digest: [u8; 32],
    pub joined_at: CanonicalTime,
    pub changes: Vec<(CanonicalTime, MembershipStatus)>,
    pub activity_days: BTreeSet<u64>,
}

pub ghost struct MemberModel {
    pub id: MemberId,
    pub identity_digest: [u8; 32],
    pub joined_at: CanonicalTime,
    pub changes: Seq<(CanonicalTime, MembershipStatus)>,
    pub activity_days: Set<u64>,
}

impl View for Member {
    type V = MemberModel;

    open spec fn view(&self) -> MemberModel {
        MemberModel {
            id: self.id,
            identity_digest: self.identity_digest,
            joined_at: self.joined_at,
            changes: self.changes@,
            activity_days: self.activity_days@,
        }
    }
}

impl MembershipStatus {
    pub open spec fn in_good_standing(self) -> bool {
        self.opted_in && self.verified && !self.suspended
    }
}

impl MemberModel {
    /// The change is the last one made before a cutoff.
    pub open spec fn last_before(self, cutoff: CanonicalTime, i: int) -> bool {
        &&& 0 <= i < self.changes.len()
        &&& self.changes[i].0.0 < cutoff.0
        &&& forall|j: int| i < j < self.changes.len() ==> (#[trigger] self.changes[j]).0.0 >= cutoff.0
    }

    /// The last status before a cutoff is one in good standing.
    pub open spec fn eligible(self, cutoff: CanonicalTime) -> bool {
        exists|i: int|
            #[trigger] self.last_before(cutoff, i) && self.changes[i].1.in_good_standing()
    }

    /// The days of activity in a period of days.
    pub open spec fn active_days(self, from: u64, to: u64) -> nat {
        self.activity_days.filter(|day: u64| from <= day < to).len()
    }

    /// In good standing at the cutoff, long enough a member, and active on enough days.
    pub open spec fn qualified(self, schedule: AnnualDistributionSchedule) -> bool {
        &&& self.eligible(schedule.cutoff)
        &&& self.joined_at.0 + schedule.eligibility.minimum_tenure.0 <= schedule.cutoff.0
        &&& self.active_days(
            (schedule.start.0 / DAY_MILLIS) as u64,
            (schedule.cutoff.0 / DAY_MILLIS) as u64,
        ) >= schedule.eligibility.minimum_active_days
    }
}

impl Member {
    fn eligible_before(&self, cutoff: CanonicalTime) -> (eligible: bool)
        ensures
            eligible == self@.eligible(cutoff),
    {
        let mut i: usize = self.changes.len();
        while i > 0
            invariant
                0 <= i <= self.changes@.len(),
                forall|j: int|
                    i <= j < self.changes@.len() ==> (#[trigger] self@.changes[j]).0.0 >= cutoff.0,
            decreases i,
        {
            i -= 1;
            let (at, status) = self.changes[i];
            if at.0 < cutoff.0 {
                assert(self@.last_before(cutoff, i as int));
                proof {
                    assert forall|k: int| #[trigger] self@.last_before(cutoff, k) implies k == i by {
                        assert(self@.changes[k].0.0 < cutoff.0);
                    }
                }
                return status.opted_in && status.verified && !status.suspended;
            }
        }
        false
    }

    fn count_active_days(&self, from: u64, to: u64) -> (count: usize)
        ensures
            count == self@.active_days(from, to),
    {
        let days = days_of(&self.activity_days);
        let ghost within = |day: u64| from <= day < to;
        let mut count: usize = 0;
        let mut i: usize = 0;
        assert(days@.take(0).to_set().filter(within) =~= Set::empty());
        while i < days.len()
            invariant
                0 <= i <= days@.len(),
                days@.no_duplicates(),
                within == (|day: u64| from <= day < to),
                days@.take(i as int).to_set().finite(),
                count == days@.take(i as int).to_set().filter(within).len(),
                count <= i,
            decreases days@.len() - i,
        {
            let day: u64 = days[i];
            proof {
                let (p, q) = (days@.take(i as int), days@.take(i + 1));
                assert(q =~= p.push(day));
                assert(q.to_set() =~= p.to_set().insert(day)) by {
                    assert forall|d: u64| q.contains(d) <==> p.to_set().insert(day).contains(d) by {
                        if p.contains(d) {
                            let k = choose|k: int| 0 <= k < p.len() && p[k] == d;
                            assert(q[k] == d);
                        }
                        assert(q[i as int] == day);
                        if q.contains(d) && d != day {
                            let k = choose|k: int| 0 <= k < q.len() && q[k] == d;
                            assert(p[k] == d);
                        }
                    }
                }
                assert(!p.contains(day));
                if within(day) {
                    assert(q.to_set().filter(within) =~= p.to_set().filter(within).insert(day));
                } else {
                    assert(q.to_set().filter(within) =~= p.to_set().filter(within));
                }
            }
            if from <= day && day < to {
                count += 1;
            }
            i += 1;
        }
        assert(days@.take(i as int) =~= days@);
        count
    }

    /// Whether the member takes part in a distribution.
    pub fn qualifies(&self, schedule: &AnnualDistributionSchedule) -> (qualified: bool)
        ensures
            qualified == self@.qualified(*schedule),
    {
        let eligible = self.eligible_before(schedule.cutoff);
        let old_enough = match self.joined_at.checked_add(schedule.eligibility.minimum_tenure) {
            Some(time) => time.0 <= schedule.cutoff.0,
            None => false,
        };
        let days: usize = self.count_active_days(
            schedule.start.0 / DAY_MILLIS,
            schedule.cutoff.0 / DAY_MILLIS,
        );
        eligible && old_enough && days >= schedule.eligibility.minimum_active_days as usize
    }
}

impl Clone for Member {
    fn clone(&self) -> (copy: Self)
        ensures
            copy@ == self@,
    {
        let mut changes: Vec<(CanonicalTime, MembershipStatus)> = Vec::new();
        let mut i: usize = 0;
        while i < self.changes.len()
            invariant
                0 <= i <= self.changes@.len(),
                changes@ == self.changes@.take(i as int),
            decreases self.changes@.len() - i,
        {
            changes.push(self.changes[i]);
            assert(self.changes@.take(i + 1) =~= self.changes@.take(i as int).push(
                self.changes@[i as int],
            ));
            i += 1;
        }
        assert(self.changes@.take(i as int) =~= self.changes@);
        Member {
            id: self.id,
            identity_digest: self.identity_digest,
            joined_at: self.joined_at,
            changes,
            activity_days: self.activity_days.clone(),
        }
    }
}

} // verus!

//! Versions that count the changes of one kind of record.

use vstd::prelude::*;

verus! {

/// A version of some versioned record.
#[derive(Clone, Copy, Debug, PartialEq, Eq, PartialOrd, Ord, Hash, Structural)]
pub struct Version(pub u64);

impl Version {
    /// The version after this one, unless there is none.
    pub fn checked_next(self) -> (next: Option<Self>)
        ensures
            next == (if self.0 == u64::MAX {
                None
            } else {
                Some(Version((self.0 + 1) as u64))
            }),
    {
        if self.0 == u64::MAX {
            None
        } else {
            Some(Version(self.0 + 1))
        }
    }
}

impl Default for Version {
    fn default() -> (version: Self)
        ensures
            version == Version(0),
    {
        Version(0)
    }
}

/// A version of the protocol.
#[derive(Clone, Copy, Debug, PartialEq, Eq, PartialOrd, Ord, Hash, Structural)]
pub struct ProtocolVersion(pub u16);

/// A version of a policy.
#[derive(Clone, Copy, Debug, PartialEq, Eq, PartialOrd, Ord, Hash, Structural)]
pub struct PolicyVersion(pub u64);

/// A version of the privacy profile.
#[derive(Clone, Copy, Debug, PartialEq, Eq, PartialOrd, Ord, Hash, Structural)]
pub struct PrivacyProfileVersion(pub u16);

impl Default for PrivacyProfileVersion {
    fn default() -> (version: Self)
        ensures
            version == PrivacyProfileVersion(0),
    {
        PrivacyProfileVersion(0)
    }
}

/// A version of the retention policy.
#[derive(Clone, Copy, Debug, PartialEq, Eq, PartialOrd, Ord, Hash, Structural)]
pub struct RetentionPolicyVersion(pub u16);

impl Default for RetentionPolicyVersion {
    fn default() -> (version: Self)
        ensures
            version == RetentionPolicyVersion(0),
    {
        RetentionPolicyVersion(0)
    }
}

/// A version of the wire format.
#[derive(Clone, Copy, Debug, PartialEq, Eq, PartialOrd, Ord, Hash, Structural)]
pub struct WireVersion(pub u16);

impl Default for WireVersion {
    fn default() -> (version: Self)
        ensures
            version == WireVersion(0),
    {
        WireVersion(0)
    }
}

/// A version of a relationship.
#[derive(Clone, Copy, Debug, PartialEq, Eq, PartialOrd, Ord, Hash, Structural)]
pub struct RelationshipVersion(pub u64);

impl RelationshipVersion {
    /// The version after this one, unless there is none.
    pub fn checked_next(self) -> (next: Option<Self>)
        ensures
            next == (if self.0 == u64::MAX {
                None
            } else {
                Some(RelationshipVersion((self.0 + 1) as u64))
            }),
    {
        if self.0 == u64::MAX {
            None
        } else {
            Some(RelationshipVersion(self.0 + 1))
        }
    }
}

impl Default for RelationshipVersion {
    fn default() -> (version: Self)
        ensures
            version == RelationshipVersion(0),
    {
        RelationshipVersion(0)
    }
}

impl From<Version> for RelationshipVersion {
    fn from(value: Version) -> (version: Self) {
        RelationshipVersion(value.0)
    }
}

impl vstd::std_specs::convert::FromSpecImpl<Version> for RelationshipVersion {
    open spec fn obeys_from_spec() -> bool {
        true
    }

    open spec fn from_spec(value: Version) -> Self {
        RelationshipVersion(value.0)
    }
}

impl From<RelationshipVersion> for Version {
    fn from(value: RelationshipVersion) -> (version: Self) {
        Version(value.0)
    }
}

impl vstd::std_specs::convert::FromSpecImpl<RelationshipVersion> for Version {
    open spec fn obeys_from_spec() -> bool {
        true
    }

    open spec fn from_spec(value: RelationshipVersion) -> Self {
        Version(value.0)
    }
}

/// A version of a request history.
#[derive(Clone, Copy, Debug, PartialEq, Eq, PartialOrd, Ord, Hash, Structural)]
pub struct RequestHistoryVersion(pub u64);

impl RequestHistoryVersion {
    /// The version after this one, unless there is none.
    pub fn checked_next(self) -> (next: Option<Self>)
        ensures
            next == (if self.0 == u64::MAX {
                None
            } else {
                Some(RequestHistoryVersion((self.0 + 1) as u64))
            }),
    {
        if self.0 == u64::MAX {
            None
        } else {
            Some(RequestHistoryVersion(self.0 + 1))
        }
    }
}

impl Default for RequestHistoryVersion {
    fn default() -> (version: Self)
        ensures
            version == RequestHistoryVersion(0),
    {
        RequestHistoryVersion(0)
    }
}

impl From<Version> for RequestHistoryVersion {
    fn from(value: Version) -> (version: Self) {
        RequestHistoryVersion(value.0)
    }
}

impl vstd::std_specs::convert::FromSpecImpl<Version> for RequestHistoryVersion {
    open spec fn obeys_from_spec() -> bool {
        true
    }

    open spec fn from_spec(value: Version) -> Self {
        RequestHistoryVersion(value.0)
    }
}

impl From<RequestHistoryVersion> for Version {
    fn from(value: RequestHistoryVersion) -> (version: Self) {
        Version(value.0)
    }
}

impl vstd::std_specs::convert::FromSpecImpl<RequestHistoryVersion> for Version {
    open spec fn obeys_from_spec() -> bool {
        true
    }

    open spec fn from_spec(value: RequestHistoryVersion) -> Self {
        Version(value.0)
    }
}

/// A version of a request.
#[derive(Clone, Copy, Debug, PartialEq, Eq, PartialOrd, Ord, Hash, Structural)]
pub struct RequestVersion(pub u64);

impl RequestVersion {
    /// The version after this one, unless there is none.
    pub fn checked_next(self) -> (next: Option<Self>)
        ensures
            next == (if self.0 == u64::MAX {
                None
            } else {
                Some(RequestVersion((self.0 + 1) as u64))
            }),
    {
        if self.0 == u64::MAX {
            None
        } else {
            Some(RequestVersion(self.0 + 1))
        }
    }
}

impl Default for RequestVersion {
    fn default() -> (version: Self)
        ensures
            version == RequestVersion(0),
    {
        RequestVersion(0)
    }
}

impl From<Version> for RequestVersion {
    fn from(value: Version) -> (version: Self) {
        RequestVersion(value.0)
    }
}

impl vstd::std_specs::convert::FromSpecImpl<Version> for RequestVersion {
    open spec fn obeys_from_spec() -> bool {
        true
    }

    open spec fn from_spec(value: Version) -> Self {
        RequestVersion(value.0)
    }
}

impl From<RequestVersion> for Version {
    fn from(value: RequestVersion) -> (version: Self) {
        Version(value.0)
    }
}

impl vstd::std_specs::convert::FromSpecImpl<RequestVersion> for Version {
    open spec fn obeys_from_spec() -> bool {
        true
    }

    open spec fn from_spec(value: RequestVersion) -> Self {
        Version(value.0)
    }
}

/// A version of an express lane.
#[derive(Clone, Copy, Debug, PartialEq, Eq, PartialOrd, Ord, Hash, Structural)]
pub struct LaneVersion(pub u64);

impl LaneVersion {
    /// The version after this one, unless there is none.
    pub fn checked_next(self) -> (next: Option<Self>)
        ensures
            next == (if self.0 == u64::MAX {
                None
            } else {
                Some(LaneVersion((self.0 + 1) as u64))
            }),
    {
        if self.0 == u64::MAX {
            None
        } else {
            Some(LaneVersion(self.0 + 1))
        }
    }
}

impl Default for LaneVersion {
    fn default() -> (version: Self)
        ensures
            version == LaneVersion(0),
    {
        LaneVersion(0)
    }
}

impl From<Version> for LaneVersion {
    fn from(value: Version) -> (version: Self) {
        LaneVersion(value.0)
    }
}

impl vstd::std_specs::convert::FromSpecImpl<Version> for LaneVersion {
    open spec fn obeys_from_spec() -> bool {
        true
    }

    open spec fn from_spec(value: Version) -> Self {
        LaneVersion(value.0)
    }
}

impl From<LaneVersion> for Version {
    fn from(value: LaneVersion) -> (version: Self) {
        Version(value.0)
    }
}

impl vstd::std_specs::convert::FromSpecImpl<LaneVersion> for Version {
    open spec fn obeys_from_spec() -> bool {
        true
    }

    open spec fn from_spec(value: LaneVersion) -> Self {
        Version(value.0)
    }
}

/// A revision of an aggregate.
#[derive(Clone, Copy, Debug, PartialEq, Eq, PartialOrd, Ord, Hash, Structural)]
pub struct AggregateRevision(pub u64);

impl AggregateRevision {
    /// The version after this one, unless there is none.
    pub fn checked_next(self) -> (next: Option<Self>)
        ensures
            next == (if self.0 == u64::MAX {
                None
            } else {
                Some(AggregateRevision((self.0 + 1) as u64))
            }),
    {
        if self.0 == u64::MAX {
            None
        } else {
            Some(AggregateRevision(self.0 + 1))
        }
    }
}

impl Default for AggregateRevision {
    fn default() -> (version: Self)
        ensures
            version == AggregateRevision(0),
    {
        AggregateRevision(0)
    }
}

impl From<Version> for AggregateRevision {
    fn from(value: Version) -> (version: Self) {
        AggregateRevision(value.0)
    }
}

impl vstd::std_specs::convert::FromSpecImpl<Version> for AggregateRevision {
    open spec fn obeys_from_spec() -> bool {
        true
    }

    open spec fn from_spec(value: Version) -> Self {
        AggregateRevision(value.0)
    }
}

impl From<AggregateRevision> for Version {
    fn from(value: AggregateRevision) -> (version: Self) {
        Version(value.0)
    }
}

impl vstd::std_specs::convert::FromSpecImpl<AggregateRevision> for Version {
    open spec fn obeys_from_spec() -> bool {
        true
    }

    open spec fn from_spec(value: AggregateRevision) -> Self {
        Version(value.0)
    }
}

/// A version of a content key.
#[derive(Clone, Copy, Debug, PartialEq, Eq, PartialOrd, Ord, Hash, Structural)]
pub struct ContentKeyVersion(pub u64);

impl ContentKeyVersion {
    /// The version after this one, unless there is none.
    pub fn checked_next(self) -> (next: Option<Self>)
        ensures
            next == (if self.0 == u64::MAX {
                None
            } else {
                Some(ContentKeyVersion((self.0 + 1) as u64))
            }),
    {
        if self.0 == u64::MAX {
            None
        } else {
            Some(ContentKeyVersion(self.0 + 1))
        }
    }
}

impl Default for ContentKeyVersion {
    fn default() -> (version: Self)
        ensures
            version == ContentKeyVersion(0),
    {
        ContentKeyVersion(0)
    }
}

impl From<Version> for ContentKeyVersion {
    fn from(value: Version) -> (version: Self) {
        ContentKeyVersion(value.0)
    }
}

impl vstd::std_specs::convert::FromSpecImpl<Version> for ContentKeyVersion {
    open spec fn obeys_from_spec() -> bool {
        true
    }

    open spec fn from_spec(value: Version) -> Self {
        ContentKeyVersion(value.0)
    }
}

impl From<ContentKeyVersion> for Version {
    fn from(value: ContentKeyVersion) -> (version: Self) {
        Version(value.0)
    }
}

impl vstd::std_specs::convert::FromSpecImpl<ContentKeyVersion> for Version {
    open spec fn obeys_from_spec() -> bool {
        true
    }

    open spec fn from_spec(value: ContentKeyVersion) -> Self {
        Version(value.0)
    }
}

} // verus!

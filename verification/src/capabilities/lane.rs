//! A lane in use: what it lets through, how often, and until when.

use super::grant::{
    push_bytes, CapabilityError, DeclarationAuthorityConstraint, LaneGrant, LaneMode, LaneSubject,
    ScopedHandle, SignedLaneGrant,
};
use crate::adapters::dmarc::{DmarcAlignment, DmarcPass, LegacyDmarcEvidence};
use crate::bytes::{be_bytes, prefixed32, push_32, push_be, same_32, utf8};
use crate::maps::{add_member, is_member};
use crate::primitives::amounts::CanonicalTime;
use crate::primitives::declarations::{DeclaredPurpose, MessageDeclarations};
use crate::primitives::ids::{LaneId, MessageId, ProtocolIdentity};
use crate::primitives::schedule::{ScheduleChange, ScheduleTask};
use crate::primitives::versions::Version;
use std::collections::BTreeSet;
use vstd::prelude::*;

verus! {

#[derive(Debug, PartialEq, Eq)]
pub enum LaneEvidence {
    Native(ScopedHandle),
    Legacy(LegacyDmarcEvidence),
}

impl Clone for LaneEvidence {
    fn clone(&self) -> (copy: Self)
        ensures
            copy == *self,
    {
        match self {
            LaneEvidence::Native(handle) => LaneEvidence::Native(*handle),
            LaneEvidence::Legacy(evidence) => LaneEvidence::Legacy(evidence.clone()),
        }
    }
}

pub open spec fn pass_bytes(pass: Option<DmarcPass>) -> Seq<u8> {
    match pass {
        Some(pass) => seq![1u8] + seq![
            match pass.alignment {
                DmarcAlignment::Strict => 0u8,
                DmarcAlignment::Relaxed => 1u8,
            },
        ],
        None => seq![0u8],
    }
}

fn append_dmarc_pass(bytes: &mut Vec<u8>, pass: Option<DmarcPass>)
    ensures
        final(bytes)@ == old(bytes)@ + pass_bytes(pass),
{
    let ghost before = bytes@;
    match pass {
        Some(pass) => {
            bytes.push(1);
            bytes.push(
                match pass.alignment {
                    DmarcAlignment::Strict => 0,
                    DmarcAlignment::Relaxed => 1,
                },
            );
        },
        None => {
            bytes.push(0);
        },
    }
    assert(bytes@ =~= before + pass_bytes(pass));
}

impl LaneEvidence {
    /// The evidence is of the subject that a lane was granted to.
    pub open spec fn proves(self, subject: LaneSubject) -> bool {
        match (self, subject) {
            (LaneEvidence::Native(actual), LaneSubject::Native(expected)) => actual == expected,
            (LaneEvidence::Legacy(actual), LaneSubject::LegacyDomain(expected)) => {
                actual.lane_domain.0@ == expected.0@
            },
            _ => false,
        }
    }

    pub fn matches(&self, subject: &LaneSubject) -> (matching: bool)
        ensures
            matching == self.proves(*subject),
    {
        match (self, subject) {
            (LaneEvidence::Native(actual), LaneSubject::Native(expected)) => same_32(
                &actual.0,
                &expected.0,
            ),
            (LaneEvidence::Legacy(actual), LaneSubject::LegacyDomain(expected)) => {
                actual.lane_identity().same(expected)
            },
            _ => false,
        }
    }

    pub open spec fn encodable(self) -> bool {
        self matches LaneEvidence::Legacy(evidence) ==> utf8(evidence.lane_domain.0@).len()
            <= u32::MAX && utf8(evidence.verification.author_domain.0@).len() <= u32::MAX
    }

    pub open spec fn canonical(self) -> Seq<u8> {
        match self {
            LaneEvidence::Native(handle) => seq![0u8] + handle.0@,
            LaneEvidence::Legacy(evidence) => seq![1u8] + be_bytes(
                evidence.format_version as nat,
                2,
            ) + prefixed32(utf8(evidence.lane_domain.0@)) + prefixed32(
                utf8(evidence.verification.author_domain.0@),
            ) + pass_bytes(evidence.verification.dkim) + pass_bytes(evidence.verification.spf)
                + be_bytes(evidence.verification.evaluated_at.0 as nat, 8),
        }
    }

    /// The evidence as it is signed.
    pub(crate) fn signing_bytes(&self) -> (result: Result<Vec<u8>, CapabilityError>)
        ensures
            if self.encodable() {
                result matches Ok(bytes) && bytes@ == self.canonical()
            } else {
                result == Err::<Vec<u8>, CapabilityError>(CapabilityError::InvalidGrant)
            },
    {
        let mut bytes: Vec<u8> = Vec::new();
        match self {
            LaneEvidence::Native(handle) => {
                bytes.push(0);
                assert(bytes@ =~= seq![0u8]);
                push_32(&mut bytes, &handle.0);
            },
            LaneEvidence::Legacy(evidence) => {
                bytes.push(1);
                assert(bytes@ =~= seq![1u8]);
                push_be(&mut bytes, evidence.format_version as u128, 2);
                match push_bytes(&mut bytes, evidence.lane_domain.as_str().as_bytes()) {
                    Ok(()) => {},
                    Err(e) => return Err(e),
                }
                match push_bytes(
                    &mut bytes,
                    evidence.verification.author_domain.as_str().as_bytes(),
                ) {
                    Ok(()) => {},
                    Err(e) => return Err(e),
                }
                append_dmarc_pass(&mut bytes, evidence.verification.dkim);
                append_dmarc_pass(&mut bytes, evidence.verification.spf);
                push_be(&mut bytes, evidence.verification.evaluated_at.0 as u128, 8);
            },
        }
        Ok(bytes)
    }
}

#[derive(Clone, Copy, Debug, PartialEq, Eq, Structural)]
pub enum LaneState {
    Active,
    AwaitingReconfirmation,
    Expired,
    Revoked,
}

#[derive(Clone, Copy, Debug, PartialEq, Eq, Structural)]
pub enum LaneHorizonEffect {
    Unchanged,
    ReconfirmationRequired,
    ReviewReminder,
}

#[derive(Debug, PartialEq, Eq)]
pub struct Lane {
    pub grant: LaneGrant,
    pub state: LaneState,
    pub last_activity: CanonicalTime,
    pub horizon_at: CanonicalTime,
    pub rate_window_started_at: CanonicalTime,
    pub messages_in_rate_window: u32,
    pub version: Version,
    pub admitted_messages: BTreeSet<u128>,
}

pub ghost struct LaneModel {
    pub grant: LaneGrant,
    pub state: LaneState,
    pub last_activity: CanonicalTime,
    pub horizon_at: CanonicalTime,
    pub rate_window_started_at: CanonicalTime,
    pub messages_in_rate_window: u32,
    pub version: Version,
    pub admitted_messages: Set<u128>,
}

impl View for Lane {
    type V = LaneModel;

    open spec fn view(&self) -> LaneModel {
        LaneModel {
            grant: self.grant,
            state: self.state,
            last_activity: self.last_activity,
            horizon_at: self.horizon_at,
            rate_window_started_at: self.rate_window_started_at,
            messages_in_rate_window: self.messages_in_rate_window,
            version: self.version,
            admitted_messages: self.admitted_messages@,
        }
    }
}

impl Clone for Lane {
    fn clone(&self) -> (copy: Self)
        ensures
            copy@ == self@,
    {
        Lane {
            grant: self.grant.clone(),
            state: self.state,
            last_activity: self.last_activity,
            horizon_at: self.horizon_at,
            rate_window_started_at: self.rate_window_started_at,
            messages_in_rate_window: self.messages_in_rate_window,
            version: self.version,
            admitted_messages: self.admitted_messages.clone(),
        }
    }
}

/// A lifetime from a time, cut off where the grant ends; none if it is too late to represent.
pub open spec fn horizon(grant: LaneGrant, from: CanonicalTime) -> Option<CanonicalTime> {
    let end = from.0 + grant.lifetime.0;
    if end > u64::MAX {
        None
    } else if end <= grant.not_after.0 {
        Some(CanonicalTime(end as u64))
    } else {
        Some(grant.not_after)
    }
}

/// A lane as a grant starts it.
pub open spec fn fresh_lane(grant: LaneGrant) -> Result<LaneModel, CapabilityError> {
    match grant.check() {
        Err(e) => Err(e),
        Ok(()) => match horizon(grant, grant.issued_at) {
            None => Err(CapabilityError::ArithmeticOverflow),
            Some(horizon_at) => Ok(
                LaneModel {
                    grant,
                    state: LaneState::Active,
                    last_activity: grant.issued_at,
                    horizon_at,
                    rate_window_started_at: grant.issued_at,
                    messages_in_rate_window: 0,
                    version: Version(0),
                    admitted_messages: Set::empty(),
                },
            ),
        },
    }
}

pub open spec fn later(a: CanonicalTime, b: CanonicalTime) -> CanonicalTime {
    if a.0 >= b.0 {
        a
    } else {
        b
    }
}

impl LaneModel {
    pub open spec fn alike(self, other: Self) -> bool {
        &&& self.grant.alike(&other.grant)
        &&& self.state == other.state
        &&& self.last_activity == other.last_activity
        &&& self.horizon_at == other.horizon_at
        &&& self.rate_window_started_at == other.rate_window_started_at
        &&& self.messages_in_rate_window == other.messages_in_rate_window
        &&& self.version == other.version
        &&& self.admitted_messages == other.admitted_messages
    }

    /// The task that the lane's horizon is.
    pub open spec fn due(self) -> ScheduleChange {
        ScheduleChange::Schedule {
            task: ScheduleTask::LaneHorizon(self.grant.id),
            at: self.horizon_at,
        }
    }

    pub open spec fn gives_access(self, now: CanonicalTime) -> bool {
        &&& self.state == LaneState::Active
        &&& now.0 < self.grant.not_after.0
        &&& (self.grant.mode == LaneMode::Expiring ==> now.0 < self.horizon_at.0)
    }

    pub open spec fn current(self, now: CanonicalTime) -> bool {
        self.gives_access(now) && now.0 >= self.grant.not_before.0
    }

    /// What a message declares is what the lane was granted for.
    pub open spec fn in_scope(
        self,
        capability: Option<LaneId>,
        declarations: MessageDeclarations,
    ) -> bool {
        &&& capability == Some(self.grant.id)
        &&& declarations.purpose.alike(&self.grant.purpose)
        &&& (self.grant.origin matches Some(origin) ==> origin == declarations.origin.mode)
        &&& self.grant.declaration_authority.admits(declarations.origin.authority)
    }

    /// Whether the lane lets a message through, and if not, why.
    pub open spec fn authorization(
        self,
        sender: ProtocolIdentity,
        recipient: ProtocolIdentity,
        capability: Option<LaneId>,
        declarations: MessageDeclarations,
        evidence: LaneEvidence,
        now: CanonicalTime,
    ) -> Result<(), CapabilityError> {
        if declarations.check() is Err {
            Err(CapabilityError::InvalidDeclaration)
        } else if !self.in_scope(capability, declarations) {
            Err(CapabilityError::ScopeMismatch)
        } else if sender != self.grant.sender || recipient != self.grant.recipient || !self.current(
            now,
        ) || !evidence.proves(self.grant.subject) {
            Err(CapabilityError::NotAuthorized)
        } else {
            Ok(())
        }
    }

    /// The rate window as a message at this time finds it: the running one, or a new one.
    pub open spec fn in_window(self, now: CanonicalTime) -> Self {
        if now.0 >= self.rate_window_started_at.0 + self.grant.rate_limit.interval.0 {
            LaneModel { rate_window_started_at: now, messages_in_rate_window: 0, ..self }
        } else {
            self
        }
    }

    /// The lane after a message takes its place in the current rate window, and whether the
    /// message had been let through before; or the lane as a refusal leaves it, and why.
    pub open spec fn consumed(
        self,
        message: MessageId,
        capability: Option<LaneId>,
        declarations: MessageDeclarations,
        evidence: LaneEvidence,
        now: CanonicalTime,
    ) -> (Self, Result<bool, CapabilityError>) {
        let window = self.in_window(now);
        let active = later(self.last_activity, now);
        let counted = LaneModel {
            messages_in_rate_window: (window.messages_in_rate_window + 1) as u32,
            last_activity: active,
            ..window
        };
        match self.authorization(
            self.grant.sender,
            self.grant.recipient,
            capability,
            declarations,
            evidence,
            now,
        ) {
            Err(e) => (self, Err(e)),
            Ok(()) => if self.admitted_messages.contains(message.0) {
                (self, Ok(true))
            } else if self.rate_window_started_at.0 + self.grant.rate_limit.interval.0 > u64::MAX {
                (self, Err(CapabilityError::ArithmeticOverflow))
            } else if window.messages_in_rate_window >= self.grant.rate_limit.max_messages {
                (window, Err(CapabilityError::RateLimitExceeded))
            } else {
                match horizon(self.grant, active) {
                    None => (counted, Err(CapabilityError::ArithmeticOverflow)),
                    Some(horizon_at) => if self.version.0 == u64::MAX {
                        (
                            LaneModel { horizon_at, ..counted },
                            Err(CapabilityError::ArithmeticOverflow),
                        )
                    } else {
                        (
                            LaneModel {
                                horizon_at,
                                version: Version((self.version.0 + 1) as u64),
                                admitted_messages: self.admitted_messages.insert(message.0),
                                ..counted
                            },
                            Ok(false),
                        )
                    },
                }
            },
        }
    }

    /// The lane after its horizon is looked at, and what is to follow.
    pub open spec fn at_horizon(self, now: CanonicalTime) -> (
        Self,
        Result<LaneHorizonEffect, CapabilityError>,
    ) {
        let counted = LaneModel { version: Version((self.version.0 + 1) as u64), ..self };
        if now.0 < self.horizon_at.0 || self.state != LaneState::Active {
            (self, Ok(LaneHorizonEffect::Unchanged))
        } else if self.version.0 == u64::MAX {
            (self, Err(CapabilityError::ArithmeticOverflow))
        } else if now.0 >= self.grant.not_after.0 {
            (
                LaneModel { state: LaneState::Expired, ..counted },
                Ok(LaneHorizonEffect::ReconfirmationRequired),
            )
        } else {
            match self.grant.mode {
                LaneMode::Expiring => (
                    LaneModel { state: LaneState::AwaitingReconfirmation, ..counted },
                    Ok(LaneHorizonEffect::ReconfirmationRequired),
                ),
                LaneMode::Persistent => match horizon(self.grant, now) {
                    None => (counted, Err(CapabilityError::ArithmeticOverflow)),
                    Some(horizon_at) => (
                        LaneModel { horizon_at, ..counted },
                        Ok(LaneHorizonEffect::ReviewReminder),
                    ),
                },
            }
        }
    }

    /// The lane revoked, which stands even where its version cannot be counted on.
    pub open spec fn revoked(self) -> (Self, Result<(), CapabilityError>) {
        let revoked = LaneModel { state: LaneState::Revoked, ..self };
        if self.version.0 == u64::MAX {
            (revoked, Err(CapabilityError::ArithmeticOverflow))
        } else {
            (LaneModel { version: Version((self.version.0 + 1) as u64), ..revoked }, Ok(()))
        }
    }

    /// The lane after its recipient reconfirms it.
    pub open spec fn reconfirmed(self, now: CanonicalTime) -> (Self, Result<(), CapabilityError>) {
        let active = LaneModel {
            state: LaneState::Active,
            last_activity: later(self.last_activity, now),
            ..self
        };
        if self.state != LaneState::AwaitingReconfirmation || now.0 >= self.grant.not_after.0 {
            (self, Err(CapabilityError::NotAuthorized))
        } else {
            match horizon(self.grant, now) {
                None => (active, Err(CapabilityError::ArithmeticOverflow)),
                Some(horizon_at) => if self.version.0 == u64::MAX {
                    (
                        LaneModel { horizon_at, ..active },
                        Err(CapabilityError::ArithmeticOverflow),
                    )
                } else {
                    (
                        LaneModel {
                            horizon_at,
                            version: Version((self.version.0 + 1) as u64),
                            ..active
                        },
                        Ok(()),
                    )
                },
            }
        }
    }
}

fn horizon_from(grant: &LaneGrant, from: CanonicalTime) -> (time: Option<CanonicalTime>)
    ensures
        time == horizon(*grant, from),
{
    match from.checked_add(grant.lifetime) {
        Some(end) => {
            if end.0 <= grant.not_after.0 {
                Some(end)
            } else {
                Some(grant.not_after)
            }
        },
        None => None,
    }
}

impl Lane {
    /// Starts the lane of a grant. Malformed grants, and horizons too late to represent, are
    /// refused.
    pub fn from_grant(grant: LaneGrant) -> (result: Result<Self, CapabilityError>)
        ensures
            match fresh_lane(grant) {
                Ok(model) => result matches Ok(lane) && lane@ == model,
                Err(e) => result == Err::<Self, CapabilityError>(e),
            },
    {
        match grant.validate() {
            Ok(()) => {},
            Err(e) => return Err(e),
        }
        let horizon_at = match horizon_from(&grant, grant.issued_at) {
            Some(time) => time,
            None => return Err(CapabilityError::ArithmeticOverflow),
        };
        let issued_at = grant.issued_at;
        Ok(
            Lane {
                grant,
                state: LaneState::Active,
                last_activity: issued_at,
                horizon_at,
                rate_window_started_at: issued_at,
                messages_in_rate_window: 0,
                version: Version::default(),
                admitted_messages: BTreeSet::new(),
            },
        )
    }

    /// Verifies the recipient signature and activates the resulting lane. An invalid signature or
    /// grant is refused.
    pub fn from_verified_grant(signed: &SignedLaneGrant, recipient_key: &[u8; 32]) -> (result: Result<
        Self,
        CapabilityError,
    >)
        ensures
            match signed.verdict(*recipient_key) {
                Err(e) => result == Err::<Self, CapabilityError>(e),
                Ok(()) => match fresh_lane(signed.grant) {
                    Ok(model) => result matches Ok(lane) && lane@ == model,
                    Err(e) => result == Err::<Self, CapabilityError>(e),
                },
            },
    {
        match signed.verify(recipient_key) {
            Ok(()) => {},
            Err(e) => return Err(e),
        }
        Self::from_grant(signed.grant.clone())
    }

    pub fn schedule_change(&self) -> (change: ScheduleChange)
        ensures
            change == self@.due(),
    {
        ScheduleChange::Schedule {
            task: ScheduleTask::LaneHorizon(self.grant.id),
            at: self.horizon_at,
        }
    }

    /// Established access, including a scheduled start; admission checks `not_before`.
    pub fn provides_relationship_access(&self, now: CanonicalTime) -> (access: bool)
        ensures
            access == self@.gives_access(now),
    {
        self.state == LaneState::Active && now.0 < self.grant.not_after.0 && (self.grant.mode
            != LaneMode::Expiring || now.0 < self.horizon_at.0)
    }

    /// Whether this lane currently provides access, independent of message scope.
    pub fn is_current(&self, now: CanonicalTime) -> (current: bool)
        ensures
            current == self@.current(now),
    {
        self.provides_relationship_access(now) && now.0 >= self.grant.not_before.0
    }

    /// Checks pair, evidence, state, and validity without consuming allowance.
    pub fn authorizes(
        &self,
        sender: ProtocolIdentity,
        recipient: ProtocolIdentity,
        capability: Option<LaneId>,
        declarations: &MessageDeclarations,
        evidence: &LaneEvidence,
        now: CanonicalTime,
    ) -> (result: Result<(), CapabilityError>)
        ensures
            result == self@.authorization(
                sender,
                recipient,
                capability,
                *declarations,
                *evidence,
                now,
            ),
    {
        if declarations.validate().is_err() {
            return Err(CapabilityError::InvalidDeclaration);
        }
        let origin_fits = match self.grant.origin {
            Some(origin) => origin == declarations.origin.mode,
            None => true,
        };
        if capability != Some(self.grant.id) || !declarations.purpose.same(&self.grant.purpose)
            || !origin_fits || !self.grant.declaration_authority.allows(
            declarations.origin.authority,
        ) {
            return Err(CapabilityError::ScopeMismatch);
        }
        if sender != self.grant.sender || recipient != self.grant.recipient || !self.is_current(now)
            || !evidence.matches(&self.grant.subject) {
            return Err(CapabilityError::NotAuthorized);
        }
        Ok(())
    }

    /// Idempotently consumes one message from the current rate window; whether it had been let
    /// through before. Fails with an authorization, rate-limit, or arithmetic error.
    pub fn consume(
        &mut self,
        message: MessageId,
        capability: Option<LaneId>,
        declarations: &MessageDeclarations,
        evidence: &LaneEvidence,
        now: CanonicalTime,
    ) -> (result: Result<bool, CapabilityError>)
        ensures
            (final(self)@, result) == old(self)@.consumed(
                message,
                capability,
                *declarations,
                *evidence,
                now,
            ),
    {
        match self.authorizes(
            self.grant.sender,
            self.grant.recipient,
            capability,
            declarations,
            evidence,
            now,
        ) {
            Ok(()) => {},
            Err(e) => return Err(e),
        }
        if is_member(&self.admitted_messages, message.0) {
            return Ok(true);
        }
        let rate_window_end = match self.rate_window_started_at.checked_add(
            self.grant.rate_limit.interval,
        ) {
            Some(time) => time,
            None => return Err(CapabilityError::ArithmeticOverflow),
        };
        if now.0 >= rate_window_end.0 {
            self.rate_window_started_at = now;
            self.messages_in_rate_window = 0;
        }
        if self.messages_in_rate_window >= self.grant.rate_limit.max_messages {
            return Err(CapabilityError::RateLimitExceeded);
        }
        self.messages_in_rate_window = self.messages_in_rate_window + 1;
        if now.0 > self.last_activity.0 {
            self.last_activity = now;
        }
        match horizon_from(&self.grant, self.last_activity) {
            Some(time) => {
                self.horizon_at = time;
            },
            None => return Err(CapabilityError::ArithmeticOverflow),
        }
        match self.version.checked_next() {
            Some(version) => {
                self.version = version;
            },
            None => return Err(CapabilityError::ArithmeticOverflow),
        }
        add_member(&mut self.admitted_messages, message.0);
        Ok(false)
    }

    /// Applies a due lifetime horizon. Fails with an arithmetic error when a persistent horizon
    /// cannot advance.
    pub fn reach_horizon(&mut self, now: CanonicalTime) -> (result: Result<
        LaneHorizonEffect,
        CapabilityError,
    >)
        ensures
            (final(self)@, result) == old(self)@.at_horizon(now),
    {
        if now.0 < self.horizon_at.0 || self.state != LaneState::Active {
            return Ok(LaneHorizonEffect::Unchanged);
        }
        match self.version.checked_next() {
            Some(version) => {
                self.version = version;
            },
            None => return Err(CapabilityError::ArithmeticOverflow),
        }
        if now.0 >= self.grant.not_after.0 {
            self.state = LaneState::Expired;
            return Ok(LaneHorizonEffect::ReconfirmationRequired);
        }
        match self.grant.mode {
            LaneMode::Expiring => {
                self.state = LaneState::AwaitingReconfirmation;
                Ok(LaneHorizonEffect::ReconfirmationRequired)
            },
            LaneMode::Persistent => {
                match horizon_from(&self.grant, now) {
                    Some(time) => {
                        self.horizon_at = time;
                        Ok(LaneHorizonEffect::ReviewReminder)
                    },
                    None => Err(CapabilityError::ArithmeticOverflow),
                }
            },
        }
    }

    /// Irreversibly revokes this version of the lane. Fails if the version cannot advance; the
    /// lane is revoked all the same.
    pub fn revoke(&mut self) -> (result: Result<(), CapabilityError>)
        ensures
            (final(self)@, result) == old(self)@.revoked(),
    {
        self.state = LaneState::Revoked;
        match self.version.checked_next() {
            Some(version) => {
                self.version = version;
                Ok(())
            },
            None => Err(CapabilityError::ArithmeticOverflow),
        }
    }

    /// Reactivates an awaiting lane within its signed hard validity interval. Fails for invalid
    /// state, expired authority, or overflow.
    pub fn reconfirm(&mut self, now: CanonicalTime) -> (result: Result<(), CapabilityError>)
        ensures
            (final(self)@, result) == old(self)@.reconfirmed(now),
    {
        if self.state != LaneState::AwaitingReconfirmation || now.0 >= self.grant.not_after.0 {
            return Err(CapabilityError::NotAuthorized);
        }
        self.state = LaneState::Active;
        if now.0 > self.last_activity.0 {
            self.last_activity = now;
        }
        match horizon_from(&self.grant, now) {
            Some(time) => {
                self.horizon_at = time;
            },
            None => return Err(CapabilityError::ArithmeticOverflow),
        }
        match self.version.checked_next() {
            Some(version) => {
                self.version = version;
                Ok(())
            },
            None => Err(CapabilityError::ArithmeticOverflow),
        }
    }

    /// Whether two lanes that have let nothing through are the same.
    pub(crate) fn same_unused(&self, other: &Self) -> (same: bool)
        requires
            other@.admitted_messages == Set::<u128>::empty(),
        ensures
            same == self@.alike(other@),
    {
        self.grant.same(&other.grant) && self.state == other.state && self.last_activity
            == other.last_activity && self.horizon_at == other.horizon_at
            && self.rate_window_started_at == other.rate_window_started_at
            && self.messages_in_rate_window == other.messages_in_rate_window && self.version
            == other.version && self.admitted_messages.is_empty()
    }
}

/// Checked grant contents; signing authority is established separately at receipt.
#[derive(Debug, PartialEq, Eq)]
pub struct ValidatedLaneGrant(LaneGrant);

impl ValidatedLaneGrant {
    pub closed spec fn granted(&self) -> LaneGrant {
        self.0
    }

    #[verifier::type_invariant]
    spec fn well_formed(self) -> bool {
        self.granted().check() is Ok
    }

    /// Refuses invalid contents.
    pub fn new(grant: LaneGrant) -> (result: Result<Self, CapabilityError>)
        ensures
            match grant.check() {
                Ok(()) => result matches Ok(valid) && valid.granted() == grant,
                Err(e) => result == Err::<Self, CapabilityError>(e),
            },
    {
        match grant.validate() {
            Ok(()) => Ok(ValidatedLaneGrant(grant)),
            Err(e) => Err(e),
        }
    }

    /// Refuses invalid contents and recipient signatures.
    pub fn verify(signed: &SignedLaneGrant, key: &[u8; 32]) -> (result: Result<
        Self,
        CapabilityError,
    >)
        ensures
            match signed.verdict(*key) {
                Ok(()) => result matches Ok(valid) && valid.granted() == signed.grant,
                Err(e) => result == Err::<Self, CapabilityError>(e),
            },
    {
        match signed.verify(key) {
            Ok(()) => {},
            Err(e) => return Err(e),
        }
        Self::new(signed.grant.clone())
    }

    /// Starts the lane. Only a horizon too late to represent is refused.
    pub fn activate(self) -> (result: Result<Lane, CapabilityError>)
        ensures
            match horizon(self.granted(), self.granted().issued_at) {
                Some(_) => result matches Ok(lane) && fresh_lane(self.granted()) == Ok::<
                    LaneModel,
                    CapabilityError,
                >(lane@),
                None => result == Err::<Lane, CapabilityError>(CapabilityError::ArithmeticOverflow),
            },
    {
        proof {
            use_type_invariant(&self);
        }
        Lane::from_grant(self.0)
    }

    /// The grant itself.
    pub fn into_grant(self) -> (grant: LaneGrant)
        ensures
            grant == self.granted(),
            grant.check() is Ok,
    {
        proof {
            use_type_invariant(&self);
        }
        self.0
    }
}

/// A message that was let through is let through again without using up any allowance.
pub proof fn consumption_is_idempotent(
    lane: LaneModel,
    message: MessageId,
    capability: Option<LaneId>,
    declarations: MessageDeclarations,
    evidence: LaneEvidence,
    now: CanonicalTime,
    again: CanonicalTime,
)
    requires
        lane.consumed(message, capability, declarations, evidence, now).1 is Ok,
        now.0 <= again.0,
        ({
            let next = lane.consumed(message, capability, declarations, evidence, now).0;
            next.current(again)
        }),
    ensures
        ({
            let next = lane.consumed(message, capability, declarations, evidence, now).0;
            next.consumed(message, capability, declarations, evidence, again) == (
                next,
                Ok::<bool, CapabilityError>(true),
            )
        }),
{
}

/// A refusal for scope or authorization uses up no allowance.
pub proof fn refusals_consume_nothing(
    lane: LaneModel,
    message: MessageId,
    capability: Option<LaneId>,
    declarations: MessageDeclarations,
    evidence: LaneEvidence,
    now: CanonicalTime,
)
    requires
        lane.authorization(
            lane.grant.sender,
            lane.grant.recipient,
            capability,
            declarations,
            evidence,
            now,
        ) is Err,
    ensures
        lane.consumed(message, capability, declarations, evidence, now).0 == lane,
{
}

/// No rate window ever holds more messages than the grant allows.
pub proof fn rate_limits_hold(
    lane: LaneModel,
    message: MessageId,
    capability: Option<LaneId>,
    declarations: MessageDeclarations,
    evidence: LaneEvidence,
    now: CanonicalTime,
)
    requires
        lane.messages_in_rate_window <= lane.grant.rate_limit.max_messages,
    ensures
        ({
            let next = lane.consumed(message, capability, declarations, evidence, now).0;
            next.messages_in_rate_window <= next.grant.rate_limit.max_messages
        }),
{
}

/// The horizon of a lane never lies beyond the end of its grant.
pub proof fn horizons_stay_within_the_grant(
    lane: LaneModel,
    message: MessageId,
    capability: Option<LaneId>,
    declarations: MessageDeclarations,
    evidence: LaneEvidence,
    now: CanonicalTime,
)
    requires
        lane.horizon_at.0 <= lane.grant.not_after.0,
    ensures
        lane.consumed(message, capability, declarations, evidence, now).0.horizon_at.0
            <= lane.grant.not_after.0,
        lane.at_horizon(now).0.horizon_at.0 <= lane.grant.not_after.0,
        lane.reconfirmed(now).0.horizon_at.0 <= lane.grant.not_after.0,
{
}

/// Revocation is irreversible: a revoked lane lets nothing through, and neither its horizon nor a
/// reconfirmation brings it back.
pub proof fn revocation_is_irreversible(
    lane: LaneModel,
    sender: ProtocolIdentity,
    recipient: ProtocolIdentity,
    capability: Option<LaneId>,
    declarations: MessageDeclarations,
    evidence: LaneEvidence,
    now: CanonicalTime,
)
    requires
        lane.state == LaneState::Revoked,
    ensures
        lane.authorization(sender, recipient, capability, declarations, evidence, now) is Err,
        lane.at_horizon(now).0 == lane,
        lane.reconfirmed(now).0 == lane,
{
}

/// A message that a lane authorizes and has not let through yet goes through exactly if fewer than
/// the granted number went through in the rate window that it falls in. At or after the end of the
/// running window, its start plus the interval, a new one starts with this message as its first.
pub proof fn each_rate_window_counts_its_own_messages(
    lane: LaneModel,
    message: MessageId,
    capability: Option<LaneId>,
    declarations: MessageDeclarations,
    evidence: LaneEvidence,
    now: CanonicalTime,
)
    requires
        lane.authorization(
            lane.grant.sender,
            lane.grant.recipient,
            capability,
            declarations,
            evidence,
            now,
        ) is Ok,
        !lane.admitted_messages.contains(message.0),
        lane.rate_window_started_at.0 + lane.grant.rate_limit.interval.0 <= u64::MAX,
        lane.last_activity.0 + lane.grant.lifetime.0 <= u64::MAX,
        now.0 + lane.grant.lifetime.0 <= u64::MAX,
        lane.version.0 < u64::MAX,
    ensures
        ({
            let (next, outcome) = lane.consumed(message, capability, declarations, evidence, now);
            let over = now.0 >= lane.rate_window_started_at.0 + lane.grant.rate_limit.interval.0;
            let most = lane.grant.rate_limit.max_messages;
            &&& over && most > 0 ==> outcome == Ok::<bool, CapabilityError>(false)
                && next.rate_window_started_at == now && next.messages_in_rate_window == 1
            &&& !over && lane.messages_in_rate_window < most ==> outcome == Ok::<
                bool,
                CapabilityError,
            >(false) && next.rate_window_started_at == lane.rate_window_started_at
                && next.messages_in_rate_window == lane.messages_in_rate_window + 1
            &&& most == 0 || (!over && lane.messages_in_rate_window >= most) ==> outcome == Err::<
                bool,
                CapabilityError,
            >(CapabilityError::RateLimitExceeded) && next.admitted_messages
                == lane.admitted_messages && next.version == lane.version && next.horizon_at
                == lane.horizon_at
        }),
{
}

/// A message that goes through is noted as let through, renews the lane for its lifetime from the
/// latest activity up to the end of the grant, and counts the version up by one.
pub proof fn messages_renew_their_lane(
    lane: LaneModel,
    message: MessageId,
    capability: Option<LaneId>,
    declarations: MessageDeclarations,
    evidence: LaneEvidence,
    now: CanonicalTime,
)
    requires
        lane.consumed(message, capability, declarations, evidence, now).1 == Ok::<
            bool,
            CapabilityError,
        >(false),
    ensures
        ({
            let next = lane.consumed(message, capability, declarations, evidence, now).0;
            &&& !lane.admitted_messages.contains(message.0)
            &&& forall|m: u128| #[trigger]
                next.admitted_messages.contains(m) <==> lane.admitted_messages.contains(m) || m
                    == message.0
            &&& next.last_activity.0 >= now.0 && next.last_activity.0 >= lane.last_activity.0
            &&& next.last_activity == now || next.last_activity == lane.last_activity
            &&& next.horizon_at.0 <= next.last_activity.0 + lane.grant.lifetime.0
            &&& next.horizon_at.0 <= lane.grant.not_after.0
            &&& next.horizon_at.0 == next.last_activity.0 + lane.grant.lifetime.0
                || next.horizon_at == lane.grant.not_after
            &&& next.version.0 == lane.version.0 + 1
            &&& next.grant == lane.grant
            &&& next.state == lane.state
        }),
{
}

/// A lane authorizes a message exactly if the message names the lane and declares, validly, the
/// purpose, the origin and the sort of authority that the lane was granted for; it is from the
/// grant's sender to the grant's recipient, with the evidence of the grant's subject; and the lane
/// is active, within the term of its grant and, where it expires, before its horizon.
pub proof fn lanes_authorize_what_they_were_granted_for(
    lane: LaneModel,
    sender: ProtocolIdentity,
    recipient: ProtocolIdentity,
    capability: Option<LaneId>,
    declarations: MessageDeclarations,
    evidence: LaneEvidence,
    now: CanonicalTime,
)
    ensures
        ({
            let result = lane.authorization(
                sender,
                recipient,
                capability,
                declarations,
                evidence,
                now,
            );
            let named = capability == Some(lane.grant.id);
            let purposed = match (declarations.purpose, lane.grant.purpose) {
                (DeclaredPurpose::Unspecified, DeclaredPurpose::Unspecified) => true,
                (DeclaredPurpose::Known(a), DeclaredPurpose::Known(b)) => a == b,
                (DeclaredPurpose::Extension(a), DeclaredPurpose::Extension(b)) => a.namespace@
                    == b.namespace@ && a.name@ == b.name@ && a.version == b.version,
                _ => false,
            };
            let originated = lane.grant.origin is None || lane.grant.origin
                == Some(declarations.origin.mode);
            let declared = match lane.grant.declaration_authority {
                DeclarationAuthorityConstraint::NativeSender => {
                    declarations.origin.authority is NativeSender
                },
                DeclarationAuthorityConstraint::LegacyGateway => {
                    declarations.origin.authority is LegacyGateway
                },
            };
            let in_force = lane.state == LaneState::Active && lane.grant.not_before.0 <= now.0
                && now.0 < lane.grant.not_after.0 && (lane.grant.mode == LaneMode::Persistent
                || now.0 < lane.horizon_at.0);
            let proved = match (evidence, lane.grant.subject) {
                (LaneEvidence::Native(a), LaneSubject::Native(b)) => a == b,
                (LaneEvidence::Legacy(a), LaneSubject::LegacyDomain(b)) => a.lane_domain.0@ == b.0@,
                _ => false,
            };
            &&& result is Ok <==> declarations.check() is Ok && named && purposed && originated
                && declared && sender == lane.grant.sender && recipient == lane.grant.recipient
                && in_force && proved
            &&& result == Err::<(), CapabilityError>(CapabilityError::InvalidDeclaration)
                <==> declarations.check() is Err
            &&& result == Err::<(), CapabilityError>(CapabilityError::ScopeMismatch)
                <==> declarations.check() is Ok && !(named && purposed && originated && declared)
        }),
{
}

/// A lane's horizon does nothing before it comes, nor to a lane that is not active. When it comes
/// within the grant's term, an expiring lane waits to be reconfirmed and lets nothing through till
/// then; a persistent one stays active for another lifetime, up to the end of the grant. After the
/// term either is expired.
pub proof fn horizons_end_or_renew_lanes(lane: LaneModel, now: CanonicalTime)
    ensures
        ({
            let (next, outcome) = lane.at_horizon(now);
            let due = lane.state == LaneState::Active && now.0 >= lane.horizon_at.0;
            &&& !due ==> next == lane && outcome == Ok::<LaneHorizonEffect, CapabilityError>(
                LaneHorizonEffect::Unchanged,
            )
            &&& outcome is Ok && due ==> next.version.0 == lane.version.0 + 1 && next.grant
                == lane.grant && next.last_activity == lane.last_activity
                && next.rate_window_started_at == lane.rate_window_started_at
                && next.messages_in_rate_window == lane.messages_in_rate_window
                && next.admitted_messages == lane.admitted_messages
            &&& due && lane.version.0 < u64::MAX && now.0 >= lane.grant.not_after.0 ==> outcome
                == Ok::<LaneHorizonEffect, CapabilityError>(
                LaneHorizonEffect::ReconfirmationRequired,
            ) && next.state == LaneState::Expired && next.horizon_at == lane.horizon_at
            &&& due && lane.version.0 < u64::MAX && now.0 < lane.grant.not_after.0
                && lane.grant.mode == LaneMode::Expiring ==> outcome == Ok::<
                LaneHorizonEffect,
                CapabilityError,
            >(LaneHorizonEffect::ReconfirmationRequired) && next.state
                == LaneState::AwaitingReconfirmation && next.horizon_at == lane.horizon_at
            &&& due && lane.version.0 < u64::MAX && now.0 < lane.grant.not_after.0
                && lane.grant.mode == LaneMode::Persistent && now.0 + lane.grant.lifetime.0
                <= u64::MAX ==> outcome == Ok::<LaneHorizonEffect, CapabilityError>(
                LaneHorizonEffect::ReviewReminder,
            ) && next.state == LaneState::Active && next.horizon_at.0 <= lane.grant.not_after.0
                && next.horizon_at.0 <= now.0 + lane.grant.lifetime.0 && (next.horizon_at.0 == now.0
                + lane.grant.lifetime.0 || next.horizon_at == lane.grant.not_after)
            &&& outcome is Err ==> lane.version.0 == u64::MAX || now.0 + lane.grant.lifetime.0
                > u64::MAX
        }),
{
}

/// Only a lane that waits for it can be reconfirmed, and only within the term of its grant. It is
/// then active for a lifetime from now, up to the end of the grant.
pub proof fn reconfirmation_reopens_waiting_lanes(lane: LaneModel, now: CanonicalTime)
    ensures
        ({
            let (next, outcome) = lane.reconfirmed(now);
            let open = lane.state == LaneState::AwaitingReconfirmation && now.0
                < lane.grant.not_after.0;
            &&& outcome == Err::<(), CapabilityError>(CapabilityError::NotAuthorized) <==> !open
            &&& !open ==> next == lane
            &&& outcome is Ok <==> open && now.0 + lane.grant.lifetime.0 <= u64::MAX
                && lane.version.0 < u64::MAX
            &&& outcome is Ok ==> {
                &&& next.state == LaneState::Active
                &&& next.version.0 == lane.version.0 + 1
                &&& next.last_activity.0 >= now.0 && next.last_activity.0 >= lane.last_activity.0
                &&& next.last_activity == now || next.last_activity == lane.last_activity
                &&& next.horizon_at.0 <= lane.grant.not_after.0
                &&& next.horizon_at.0 <= now.0 + lane.grant.lifetime.0
                &&& next.horizon_at.0 == now.0 + lane.grant.lifetime.0 || next.horizon_at
                    == lane.grant.not_after
                &&& next.grant == lane.grant
                &&& next.rate_window_started_at == lane.rate_window_started_at
                &&& next.messages_in_rate_window == lane.messages_in_rate_window
                &&& next.admitted_messages == lane.admitted_messages
            }
        }),
{
}

/// After its revocation a lane authorizes nothing, whatever its state was, and keeps its history.
pub proof fn revocation_closes_a_lane(
    lane: LaneModel,
    sender: ProtocolIdentity,
    recipient: ProtocolIdentity,
    capability: Option<LaneId>,
    declarations: MessageDeclarations,
    evidence: LaneEvidence,
    now: CanonicalTime,
)
    ensures
        ({
            let (next, outcome) = lane.revoked();
            &&& next.state == LaneState::Revoked
            &&& next.authorization(sender, recipient, capability, declarations, evidence, now) is Err
            &&& outcome is Ok <==> lane.version.0 < u64::MAX
            &&& outcome is Ok ==> next.version.0 == lane.version.0 + 1
            &&& next.grant == lane.grant
            &&& next.horizon_at == lane.horizon_at
            &&& next.last_activity == lane.last_activity
            &&& next.rate_window_started_at == lane.rate_window_started_at
            &&& next.messages_in_rate_window == lane.messages_in_rate_window
            &&& next.admitted_messages == lane.admitted_messages
        }),
{
}

/// A lane starts from a valid grant, active and unused, for one lifetime from its issue or to the
/// end of the grant, whichever is sooner.
pub proof fn lanes_start_unused(grant: LaneGrant)
    requires
        fresh_lane(grant) is Ok,
    ensures
        ({
            let lane = fresh_lane(grant)->Ok_0;
            &&& lane.grant == grant
            &&& lane.state == LaneState::Active
            &&& lane.messages_in_rate_window == 0
            &&& lane.rate_window_started_at == grant.issued_at
            &&& lane.last_activity == grant.issued_at
            &&& lane.version.0 == 0
            &&& forall|m: u128| !(#[trigger] lane.admitted_messages.contains(m))
            &&& lane.horizon_at.0 <= grant.not_after.0
            &&& lane.horizon_at.0 <= grant.issued_at.0 + grant.lifetime.0
            &&& lane.horizon_at.0 == grant.issued_at.0 + grant.lifetime.0 || lane.horizon_at
                == grant.not_after
            &&& grant.lifetime.0 > 0
            &&& grant.protocol_version.0 > 0
            &&& grant.rate_limit.max_messages > 0
            &&& grant.rate_limit.interval.0 > 0
            &&& grant.issued_at.0 <= grant.not_before.0 < grant.not_after.0
        }),
{
}

} // verus!

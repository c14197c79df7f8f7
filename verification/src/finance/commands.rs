//! Signed administration of the program, and what members are told.

use super::distribution::{AllocationModel, AnnualAllocation, AnnualDistributionSchedule};
use super::execution::PaymentState;
use super::payable::PayableModel;
use super::program::{FinancialProgram, ProgramModel};
use super::records::lemma_model_keys;
use super::scope::FinancialScope;
use super::terms::{IntentionalActivity, MembershipStatus, ProgramError};
use crate::bytes::{
    copy_bytes, push_all, push_text, same_32, same_bytes, text_bytes, utf8,
};
use crate::crypto::{ed25519_accepts_strictly, ed25519_signature, sign, verify_strict};
use crate::json::{
    json_bool, json_bytes, json_number, json_string, push_bool, push_byte_array, push_number,
    push_string,
};
use crate::maps::{keys_in_order, keys_of, lookup, sorted_keys};
use crate::primitives::amounts::{CanonicalTime, Money, SettlementUnit};
use crate::primitives::ids::{
    AnnualDistributionId, FinancialEventId, IdempotencyKey, MemberId, PaymentOperationId,
};
use vstd::prelude::*;

verus! {

impl MembershipStatus {
    pub open spec fn json(self) -> Seq<u8> {
        utf8("{\"opted_in\":"@) + json_bool(self.opted_in) + utf8(",\"verified\":"@) + json_bool(
            self.verified,
        ) + utf8(",\"suspended\":"@) + json_bool(self.suspended) + utf8("}"@)
    }

    fn push_json(self, out: &mut Vec<u8>)
        ensures
            final(out)@ == old(out)@ + self.json(),
    {
        let ghost before = out@;
        push_text(out, "{\"opted_in\":");
        push_bool(out, self.opted_in);
        push_text(out, ",\"verified\":");
        push_bool(out, self.verified);
        push_text(out, ",\"suspended\":");
        push_bool(out, self.suspended);
        push_text(out, "}");
        assert(out@ =~= before + self.json());
    }
}

impl IntentionalActivity {
    pub open spec fn json(self) -> Seq<u8> {
        match self {
            IntentionalActivity::Read => utf8("\"Read\""@),
            IntentionalActivity::Send => utf8("\"Send\""@),
            IntentionalActivity::Decision => utf8("\"Decision\""@),
        }
    }

    fn push_json(self, out: &mut Vec<u8>)
        ensures
            final(out)@ == old(out)@ + self.json(),
    {
        match self {
            IntentionalActivity::Read => push_text(out, "\"Read\""),
            IntentionalActivity::Send => push_text(out, "\"Send\""),
            IntentionalActivity::Decision => push_text(out, "\"Decision\""),
        }
    }
}

impl AnnualDistributionSchedule {
    pub open spec fn json(self) -> Seq<u8> {
        utf8("{\"id\":"@) + json_number(self.id.0 as nat) + utf8(",\"start\":"@) + json_number(
            self.start.0 as nat,
        ) + utf8(",\"cutoff\":"@) + json_number(self.cutoff.0 as nat) + utf8(
            ",\"eligibility\":{\"version\":"@,
        ) + json_number(self.eligibility.version.0 as nat) + utf8(",\"minimum_tenure\":"@)
            + json_number(self.eligibility.minimum_tenure.0 as nat) + utf8(
            ",\"minimum_active_days\":"@,
        ) + json_number(self.eligibility.minimum_active_days as nat) + utf8(
            "},\"payment\":{\"version\":"@,
        ) + json_number(self.payment.version.0 as nat) + utf8(",\"utility_charge\":"@)
            + json_number(self.payment.utility_charge.0 as nat) + utf8(",\"due_at\":"@)
            + json_number(self.payment.due_at.0 as nat) + utf8("}}"@)
    }

    fn json_bytes(self) -> (bytes: Vec<u8>)
        ensures
            bytes@ == self.json(),
    {
        let mut out: Vec<u8> = text_bytes("{\"id\":");
        push_number(&mut out, self.id.0);
        push_text(&mut out, ",\"start\":");
        push_number(&mut out, self.start.0 as u128);
        push_text(&mut out, ",\"cutoff\":");
        push_number(&mut out, self.cutoff.0 as u128);
        push_text(&mut out, ",\"eligibility\":{\"version\":");
        push_number(&mut out, self.eligibility.version.0 as u128);
        push_text(&mut out, ",\"minimum_tenure\":");
        push_number(&mut out, self.eligibility.minimum_tenure.0 as u128);
        push_text(&mut out, ",\"minimum_active_days\":");
        push_number(&mut out, self.eligibility.minimum_active_days as u128);
        push_text(&mut out, "},\"payment\":{\"version\":");
        push_number(&mut out, self.payment.version.0 as u128);
        push_text(&mut out, ",\"utility_charge\":");
        push_number(&mut out, self.payment.utility_charge.0 as u128);
        push_text(&mut out, ",\"due_at\":");
        push_number(&mut out, self.payment.due_at.0 as u128);
        push_text(&mut out, "}}");
        out
    }
}

#[derive(Debug, PartialEq, Eq)]
pub enum ProgramCommand {
    CompensateMember {
        event: FinancialEventId,
        member: MemberId,
        distribution: AnnualDistributionId,
        amount: Money,
        reason: String,
    },
    Enroll { member: MemberId, identity_digest: [u8; 32], status: MembershipStatus },
    SetMembership { member: MemberId, status: MembershipStatus },
    RecordActivity { member: MemberId, activity: IntentionalActivity },
    PublishAnnualDistribution(AnnualDistributionSchedule),
    Hold { source: PaymentOperationId, hold: bool },
    ClearMaturity { source: PaymentOperationId, evidence: FinancialEventId },
    FinalizeAnnualDistribution(AnnualDistributionId),
}

impl Clone for ProgramCommand {
    fn clone(&self) -> (copy: Self)
        ensures
            copy == *self,
    {
        match self {
            ProgramCommand::CompensateMember { event, member, distribution, amount, reason } => {
                ProgramCommand::CompensateMember {
                    event: *event,
                    member: *member,
                    distribution: *distribution,
                    amount: *amount,
                    reason: reason.clone(),
                }
            },
            ProgramCommand::Enroll { member, identity_digest, status } => ProgramCommand::Enroll {
                member: *member,
                identity_digest: *identity_digest,
                status: *status,
            },
            ProgramCommand::SetMembership { member, status } => ProgramCommand::SetMembership {
                member: *member,
                status: *status,
            },
            ProgramCommand::RecordActivity { member, activity } => ProgramCommand::RecordActivity {
                member: *member,
                activity: *activity,
            },
            ProgramCommand::PublishAnnualDistribution(schedule) => {
                ProgramCommand::PublishAnnualDistribution(*schedule)
            },
            ProgramCommand::Hold { source, hold } => ProgramCommand::Hold {
                source: *source,
                hold: *hold,
            },
            ProgramCommand::ClearMaturity { source, evidence } => ProgramCommand::ClearMaturity {
                source: *source,
                evidence: *evidence,
            },
            ProgramCommand::FinalizeAnnualDistribution(id) => {
                ProgramCommand::FinalizeAnnualDistribution(*id)
            },
        }
    }
}

impl ProgramCommand {
    /// The command as a JSON object named after what it does.
    pub open spec fn json(self) -> Seq<u8> {
        match self {
            ProgramCommand::CompensateMember { event, member, distribution, amount, reason } => {
                utf8("{\"CompensateMember\":{\"event\":"@) + json_number(event.0 as nat) + utf8(
                    ",\"member\":"@,
                ) + json_number(member.0 as nat) + utf8(",\"distribution\":"@) + json_number(
                    distribution.0 as nat,
                ) + utf8(",\"amount\":"@) + json_number(amount.0 as nat) + utf8(",\"reason\":"@)
                    + json_string(reason@) + utf8("}}"@)
            },
            ProgramCommand::Enroll { member, identity_digest, status } => {
                utf8("{\"Enroll\":{\"member\":"@) + json_number(member.0 as nat) + utf8(
                    ",\"identity_digest\":"@,
                ) + json_bytes(identity_digest@) + utf8(",\"status\":"@) + status.json() + utf8(
                    "}}"@,
                )
            },
            ProgramCommand::SetMembership { member, status } => {
                utf8("{\"SetMembership\":{\"member\":"@) + json_number(member.0 as nat) + utf8(
                    ",\"status\":"@,
                ) + status.json() + utf8("}}"@)
            },
            ProgramCommand::RecordActivity { member, activity } => {
                utf8("{\"RecordActivity\":{\"member\":"@) + json_number(member.0 as nat) + utf8(
                    ",\"activity\":"@,
                ) + activity.json() + utf8("}}"@)
            },
            ProgramCommand::PublishAnnualDistribution(schedule) => {
                utf8("{\"PublishAnnualDistribution\":"@) + schedule.json() + utf8("}"@)
            },
            ProgramCommand::Hold { source, hold } => {
                utf8("{\"Hold\":{\"source\":"@) + json_number(source.0 as nat) + utf8(
                    ",\"hold\":"@,
                ) + json_bool(hold) + utf8("}}"@)
            },
            ProgramCommand::ClearMaturity { source, evidence } => {
                utf8("{\"ClearMaturity\":{\"source\":"@) + json_number(source.0 as nat) + utf8(
                    ",\"evidence\":"@,
                ) + json_number(evidence.0 as nat) + utf8("}}"@)
            },
            ProgramCommand::FinalizeAnnualDistribution(id) => {
                utf8("{\"FinalizeAnnualDistribution\":"@) + json_number(id.0 as nat) + utf8("}"@)
            },
        }
    }

    fn json_bytes(&self) -> (bytes: Vec<u8>)
        ensures
            bytes@ == self.json(),
    {
        match self {
            ProgramCommand::CompensateMember { event, member, distribution, amount, reason } => {
                let mut out: Vec<u8> = text_bytes("{\"CompensateMember\":{\"event\":");
                push_number(&mut out, event.0);
                push_text(&mut out, ",\"member\":");
                push_number(&mut out, member.0);
                push_text(&mut out, ",\"distribution\":");
                push_number(&mut out, distribution.0);
                push_text(&mut out, ",\"amount\":");
                push_number(&mut out, amount.0 as u128);
                push_text(&mut out, ",\"reason\":");
                push_string(&mut out, reason.as_str());
                push_text(&mut out, "}}");
                out
            },
            ProgramCommand::Enroll { member, identity_digest, status } => {
                let mut out: Vec<u8> = text_bytes("{\"Enroll\":{\"member\":");
                push_number(&mut out, member.0);
                push_text(&mut out, ",\"identity_digest\":");
                push_byte_array(&mut out, identity_digest.as_slice());
                push_text(&mut out, ",\"status\":");
                status.push_json(&mut out);
                push_text(&mut out, "}}");
                out
            },
            ProgramCommand::SetMembership { member, status } => {
                let mut out: Vec<u8> = text_bytes("{\"SetMembership\":{\"member\":");
                push_number(&mut out, member.0);
                push_text(&mut out, ",\"status\":");
                status.push_json(&mut out);
                push_text(&mut out, "}}");
                out
            },
            ProgramCommand::RecordActivity { member, activity } => {
                let mut out: Vec<u8> = text_bytes("{\"RecordActivity\":{\"member\":");
                push_number(&mut out, member.0);
                push_text(&mut out, ",\"activity\":");
                activity.push_json(&mut out);
                push_text(&mut out, "}}");
                out
            },
            ProgramCommand::PublishAnnualDistribution(schedule) => {
                let mut out: Vec<u8> = text_bytes("{\"PublishAnnualDistribution\":");
                push_all(&mut out, schedule.json_bytes().as_slice());
                push_text(&mut out, "}");
                out
            },
            ProgramCommand::Hold { source, hold } => {
                let mut out: Vec<u8> = text_bytes("{\"Hold\":{\"source\":");
                push_number(&mut out, source.0);
                push_text(&mut out, ",\"hold\":");
                push_bool(&mut out, *hold);
                push_text(&mut out, "}}");
                out
            },
            ProgramCommand::ClearMaturity { source, evidence } => {
                let mut out: Vec<u8> = text_bytes("{\"ClearMaturity\":{\"source\":");
                push_number(&mut out, source.0);
                push_text(&mut out, ",\"evidence\":");
                push_number(&mut out, evidence.0);
                push_text(&mut out, "}}");
                out
            },
            ProgramCommand::FinalizeAnnualDistribution(id) => {
                let mut out: Vec<u8> = text_bytes("{\"FinalizeAnnualDistribution\":");
                push_number(&mut out, id.0);
                push_text(&mut out, "}");
                out
            },
        }
    }
}

#[derive(Debug, PartialEq, Eq)]
pub enum ProgramOutcome {
    Recorded,
    AnnualAllocation(AnnualAllocation),
}

/// A command of the program's administration with its signature.
#[derive(Debug, PartialEq, Eq)]
pub struct SignedProgramCommand {
    pub scope: FinancialScope,
    pub unit: SettlementUnit,
    pub idempotency_key: IdempotencyKey,
    pub expected_revision: u64,
    pub command: ProgramCommand,
    pub signature: Vec<u8>,
}

impl Clone for ProgramOutcome {
    fn clone(&self) -> (copy: Self)
        ensures
            match (copy, *self) {
                (ProgramOutcome::Recorded, ProgramOutcome::Recorded) => true,
                (ProgramOutcome::AnnualAllocation(a), ProgramOutcome::AnnualAllocation(b)) => a@
                    == b@,
                _ => false,
            },
    {
        match self {
            ProgramOutcome::Recorded => ProgramOutcome::Recorded,
            ProgramOutcome::AnnualAllocation(allocation) => ProgramOutcome::AnnualAllocation(
                allocation.clone(),
            ),
        }
    }
}

impl Clone for SignedProgramCommand {
    fn clone(&self) -> (copy: Self)
        ensures
            copy.alike(self),
    {
        SignedProgramCommand {
            scope: self.scope,
            unit: self.unit,
            idempotency_key: self.idempotency_key,
            expected_revision: self.expected_revision,
            command: self.command.clone(),
            signature: copy_bytes(&self.signature),
        }
    }
}

impl ProgramCommand {
    pub open spec fn alike(&self, other: &Self) -> bool {
        match (self, other) {
            (
                ProgramCommand::CompensateMember { event, member, distribution, amount, reason },
                ProgramCommand::CompensateMember {
                    event: e,
                    member: m,
                    distribution: d,
                    amount: a,
                    reason: r,
                },
            ) => event == e && member == m && distribution == d && amount == a && reason@ == r@,
            (
                ProgramCommand::Enroll { member, identity_digest, status },
                ProgramCommand::Enroll { member: m, identity_digest: i, status: s },
            ) => member == m && identity_digest == i && status == s,
            (
                ProgramCommand::SetMembership { member, status },
                ProgramCommand::SetMembership { member: m, status: s },
            ) => member == m && status == s,
            (
                ProgramCommand::RecordActivity { member, activity },
                ProgramCommand::RecordActivity { member: m, activity: a },
            ) => member == m && activity == a,
            (
                ProgramCommand::PublishAnnualDistribution(schedule),
                ProgramCommand::PublishAnnualDistribution(s),
            ) => schedule == s,
            (
                ProgramCommand::Hold { source, hold },
                ProgramCommand::Hold { source: s, hold: h },
            ) => source == s && hold == h,
            (
                ProgramCommand::ClearMaturity { source, evidence },
                ProgramCommand::ClearMaturity { source: s, evidence: e },
            ) => source == s && evidence == e,
            (
                ProgramCommand::FinalizeAnnualDistribution(distribution),
                ProgramCommand::FinalizeAnnualDistribution(d),
            ) => distribution == d,
            _ => false,
        }
    }

    /// Whether two commands are the same.
    pub fn same(&self, other: &Self) -> (same: bool)
        ensures
            same == self.alike(other),
    {
        match (self, other) {
            (
                ProgramCommand::CompensateMember { event, member, distribution, amount, reason },
                ProgramCommand::CompensateMember {
                    event: e,
                    member: m,
                    distribution: d,
                    amount: a,
                    reason: r,
                },
            ) => *event == *e && *member == *m && *distribution == *d && *amount == *a && *reason
                == *r,
            (
                ProgramCommand::Enroll { member, identity_digest, status },
                ProgramCommand::Enroll { member: m, identity_digest: i, status: s },
            ) => *member == *m && same_32(identity_digest, i) && *status == *s,
            (
                ProgramCommand::SetMembership { member, status },
                ProgramCommand::SetMembership { member: m, status: s },
            ) => *member == *m && *status == *s,
            (
                ProgramCommand::RecordActivity { member, activity },
                ProgramCommand::RecordActivity { member: m, activity: a },
            ) => *member == *m && *activity == *a,
            (
                ProgramCommand::PublishAnnualDistribution(schedule),
                ProgramCommand::PublishAnnualDistribution(s),
            ) => *schedule == *s,
            (
                ProgramCommand::Hold { source, hold },
                ProgramCommand::Hold { source: s, hold: h },
            ) => *source == *s && *hold == *h,
            (
                ProgramCommand::ClearMaturity { source, evidence },
                ProgramCommand::ClearMaturity { source: s, evidence: e },
            ) => *source == *s && *evidence == *e,
            (
                ProgramCommand::FinalizeAnnualDistribution(distribution),
                ProgramCommand::FinalizeAnnualDistribution(d),
            ) => *distribution == *d,
            _ => false,
        }
    }
}

impl SignedProgramCommand {
    pub open spec fn alike(&self, other: &Self) -> bool {
        &&& self.scope == other.scope
        &&& self.unit == other.unit
        &&& self.idempotency_key == other.idempotency_key
        &&& self.expected_revision == other.expected_revision
        &&& self.command.alike(&other.command)
        &&& self.signature@ == other.signature@
    }

    /// Whether two signed commands are the same.
    pub fn same(&self, other: &Self) -> (same: bool)
        ensures
            same == self.alike(other),
    {
        self.scope.same(&other.scope) && self.unit == other.unit && self.idempotency_key
            == other.idempotency_key && self.expected_revision == other.expected_revision
            && self.command.same(&other.command) && same_bytes(
            self.signature.as_slice(),
            other.signature.as_slice(),
        )
    }

    /// What the administration signs: everything but the signature, as a JSON array.
    pub open spec fn statement(&self) -> Seq<u8> {
        utf8("[\"cs-mail/financial-command/v2\","@) + self.scope.json() + utf8(","@) + json_number(
            self.unit.0 as nat,
        ) + utf8(","@) + json_number(self.idempotency_key.0 as nat) + utf8(","@) + json_number(
            self.expected_revision as nat,
        ) + utf8(","@) + self.command.json() + utf8("]"@)
    }

    fn bytes(&self) -> (bytes: Vec<u8>)
        ensures
            bytes@ == self.statement(),
    {
        let mut out: Vec<u8> = Vec::new();
        push_text(&mut out, "[\"cs-mail/financial-command/v2\",");
        self.scope.push_json(&mut out);
        push_text(&mut out, ",");
        push_number(&mut out, self.unit.0 as u128);
        push_text(&mut out, ",");
        push_number(&mut out, self.idempotency_key.0);
        push_text(&mut out, ",");
        push_number(&mut out, self.expected_revision as u128);
        push_text(&mut out, ",");
        push_all(&mut out, self.command.json_bytes().as_slice());
        push_text(&mut out, "]");
        assert(out@ =~= self.statement());
        out
    }

    /// Signs a command at the separately authorized program administration boundary; signing never
    /// fails.
    pub fn sign(
        scope: FinancialScope,
        unit: SettlementUnit,
        idempotency_key: IdempotencyKey,
        expected_revision: u64,
        command: ProgramCommand,
        secret: &[u8; 32],
    ) -> (result: Result<Self, ProgramError>)
        ensures
            result matches Ok(signed) && signed.scope == scope && signed.unit == unit
                && signed.idempotency_key == idempotency_key && signed.expected_revision
                == expected_revision && signed.command == command && signed.signature@
                == ed25519_signature(secret@, signed.statement()),
    {
        let mut signed = SignedProgramCommand {
            scope,
            unit,
            idempotency_key,
            expected_revision,
            command,
            signature: Vec::new(),
        };
        let bytes = signed.bytes();
        let ghost statement = signed.statement();
        signed.signature = sign(secret, bytes.as_slice());
        assert(signed.statement() == statement);
        Ok(signed)
    }

    /// Refuses signatures that the administration key did not make of this content.
    pub fn verify(&self, key: &[u8; 32]) -> (result: Result<(), ProgramError>)
        ensures
            result == (if ed25519_accepts_strictly(key@, self.statement(), self.signature@) {
                Ok(())
            } else {
                Err(ProgramError::InvalidPayment)
            }),
    {
        let bytes = self.bytes();
        if verify_strict(key, bytes.as_slice(), self.signature.as_slice()) {
            Ok(())
        } else {
            Err(ProgramError::InvalidPayment)
        }
    }
}

impl ProgramModel {
    /// The program after a command, and the result of a closed year where the command closes one.
    pub open spec fn commanded(self, command: ProgramCommand, at: CanonicalTime) -> Result<
        (Self, Option<AllocationModel>),
        ProgramError,
    > {
        let changed = match command {
            ProgramCommand::CompensateMember { event, member, distribution, amount, reason } => {
                self.compensated(event, member, distribution, amount, reason@, at)
            },
            ProgramCommand::Enroll { member, identity_digest, status } => self.enrolled(
                member,
                identity_digest,
                status,
                at,
            ),
            ProgramCommand::SetMembership { member, status } => self.membership_set(
                member,
                status,
                at,
            ),
            ProgramCommand::RecordActivity { member, activity: _ } => self.activity_recorded(
                member,
                at,
            ),
            ProgramCommand::PublishAnnualDistribution(schedule) => self.published(schedule, at),
            ProgramCommand::Hold { source, hold } => self.hold_set(source, hold, at),
            ProgramCommand::ClearMaturity { source, evidence } => self.maturity_cleared(
                source,
                evidence,
                at,
            ),
            ProgramCommand::FinalizeAnnualDistribution(id) => match self.finalized(id, at) {
                Ok((next, _)) => Ok(next),
                Err(e) => Err(e),
            },
        };
        match changed {
            Err(e) => Err(e),
            Ok(next) => Ok(
                (
                    next,
                    match command {
                        ProgramCommand::FinalizeAnnualDistribution(id) => Some(
                            self.finalized(id, at)->Ok_0.1,
                        ),
                        _ => None,
                    },
                ),
            ),
        }
    }
}

impl FinancialProgram {
    /// Executes already-authorized program administration at canonical receipt time. Fails with
    /// the applicable membership, cutoff, maturity, or accounting error, and then changes nothing.
    pub fn apply(&mut self, command: &ProgramCommand, at: CanonicalTime) -> (result: Result<
        ProgramOutcome,
        ProgramError,
    >)
        requires
            old(self)@.records.sound(),
        ensures
            match old(self)@.commanded(*command, at) {
                Err(e) => result == Err::<ProgramOutcome, ProgramError>(e) && final(self)@ == old(
                    self)@,
                Ok((next, allocation)) => final(self)@ == next && next.records.sound()
                    && match allocation {
                    Some(a) => result matches Ok(ProgramOutcome::AnnualAllocation(r)) && r@ == a,
                    None => result == Ok::<ProgramOutcome, ProgramError>(ProgramOutcome::Recorded),
                },
            },
    {
        let recorded = match command {
            ProgramCommand::CompensateMember { event, member, distribution, amount, reason } => {
                self.compensate_member(
                    *event,
                    *member,
                    *distribution,
                    *amount,
                    reason.as_str(),
                    at,
                )
            },
            ProgramCommand::Enroll { member, identity_digest, status } => self.enroll(
                *member,
                *identity_digest,
                *status,
                at,
            ),
            ProgramCommand::SetMembership { member, status } => self.set_membership(
                *member,
                *status,
                at,
            ),
            ProgramCommand::RecordActivity { member, activity } => self.record_activity(
                *member,
                *activity,
                at,
            ),
            ProgramCommand::PublishAnnualDistribution(schedule) => self.publish_annual_distribution(
                *schedule,
                at,
            ),
            ProgramCommand::Hold { source, hold } => self.set_hold(*source, *hold, at),
            ProgramCommand::ClearMaturity { source, evidence } => self.clear_maturity(
                *source,
                *evidence,
                at,
            ),
            ProgramCommand::FinalizeAnnualDistribution(id) => {
                return match self.finalize_annual_distribution(*id, at) {
                    Ok(allocation) => Ok(ProgramOutcome::AnnualAllocation(allocation)),
                    Err(e) => Err(e),
                };
            },
        };
        match recorded {
            Ok(()) => Ok(ProgramOutcome::Recorded),
            Err(e) => Err(e),
        }
    }
}

#[derive(Clone, Copy, Debug, PartialEq, Eq, Structural)]
pub enum AllocationStatus {
    Allocated,
    AwaitingPayment,
    Confirmed,
    AwaitingReconciliation,
}

#[derive(Clone, Copy, Debug, PartialEq, Eq, Structural)]
pub struct MemberStatementEntry {
    pub rebate_amount: Money,
    pub excess_amount: Money,
    pub outstanding: Money,
    pub distribution: AnnualDistributionId,
    pub amount: Money,
    pub status: AllocationStatus,
    pub correction: Option<FinancialEventId>,
}

impl PayableModel {
    pub open spec fn status(self) -> AllocationStatus {
        match self.payment {
            None => AllocationStatus::Allocated,
            Some(payment) => match payment.state() {
                PaymentState::Pending => AllocationStatus::AwaitingPayment,
                PaymentState::Settled { .. } => AllocationStatus::Confirmed,
                _ => AllocationStatus::AwaitingReconciliation,
            },
        }
    }

    /// What a statement says of an allocation.
    pub open spec fn statement_entry(self) -> MemberStatementEntry {
        MemberStatementEntry {
            rebate_amount: self.rebate(),
            excess_amount: Money((self.amount.0 - self.rebate().0) as u64),
            outstanding: self.outstanding(),
            distribution: self.distribution,
            amount: self.amount,
            status: self.status(),
            correction: self.correction,
        }
    }
}

/// A member's statement over the allocations under the first `n` keys.
pub open spec fn statement_among(
    payables: Map<u128, PayableModel>,
    keys: Seq<u128>,
    n: nat,
    member: MemberId,
) -> Seq<MemberStatementEntry>
    decreases n,
{
    if n == 0 {
        Seq::empty()
    } else {
        let before = statement_among(payables, keys, (n - 1) as nat, member);
        let payable = payables[keys[n - 1]];
        if payable.member == member {
            before.push(payable.statement_entry())
        } else {
            before
        }
    }
}

impl FinancialProgram {
    /// A member's allocations, in the order of their identifiers.
    pub fn member_statement(&self, member: MemberId) -> (entries: Vec<MemberStatementEntry>)
        requires
            self@.records.sound(),
        ensures
            ({
                let keys = sorted_keys(self@.records.payables);
                entries@ == statement_among(self@.records.payables, keys, keys.len(), member)
            }),
    {
        let keys = keys_of(&self.records.payables);
        let ghost models = self@.records.payables;
        proof {
            lemma_model_keys(keys@, self.records.payables@, models);
        }
        let mut entries: Vec<MemberStatementEntry> = Vec::new();
        let mut i: usize = 0;
        while i < keys.len()
            invariant
                models == self@.records.payables,
                self@.records.sound(),
                keys_in_order(keys@, self.records.payables@),
                keys@ == sorted_keys(models),
                0 <= i <= keys@.len(),
                entries@ == statement_among(models, keys@, i as nat, member),
            decreases keys@.len() - i,
        {
            assert(self.records.payables@.contains_key(keys@[i as int]));
            assert(models.contains_key(keys@[i as int]));
            match lookup(&self.records.payables, keys[i]) {
                Some(payable) => {
                    if payable.member == member {
                        let status = match &payable.payment {
                            None => AllocationStatus::Allocated,
                            Some(payment) => match payment.state() {
                                PaymentState::Pending => AllocationStatus::AwaitingPayment,
                                PaymentState::Settled { .. } => AllocationStatus::Confirmed,
                                _ => AllocationStatus::AwaitingReconciliation,
                            },
                        };
                        entries.push(
                            MemberStatementEntry {
                                rebate_amount: payable.rebate(),
                                excess_amount: payable.excess(),
                                outstanding: payable.outstanding(),
                                distribution: payable.distribution,
                                amount: payable.amount,
                                status,
                                correction: payable.correction,
                            },
                        );
                    }
                },
                None => {},
            }
            i += 1;
        }
        entries
    }
}

/// A command does to a program what it names, with its own values and at its time, and answers with
/// a year's result where it finalizes one and with nothing else otherwise.
pub proof fn program_commands_do_what_they_name(
    program: ProgramModel,
    command: ProgramCommand,
    at: CanonicalTime,
)
    requires
        program.commanded(command, at) is Ok,
    ensures
        ({
            let (next, result) = program.commanded(command, at)->Ok_0;
            match command {
                ProgramCommand::CompensateMember { event, member, distribution, amount, reason } => {
                    result is None && program.compensated(
                        event,
                        member,
                        distribution,
                        amount,
                        reason@,
                        at,
                    ) == Ok::<ProgramModel, ProgramError>(next)
                },
                ProgramCommand::Enroll { member, identity_digest, status } => result is None
                    && next.records.members.contains_key(member.0)
                    && !program.records.members.contains_key(member.0)
                    && next.records.members[member.0].identity_digest == identity_digest
                    && next.records.members[member.0].joined_at == at
                    && next.records.members[member.0].changes.last().1 == status,
                ProgramCommand::SetMembership { member, status } => result is None
                    && next.records.members[member.0].changes.last().0 == at
                    && next.records.members[member.0].changes.last().1 == status,
                ProgramCommand::RecordActivity { member, .. } => result is None
                    && next.records.members[member.0].activity_days.contains(
                    (at.0 as int / 86_400_000) as u64,
                ),
                ProgramCommand::PublishAnnualDistribution(schedule) => result is None
                    && next.records.schedules.contains_key(schedule.id.0)
                    && next.records.schedules[schedule.id.0] == schedule,
                ProgramCommand::Hold { source, hold } => result is None
                    && program.records.funding.contains_key(source.0) && (
                program.records.funding[source.0].source.id == source
                    ==> next.records.funding[source.0].lifecycle
                    == super::lot::LotLifecycle::Pending { held: hold }),
                ProgramCommand::ClearMaturity { source, evidence } => result is None
                    && program.records.funding.contains_key(source.0) && (
                program.records.funding[source.0].source.id == source
                    ==> next.records.funding[source.0].lifecycle is Cleared
                    && next.records.funding[source.0].lifecycle->Cleared_0.evidence == evidence
                    && next.records.funding[source.0].lifecycle->Cleared_0.at == at),
                ProgramCommand::FinalizeAnnualDistribution(id) => result is Some
                    && program.finalized(id, at) == Ok::<
                    (ProgramModel, AllocationModel),
                    ProgramError,
                >((next, result->Some_0)),
            }
        }),
{
}

/// What a statement says of an allocation: the rebate is the amount up to the charge for the
/// service, and the excess is the rest; what is outstanding is the amount until it is paid, and
/// nothing then; and the status follows the payment.
pub proof fn statements_say_what_is_owed(payable: PayableModel)
    ensures
        ({
            let entry = payable.statement_entry();
            let state = payable.payment->Some_0.attempts.last().state;
            &&& entry.amount == payable.amount
            &&& entry.distribution == payable.distribution
            &&& entry.correction == payable.correction
            &&& entry.rebate_amount.0 + entry.excess_amount.0 == payable.amount.0
            &&& entry.rebate_amount.0 <= payable.terms.utility_charge.0
            &&& entry.excess_amount.0 > 0 ==> entry.rebate_amount == payable.terms.utility_charge
            &&& entry.outstanding.0 == if payable.payment is Some && state is Settled {
                0
            } else {
                payable.amount.0
            }
            &&& entry.status == if payable.payment is None {
                AllocationStatus::Allocated
            } else if state is Pending {
                AllocationStatus::AwaitingPayment
            } else if state is Settled {
                AllocationStatus::Confirmed
            } else {
                AllocationStatus::AwaitingReconciliation
            }
        }),
{
}

proof fn lemma_statement(payables: Map<u128, PayableModel>, keys: Seq<u128>, n: nat, member: MemberId)
    requires
        n <= keys.len(),
    ensures
        statement_among(payables, keys, n, member) == keys.take(n as int).filter(
            |k: u128| payables[k].member == member,
        ).map_values(|k: u128| payables[k].statement_entry()),
    decreases n,
{
    let own = |k: u128| payables[k].member == member;
    let entry = |k: u128| payables[k].statement_entry();
    reveal(Seq::filter);
    if n > 0 {
        lemma_statement(payables, keys, (n - 1) as nat, member);
        assert(keys.take(n as int).drop_last() =~= keys.take(n - 1));
        assert(keys.take(n as int).filter(own).map_values(entry) =~= statement_among(
            payables,
            keys,
            n,
            member,
        ));
    } else {
        assert(keys.take(0) =~= Seq::empty());
        assert(keys.take(0).filter(own).map_values(entry) =~= Seq::empty());
    }
}

/// A member's statement has the member's own allocations, all of them and in order.
pub proof fn statements_are_of_ones_own(
    payables: Map<u128, PayableModel>,
    keys: Seq<u128>,
    member: MemberId,
)
    ensures
        statement_among(payables, keys, keys.len(), member) == keys.filter(
            |k: u128| payables[k].member == member,
        ).map_values(|k: u128| payables[k].statement_entry()),
{
    lemma_statement(payables, keys, keys.len(), member);
    assert(keys.take(keys.len() as int) =~= keys);
}

} // verus!

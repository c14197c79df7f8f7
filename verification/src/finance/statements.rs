//! Signed statements determine what they state: nothing in them can be changed without changing
//! what is signed.

use super::bank::BankVerification;
use super::commands::{ProgramCommand, SignedProgramCommand};
use super::distribution::AnnualDistributionSchedule;
use super::scope::FinancialScope;
use super::terms::MembershipStatus;
use crate::billing::commands::{BillingCommand, SignedBillingCommand};
use crate::bytes::{lemma_array_32, lemma_assoc, lemma_tail, utf8};
use crate::json::lemma_marks;
use crate::lines::{
    differ, lemma_byte_values, lemma_lines, lemma_values_injective, line, Line,
};
use vstd::prelude::*;

verus! {

/// A scope, piece by piece.
pub open spec fn scope_line(scope: FinancialScope) -> Line {
    line("{\"deployment_domain\":"@).bytes(scope.deployment_domain@).text(
        ",\"operator\":"@,
    ).number(scope.operator.0 as nat, ",\"program\":"@).number(
        scope.program.0 as nat,
        ",\"payment_account\":"@,
    ).bytes(scope.payment_account@).text(",\"protocol_version\":"@).number(
        scope.protocol_version.0 as nat,
        "}"@,
    )
}

/// A scope is written so.
pub proof fn lemma_scope_written(scope: FinancialScope)
    ensures
        scope_line(scope).written() == scope.json(),
{
    reveal_with_fuel(Line::written, 12);
    lemma_byte_values(scope.deployment_domain@);
    lemma_byte_values(scope.payment_account@);
}

/// All scopes are of one make.
pub proof fn lemma_scopes_like(a: FinancialScope, b: FinancialScope)
    ensures
        scope_line(a).like(scope_line(b)),
{
    reveal_with_fuel(Line::like, 12);
    reveal_strlit(",\"program\":");
    reveal_strlit(",\"payment_account\":");
    reveal_strlit("}");
    vstd::utf8::is_ascii_chars_encode_utf8(",\"program\":"@);
    vstd::utf8::is_ascii_chars_encode_utf8(",\"payment_account\":"@);
    vstd::utf8::is_ascii_chars_encode_utf8("}"@);
}

/// Scopes that are the same piece by piece are the same.
pub proof fn lemma_scope_pieces(a: FinancialScope, b: FinancialScope)
    requires
        scope_line(a) == scope_line(b),
    ensures
        a == b,
{
    lemma_values_injective(a.deployment_domain@, b.deployment_domain@);
    lemma_values_injective(a.payment_account@, b.payment_account@);
    lemma_array_32(a.deployment_domain, b.deployment_domain);
    lemma_array_32(a.payment_account, b.payment_account);
}

/// A scope's encoding determines deployment, operator, program, payment account and version.
pub proof fn scopes_are_bound(a: FinancialScope, b: FinancialScope)
    requires
        a.json() == b.json(),
    ensures
        a == b,
{
    lemma_scope_written(a);
    lemma_scope_written(b);
    lemma_scopes_like(a, b);
    lemma_lines(scope_line(a), Seq::empty(), scope_line(b), Seq::empty());
    lemma_scope_pieces(a, b);
}

spec fn bank_line(a: BankVerification) -> Line {
    line("[\"cs-mail/bank-association/v1\","@).within(scope_line(a.scope)).text(","@).number(
        a.account.0 as nat,
        ","@,
    ).number(a.member.0 as nat, ","@).bytes(a.person@).text(","@).bytes(a.bank_token@).text(
        ","@,
    ).number(a.unit.0 as nat, ","@).number(a.version as nat, "]"@)
}

proof fn lemma_bank_written(a: BankVerification)
    ensures
        bank_line(a).written() == a.statement(),
{
    reveal_with_fuel(Line::written, 12);
    lemma_scope_written(a.scope);
    lemma_byte_values(a.person@);
    lemma_byte_values(a.bank_token@);
}

/// What a bank authority signs determines the association in every part.
pub proof fn bank_evidence_is_bound(a: BankVerification, b: BankVerification)
    requires
        a.statement() == b.statement(),
    ensures
        a.same_content(&b),
{
    lemma_marks();
    lemma_bank_written(a);
    lemma_bank_written(b);
    lemma_scopes_like(a.scope, b.scope);
    assert(bank_line(a).like(bank_line(b))) by {
        reveal_with_fuel(Line::like, 12);
    }
    lemma_lines(bank_line(a), Seq::empty(), bank_line(b), Seq::empty());
    lemma_scope_pieces(a.scope, b.scope);
    lemma_values_injective(a.person@, b.person@);
    lemma_values_injective(a.bank_token@, b.bank_token@);
    lemma_array_32(a.person, b.person);
    lemma_array_32(a.bank_token, b.bank_token);
}

/// What ends a number in a command.
proof fn lemma_ends()
    ensures
        utf8(",\"member\":"@).len() > 0 && utf8(",\"member\":"@)[0] == 0x2c,
        utf8(",\"distribution\":"@).len() > 0 && utf8(",\"distribution\":"@)[0] == 0x2c,
        utf8(",\"amount\":"@).len() > 0 && utf8(",\"amount\":"@)[0] == 0x2c,
        utf8(",\"reason\":"@).len() > 0 && utf8(",\"reason\":"@)[0] == 0x2c,
        utf8(",\"identity_digest\":"@).len() > 0 && utf8(",\"identity_digest\":"@)[0] == 0x2c,
        utf8(",\"status\":"@).len() > 0 && utf8(",\"status\":"@)[0] == 0x2c,
        utf8(",\"activity\":"@).len() > 0 && utf8(",\"activity\":"@)[0] == 0x2c,
        utf8(",\"hold\":"@).len() > 0 && utf8(",\"hold\":"@)[0] == 0x2c,
        utf8(",\"evidence\":"@).len() > 0 && utf8(",\"evidence\":"@)[0] == 0x2c,
        utf8("}}"@).len() > 0 && utf8("}}"@)[0] == 0x7d,
        utf8("}"@).len() > 0 && utf8("}"@)[0] == 0x7d,
{
    reveal_strlit(",\"member\":");
    reveal_strlit(",\"distribution\":");
    reveal_strlit(",\"amount\":");
    reveal_strlit(",\"reason\":");
    reveal_strlit(",\"identity_digest\":");
    reveal_strlit(",\"status\":");
    reveal_strlit(",\"activity\":");
    reveal_strlit(",\"hold\":");
    reveal_strlit(",\"evidence\":");
    reveal_strlit("}}");
    reveal_strlit("}");
    vstd::utf8::is_ascii_chars_encode_utf8(",\"member\":"@);
    vstd::utf8::is_ascii_chars_encode_utf8(",\"distribution\":"@);
    vstd::utf8::is_ascii_chars_encode_utf8(",\"amount\":"@);
    vstd::utf8::is_ascii_chars_encode_utf8(",\"reason\":"@);
    vstd::utf8::is_ascii_chars_encode_utf8(",\"identity_digest\":"@);
    vstd::utf8::is_ascii_chars_encode_utf8(",\"status\":"@);
    vstd::utf8::is_ascii_chars_encode_utf8(",\"activity\":"@);
    vstd::utf8::is_ascii_chars_encode_utf8(",\"hold\":"@);
    vstd::utf8::is_ascii_chars_encode_utf8(",\"evidence\":"@);
    vstd::utf8::is_ascii_chars_encode_utf8("}}"@);
    vstd::utf8::is_ascii_chars_encode_utf8("}"@);
}

/// What ends a number in a schedule.
proof fn lemma_schedule_ends()
    ensures
        utf8(",\"start\":"@).len() > 0 && utf8(",\"start\":"@)[0] == 0x2c,
        utf8(",\"cutoff\":"@).len() > 0 && utf8(",\"cutoff\":"@)[0] == 0x2c,
        utf8(",\"eligibility\":{\"version\":"@).len() > 0 && utf8(",\"eligibility\":{\"version\":"@)[0] == 0x2c,
        utf8(",\"minimum_tenure\":"@).len() > 0 && utf8(",\"minimum_tenure\":"@)[0] == 0x2c,
        utf8(",\"minimum_active_days\":"@).len() > 0 && utf8(",\"minimum_active_days\":"@)[0] == 0x2c,
        utf8("},\"payment\":{\"version\":"@).len() > 0 && utf8("},\"payment\":{\"version\":"@)[0] == 0x7d,
        utf8(",\"utility_charge\":"@).len() > 0 && utf8(",\"utility_charge\":"@)[0] == 0x2c,
        utf8(",\"due_at\":"@).len() > 0 && utf8(",\"due_at\":"@)[0] == 0x2c,
        utf8("}}"@).len() > 0 && utf8("}}"@)[0] == 0x7d,
{
    reveal_strlit(",\"start\":");
    reveal_strlit(",\"cutoff\":");
    reveal_strlit(",\"eligibility\":{\"version\":");
    reveal_strlit(",\"minimum_tenure\":");
    reveal_strlit(",\"minimum_active_days\":");
    reveal_strlit("},\"payment\":{\"version\":");
    reveal_strlit(",\"utility_charge\":");
    reveal_strlit(",\"due_at\":");
    reveal_strlit("}}");
    vstd::utf8::is_ascii_chars_encode_utf8(",\"start\":"@);
    vstd::utf8::is_ascii_chars_encode_utf8(",\"cutoff\":"@);
    vstd::utf8::is_ascii_chars_encode_utf8(",\"eligibility\":{\"version\":"@);
    vstd::utf8::is_ascii_chars_encode_utf8(",\"minimum_tenure\":"@);
    vstd::utf8::is_ascii_chars_encode_utf8(",\"minimum_active_days\":"@);
    vstd::utf8::is_ascii_chars_encode_utf8("},\"payment\":{\"version\":"@);
    vstd::utf8::is_ascii_chars_encode_utf8(",\"utility_charge\":"@);
    vstd::utf8::is_ascii_chars_encode_utf8(",\"due_at\":"@);
    vstd::utf8::is_ascii_chars_encode_utf8("}}"@);
}

/// What tells one command from another.
proof fn lemma_heads()
    ensures
        utf8("{\"CompensateMember\":{\"event\":"@).len() > 3,
        utf8("{\"CompensateMember\":{\"event\":"@)[2] == 0x43,
        utf8("{\"CompensateMember\":{\"event\":"@)[3] == 0x6f,
        utf8("{\"Enroll\":{\"member\":"@).len() > 3,
        utf8("{\"Enroll\":{\"member\":"@)[2] == 0x45,
        utf8("{\"Enroll\":{\"member\":"@)[3] == 0x6e,
        utf8("{\"SetMembership\":{\"member\":"@).len() > 3,
        utf8("{\"SetMembership\":{\"member\":"@)[2] == 0x53,
        utf8("{\"SetMembership\":{\"member\":"@)[3] == 0x65,
        utf8("{\"RecordActivity\":{\"member\":"@).len() > 3,
        utf8("{\"RecordActivity\":{\"member\":"@)[2] == 0x52,
        utf8("{\"RecordActivity\":{\"member\":"@)[3] == 0x65,
        utf8("{\"PublishAnnualDistribution\":"@).len() > 3,
        utf8("{\"PublishAnnualDistribution\":"@)[2] == 0x50,
        utf8("{\"PublishAnnualDistribution\":"@)[3] == 0x75,
        utf8("{\"Hold\":{\"source\":"@).len() > 3,
        utf8("{\"Hold\":{\"source\":"@)[2] == 0x48,
        utf8("{\"Hold\":{\"source\":"@)[3] == 0x6f,
        utf8("{\"ClearMaturity\":{\"source\":"@).len() > 3,
        utf8("{\"ClearMaturity\":{\"source\":"@)[2] == 0x43,
        utf8("{\"ClearMaturity\":{\"source\":"@)[3] == 0x6c,
        utf8("{\"FinalizeAnnualDistribution\":"@).len() > 3,
        utf8("{\"FinalizeAnnualDistribution\":"@)[2] == 0x46,
        utf8("{\"FinalizeAnnualDistribution\":"@)[3] == 0x69,
{
    reveal_strlit("{\"CompensateMember\":{\"event\":");
    reveal_strlit("{\"Enroll\":{\"member\":");
    reveal_strlit("{\"SetMembership\":{\"member\":");
    reveal_strlit("{\"RecordActivity\":{\"member\":");
    reveal_strlit("{\"PublishAnnualDistribution\":");
    reveal_strlit("{\"Hold\":{\"source\":");
    reveal_strlit("{\"ClearMaturity\":{\"source\":");
    reveal_strlit("{\"FinalizeAnnualDistribution\":");
    vstd::utf8::is_ascii_chars_encode_utf8("{\"CompensateMember\":{\"event\":"@);
    vstd::utf8::is_ascii_chars_encode_utf8("{\"Enroll\":{\"member\":"@);
    vstd::utf8::is_ascii_chars_encode_utf8("{\"SetMembership\":{\"member\":"@);
    vstd::utf8::is_ascii_chars_encode_utf8("{\"RecordActivity\":{\"member\":"@);
    vstd::utf8::is_ascii_chars_encode_utf8("{\"PublishAnnualDistribution\":"@);
    vstd::utf8::is_ascii_chars_encode_utf8("{\"Hold\":{\"source\":"@);
    vstd::utf8::is_ascii_chars_encode_utf8("{\"ClearMaturity\":{\"source\":"@);
    vstd::utf8::is_ascii_chars_encode_utf8("{\"FinalizeAnnualDistribution\":"@);
}

/// What tells one activity from another.
proof fn lemma_activities()
    ensures
        utf8("\"Read\""@).len() > 1 && utf8("\"Read\""@)[1] == 0x52,
        utf8("\"Send\""@).len() > 1 && utf8("\"Send\""@)[1] == 0x53,
        utf8("\"Decision\""@).len() > 1 && utf8("\"Decision\""@)[1] == 0x44,
{
    reveal_strlit("\"Read\"");
    reveal_strlit("\"Send\"");
    reveal_strlit("\"Decision\"");
    vstd::utf8::is_ascii_chars_encode_utf8("\"Read\""@);
    vstd::utf8::is_ascii_chars_encode_utf8("\"Send\""@);
    vstd::utf8::is_ascii_chars_encode_utf8("\"Decision\""@);
}

/// What tells one billing command from another.
proof fn lemma_billing_heads()
    ensures
        utf8("{\"PurchaseService\":{\"offer\":"@).len() > 2,
        utf8("{\"PurchaseService\":{\"offer\":"@)[0] == 0x7b,
        utf8("{\"PurchaseService\":{\"offer\":"@)[2] == 0x50,
        utf8("{\"RetryCollection\":{\"contract\":"@).len() > 2,
        utf8("{\"RetryCollection\":{\"contract\":"@)[0] == 0x7b,
        utf8("{\"RetryCollection\":{\"contract\":"@)[2] == 0x52,
        utf8("\"Inspect\""@).len() > 2,
        utf8("\"Inspect\""@)[0] == 0x22,
        utf8("\"Inspect\""@)[2] == 0x6e,
{
    reveal_strlit("{\"PurchaseService\":{\"offer\":");
    reveal_strlit("{\"RetryCollection\":{\"contract\":");
    reveal_strlit("\"Inspect\"");
    vstd::utf8::is_ascii_chars_encode_utf8("{\"PurchaseService\":{\"offer\":"@);
    vstd::utf8::is_ascii_chars_encode_utf8("{\"RetryCollection\":{\"contract\":"@);
    vstd::utf8::is_ascii_chars_encode_utf8("\"Inspect\""@);
}

spec fn status_line(status: MembershipStatus) -> Line {
    line("{\"opted_in\":"@).flag(status.opted_in).text(",\"verified\":"@).flag(status.verified).text(
        ",\"suspended\":"@,
    ).flag(status.suspended).text("}"@)
}

spec fn schedule_line(schedule: AnnualDistributionSchedule) -> Line {
    line("{\"id\":"@).number(schedule.id.0 as nat, ",\"start\":"@).number(
        schedule.start.0 as nat,
        ",\"cutoff\":"@,
    ).number(schedule.cutoff.0 as nat, ",\"eligibility\":{\"version\":"@).number(
        schedule.eligibility.version.0 as nat,
        ",\"minimum_tenure\":"@,
    ).number(schedule.eligibility.minimum_tenure.0 as nat, ",\"minimum_active_days\":"@).number(
        schedule.eligibility.minimum_active_days as nat,
        "},\"payment\":{\"version\":"@,
    ).number(schedule.payment.version.0 as nat, ",\"utility_charge\":"@).number(
        schedule.payment.utility_charge.0 as nat,
        ",\"due_at\":"@,
    ).number(schedule.payment.due_at.0 as nat, "}}"@)
}

/// A command, piece by piece, but for what is done in an activity.
spec fn command_line(command: ProgramCommand) -> Line {
    match command {
        ProgramCommand::CompensateMember { event, member, distribution, amount, reason } => {
            line("{\"CompensateMember\":{\"event\":"@).number(event.0 as nat, ",\"member\":"@).number(
                member.0 as nat,
                ",\"distribution\":"@,
            ).number(distribution.0 as nat, ",\"amount\":"@).number(
                amount.0 as nat,
                ",\"reason\":"@,
            ).quoted(reason@).text("}}"@)
        },
        ProgramCommand::Enroll { member, identity_digest, status } => {
            line("{\"Enroll\":{\"member\":"@).number(
                member.0 as nat,
                ",\"identity_digest\":"@,
            ).bytes(identity_digest@).text(",\"status\":"@).within(status_line(status)).text("}}"@)
        },
        ProgramCommand::SetMembership { member, status } => {
            line("{\"SetMembership\":{\"member\":"@).number(member.0 as nat, ",\"status\":"@).within(
                status_line(status),
            ).text("}}"@)
        },
        ProgramCommand::RecordActivity { member, .. } => {
            line("{\"RecordActivity\":{\"member\":"@).number(member.0 as nat, ",\"activity\":"@)
        },
        ProgramCommand::PublishAnnualDistribution(schedule) => {
            line("{\"PublishAnnualDistribution\":"@).within(schedule_line(schedule)).text("}"@)
        },
        ProgramCommand::Hold { source, hold } => {
            line("{\"Hold\":{\"source\":"@).number(source.0 as nat, ",\"hold\":"@).flag(hold).text(
                "}}"@,
            )
        },
        ProgramCommand::ClearMaturity { source, evidence } => {
            line("{\"ClearMaturity\":{\"source\":"@).number(
                source.0 as nat,
                ",\"evidence\":"@,
            ).number(evidence.0 as nat, "}}"@)
        },
        ProgramCommand::FinalizeAnnualDistribution(id) => {
            line("{\"FinalizeAnnualDistribution\":"@).number(id.0 as nat, "}"@)
        },
    }
}

/// What follows the line.
spec fn command_rest(command: ProgramCommand) -> Seq<u8> {
    match command {
        ProgramCommand::RecordActivity { activity, .. } => activity.json() + utf8("}}"@),
        _ => Seq::empty(),
    }
}

proof fn lemma_command_written(command: ProgramCommand)
    ensures
        command.json() == command_line(command).written() + command_rest(command),
{
    reveal_with_fuel(Line::written, 12);
    let written = command_line(command).written();
    match command {
        ProgramCommand::Enroll { identity_digest, .. } => lemma_byte_values(identity_digest@),
        ProgramCommand::RecordActivity { activity, .. } => lemma_assoc(
            written,
            activity.json(),
            utf8("}}"@),
        ),
        _ => {},
    }
    if !(command is RecordActivity) {
        assert(written + command_rest(command) =~= written);
    }
}

/// Which command it is.
spec fn form(command: ProgramCommand) -> int {
    match command {
        ProgramCommand::CompensateMember { .. } => 0,
        ProgramCommand::Enroll { .. } => 1,
        ProgramCommand::SetMembership { .. } => 2,
        ProgramCommand::RecordActivity { .. } => 3,
        ProgramCommand::PublishAnnualDistribution(_) => 4,
        ProgramCommand::Hold { .. } => 5,
        ProgramCommand::ClearMaturity { .. } => 6,
        ProgramCommand::FinalizeAnnualDistribution(_) => 7,
    }
}

proof fn lemma_head_is(command: ProgramCommand)
    ensures
        command_line(command).head().len() > 3,
        command_line(command).head()[2] == seq![
            0x43u8,
            0x45u8,
            0x53u8,
            0x52u8,
            0x50u8,
            0x48u8,
            0x43u8,
            0x46u8,
        ][form(command)],
        form(command) == 0 ==> command_line(command).head()[3] == 0x6f,
        form(command) == 6 ==> command_line(command).head()[3] == 0x6c,
{
    lemma_heads();
    reveal_with_fuel(Line::head, 8);
}

proof fn lemma_forms_differ(a: ProgramCommand, b: ProgramCommand)
    requires
        form(a) != form(b),
    ensures
        a.json() != b.json(),
{
    lemma_command_written(a);
    lemma_command_written(b);
    lemma_head_is(a);
    lemma_head_is(b);
    let (x, y) = (command_line(a), command_line(b));
    let (s, t) = (command_rest(a), command_rest(b));
    assert(x.head()[2] != y.head()[2] || x.head()[3] != y.head()[3]);
    assert(differ(x.head(), y.head()));
    if a.json() == b.json() {
        lemma_lines(x, s, y, t);
        assert(x == y);
    }
}

proof fn lemma_schedules_like(a: AnnualDistributionSchedule, b: AnnualDistributionSchedule)
    ensures
        schedule_line(a).like(schedule_line(b)),
{
    lemma_schedule_ends();
    reveal_with_fuel(Line::like, 12);
}

proof fn lemma_statuses_like(a: MembershipStatus, b: MembershipStatus)
    ensures
        status_line(a).like(status_line(b)),
{
    reveal_with_fuel(Line::like, 8);
}

proof fn lemma_commands_like(a: ProgramCommand, b: ProgramCommand)
    requires
        form(a) == form(b),
    ensures
        command_line(a).like(command_line(b)),
{
    lemma_ends();
    let (x, y) = (command_line(a), command_line(b));
    match (a, b) {
        (
            ProgramCommand::PublishAnnualDistribution(i),
            ProgramCommand::PublishAnnualDistribution(j),
        ) => {
            lemma_schedules_like(i, j);
            assert(x.like(y)) by {
                reveal_with_fuel(Line::like, 3);
            }
        },
        (ProgramCommand::Enroll { status: i, .. }, ProgramCommand::Enroll { status: j, .. }) => {
            lemma_statuses_like(i, j);
            assert(x.like(y)) by {
                reveal_with_fuel(Line::like, 6);
            }
        },
        (
            ProgramCommand::SetMembership { status: i, .. },
            ProgramCommand::SetMembership { status: j, .. },
        ) => {
            lemma_statuses_like(i, j);
            assert(x.like(y)) by {
                reveal_with_fuel(Line::like, 4);
            }
        },
        (ProgramCommand::CompensateMember { .. }, _) => {
            assert(x.like(y)) by {
                reveal_with_fuel(Line::like, 8);
            }
        },
        _ => {
            assert(x.like(y)) by {
                reveal_with_fuel(Line::like, 4);
            }
        },
    }
}

proof fn lemma_command_pieces(a: ProgramCommand, b: ProgramCommand)
    requires
        form(a) == form(b),
        command_line(a) == command_line(b),
        command_rest(a) == command_rest(b),
    ensures
        a.alike(&b),
{
    match (a, b) {
        (
            ProgramCommand::Enroll { identity_digest: i, .. },
            ProgramCommand::Enroll { identity_digest: j, .. },
        ) => {
            lemma_values_injective(i@, j@);
            lemma_array_32(i, j);
        },
        (
            ProgramCommand::RecordActivity { activity: i, .. },
            ProgramCommand::RecordActivity { activity: j, .. },
        ) => {
            lemma_activities();
            assert((i.json() + utf8("}}"@))[1] == i.json()[1]);
            assert((j.json() + utf8("}}"@))[1] == j.json()[1]);
        },
        _ => {},
    }
}

/// What is signed of a command determines it.
proof fn lemma_program_commands(a: ProgramCommand, b: ProgramCommand)
    requires
        a.json() == b.json(),
    ensures
        a.alike(&b),
{
    lemma_command_written(a);
    lemma_command_written(b);
    if form(a) != form(b) {
        lemma_forms_differ(a, b);
    }
    lemma_commands_like(a, b);
    lemma_lines(command_line(a), command_rest(a), command_line(b), command_rest(b));
    lemma_command_pieces(a, b);
}

spec fn program_line(a: SignedProgramCommand) -> Line {
    line("[\"cs-mail/financial-command/v2\","@).within(scope_line(a.scope)).text(","@).number(
        a.unit.0 as nat,
        ","@,
    ).number(a.idempotency_key.0 as nat, ","@).number(a.expected_revision as nat, ","@)
}

proof fn lemma_program_written(a: SignedProgramCommand)
    ensures
        a.statement() == program_line(a).written() + (a.command.json() + utf8("]"@)),
{
    reveal_with_fuel(Line::written, 12);
    lemma_scope_written(a.scope);
    lemma_assoc(program_line(a).written(), a.command.json(), utf8("]"@));
}

/// What the program's administration signs determines the command in every part.
pub proof fn program_commands_are_bound(a: SignedProgramCommand, b: SignedProgramCommand)
    requires
        a.statement() == b.statement(),
    ensures
        a.scope == b.scope,
        a.unit == b.unit,
        a.idempotency_key == b.idempotency_key,
        a.expected_revision == b.expected_revision,
        a.command.alike(&b.command),
{
    lemma_marks();
    lemma_program_written(a);
    lemma_program_written(b);
    lemma_scopes_like(a.scope, b.scope);
    let z = utf8("]"@);
    assert(program_line(a).like(program_line(b))) by {
        reveal_with_fuel(Line::like, 12);
    }
    lemma_lines(program_line(a), a.command.json() + z, program_line(b), b.command.json() + z);
    lemma_scope_pieces(a.scope, b.scope);
    lemma_tail(a.command.json(), z, b.command.json(), z);
    lemma_program_commands(a.command, b.command);
}

spec fn billing_command_line(command: BillingCommand) -> Line {
    match command {
        BillingCommand::Inspect => line("\"Inspect\""@),
        BillingCommand::PurchaseService { offer } => line(
            "{\"PurchaseService\":{\"offer\":"@,
        ).number(offer.0 as nat, "}}"@),
        BillingCommand::RetryCollection { contract } => line(
            "{\"RetryCollection\":{\"contract\":"@,
        ).number(contract.0 as nat, "}}"@),
    }
}

proof fn lemma_billing_commands(a: BillingCommand, b: BillingCommand)
    requires
        a.json() == b.json(),
    ensures
        a == b,
{
    lemma_ends();
    lemma_billing_heads();
    let (x, y) = (billing_command_line(a), billing_command_line(b));
    let e = Seq::<u8>::empty();
    reveal_with_fuel(Line::written, 3);
    reveal_with_fuel(Line::head, 3);
    reveal_with_fuel(Line::like, 3);
    assert(x.head()[0] == y.head()[0] || differ(x.head(), y.head()));
    assert(x.head()[2] == y.head()[2] || differ(x.head(), y.head()));
    lemma_lines(x, e, y, e);
}

spec fn billing_line(a: SignedBillingCommand) -> Line {
    line("[\"cs-mail/billing-command/v3\","@).number(a.operational_key.0 as nat, ","@).number(
        a.account.0 as nat,
        ","@,
    ).within(scope_line(a.scope)).text(","@).number(a.expected_revision as nat, ","@).number(
        a.idempotency_key.0 as nat,
        ","@,
    )
}

proof fn lemma_billing_written(a: SignedBillingCommand)
    ensures
        a.statement() == billing_line(a).written() + (a.command.json() + utf8("]"@)),
{
    reveal_with_fuel(Line::written, 12);
    lemma_scope_written(a.scope);
    lemma_assoc(billing_line(a).written(), a.command.json(), utf8("]"@));
}

/// What an account's manager signs determines the billing command in every part.
pub proof fn billing_commands_are_bound(a: SignedBillingCommand, b: SignedBillingCommand)
    requires
        a.statement() == b.statement(),
    ensures
        a.account == b.account,
        a.operational_key == b.operational_key,
        a.scope == b.scope,
        a.expected_revision == b.expected_revision,
        a.idempotency_key == b.idempotency_key,
        a.command == b.command,
{
    lemma_marks();
    lemma_billing_written(a);
    lemma_billing_written(b);
    lemma_scopes_like(a.scope, b.scope);
    let z = utf8("]"@);
    assert(billing_line(a).like(billing_line(b))) by {
        reveal_with_fuel(Line::like, 12);
    }
    lemma_lines(billing_line(a), a.command.json() + z, billing_line(b), b.command.json() + z);
    lemma_scope_pieces(a.scope, b.scope);
    lemma_tail(a.command.json(), z, b.command.json(), z);
    lemma_billing_commands(a.command, b.command);
}

} // verus!

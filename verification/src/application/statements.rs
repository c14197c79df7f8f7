//! Signed requests determine what they ask: nothing in them can be changed without changing what is
//! signed.

use super::consent::{number_items, ConsentCommandModel, ConsentRequestModel};
use super::request::{CommandModel, PackageModel, RecoveryModel, RequestModel};
use crate::bytes::utf8;
use crate::consent::{DecryptionActor, DecryptionPurpose, GrantUse};
use crate::content::statements::{key_line, lemma_keys, lemma_records, record_line};
use crate::correspondence::policy::PolicyAction;
use crate::correspondence::statements::{
    lemma_manifests, lemma_selections, manifest_line, selection_line,
};
use crate::json::lemma_marks;
use crate::lines::{differ, items, lemma_lines, line, Line};
use crate::maps::{lemma_sorted_keys, sorted_keys, sorted_members};
use vstd::prelude::*;

verus! {

/// What tells one actor from another.
proof fn lemma_actor_heads()
    ensures
        utf8("{\"UserDevice\":"@).len() > 2,
        utf8("{\"UserDevice\":"@)[2] == 0x55,
        utf8("{\"CsqdProcessor\":"@).len() > 2,
        utf8("{\"CsqdProcessor\":"@)[2] == 0x43,
{
    reveal_strlit("{\"UserDevice\":");
    reveal_strlit("{\"CsqdProcessor\":");
    vstd::utf8::is_ascii_chars_encode_utf8("{\"UserDevice\":"@);
    vstd::utf8::is_ascii_chars_encode_utf8("{\"CsqdProcessor\":"@);
}

/// What tells one purpose from another.
proof fn lemma_purpose_heads()
    ensures
        utf8("\"Display\""@).len() > 0,
        utf8("\"Display\""@)[0] == 0x22,
        utf8("{\"CsqdProcessing\":{\"operation\":"@).len() > 0,
        utf8("{\"CsqdProcessing\":{\"operation\":"@)[0] == 0x7b,
{
    reveal_strlit("\"Display\"");
    reveal_strlit("{\"CsqdProcessing\":{\"operation\":");
    vstd::utf8::is_ascii_chars_encode_utf8("\"Display\""@);
    vstd::utf8::is_ascii_chars_encode_utf8("{\"CsqdProcessing\":{\"operation\":"@);
}

/// What tells one command from another.
proof fn lemma_command_heads()
    ensures
        utf8("{\"Authorize\":{\"id\":"@).len() > 4,
        utf8("{\"Authorize\":{\"id\":"@)[2] == 0x41,
        utf8("{\"Authorize\":{\"id\":"@)[4] == 0x74,
        utf8("{\"Revoke\":{\"id\":"@).len() > 4,
        utf8("{\"Revoke\":{\"id\":"@)[2] == 0x52,
        utf8("{\"Revoke\":{\"id\":"@)[4] == 0x76,
        utf8("{\"Inspect\":{\"id\":"@).len() > 4,
        utf8("{\"Inspect\":{\"id\":"@)[2] == 0x49,
        utf8("{\"Inspect\":{\"id\":"@)[4] == 0x73,
        utf8("{\"Read\":{\"id\":"@).len() > 4,
        utf8("{\"Read\":{\"id\":"@)[2] == 0x52,
        utf8("{\"Read\":{\"id\":"@)[4] == 0x61,
{
    reveal_strlit("{\"Authorize\":{\"id\":");
    reveal_strlit("{\"Revoke\":{\"id\":");
    reveal_strlit("{\"Inspect\":{\"id\":");
    reveal_strlit("{\"Read\":{\"id\":");
    vstd::utf8::is_ascii_chars_encode_utf8("{\"Authorize\":{\"id\":"@);
    vstd::utf8::is_ascii_chars_encode_utf8("{\"Revoke\":{\"id\":"@);
    vstd::utf8::is_ascii_chars_encode_utf8("{\"Inspect\":{\"id\":"@);
    vstd::utf8::is_ascii_chars_encode_utf8("{\"Read\":{\"id\":"@);
}

/// What ends a number in a request.
proof fn lemma_ends()
    ensures
        utf8(",\"scope\":"@).len() > 0 && utf8(",\"scope\":"@)[0] == 0x2c,
        utf8(",\"message\":"@).len() > 0 && utf8(",\"message\":"@)[0] == 0x2c,
        utf8(",\"purpose\":"@).len() > 0 && utf8(",\"purpose\":"@)[0] == 0x2c,
        utf8(",\"bytes\":"@).len() > 0 && utf8(",\"bytes\":"@)[0] == 0x2c,
        utf8("}"@).len() > 0 && utf8("}"@)[0] == 0x7d,
        utf8("}}"@).len() > 0 && utf8("}}"@)[0] == 0x7d,
{
    reveal_strlit(",\"scope\":");
    reveal_strlit(",\"message\":");
    reveal_strlit(",\"purpose\":");
    reveal_strlit(",\"bytes\":");
    reveal_strlit("}");
    reveal_strlit("}}");
    vstd::utf8::is_ascii_chars_encode_utf8(",\"scope\":"@);
    vstd::utf8::is_ascii_chars_encode_utf8(",\"message\":"@);
    vstd::utf8::is_ascii_chars_encode_utf8(",\"purpose\":"@);
    vstd::utf8::is_ascii_chars_encode_utf8(",\"bytes\":"@);
    vstd::utf8::is_ascii_chars_encode_utf8("}"@);
    vstd::utf8::is_ascii_chars_encode_utf8("}}"@);
}

spec fn actor_line(actor: DecryptionActor) -> Line {
    match actor {
        DecryptionActor::UserDevice(key) => line("{\"UserDevice\":"@).number(key.0 as nat, "}"@),
        DecryptionActor::CsqdProcessor(key) => line("{\"CsqdProcessor\":"@).number(
            key.0 as nat,
            "}"@,
        ),
    }
}

proof fn lemma_actors(a: DecryptionActor, b: DecryptionActor)
    ensures
        actor_line(a).written() == a.json(),
        actor_line(a).like(actor_line(b)) || differ(actor_line(a).head(), actor_line(b).head()),
        actor_line(a) == actor_line(b) ==> a == b,
{
    lemma_ends();
    lemma_actor_heads();
    reveal_with_fuel(Line::written, 3);
    reveal_with_fuel(Line::head, 3);
    reveal_with_fuel(Line::like, 3);
    let (x, y) = (actor_line(a).head(), actor_line(b).head());
    assert(x[2] == y[2] || differ(x, y));
}

spec fn purpose_line(purpose: DecryptionPurpose) -> Line {
    match purpose {
        DecryptionPurpose::Display => line("\"Display\""@),
        DecryptionPurpose::CsqdProcessing { operation } => line(
            "{\"CsqdProcessing\":{\"operation\":"@,
        ).quoted(operation@).text("}}"@),
    }
}

proof fn lemma_purposes(a: DecryptionPurpose, b: DecryptionPurpose)
    ensures
        purpose_line(a).written() == a.json(),
        purpose_line(a).like(purpose_line(b)) || differ(
            purpose_line(a).head(),
            purpose_line(b).head(),
        ),
        purpose_line(a) == purpose_line(b) ==> a.alike(&b),
{
    lemma_purpose_heads();
    reveal_with_fuel(Line::written, 4);
    reveal_with_fuel(Line::head, 4);
    reveal_with_fuel(Line::like, 4);
    let (x, y) = (purpose_line(a).head(), purpose_line(b).head());
    assert(x[0] == y[0] || differ(x, y));
}

spec fn usage_line(usage: GrantUse) -> Line {
    line("{\"actor\":"@).within(actor_line(usage.actor)).text(",\"purpose\":"@).within(
        purpose_line(usage.purpose),
    ).text(",\"destination\":"@).within(key_line(usage.destination)).text("}"@)
}

proof fn lemma_usages(a: GrantUse, b: GrantUse)
    ensures
        usage_line(a).written() == a.json(),
        usage_line(a).like(usage_line(b)),
        usage_line(a) == usage_line(b) ==> a.alike(&b),
{
    lemma_actors(a.actor, b.actor);
    lemma_purposes(a.purpose, b.purpose);
    lemma_keys(a.destination, b.destination);
    reveal_with_fuel(Line::written, 8);
    reveal_with_fuel(Line::like, 8);
}

/// The numbers of messages.
spec fn message_numbers(scope: Set<u128>) -> Seq<nat> {
    Seq::new(sorted_members(scope).len(), |i: int| sorted_members(scope)[i] as nat)
}

proof fn lemma_message_numbers(scope: Set<u128>)
    ensures
        items(message_numbers(scope)) == number_items(sorted_members(scope)),
{
    assert(items(message_numbers(scope)) =~= number_items(sorted_members(scope)));
}

proof fn lemma_members_listed(scope: Set<u128>)
    ensures
        forall|k: u128| #[trigger] sorted_members(scope).contains(k) <==> scope.contains(k),
{
    let keyed = Map::new(|k: u128| scope.contains(k), |k: u128| ());
    assert(keyed.dom() =~= scope);
    lemma_sorted_keys(keyed);
    let list = sorted_keys(keyed);
    assert forall|k: u128| #[trigger] list.contains(k) <==> scope.contains(k) by {
        assert(keyed.contains_key(k) == scope.contains(k));
    }
}

/// Scopes with the same messages are the same.
proof fn lemma_scopes(a: Set<u128>, b: Set<u128>)
    requires
        message_numbers(a) == message_numbers(b),
    ensures
        a == b,
{
    lemma_members_listed(a);
    lemma_members_listed(b);
    let (x, y) = (sorted_members(a), sorted_members(b));
    assert(message_numbers(a).len() == x.len() && message_numbers(b).len() == y.len());
    assert forall|i: int| 0 <= i < x.len() implies x[i] == y[i] by {
        assert(message_numbers(a)[i] == x[i] as nat);
        assert(message_numbers(b)[i] == y[i] as nat);
    }
    assert(x =~= y);
    assert forall|k: u128| a.contains(k) == b.contains(k) by {
        assert(x.contains(k) == y.contains(k));
    }
    assert(a =~= b);
}

spec fn command_line(command: ConsentCommandModel) -> Line {
    match command {
        ConsentCommandModel::Authorize { id, scope, usage, expires_at } => line(
            "{\"Authorize\":{\"id\":"@,
        ).number(id.0 as nat, ",\"scope\":"@).numbers(message_numbers(scope)).text(
            ",\"usage\":"@,
        ).within(usage_line(usage)).text(",\"expires_at\":"@).number(expires_at.0 as nat, "}}"@),
        ConsentCommandModel::Revoke { id } => line("{\"Revoke\":{\"id\":"@).number(
            id.0 as nat,
            "}}"@,
        ),
        ConsentCommandModel::Inspect { id } => line("{\"Inspect\":{\"id\":"@).number(
            id.0 as nat,
            "}}"@,
        ),
        ConsentCommandModel::Read { id, message, purpose } => line(
            "{\"Read\":{\"id\":"@,
        ).number(id.0 as nat, ",\"message\":"@).number(message.0 as nat, ",\"purpose\":"@).within(
            purpose_line(purpose),
        ).text("}}"@),
    }
}

proof fn lemma_command_written(a: ConsentCommandModel)
    ensures
        command_line(a).written() == a.json(),
{
    match a {
        ConsentCommandModel::Authorize { scope, usage, .. } => {
            lemma_message_numbers(scope);
            lemma_usages(usage, usage);
        },
        ConsentCommandModel::Read { purpose, .. } => lemma_purposes(purpose, purpose),
        _ => {},
    }
    reveal_with_fuel(Line::written, 8);
}

proof fn lemma_commands_like(a: ConsentCommandModel, b: ConsentCommandModel)
    ensures
        command_line(a).like(command_line(b)) || differ(
            command_line(a).head(),
            command_line(b).head(),
        ),
{
    lemma_ends();
    lemma_command_heads();
    let (x, y) = (command_line(a), command_line(b));
    assert(x.head().len() > 4 && y.head().len() > 4) by {
        reveal_with_fuel(Line::head, 8);
    }
    match (a, b) {
        (
            ConsentCommandModel::Authorize { usage: i, .. },
            ConsentCommandModel::Authorize { usage: j, .. },
        ) => {
            lemma_usages(i, j);
            assert(x.like(y)) by {
                reveal_with_fuel(Line::like, 8);
            }
        },
        (ConsentCommandModel::Revoke { .. }, ConsentCommandModel::Revoke { .. }) => {
            reveal_with_fuel(Line::like, 3);
        },
        (ConsentCommandModel::Inspect { .. }, ConsentCommandModel::Inspect { .. }) => {
            reveal_with_fuel(Line::like, 3);
        },
        (
            ConsentCommandModel::Read { purpose: i, .. },
            ConsentCommandModel::Read { purpose: j, .. },
        ) => {
            lemma_purposes(i, j);
            assert(x.like(y)) by {
                reveal_with_fuel(Line::like, 6);
            }
        },
        _ => {
            assert(x.head()[2] != y.head()[2] || x.head()[4] != y.head()[4]) by {
                reveal_with_fuel(Line::head, 8);
            }
            assert(differ(x.head(), y.head()));
        },
    }
}

impl ConsentCommandModel {
    /// The same command, but for how a purpose's text is held.
    pub open spec fn alike(self, other: Self) -> bool {
        match (self, other) {
            (
                ConsentCommandModel::Authorize { id: i, scope: s, usage: u, expires_at: e },
                ConsentCommandModel::Authorize { id: j, scope: t, usage: v, expires_at: f },
            ) => i == j && s == t && u.alike(&v) && e == f,
            (ConsentCommandModel::Revoke { id: i }, ConsentCommandModel::Revoke { id: j }) => i
                == j,
            (ConsentCommandModel::Inspect { id: i }, ConsentCommandModel::Inspect { id: j }) => i
                == j,
            (
                ConsentCommandModel::Read { id: i, message: m, purpose: p },
                ConsentCommandModel::Read { id: j, message: n, purpose: q },
            ) => i == j && m == n && p.alike(&q),
            _ => false,
        }
    }
}

proof fn lemma_command_pieces(a: ConsentCommandModel, b: ConsentCommandModel)
    requires
        command_line(a) == command_line(b),
    ensures
        a.alike(b),
{
    lemma_command_heads();
    assert(command_line(a).head()[2] == command_line(b).head()[2]);
    assert(command_line(a).head()[4] == command_line(b).head()[4]);
    reveal_with_fuel(Line::head, 8);
    match (a, b) {
        (
            ConsentCommandModel::Authorize { scope: s, usage: i, .. },
            ConsentCommandModel::Authorize { scope: t, usage: j, .. },
        ) => {
            lemma_usages(i, j);
            lemma_scopes(s, t);
        },
        (
            ConsentCommandModel::Read { purpose: i, .. },
            ConsentCommandModel::Read { purpose: j, .. },
        ) => lemma_purposes(i, j),
        _ => {},
    }
}

spec fn consent_line(a: ConsentRequestModel) -> Line {
    line("[\"cs-mail/consent-command/v1\","@).quoted(a.product).text(","@).number(
        a.account.0 as nat,
        ","@,
    ).number(a.persona.0 as nat, ","@).within(actor_line(a.actor)).text(","@).number(
        a.operation.0 as nat,
        ","@,
    ).within(command_line(a.command)).text("]"@)
}

/// What is signed of a consent request determines it in every part: product, account, persona,
/// actor, operation and command.
pub proof fn consent_requests_are_bound(a: ConsentRequestModel, b: ConsentRequestModel)
    requires
        a.message() == b.message(),
    ensures
        a.product == b.product,
        a.account == b.account,
        a.persona == b.persona,
        a.actor == b.actor,
        a.operation == b.operation,
        a.command.alike(b.command),
{
    lemma_marks();
    lemma_actors(a.actor, b.actor);
    lemma_actors(b.actor, a.actor);
    lemma_command_written(a.command);
    lemma_command_written(b.command);
    lemma_commands_like(a.command, b.command);
    let (x, y) = (consent_line(a), consent_line(b));
    assert(x.written() == a.message() && y.written() == b.message()) by {
        reveal_with_fuel(Line::written, 12);
    }
    assert(x.like(y)) by {
        reveal_with_fuel(Line::like, 12);
    }
    lemma_lines(x, Seq::empty(), y, Seq::empty());
    lemma_command_pieces(a.command, b.command);
}

/// What tells one correspondence command from another.
proof fn lemma_form_heads()
    ensures
        utf8("{\"kind\":\"Mailbox\",\"data\":{\"after\":"@).len() > 10,
        utf8("{\"kind\":\"Mailbox\",\"data\":{\"after\":"@)[9] == 0x4d,
        utf8("{\"kind\":\"Mailbox\",\"data\":{\"after\":"@)[10] == 0x61,
        utf8("{\"kind\":\"Create\",\"data\":{\"id\":"@).len() > 10,
        utf8("{\"kind\":\"Create\",\"data\":{\"id\":"@)[9] == 0x43,
        utf8("{\"kind\":\"Create\",\"data\":{\"id\":"@)[10] == 0x72,
        utf8("{\"kind\":\"ChangePolicy\",\"data\":{\"id\":"@).len() > 10,
        utf8("{\"kind\":\"ChangePolicy\",\"data\":{\"id\":"@)[9] == 0x43,
        utf8("{\"kind\":\"ChangePolicy\",\"data\":{\"id\":"@)[10] == 0x68,
        utf8("{\"kind\":\"Policy\",\"data\":{\"id\":"@).len() > 10,
        utf8("{\"kind\":\"Policy\",\"data\":{\"id\":"@)[9] == 0x50,
        utf8("{\"kind\":\"Policy\",\"data\":{\"id\":"@)[10] == 0x6f,
        utf8("{\"kind\":\"Assess\",\"data\":{\"manifest\":"@).len() > 10,
        utf8("{\"kind\":\"Assess\",\"data\":{\"manifest\":"@)[9] == 0x41,
        utf8("{\"kind\":\"Assess\",\"data\":{\"manifest\":"@)[10] == 0x73,
        utf8("{\"kind\":\"Send\",\"data\":"@).len() > 10,
        utf8("{\"kind\":\"Send\",\"data\":"@)[9] == 0x53,
        utf8("{\"kind\":\"Send\",\"data\":"@)[10] == 0x65,
        utf8("{\"kind\":\"Fetch\",\"data\":{\"message\":"@).len() > 10,
        utf8("{\"kind\":\"Fetch\",\"data\":{\"message\":"@)[9] == 0x46,
        utf8("{\"kind\":\"Fetch\",\"data\":{\"message\":"@)[10] == 0x65,
        utf8("{\"kind\":\"Resolve\",\"data\":{\"source\":"@).len() > 10,
        utf8("{\"kind\":\"Resolve\",\"data\":{\"source\":"@)[9] == 0x52,
        utf8("{\"kind\":\"Resolve\",\"data\":{\"source\":"@)[10] == 0x65,
        utf8("{\"kind\":\"DeleteCopies\",\"data\":{\"id\":"@).len() > 10,
        utf8("{\"kind\":\"DeleteCopies\",\"data\":{\"id\":"@)[9] == 0x44,
        utf8("{\"kind\":\"DeleteCopies\",\"data\":{\"id\":"@)[10] == 0x65,
{
    reveal_strlit("{\"kind\":\"Mailbox\",\"data\":{\"after\":");
    reveal_strlit("{\"kind\":\"Create\",\"data\":{\"id\":");
    reveal_strlit("{\"kind\":\"ChangePolicy\",\"data\":{\"id\":");
    reveal_strlit("{\"kind\":\"Policy\",\"data\":{\"id\":");
    reveal_strlit("{\"kind\":\"Assess\",\"data\":{\"manifest\":");
    reveal_strlit("{\"kind\":\"Send\",\"data\":");
    reveal_strlit("{\"kind\":\"Fetch\",\"data\":{\"message\":");
    reveal_strlit("{\"kind\":\"Resolve\",\"data\":{\"source\":");
    reveal_strlit("{\"kind\":\"DeleteCopies\",\"data\":{\"id\":");
    vstd::utf8::is_ascii_chars_encode_utf8("{\"kind\":\"Mailbox\",\"data\":{\"after\":"@);
    vstd::utf8::is_ascii_chars_encode_utf8("{\"kind\":\"Create\",\"data\":{\"id\":"@);
    vstd::utf8::is_ascii_chars_encode_utf8("{\"kind\":\"ChangePolicy\",\"data\":{\"id\":"@);
    vstd::utf8::is_ascii_chars_encode_utf8("{\"kind\":\"Policy\",\"data\":{\"id\":"@);
    vstd::utf8::is_ascii_chars_encode_utf8("{\"kind\":\"Assess\",\"data\":{\"manifest\":"@);
    vstd::utf8::is_ascii_chars_encode_utf8("{\"kind\":\"Send\",\"data\":"@);
    vstd::utf8::is_ascii_chars_encode_utf8("{\"kind\":\"Fetch\",\"data\":{\"message\":"@);
    vstd::utf8::is_ascii_chars_encode_utf8("{\"kind\":\"Resolve\",\"data\":{\"source\":"@);
    vstd::utf8::is_ascii_chars_encode_utf8("{\"kind\":\"DeleteCopies\",\"data\":{\"id\":"@);
}

/// What tells one change of policy from another.
proof fn lemma_action_heads()
    ensures
        utf8("\"Restrict\""@).len() > 1,
        utf8("\"Restrict\""@)[1] == 0x52,
        utf8("\"ProposeRelaxation\""@).len() > 1,
        utf8("\"ProposeRelaxation\""@)[1] == 0x50,
        utf8("\"ApproveRelaxation\""@).len() > 1,
        utf8("\"ApproveRelaxation\""@)[1] == 0x41,
{
    reveal_strlit("\"Restrict\"");
    reveal_strlit("\"ProposeRelaxation\"");
    reveal_strlit("\"ApproveRelaxation\"");
    vstd::utf8::is_ascii_chars_encode_utf8("\"Restrict\""@);
    vstd::utf8::is_ascii_chars_encode_utf8("\"ProposeRelaxation\""@);
    vstd::utf8::is_ascii_chars_encode_utf8("\"ApproveRelaxation\""@);
}

/// What ends a number in a correspondence command.
proof fn lemma_form_ends()
    ensures
        utf8(",\"limit\":"@).len() > 0 && utf8(",\"limit\":"@)[0] == 0x2c,
        utf8(",\"other\":"@).len() > 0 && utf8(",\"other\":"@)[0] == 0x2c,
        utf8(",\"revision\":"@).len() > 0 && utf8(",\"revision\":"@)[0] == 0x2c,
        utf8(",\"action\":"@).len() > 0 && utf8(",\"action\":"@)[0] == 0x2c,
        utf8("}}"@).len() > 0 && utf8("}}"@)[0] == 0x7d,
{
    reveal_strlit(",\"limit\":");
    reveal_strlit(",\"other\":");
    reveal_strlit(",\"revision\":");
    reveal_strlit(",\"action\":");
    reveal_strlit("}}");
    vstd::utf8::is_ascii_chars_encode_utf8(",\"limit\":"@);
    vstd::utf8::is_ascii_chars_encode_utf8(",\"other\":"@);
    vstd::utf8::is_ascii_chars_encode_utf8(",\"revision\":"@);
    vstd::utf8::is_ascii_chars_encode_utf8(",\"action\":"@);
    vstd::utf8::is_ascii_chars_encode_utf8("}}"@);
}

spec fn action_line(action: PolicyAction) -> Line {
    match action {
        PolicyAction::Restrict => line("\"Restrict\""@),
        PolicyAction::ProposeRelaxation => line("\"ProposeRelaxation\""@),
        PolicyAction::ApproveRelaxation => line("\"ApproveRelaxation\""@),
    }
}

proof fn lemma_actions(a: PolicyAction, b: PolicyAction)
    ensures
        action_line(a).written() == a.json(),
        action_line(a).like(action_line(b)) || differ(action_line(a).head(), action_line(b).head()),
        action_line(a) == action_line(b) ==> a == b,
{
    lemma_action_heads();
    reveal_with_fuel(Line::written, 2);
    reveal_with_fuel(Line::head, 2);
    reveal_with_fuel(Line::like, 2);
    let (x, y) = (action_line(a).head(), action_line(b).head());
    assert(x[1] == y[1] || differ(x, y));
}

spec fn recovery_line(value: RecoveryModel) -> Line {
    line("{\"sender\":"@).within(key_line(value.sender)).text(",\"ciphertext\":"@).within(
        record_line(value.ciphertext),
    ).text("}"@)
}

impl RecoveryModel {
    /// The same copy, but for how the texts of its declarations are held.
    pub open spec fn alike(self, other: Self) -> bool {
        self.sender == other.sender && self.ciphertext.alike(other.ciphertext)
    }
}

proof fn lemma_recoveries(a: RecoveryModel, b: RecoveryModel)
    ensures
        recovery_line(a).written() == a.json(),
        recovery_line(a).like(recovery_line(b)),
        recovery_line(a) == recovery_line(b) ==> a.alike(b),
{
    lemma_keys(a.sender, b.sender);
    lemma_records(a.ciphertext, b.ciphertext);
    reveal_with_fuel(Line::written, 6);
    reveal_with_fuel(Line::like, 6);
}

spec fn package_line(value: PackageModel) -> Line {
    line("{\"manifest\":"@).within(manifest_line(value.manifest)).text(",\"sender_copy\":"@).within(
        record_line(value.sender_copy),
    ).text(",\"recipient_copy\":"@).within(record_line(value.recipient_copy)).text(
        ",\"sender_recovery\":"@,
    ).within(recovery_line(value.sender_recovery)).text(",\"recipient_recovery\":"@).within(
        recovery_line(value.recipient_recovery),
    ).text("}"@)
}

impl PackageModel {
    /// The same message, but for how the texts of its declarations are held.
    pub open spec fn alike(self, other: Self) -> bool {
        &&& self.manifest == other.manifest
        &&& self.sender_copy.alike(other.sender_copy)
        &&& self.recipient_copy.alike(other.recipient_copy)
        &&& self.sender_recovery.alike(other.sender_recovery)
        &&& self.recipient_recovery.alike(other.recipient_recovery)
    }
}

proof fn lemma_text_after(before: Line, text: Seq<char>)
    ensures
        before.text(text).written() == before.written() + utf8(text),
{
}

proof fn lemma_line_after(before: Line, inner: Line)
    ensures
        before.within(inner).written() == before.written() + inner.written(),
{
}

proof fn lemma_package_written(a: PackageModel)
    ensures
        package_line(a).written() == a.json(),
{
    reveal(PackageModel::json);
    lemma_manifests(a.manifest, a.manifest);
    lemma_records(a.sender_copy, a.sender_copy);
    lemma_records(a.recipient_copy, a.recipient_copy);
    lemma_recoveries(a.sender_recovery, a.sender_recovery);
    lemma_recoveries(a.recipient_recovery, a.recipient_recovery);
    let l0 = line("{\"manifest\":"@);
    let l1 = l0.within(manifest_line(a.manifest));
    let l2 = l1.text(",\"sender_copy\":"@);
    let l3 = l2.within(record_line(a.sender_copy));
    let l4 = l3.text(",\"recipient_copy\":"@);
    let l5 = l4.within(record_line(a.recipient_copy));
    let l6 = l5.text(",\"sender_recovery\":"@);
    let l7 = l6.within(recovery_line(a.sender_recovery));
    let l8 = l7.text(",\"recipient_recovery\":"@);
    let l9 = l8.within(recovery_line(a.recipient_recovery));
    lemma_line_after(l0, manifest_line(a.manifest));
    lemma_text_after(l1, ",\"sender_copy\":"@);
    lemma_line_after(l2, record_line(a.sender_copy));
    lemma_text_after(l3, ",\"recipient_copy\":"@);
    lemma_line_after(l4, record_line(a.recipient_copy));
    lemma_text_after(l5, ",\"sender_recovery\":"@);
    lemma_line_after(l6, recovery_line(a.sender_recovery));
    lemma_text_after(l7, ",\"recipient_recovery\":"@);
    lemma_line_after(l8, recovery_line(a.recipient_recovery));
    lemma_text_after(l9, "}"@);
}

#[verifier::rlimit(60)]
proof fn lemma_packages_like(a: PackageModel, b: PackageModel)
    ensures
        package_line(a).like(package_line(b)),
{
    lemma_manifests(a.manifest, b.manifest);
    lemma_records(a.sender_copy, b.sender_copy);
    lemma_records(a.recipient_copy, b.recipient_copy);
    lemma_recoveries(a.sender_recovery, b.sender_recovery);
    lemma_recoveries(a.recipient_recovery, b.recipient_recovery);
    reveal_with_fuel(Line::like, 12);
}

#[verifier::rlimit(60)]
proof fn lemma_packages(a: PackageModel, b: PackageModel)
    ensures
        package_line(a).written() == a.json(),
        package_line(a).like(package_line(b)),
        package_line(a) == package_line(b) ==> a.alike(b),
{
    lemma_package_written(a);
    lemma_packages_like(a, b);
    lemma_manifests(a.manifest, b.manifest);
    lemma_records(a.sender_copy, b.sender_copy);
    lemma_records(a.recipient_copy, b.recipient_copy);
    lemma_recoveries(a.sender_recovery, b.sender_recovery);
    lemma_recoveries(a.recipient_recovery, b.recipient_recovery);
}

spec fn form_line(command: CommandModel) -> Line {
    match command {
        CommandModel::Mailbox { after, limit } => line(
            "{\"kind\":\"Mailbox\",\"data\":{\"after\":"@,
        ).number(after as nat, ",\"limit\":"@).number(limit as nat, "}}"@),
        CommandModel::Create { id, other } => line(
            "{\"kind\":\"Create\",\"data\":{\"id\":"@,
        ).number(id.0 as nat, ",\"other\":"@).number(other.0 as nat, "}}"@),
        CommandModel::ChangePolicy { id, revision, action } => line(
            "{\"kind\":\"ChangePolicy\",\"data\":{\"id\":"@,
        ).number(id.0 as nat, ",\"revision\":"@).number(revision as nat, ",\"action\":"@).within(
            action_line(action),
        ).text("}}"@),
        CommandModel::Policy { id } => line("{\"kind\":\"Policy\",\"data\":{\"id\":"@).number(
            id.0 as nat,
            "}}"@,
        ),
        CommandModel::Assess { manifest } => line(
            "{\"kind\":\"Assess\",\"data\":{\"manifest\":"@,
        ).within(manifest_line(manifest)).text("}}"@),
        CommandModel::Send(package) => line("{\"kind\":\"Send\",\"data\":"@).within(
            package_line(package),
        ).text("}"@),
        CommandModel::Fetch { message } => line(
            "{\"kind\":\"Fetch\",\"data\":{\"message\":"@,
        ).number(message.0 as nat, "}}"@),
        CommandModel::Resolve { source } => line(
            "{\"kind\":\"Resolve\",\"data\":{\"source\":"@,
        ).within(selection_line(source)).text("}}"@),
        CommandModel::DeleteCopies { id } => line(
            "{\"kind\":\"DeleteCopies\",\"data\":{\"id\":"@,
        ).number(id.0 as nat, "}}"@),
    }
}

/// Which command it is.
spec fn form(command: CommandModel) -> int {
    match command {
        CommandModel::Mailbox { .. } => 0,
        CommandModel::Create { .. } => 1,
        CommandModel::ChangePolicy { .. } => 2,
        CommandModel::Policy { .. } => 3,
        CommandModel::Assess { .. } => 4,
        CommandModel::Send(_) => 5,
        CommandModel::Fetch { .. } => 6,
        CommandModel::Resolve { .. } => 7,
        CommandModel::DeleteCopies { .. } => 8,
    }
}

/// What a command starts with.
spec fn form_start(command: CommandModel) -> Seq<u8> {
    match command {
        CommandModel::Mailbox { .. } => utf8("{\"kind\":\"Mailbox\",\"data\":{\"after\":"@),
        CommandModel::Create { .. } => utf8("{\"kind\":\"Create\",\"data\":{\"id\":"@),
        CommandModel::ChangePolicy { .. } => utf8("{\"kind\":\"ChangePolicy\",\"data\":{\"id\":"@),
        CommandModel::Policy { .. } => utf8("{\"kind\":\"Policy\",\"data\":{\"id\":"@),
        CommandModel::Assess { .. } => utf8("{\"kind\":\"Assess\",\"data\":{\"manifest\":"@),
        CommandModel::Send(_) => utf8("{\"kind\":\"Send\",\"data\":"@),
        CommandModel::Fetch { .. } => utf8("{\"kind\":\"Fetch\",\"data\":{\"message\":"@),
        CommandModel::Resolve { .. } => utf8("{\"kind\":\"Resolve\",\"data\":{\"source\":"@),
        CommandModel::DeleteCopies { .. } => utf8("{\"kind\":\"DeleteCopies\",\"data\":{\"id\":"@),
    }
}

proof fn lemma_form_start(command: CommandModel)
    ensures
        form_line(command).head() == form_start(command),
{
    reveal_with_fuel(Line::head, 6);
}

proof fn lemma_starts_differ(a: CommandModel, b: CommandModel)
    requires
        form(a) != form(b),
    ensures
        differ(form_start(a), form_start(b)),
{
    lemma_form_heads();
    let (x, y) = (form_start(a), form_start(b));
    assert(x.len() > 10 && y.len() > 10);
    assert(x[9] != y[9] || x[10] != y[10]);
}

proof fn lemma_form_written(a: CommandModel)
    ensures
        form_line(a).written() == a.json(),
{
    match a {
        CommandModel::ChangePolicy { action, .. } => lemma_actions(action, action),
        CommandModel::Assess { manifest } => lemma_manifests(manifest, manifest),
        CommandModel::Send(package) => lemma_packages(package, package),
        CommandModel::Resolve { source } => lemma_selections(source, source),
        _ => {},
    }
    reveal_with_fuel(Line::written, 6);
}

proof fn lemma_forms_like(a: CommandModel, b: CommandModel)
    ensures
        form_line(a).like(form_line(b)) || differ(form_line(a).head(), form_line(b).head()),
{
    let (x, y) = (form_line(a), form_line(b));
    lemma_form_start(a);
    lemma_form_start(b);
    if form(a) != form(b) {
        lemma_starts_differ(a, b);
    } else {
        lemma_form_ends();
        match (a, b) {
            (
                CommandModel::ChangePolicy { action: i, .. },
                CommandModel::ChangePolicy { action: j, .. },
            ) => {
                lemma_actions(i, j);
                assert(x.like(y)) by {
                    reveal_with_fuel(Line::like, 6);
                }
            },
            (CommandModel::Assess { manifest: i }, CommandModel::Assess { manifest: j }) => {
                lemma_manifests(i, j);
                assert(x.like(y)) by {
                    reveal_with_fuel(Line::like, 3);
                }
            },
            (CommandModel::Send(i), CommandModel::Send(j)) => {
                lemma_packages(i, j);
                assert(x.like(y)) by {
                    reveal_with_fuel(Line::like, 3);
                }
            },
            (CommandModel::Resolve { source: i }, CommandModel::Resolve { source: j }) => {
                lemma_selections(i, j);
                assert(x.like(y)) by {
                    reveal_with_fuel(Line::like, 3);
                }
            },
            _ => {
                assert(x.like(y)) by {
                    reveal_with_fuel(Line::like, 4);
                }
            },
        }
    }
}

impl CommandModel {
    /// The same command, but for how the texts of a message's declarations are held.
    pub open spec fn alike(self, other: Self) -> bool {
        match (self, other) {
            (CommandModel::Send(a), CommandModel::Send(b)) => a.alike(b),
            _ => self == other,
        }
    }
}

proof fn lemma_form_pieces(a: CommandModel, b: CommandModel)
    requires
        form_line(a) == form_line(b),
    ensures
        a.alike(b),
{
    lemma_form_start(a);
    lemma_form_start(b);
    if form(a) != form(b) {
        lemma_starts_differ(a, b);
    }
    match (a, b) {
        (
            CommandModel::ChangePolicy { action: i, .. },
            CommandModel::ChangePolicy { action: j, .. },
        ) => lemma_actions(i, j),
        (CommandModel::Assess { manifest: i }, CommandModel::Assess { manifest: j }) => {
            lemma_manifests(i, j)
        },
        (CommandModel::Send(i), CommandModel::Send(j)) => lemma_packages(i, j),
        (CommandModel::Resolve { source: i }, CommandModel::Resolve { source: j }) => {
            lemma_selections(i, j)
        },
        _ => {},
    }
}

spec fn request_line(a: RequestModel) -> Line {
    line("[\"cs-mail/correspondence-command/v3\","@).quoted(a.product).text(","@).number(
        a.account.0 as nat,
        ","@,
    ).number(a.persona.0 as nat, ","@).number(a.key.0 as nat, ","@).number(
        a.operation.0 as nat,
        ","@,
    ).within(form_line(a.command)).text("]"@)
}

/// What is signed of a correspondence request determines it in every part: product, account,
/// persona, key, operation, and the command with all that it carries.
pub proof fn requests_are_bound(a: RequestModel, b: RequestModel)
    requires
        a.message() == b.message(),
    ensures
        a.product == b.product,
        a.account == b.account,
        a.persona == b.persona,
        a.key == b.key,
        a.operation == b.operation,
        a.command.alike(b.command),
{
    lemma_marks();
    lemma_form_written(a.command);
    lemma_form_written(b.command);
    lemma_forms_like(a.command, b.command);
    let (x, y) = (request_line(a), request_line(b));
    assert(x.written() == a.message() && y.written() == b.message()) by {
        reveal_with_fuel(Line::written, 12);
    }
    assert(x.like(y)) by {
        reveal_with_fuel(Line::like, 12);
    }
    lemma_lines(x, Seq::empty(), y, Seq::empty());
    lemma_form_pieces(a.command, b.command);
}

} // verus!

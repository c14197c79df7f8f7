//! Signed account statements determine what they state: nothing in them can be changed without
//! changing what is signed.

use super::control::{AccountCommand, NewOperationalKey, SignedAccountCommand};
use crate::bytes::{lemma_array_32, lemma_assoc, lemma_tail, utf8};
use crate::json::{json_bytes, lemma_marks};
use crate::lines::{
    differ, lemma_byte_values, lemma_lines, lemma_values_injective, line, Line,
};
use crate::primitives::ids::AccountId;
use crate::protocol::ActorRef;
use vstd::prelude::*;

verus! {

/// What tells one actor from another.
proof fn lemma_actor_heads()
    ensures
        utf8("{\"Sender\":"@).len() > 2,
        utf8("{\"Sender\":"@)[2] == 0x53,
        utf8("{\"Recipient\":"@).len() > 2,
        utf8("{\"Recipient\":"@)[2] == 0x52,
        utf8("{\"Provider\":"@).len() > 2,
        utf8("{\"Provider\":"@)[2] == 0x50,
        utf8("}"@).len() > 0 && utf8("}"@)[0] == 0x7d,
{
    reveal_strlit("{\"Sender\":");
    reveal_strlit("{\"Recipient\":");
    reveal_strlit("{\"Provider\":");
    reveal_strlit("}");
    vstd::utf8::is_ascii_chars_encode_utf8("{\"Sender\":"@);
    vstd::utf8::is_ascii_chars_encode_utf8("{\"Recipient\":"@);
    vstd::utf8::is_ascii_chars_encode_utf8("{\"Provider\":"@);
    vstd::utf8::is_ascii_chars_encode_utf8("}"@);
}

/// What tells one command from another.
proof fn lemma_command_heads()
    ensures
        utf8("{\"RegisterKey\":"@).len() > 4,
        utf8("{\"RegisterKey\":"@)[2] == 0x52,
        utf8("{\"RegisterKey\":"@)[4] == 0x67,
        utf8("{\"SetStatus\":"@).len() > 4,
        utf8("{\"SetStatus\":"@)[2] == 0x53,
        utf8("{\"SetStatus\":"@)[4] == 0x74,
        utf8("{\"AddPersona\":"@).len() > 4,
        utf8("{\"AddPersona\":"@)[2] == 0x41,
        utf8("{\"AddPersona\":"@)[4] == 0x64,
        utf8("{\"GrantManager\":"@).len() > 4,
        utf8("{\"GrantManager\":"@)[2] == 0x47,
        utf8("{\"GrantManager\":"@)[4] == 0x61,
        utf8("{\"RevokeManager\":"@).len() > 4,
        utf8("{\"RevokeManager\":"@)[2] == 0x52,
        utf8("{\"RevokeManager\":"@)[4] == 0x76,
        utf8("}"@).len() > 0 && utf8("}"@)[0] == 0x7d,
{
    reveal_strlit("{\"RegisterKey\":");
    reveal_strlit("{\"SetStatus\":");
    reveal_strlit("{\"AddPersona\":");
    reveal_strlit("{\"GrantManager\":");
    reveal_strlit("{\"RevokeManager\":");
    reveal_strlit("}");
    vstd::utf8::is_ascii_chars_encode_utf8("{\"RegisterKey\":"@);
    vstd::utf8::is_ascii_chars_encode_utf8("{\"SetStatus\":"@);
    vstd::utf8::is_ascii_chars_encode_utf8("{\"AddPersona\":"@);
    vstd::utf8::is_ascii_chars_encode_utf8("{\"GrantManager\":"@);
    vstd::utf8::is_ascii_chars_encode_utf8("{\"RevokeManager\":"@);
    vstd::utf8::is_ascii_chars_encode_utf8("}"@);
}

/// What tells one status from another.
proof fn lemma_status_heads()
    ensures
        utf8("\"Active\""@).len() > 1,
        utf8("\"Active\""@)[1] == 0x41,
        utf8("\"Suspended\""@).len() > 1,
        utf8("\"Suspended\""@)[1] == 0x53,
        utf8("\"Closed\""@).len() > 1,
        utf8("\"Closed\""@)[1] == 0x43,
{
    reveal_strlit("\"Active\"");
    reveal_strlit("\"Suspended\"");
    reveal_strlit("\"Closed\"");
    vstd::utf8::is_ascii_chars_encode_utf8("\"Active\""@);
    vstd::utf8::is_ascii_chars_encode_utf8("\"Suspended\""@);
    vstd::utf8::is_ascii_chars_encode_utf8("\"Closed\""@);
}

/// What ends a number in a key.
proof fn lemma_key_ends()
    ensures
        utf8(",\"actor\":"@).len() > 0 && utf8(",\"actor\":"@)[0] == 0x2c,
{
    reveal_strlit(",\"actor\":");
    vstd::utf8::is_ascii_chars_encode_utf8(",\"actor\":"@);
}

spec fn actor_line(actor: ActorRef) -> Line {
    match actor {
        ActorRef::Sender(persona) => line("{\"Sender\":"@).number(persona.0 as nat, "}"@),
        ActorRef::Recipient(persona) => line("{\"Recipient\":"@).number(persona.0 as nat, "}"@),
        ActorRef::Provider(provider) => line("{\"Provider\":"@).number(provider.0 as nat, "}"@),
    }
}

/// Actors can be told from what follows them.
proof fn lemma_actors(a: ActorRef, s: Seq<u8>, b: ActorRef, t: Seq<u8>)
    requires
        a.json() + s == b.json() + t,
    ensures
        a == b,
        s == t,
{
    lemma_actor_heads();
    let (x, y) = (actor_line(a), actor_line(b));
    reveal_with_fuel(Line::written, 3);
    reveal_with_fuel(Line::head, 3);
    reveal_with_fuel(Line::like, 3);
    assert(x.head()[2] == y.head()[2] || differ(x.head(), y.head()));
    lemma_lines(x, s, y, t);
}

spec fn possession_line(key: NewOperationalKey, account: AccountId, product: Seq<char>) -> Line {
    line("[\"cs-mail/account-key-possession/v1\","@).number(account.0 as nat, ","@).quoted(
        product,
    ).text(","@).number(key.reference.0 as nat, ","@)
}

spec fn possession_rest(key: NewOperationalKey) -> Line {
    line(","@).bytes(key.key@).text("]"@)
}

proof fn lemma_possession_written(key: NewOperationalKey, account: AccountId, product: Seq<char>)
    ensures
        key.statement(account, product) == possession_line(key, account, product).written() + (
        key.actor.json() + possession_rest(key).written()),
{
    reveal_with_fuel(Line::written, 8);
    lemma_byte_values(key.key@);
    let (p, a) = (possession_line(key, account, product).written(), key.actor.json());
    let (c, k, z) = (utf8(","@), json_bytes(key.key@), utf8("]"@));
    lemma_assoc(p + a, c, k);
    lemma_assoc(p + a, c + k, z);
    lemma_assoc(p, a, c + k + z);
}

/// What shows that its holder has a key determines the account, the product, and the key with its
/// reference and its actor.
pub proof fn possession_is_bound(
    a: NewOperationalKey,
    account: AccountId,
    product: Seq<char>,
    b: NewOperationalKey,
    other_account: AccountId,
    other_product: Seq<char>,
)
    requires
        a.statement(account, product) == b.statement(other_account, other_product),
    ensures
        account == other_account,
        product == other_product,
        a.reference == b.reference,
        a.actor == b.actor,
        a.key == b.key,
{
    lemma_marks();
    lemma_possession_written(a, account, product);
    lemma_possession_written(b, other_account, other_product);
    let (x, y) = (
        possession_line(a, account, product),
        possession_line(b, other_account, other_product),
    );
    let (s, t) = (possession_rest(a), possession_rest(b));
    assert(x.like(y) && s.like(t)) by {
        reveal_with_fuel(Line::like, 8);
    }
    lemma_lines(x, a.actor.json() + s.written(), y, b.actor.json() + t.written());
    lemma_actors(a.actor, s.written(), b.actor, t.written());
    lemma_lines(s, Seq::empty(), t, Seq::empty());
    lemma_values_injective(a.key@, b.key@);
    lemma_array_32(a.key, b.key);
}

spec fn key_line(key: NewOperationalKey) -> Line {
    line("{\"reference\":"@).number(key.reference.0 as nat, ",\"actor\":"@)
}

spec fn key_rest(key: NewOperationalKey) -> Line {
    line(",\"key\":"@).bytes(key.key@).text(",\"proof\":"@).bytes(key.proof@).text("}"@)
}

proof fn lemma_key_written(key: NewOperationalKey)
    ensures
        key.json() == key_line(key).written() + (key.actor.json() + key_rest(key).written()),
{
    reveal_with_fuel(Line::written, 8);
    lemma_byte_values(key.key@);
    lemma_byte_values(key.proof@);
    let (p, a) = (key_line(key).written(), key.actor.json());
    let (c, k, d) = (utf8(",\"key\":"@), json_bytes(key.key@), utf8(",\"proof\":"@));
    let (f, z) = (json_bytes(key.proof@), utf8("}"@));
    lemma_assoc(p + a, c, k);
    lemma_assoc(p + a, c + k, d);
    lemma_assoc(p + a, c + k + d, f);
    lemma_assoc(p + a, c + k + d + f, z);
    lemma_assoc(p, a, c + k + d + f + z);
}

/// Keys that are written alike are the same.
proof fn lemma_keys(a: NewOperationalKey, b: NewOperationalKey)
    requires
        a.json() == b.json(),
    ensures
        a.alike(&b),
{
    lemma_key_ends();
    lemma_key_written(a);
    lemma_key_written(b);
    let (s, t) = (key_rest(a), key_rest(b));
    assert(key_line(a).like(key_line(b)) && s.like(t)) by {
        reveal_with_fuel(Line::like, 8);
    }
    lemma_lines(
        key_line(a),
        a.actor.json() + s.written(),
        key_line(b),
        b.actor.json() + t.written(),
    );
    lemma_actors(a.actor, s.written(), b.actor, t.written());
    lemma_lines(s, Seq::empty(), t, Seq::empty());
    lemma_values_injective(a.key@, b.key@);
    lemma_values_injective(a.proof@, b.proof@);
    lemma_array_32(a.key, b.key);
}

/// A command up to its value.
spec fn command_line(command: AccountCommand) -> Line {
    match command {
        AccountCommand::RegisterKey(_) => line("{\"RegisterKey\":"@),
        AccountCommand::SetStatus(_) => line("{\"SetStatus\":"@),
        AccountCommand::AddPersona(persona) => line("{\"AddPersona\":"@).number(
            persona.0 as nat,
            "}"@,
        ),
        AccountCommand::GrantManager(key) => line("{\"GrantManager\":"@).number(
            key.0 as nat,
            "}"@,
        ),
        AccountCommand::RevokeManager(key) => line("{\"RevokeManager\":"@).number(
            key.0 as nat,
            "}"@,
        ),
    }
}

/// What follows the line.
spec fn command_rest(command: AccountCommand) -> Seq<u8> {
    match command {
        AccountCommand::RegisterKey(key) => key.json() + utf8("}"@),
        AccountCommand::SetStatus(status) => status.json() + utf8("}"@),
        _ => Seq::empty(),
    }
}

proof fn lemma_command_written(command: AccountCommand)
    ensures
        command.json() == command_line(command).written() + command_rest(command),
{
    reveal_with_fuel(Line::written, 3);
    let written = command_line(command).written();
    match command {
        AccountCommand::RegisterKey(key) => lemma_assoc(written, key.json(), utf8("}"@)),
        AccountCommand::SetStatus(status) => lemma_assoc(written, status.json(), utf8("}"@)),
        _ => assert(written + command_rest(command) =~= written),
    }
}

/// Commands that are written alike are the same.
proof fn lemma_commands(a: AccountCommand, b: AccountCommand)
    requires
        a.json() == b.json(),
    ensures
        a.alike(&b),
{
    lemma_command_heads();
    lemma_command_written(a);
    lemma_command_written(b);
    let (x, y) = (command_line(a), command_line(b));
    let (s, t) = (command_rest(a), command_rest(b));
    let z = utf8("}"@);
    reveal_with_fuel(Line::head, 3);
    reveal_with_fuel(Line::like, 3);
    assert(x.head()[2] == y.head()[2] || differ(x.head(), y.head()));
    assert(x.head()[4] == y.head()[4] || differ(x.head(), y.head()));
    lemma_lines(x, s, y, t);
    match (a, b) {
        (AccountCommand::RegisterKey(i), AccountCommand::RegisterKey(j)) => {
            lemma_tail(i.json(), z, j.json(), z);
            lemma_keys(i, j);
        },
        (AccountCommand::SetStatus(i), AccountCommand::SetStatus(j)) => {
            lemma_status_heads();
            assert((i.json() + z)[1] == i.json()[1]);
            assert((j.json() + z)[1] == j.json()[1]);
        },
        _ => {},
    }
}

spec fn account_line(a: SignedAccountCommand) -> Line {
    line("[\"cs-mail/product-account-command/v1\","@).number(a.account.0 as nat, ","@).number(
        a.operational_key.0 as nat,
        ","@,
    ).number(a.expected_revision as nat, ","@).number(a.idempotency_key.0 as nat, ","@).quoted(
        a.product@,
    ).text(","@)
}

proof fn lemma_account_written(a: SignedAccountCommand)
    ensures
        a.statement() == account_line(a).written() + (a.command.json() + utf8("]"@)),
{
    reveal_with_fuel(Line::written, 8);
    lemma_assoc(account_line(a).written(), a.command.json(), utf8("]"@));
}

/// What an account's manager signs determines the command in every part: account, key, revision,
/// operation, product, and what is to be done.
pub proof fn account_commands_are_bound(a: SignedAccountCommand, b: SignedAccountCommand)
    requires
        a.statement() == b.statement(),
    ensures
        a.account == b.account,
        a.operational_key == b.operational_key,
        a.expected_revision == b.expected_revision,
        a.idempotency_key == b.idempotency_key,
        a.product@ == b.product@,
        a.command.alike(&b.command),
{
    lemma_marks();
    lemma_account_written(a);
    lemma_account_written(b);
    let z = utf8("]"@);
    assert(account_line(a).like(account_line(b))) by {
        reveal_with_fuel(Line::like, 8);
    }
    lemma_lines(account_line(a), a.command.json() + z, account_line(b), b.command.json() + z);
    lemma_tail(a.command.json(), z, b.command.json(), z);
    lemma_commands(a.command, b.command);
}

} // verus!

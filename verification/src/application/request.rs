//! Signed correspondence requests. They carry ciphertext and nothing that could decrypt it.

use crate::bytes::{push_all, push_text, text_bytes, utf8};
use crate::content::certificate::EndpointPublicKey;
use crate::content::cipher::EncryptedContentRecord;
use crate::content::encoding::{public_key_json, record_json, SealedModel};
use crate::correspondence::document::{
    selection_json, source_models, ManifestModel, MessageManifest, SourceModel,
};
use crate::correspondence::encoding::{manifest_json, push_action};
use crate::correspondence::policy::{ConversationId, CorrespondenceError, PolicyAction};
use crate::correspondence::selection::{MessageSelection, SelectionModel};
use crate::crypto::{
    ed25519_accepts_strictly, ed25519_key_valid, ed25519_signature, is_public_key, sha256,
    sha256_of, sign, verify_strict,
};
use crate::json::{json_number, json_string, push_number, push_string};
use crate::primitives::ids::{
    AccountId, IdempotencyKey, MessageId, OperationalKeyRef, ProtocolIdentity,
};
use vstd::prelude::*;

verus! {

/// Separate recovery envelope per retained owner; never a mailbox private key.
#[derive(PartialEq, Eq)]
pub struct RecoveryCopy {
    pub sender: EndpointPublicKey,
    pub ciphertext: EncryptedContentRecord,
}

pub ghost struct RecoveryModel {
    pub sender: EndpointPublicKey,
    pub ciphertext: SealedModel,
}

impl View for RecoveryCopy {
    type V = RecoveryModel;

    open spec fn view(&self) -> RecoveryModel {
        RecoveryModel { sender: self.sender, ciphertext: self.ciphertext@ }
    }
}

impl Clone for RecoveryCopy {
    fn clone(&self) -> (copy: Self)
        ensures
            copy@ == self@,
    {
        RecoveryCopy { sender: self.sender, ciphertext: self.ciphertext.clone() }
    }
}

impl RecoveryModel {
    pub open spec fn json(self) -> Seq<u8> {
        utf8("{\"sender\":"@) + self.sender.json() + utf8(",\"ciphertext\":"@)
            + self.ciphertext.json() + utf8("}"@)
    }
}

fn recovery_json(copy: &RecoveryCopy) -> (bytes: Vec<u8>)
    ensures
        bytes@ == copy@.json(),
{
    let mut out = text_bytes("{\"sender\":");
    push_all(&mut out, public_key_json(&copy.sender).as_slice());
    push_text(&mut out, ",\"ciphertext\":");
    push_all(&mut out, record_json(&copy.ciphertext).as_slice());
    push_text(&mut out, "}");
    out
}

/// Explicit outgoing content only. Source portals and private draft context are absent.
#[derive(PartialEq, Eq)]
pub struct PreparedMessage {
    pub manifest: MessageManifest,
    pub sender_copy: EncryptedContentRecord,
    pub recipient_copy: EncryptedContentRecord,
    pub sender_recovery: RecoveryCopy,
    pub recipient_recovery: RecoveryCopy,
}

pub ghost struct PackageModel {
    pub manifest: ManifestModel,
    pub sender_copy: SealedModel,
    pub recipient_copy: SealedModel,
    pub sender_recovery: RecoveryModel,
    pub recipient_recovery: RecoveryModel,
}

impl View for PreparedMessage {
    type V = PackageModel;

    open spec fn view(&self) -> PackageModel {
        PackageModel {
            manifest: self.manifest@,
            sender_copy: self.sender_copy@,
            recipient_copy: self.recipient_copy@,
            sender_recovery: self.sender_recovery@,
            recipient_recovery: self.recipient_recovery@,
        }
    }
}

impl Clone for PreparedMessage {
    fn clone(&self) -> (copy: Self)
        ensures
            copy@ == self@,
    {
        PreparedMessage {
            manifest: self.manifest.clone(),
            sender_copy: self.sender_copy.clone(),
            recipient_copy: self.recipient_copy.clone(),
            sender_recovery: self.sender_recovery.clone(),
            recipient_recovery: self.recipient_recovery.clone(),
        }
    }
}

impl PackageModel {
    /// The package as a JSON object.
    #[verifier::opaque]
    pub open spec fn json(self) -> Seq<u8> {
        utf8("{\"manifest\":"@) + self.manifest.json() + utf8(",\"sender_copy\":"@)
            + self.sender_copy.json() + utf8(",\"recipient_copy\":"@) + self.recipient_copy.json()
            + utf8(",\"sender_recovery\":"@) + self.sender_recovery.json() + utf8(
            ",\"recipient_recovery\":"@,
        ) + self.recipient_recovery.json() + utf8("}"@)
    }
}

fn package_json(package: &PreparedMessage) -> (bytes: Vec<u8>)
    ensures
        bytes@ == package@.json(),
{
    reveal(PackageModel::json);
    let mut out = text_bytes("{\"manifest\":");
    push_all(&mut out, manifest_json(&package.manifest).as_slice());
    push_text(&mut out, ",\"sender_copy\":");
    push_all(&mut out, record_json(&package.sender_copy).as_slice());
    push_text(&mut out, ",\"recipient_copy\":");
    push_all(&mut out, record_json(&package.recipient_copy).as_slice());
    push_text(&mut out, ",\"sender_recovery\":");
    push_all(&mut out, recovery_json(&package.sender_recovery).as_slice());
    push_text(&mut out, ",\"recipient_recovery\":");
    push_all(&mut out, recovery_json(&package.recipient_recovery).as_slice());
    push_text(&mut out, "}");
    out
}

/// What a persona asks of its correspondence.
#[derive(PartialEq, Eq)]
pub enum Command {
    Mailbox { after: u64, limit: u16 },
    Create { id: ConversationId, other: ProtocolIdentity },
    ChangePolicy { id: ConversationId, revision: u64, action: PolicyAction },
    Policy { id: ConversationId },
    Assess { manifest: MessageManifest },
    Send(Box<PreparedMessage>),
    Fetch { message: MessageId },
    Resolve { source: MessageSelection },
    DeleteCopies { id: ConversationId },
}

pub ghost enum CommandModel {
    Mailbox { after: u64, limit: u16 },
    Create { id: ConversationId, other: ProtocolIdentity },
    ChangePolicy { id: ConversationId, revision: u64, action: PolicyAction },
    Policy { id: ConversationId },
    Assess { manifest: ManifestModel },
    Send(PackageModel),
    Fetch { message: MessageId },
    Resolve { source: SelectionModel },
    DeleteCopies { id: ConversationId },
}

impl View for Command {
    type V = CommandModel;

    open spec fn view(&self) -> CommandModel {
        match self {
            Command::Mailbox { after, limit } => CommandModel::Mailbox {
                after: *after,
                limit: *limit,
            },
            Command::Create { id, other } => CommandModel::Create { id: *id, other: *other },
            Command::ChangePolicy { id, revision, action } => CommandModel::ChangePolicy {
                id: *id,
                revision: *revision,
                action: *action,
            },
            Command::Policy { id } => CommandModel::Policy { id: *id },
            Command::Assess { manifest } => CommandModel::Assess { manifest: manifest@ },
            Command::Send(package) => CommandModel::Send((**package)@),
            Command::Fetch { message } => CommandModel::Fetch { message: *message },
            Command::Resolve { source } => CommandModel::Resolve { source: source@ },
            Command::DeleteCopies { id } => CommandModel::DeleteCopies { id: *id },
        }
    }
}

/// What a receipt records of a command that changes something.
#[derive(Clone, Copy, Debug, PartialEq, Eq, Structural)]
pub enum AuditAction {
    Created(ConversationId),
    PolicyChanged {
        conversation: ConversationId,
        expected_revision: u64,
        action: PolicyAction,
    },
    Delivered(MessageId),
    CopiesDeleted(ConversationId),
}

/// The messages that a manifest draws on, in its order.
pub open spec fn drawn_messages(sources: Seq<SourceModel>) -> Seq<MessageId> {
    Seq::new(sources.len(), |i: int| sources[i].selection().message)
}

impl CommandModel {
    /// The conversation that a command names.
    pub open spec fn conversation(self) -> Option<ConversationId> {
        match self {
            CommandModel::Create { id, .. } => Some(id),
            CommandModel::ChangePolicy { id, .. } => Some(id),
            CommandModel::Policy { id } => Some(id),
            CommandModel::DeleteCopies { id } => Some(id),
            CommandModel::Assess { manifest } => Some(manifest.conversation),
            CommandModel::Send(package) => Some(package.manifest.conversation),
            _ => None,
        }
    }

    /// The messages that a decision on the command has to know of.
    pub open spec fn source_messages(self) -> Seq<MessageId> {
        match self {
            CommandModel::Fetch { message } => seq![message],
            CommandModel::Resolve { source } => seq![source.message],
            CommandModel::Assess { manifest } => drawn_messages(manifest.sources),
            CommandModel::Send(package) => drawn_messages(package.manifest.sources).push(
                package.manifest.message,
            ),
            _ => Seq::empty(),
        }
    }

    /// What is recorded of the command; reads leave no record.
    pub open spec fn audited(self) -> Option<AuditAction> {
        match self {
            CommandModel::Create { id, .. } => Some(AuditAction::Created(id)),
            CommandModel::ChangePolicy { id, revision, action } => Some(
                AuditAction::PolicyChanged {
                    conversation: id,
                    expected_revision: revision,
                    action,
                },
            ),
            CommandModel::Send(package) => Some(AuditAction::Delivered(package.manifest.message)),
            CommandModel::DeleteCopies { id } => Some(AuditAction::CopiesDeleted(id)),
            _ => None,
        }
    }

    /// The command as a JSON object with its name under `kind` and its fields under `data`.
    pub open spec fn json(self) -> Seq<u8> {
        match self {
            CommandModel::Mailbox { after, limit } => utf8(
                "{\"kind\":\"Mailbox\",\"data\":{\"after\":"@,
            ) + json_number(after as nat) + utf8(",\"limit\":"@) + json_number(limit as nat) + utf8(
                "}}"@,
            ),
            CommandModel::Create { id, other } => utf8(
                "{\"kind\":\"Create\",\"data\":{\"id\":"@,
            ) + json_number(id.0 as nat) + utf8(",\"other\":"@) + json_number(other.0 as nat)
                + utf8("}}"@),
            CommandModel::ChangePolicy { id, revision, action } => utf8(
                "{\"kind\":\"ChangePolicy\",\"data\":{\"id\":"@,
            ) + json_number(id.0 as nat) + utf8(",\"revision\":"@) + json_number(revision as nat)
                + utf8(",\"action\":"@) + action.json() + utf8("}}"@),
            CommandModel::Policy { id } => utf8("{\"kind\":\"Policy\",\"data\":{\"id\":"@)
                + json_number(id.0 as nat) + utf8("}}"@),
            CommandModel::Assess { manifest } => utf8(
                "{\"kind\":\"Assess\",\"data\":{\"manifest\":"@,
            ) + manifest.json() + utf8("}}"@),
            CommandModel::Send(package) => utf8("{\"kind\":\"Send\",\"data\":"@) + package.json()
                + utf8("}"@),
            CommandModel::Fetch { message } => utf8("{\"kind\":\"Fetch\",\"data\":{\"message\":"@)
                + json_number(message.0 as nat) + utf8("}}"@),
            CommandModel::Resolve { source } => utf8(
                "{\"kind\":\"Resolve\",\"data\":{\"source\":"@,
            ) + source.json() + utf8("}}"@),
            CommandModel::DeleteCopies { id } => utf8(
                "{\"kind\":\"DeleteCopies\",\"data\":{\"id\":"@,
            ) + json_number(id.0 as nat) + utf8("}}"@),
        }
    }
}

fn push_drawn(messages: &mut Vec<MessageId>, manifest: &MessageManifest)
    ensures
        final(messages)@ == old(messages)@ + drawn_messages(manifest@.sources),
{
    let sources = manifest.sources();
    let ghost before = messages@;
    let ghost all = drawn_messages(manifest@.sources);
    let mut i: usize = 0;
    assert(messages@ =~= before + all.take(0));
    while i < sources.len()
        invariant
            source_models(sources@) == manifest@.sources,
            all == drawn_messages(manifest@.sources),
            0 <= i <= sources@.len(),
            messages@ == before + all.take(i as int),
        decreases sources@.len() - i,
    {
        assert(source_models(sources@)[i as int] == sources@[i as int]@);
        messages.push(sources[i].selection().message());
        assert(messages@ =~= before + all.take(i + 1));
        i += 1;
    }
    assert(sources@.len() == source_models(sources@).len());
    assert(all.take(i as int) =~= all);
}

fn mailbox_json(after: u64, limit: u16) -> (bytes: Vec<u8>)
    ensures
        bytes@ == (CommandModel::Mailbox { after, limit }).json(),
{
    let mut out = text_bytes("{\"kind\":\"Mailbox\",\"data\":{\"after\":");
    push_number(&mut out, after as u128);
    push_text(&mut out, ",\"limit\":");
    push_number(&mut out, limit as u128);
    push_text(&mut out, "}}");
    out
}

fn create_json(id: ConversationId, other: ProtocolIdentity) -> (bytes: Vec<u8>)
    ensures
        bytes@ == (CommandModel::Create { id, other }).json(),
{
    let mut out = text_bytes("{\"kind\":\"Create\",\"data\":{\"id\":");
    push_number(&mut out, id.0);
    push_text(&mut out, ",\"other\":");
    push_number(&mut out, other.0);
    push_text(&mut out, "}}");
    out
}

fn change_json(id: ConversationId, revision: u64, action: PolicyAction) -> (bytes: Vec<u8>)
    ensures
        bytes@ == (CommandModel::ChangePolicy { id, revision, action }).json(),
{
    let mut out = text_bytes("{\"kind\":\"ChangePolicy\",\"data\":{\"id\":");
    push_number(&mut out, id.0);
    push_text(&mut out, ",\"revision\":");
    push_number(&mut out, revision as u128);
    push_text(&mut out, ",\"action\":");
    push_action(&mut out, action);
    push_text(&mut out, "}}");
    out
}

fn policy_json(id: ConversationId) -> (bytes: Vec<u8>)
    ensures
        bytes@ == (CommandModel::Policy { id }).json(),
{
    let mut out = text_bytes("{\"kind\":\"Policy\",\"data\":{\"id\":");
    push_number(&mut out, id.0);
    push_text(&mut out, "}}");
    out
}

fn assess_json(manifest: &MessageManifest) -> (bytes: Vec<u8>)
    ensures
        bytes@ == (CommandModel::Assess { manifest: manifest@ }).json(),
{
    let mut out = text_bytes("{\"kind\":\"Assess\",\"data\":{\"manifest\":");
    push_all(&mut out, manifest_json(manifest).as_slice());
    push_text(&mut out, "}}");
    out
}

fn send_json(package: &PreparedMessage) -> (bytes: Vec<u8>)
    ensures
        bytes@ == (CommandModel::Send(package@)).json(),
{
    let mut out = text_bytes("{\"kind\":\"Send\",\"data\":");
    push_all(&mut out, package_json(package).as_slice());
    push_text(&mut out, "}");
    out
}

fn fetch_json(message: MessageId) -> (bytes: Vec<u8>)
    ensures
        bytes@ == (CommandModel::Fetch { message }).json(),
{
    let mut out = text_bytes("{\"kind\":\"Fetch\",\"data\":{\"message\":");
    push_number(&mut out, message.0);
    push_text(&mut out, "}}");
    out
}

fn resolve_json(source: &MessageSelection) -> (bytes: Vec<u8>)
    ensures
        bytes@ == (CommandModel::Resolve { source: source@ }).json(),
{
    let mut out = text_bytes("{\"kind\":\"Resolve\",\"data\":{\"source\":");
    push_all(&mut out, selection_json(source).as_slice());
    push_text(&mut out, "}}");
    out
}

fn delete_json(id: ConversationId) -> (bytes: Vec<u8>)
    ensures
        bytes@ == (CommandModel::DeleteCopies { id }).json(),
{
    let mut out = text_bytes("{\"kind\":\"DeleteCopies\",\"data\":{\"id\":");
    push_number(&mut out, id.0);
    push_text(&mut out, "}}");
    out
}

impl Command {
    pub fn conversation(&self) -> (id: Option<ConversationId>)
        ensures
            id == self@.conversation(),
    {
        match self {
            Command::Create { id, .. } => Some(*id),
            Command::ChangePolicy { id, .. } => Some(*id),
            Command::Policy { id } => Some(*id),
            Command::DeleteCopies { id } => Some(*id),
            Command::Assess { manifest } => Some(manifest.conversation()),
            Command::Send(package) => Some(package.manifest.conversation()),
            _ => None,
        }
    }

    pub fn source_messages(&self) -> (messages: Vec<MessageId>)
        ensures
            messages@ == self@.source_messages(),
    {
        let mut messages: Vec<MessageId> = Vec::new();
        match self {
            Command::Fetch { message } => messages.push(*message),
            Command::Resolve { source } => messages.push(source.message()),
            Command::Assess { manifest } => {
                push_drawn(&mut messages, manifest);
            },
            Command::Send(package) => {
                push_drawn(&mut messages, &package.manifest);
                messages.push(package.manifest.message());
            },
            _ => {},
        }
        assert(messages@ =~= self@.source_messages());
        messages
    }

    pub fn audit_action(&self) -> (action: Option<AuditAction>)
        ensures
            action == self@.audited(),
    {
        match self {
            Command::Create { id, .. } => Some(AuditAction::Created(*id)),
            Command::ChangePolicy { id, revision, action } => Some(
                AuditAction::PolicyChanged {
                    conversation: *id,
                    expected_revision: *revision,
                    action: *action,
                },
            ),
            Command::Send(package) => Some(AuditAction::Delivered(package.manifest.message())),
            Command::DeleteCopies { id } => Some(AuditAction::CopiesDeleted(*id)),
            _ => None,
        }
    }

    fn json_bytes(&self) -> (bytes: Vec<u8>)
        ensures
            bytes@ == self@.json(),
    {
        match self {
            Command::Mailbox { after, limit } => mailbox_json(*after, *limit),
            Command::Create { id, other } => create_json(*id, *other),
            Command::ChangePolicy { id, revision, action } => change_json(*id, *revision, *action),
            Command::Policy { id } => policy_json(*id),
            Command::Assess { manifest } => assess_json(manifest),
            Command::Send(package) => send_json(package),
            Command::Fetch { message } => fetch_json(*message),
            Command::Resolve { source } => resolve_json(source),
            Command::DeleteCopies { id } => delete_json(*id),
        }
    }
}

/// A command in the name of a persona, under one of its account's keys.
#[derive(PartialEq, Eq)]
pub struct SignedRequest {
    pub product: String,
    pub account: AccountId,
    pub persona: ProtocolIdentity,
    pub key: OperationalKeyRef,
    pub operation: IdempotencyKey,
    pub command: Command,
    pub signature: Vec<u8>,
}

pub ghost struct RequestModel {
    pub product: Seq<char>,
    pub account: AccountId,
    pub persona: ProtocolIdentity,
    pub key: OperationalKeyRef,
    pub operation: IdempotencyKey,
    pub command: CommandModel,
    pub signature: Seq<u8>,
}

impl View for SignedRequest {
    type V = RequestModel;

    open spec fn view(&self) -> RequestModel {
        RequestModel {
            product: self.product@,
            account: self.account,
            persona: self.persona,
            key: self.key,
            operation: self.operation,
            command: self.command@,
            signature: self.signature@,
        }
    }
}

impl RequestModel {
    /// Whether the request names everyone that it has to name.
    pub open spec fn addressed(self) -> bool {
        self.product.len() != 0 && self.account.0 != 0 && self.persona.0 != 0 && self.operation.0
            != 0
    }

    /// What is signed.
    pub open spec fn message(self) -> Seq<u8> {
        utf8("[\"cs-mail/correspondence-command/v3\","@) + json_string(self.product) + utf8(","@)
            + json_number(self.account.0 as nat) + utf8(","@) + json_number(self.persona.0 as nat)
            + utf8(","@) + json_number(self.key.0 as nat) + utf8(","@) + json_number(
            self.operation.0 as nat,
        ) + utf8(","@) + self.command.json() + utf8("]"@)
    }

    /// The verdict on the signature under a key.
    pub open spec fn verdict(self, key: Seq<u8>) -> Result<(), CorrespondenceError> {
        if !ed25519_key_valid(key) {
            Err(CorrespondenceError::Unauthorized)
        } else if !self.addressed() {
            Err(CorrespondenceError::Invalid)
        } else if !ed25519_accepts_strictly(key, self.message(), self.signature) {
            Err(CorrespondenceError::Unauthorized)
        } else {
            Ok(())
        }
    }
}

impl SignedRequest {
    fn bytes(&self) -> (result: Result<Vec<u8>, CorrespondenceError>)
        ensures
            if self@.addressed() {
                result matches Ok(bytes) && bytes@ == self@.message()
            } else {
                result == Err::<Vec<u8>, CorrespondenceError>(CorrespondenceError::Invalid)
            },
    {
        if self.product.as_str().is_empty() || self.account.0 == 0 || self.persona.0 == 0 || self.operation.0
            == 0 {
            return Err(CorrespondenceError::Invalid);
        }
        let mut out = text_bytes("[\"cs-mail/correspondence-command/v3\",");
        push_string(&mut out, self.product.as_str());
        push_text(&mut out, ",");
        push_number(&mut out, self.account.0);
        push_text(&mut out, ",");
        push_number(&mut out, self.persona.0);
        push_text(&mut out, ",");
        push_number(&mut out, self.key.0);
        push_text(&mut out, ",");
        push_number(&mut out, self.operation.0);
        push_text(&mut out, ",");
        push_all(&mut out, self.command.json_bytes().as_slice());
        push_text(&mut out, "]");
        Ok(out)
    }

    /// Refuses a request that leaves out its product, account, persona or operation.
    pub fn sign(self, secret: &[u8; 32]) -> (result: Result<Self, CorrespondenceError>)
        ensures
            if self@.addressed() {
                result matches Ok(signed) && signed@ == (RequestModel {
                    signature: ed25519_signature(secret@, self@.message()),
                    ..self@
                })
            } else {
                result == Err::<Self, CorrespondenceError>(CorrespondenceError::Invalid)
            },
    {
        match self.bytes() {
            Ok(bytes) => {
                let signature = sign(secret, bytes.as_slice());
                Ok(SignedRequest { signature, ..self })
            },
            Err(e) => Err(e),
        }
    }

    /// Refuses tampered commands, keys or context.
    pub fn verify(&self, key: &[u8; 32]) -> (result: Result<(), CorrespondenceError>)
        ensures
            result == self@.verdict(key@),
    {
        if !is_public_key(key) {
            return Err(CorrespondenceError::Unauthorized);
        }
        let bytes = match self.bytes() {
            Ok(bytes) => bytes,
            Err(e) => return Err(e),
        };
        if !verify_strict(key, bytes.as_slice(), self.signature.as_slice()) {
            return Err(CorrespondenceError::Unauthorized);
        }
        Ok(())
    }

    /// Receipts retain only this digest, not ciphertext. Refuses an incomplete request.
    pub fn digest(&self) -> (result: Result<[u8; 32], CorrespondenceError>)
        ensures
            if self@.addressed() {
                result matches Ok(digest) && digest@ == sha256_of(self@.message())
            } else {
                result == Err::<[u8; 32], CorrespondenceError>(CorrespondenceError::Invalid)
            },
    {
        match self.bytes() {
            Ok(bytes) => Ok(sha256(bytes.as_slice())),
            Err(e) => Err(e),
        }
    }
}

} // verus!

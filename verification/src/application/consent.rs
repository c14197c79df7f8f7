//! Consent-gated recovery and processing. Account recovery establishes authority, while these use
//! cases own permission to use retained ciphertext.

use super::correspondence::{MessageModel, MessageRecord};
use super::request::{RecoveryCopy, RecoveryModel};
use crate::accounts::control::{AccountControl, AccountStatus, ControlModel};
use crate::bytes::{copy_bytes, push_all, push_text, same_32, same_bytes, text_bytes, utf8};
use crate::consent::{
    ConsentError, ContentScope, DecryptionActor, DecryptionGrant, DecryptionPurpose, GrantId,
    GrantModel, GrantState, GrantTerms, GrantUse,
};
use crate::content::certificate::EndpointPublicKey;
use crate::content::cipher::EncryptedContentRecord;
use crate::content::encoding::{public_key_json, SealedModel};
use crate::correspondence::document::{ManifestModel, MessageManifest};
use crate::crypto::{
    ed25519_accepts_strictly, ed25519_key_valid, ed25519_signature, is_public_key, sha256,
    sha256_of, sign, verify_strict,
};
use crate::json::{
    json_array, json_joined, json_number, json_string, push_item, push_number, push_string,
};
use crate::maps::{is_member, lemma_sorted_members, lookup, ordered_members, sorted_members};
use crate::primitives::amounts::CanonicalTime;
use crate::primitives::ids::{
    AccountId, IdempotencyKey, MessageId, OperationalKeyRef, ProtocolIdentity,
};
use std::collections::BTreeMap;
use vstd::prelude::*;

verus! {

/// A processor that the deployment knows. Registration is trusted deployment configuration, never
/// a content grant.
#[derive(Debug, PartialEq, Eq)]
pub struct ProcessorRegistration {
    pub key: OperationalKeyRef,
    pub verifying_key: [u8; 32],
    pub usage: GrantUse,
    pub active: bool,
}

impl ProcessorRegistration {
    pub open spec fn valid(&self) -> bool {
        &&& self.usage.valid()
        &&& ed25519_key_valid(self.verifying_key@)
        &&& self.usage.actor == DecryptionActor::CsqdProcessor(self.key)
    }

    /// Refuses a use that no processor can have, and keys that are none.
    pub fn validate(&self) -> (result: Result<(), ConsentError>)
        ensures
            result == (if self.valid() {
                Ok(())
            } else {
                Err(ConsentError::Invalid)
            }),
    {
        match self.usage.validate() {
            Ok(()) => {},
            Err(e) => return Err(e),
        }
        if !is_public_key(&self.verifying_key) {
            return Err(ConsentError::Invalid);
        }
        if self.usage.actor != DecryptionActor::CsqdProcessor(self.key) {
            return Err(ConsentError::Invalid);
        }
        Ok(())
    }
}

/// What is asked of consent.
#[derive(Debug, PartialEq, Eq)]
pub enum ConsentCommand {
    Authorize { id: GrantId, scope: ContentScope, usage: GrantUse, expires_at: CanonicalTime },
    Revoke { id: GrantId },
    Inspect { id: GrantId },
    Read { id: GrantId, message: MessageId, purpose: DecryptionPurpose },
}

pub ghost enum ConsentCommandModel {
    Authorize { id: GrantId, scope: Set<u128>, usage: GrantUse, expires_at: CanonicalTime },
    Revoke { id: GrantId },
    Inspect { id: GrantId },
    Read { id: GrantId, message: MessageId, purpose: DecryptionPurpose },
}

impl View for ConsentCommand {
    type V = ConsentCommandModel;

    open spec fn view(&self) -> ConsentCommandModel {
        match self {
            ConsentCommand::Authorize { id, scope, usage, expires_at } => {
                ConsentCommandModel::Authorize {
                    id: *id,
                    scope: scope.covered(),
                    usage: *usage,
                    expires_at: *expires_at,
                }
            },
            ConsentCommand::Revoke { id } => ConsentCommandModel::Revoke { id: *id },
            ConsentCommand::Inspect { id } => ConsentCommandModel::Inspect { id: *id },
            ConsentCommand::Read { id, message, purpose } => ConsentCommandModel::Read {
                id: *id,
                message: *message,
                purpose: *purpose,
            },
        }
    }
}

impl DecryptionActor {
    /// The actor as a JSON object.
    pub open spec fn json(self) -> Seq<u8> {
        match self {
            DecryptionActor::UserDevice(key) => utf8("{\"UserDevice\":"@) + json_number(
                key.0 as nat,
            ) + utf8("}"@),
            DecryptionActor::CsqdProcessor(key) => utf8("{\"CsqdProcessor\":"@) + json_number(
                key.0 as nat,
            ) + utf8("}"@),
        }
    }
}

fn actor_json(actor: DecryptionActor) -> (bytes: Vec<u8>)
    ensures
        bytes@ == actor.json(),
{
    match actor {
        DecryptionActor::UserDevice(key) => {
            let mut out = text_bytes("{\"UserDevice\":");
            push_number(&mut out, key.0);
            push_text(&mut out, "}");
            out
        },
        DecryptionActor::CsqdProcessor(key) => {
            let mut out = text_bytes("{\"CsqdProcessor\":");
            push_number(&mut out, key.0);
            push_text(&mut out, "}");
            out
        },
    }
}

impl DecryptionPurpose {
    pub open spec fn json(&self) -> Seq<u8> {
        match self {
            DecryptionPurpose::Display => utf8("\"Display\""@),
            DecryptionPurpose::CsqdProcessing { operation } => utf8(
                "{\"CsqdProcessing\":{\"operation\":"@,
            ) + json_string(operation@) + utf8("}}"@),
        }
    }
}

fn purpose_json(purpose: &DecryptionPurpose) -> (bytes: Vec<u8>)
    ensures
        bytes@ == purpose.json(),
{
    match purpose {
        DecryptionPurpose::Display => text_bytes("\"Display\""),
        DecryptionPurpose::CsqdProcessing { operation } => {
            let mut out = text_bytes("{\"CsqdProcessing\":{\"operation\":");
            push_string(&mut out, operation.as_str());
            push_text(&mut out, "}}");
            out
        },
    }
}

impl GrantUse {
    pub open spec fn json(&self) -> Seq<u8> {
        utf8("{\"actor\":"@) + self.actor.json() + utf8(",\"purpose\":"@) + self.purpose.json()
            + utf8(",\"destination\":"@) + self.destination.json() + utf8("}"@)
    }
}

fn usage_json(usage: &GrantUse) -> (bytes: Vec<u8>)
    ensures
        bytes@ == usage.json(),
{
    let mut out = text_bytes("{\"actor\":");
    push_all(&mut out, actor_json(usage.actor).as_slice());
    push_text(&mut out, ",\"purpose\":");
    push_all(&mut out, purpose_json(&usage.purpose).as_slice());
    push_text(&mut out, ",\"destination\":");
    push_all(&mut out, public_key_json(&usage.destination).as_slice());
    push_text(&mut out, "}");
    out
}

/// Message numbers, each as JSON.
pub open spec fn number_items(numbers: Seq<u128>) -> Seq<Seq<u8>> {
    Seq::new(numbers.len(), |i: int| json_number(numbers[i] as nat))
}

fn scope_json(scope: &ContentScope) -> (bytes: Vec<u8>)
    ensures
        bytes@ == json_array(number_items(sorted_members(scope.covered()))),
{
    let numbers = ordered_members(scope.messages());
    let ghost items = number_items(numbers@);
    let mut out = text_bytes("[");
    let ghost opened = out@;
    let mut i: usize = 0;
    assert(out@ =~= opened + json_joined(items.take(0)));
    while i < numbers.len()
        invariant
            items == number_items(numbers@),
            0 <= i <= numbers@.len(),
            out@ == opened + json_joined(items.take(i as int)),
        decreases numbers@.len() - i,
    {
        let mut item: Vec<u8> = Vec::new();
        push_number(&mut item, numbers[i]);
        assert(item@ =~= json_number(numbers@[i as int] as nat));
        assert(items.take(i + 1) =~= items.take(i as int).push(item@));
        push_item(&mut out, i, item.as_slice(), Ghost(items.take(i as int)), Ghost(opened));
        i += 1;
    }
    assert(items.take(i as int) =~= items);
    push_text(&mut out, "]");
    out
}

impl ConsentCommandModel {
    pub open spec fn grant_id(self) -> GrantId {
        match self {
            ConsentCommandModel::Authorize { id, .. } => id,
            ConsentCommandModel::Revoke { id } => id,
            ConsentCommandModel::Inspect { id } => id,
            ConsentCommandModel::Read { id, .. } => id,
        }
    }

    /// The command as a JSON object named after what it does.
    pub open spec fn json(self) -> Seq<u8> {
        match self {
            ConsentCommandModel::Authorize { id, scope, usage, expires_at } => utf8(
                "{\"Authorize\":{\"id\":"@,
            ) + json_number(id.0 as nat) + utf8(",\"scope\":"@) + json_array(
                number_items(sorted_members(scope)),
            ) + utf8(",\"usage\":"@) + usage.json() + utf8(",\"expires_at\":"@) + json_number(
                expires_at.0 as nat,
            ) + utf8("}}"@),
            ConsentCommandModel::Revoke { id } => utf8("{\"Revoke\":{\"id\":"@) + json_number(
                id.0 as nat,
            ) + utf8("}}"@),
            ConsentCommandModel::Inspect { id } => utf8("{\"Inspect\":{\"id\":"@) + json_number(
                id.0 as nat,
            ) + utf8("}}"@),
            ConsentCommandModel::Read { id, message, purpose } => utf8("{\"Read\":{\"id\":"@)
                + json_number(id.0 as nat) + utf8(",\"message\":"@) + json_number(message.0 as nat)
                + utf8(",\"purpose\":"@) + purpose.json() + utf8("}}"@),
        }
    }
}

fn authorize_json(id: GrantId, scope: &ContentScope, usage: &GrantUse, expires_at: CanonicalTime) -> (bytes:
    Vec<u8>)
    ensures
        bytes@ == (ConsentCommandModel::Authorize {
            id,
            scope: scope.covered(),
            usage: *usage,
            expires_at,
        }).json(),
{
    let mut out = text_bytes("{\"Authorize\":{\"id\":");
    push_number(&mut out, id.0);
    push_text(&mut out, ",\"scope\":");
    push_all(&mut out, scope_json(scope).as_slice());
    push_text(&mut out, ",\"usage\":");
    push_all(&mut out, usage_json(usage).as_slice());
    push_text(&mut out, ",\"expires_at\":");
    push_number(&mut out, expires_at.0 as u128);
    push_text(&mut out, "}}");
    out
}

fn read_json(id: GrantId, message: MessageId, purpose: &DecryptionPurpose) -> (bytes: Vec<u8>)
    ensures
        bytes@ == (ConsentCommandModel::Read { id, message, purpose: *purpose }).json(),
{
    let mut out = text_bytes("{\"Read\":{\"id\":");
    push_number(&mut out, id.0);
    push_text(&mut out, ",\"message\":");
    push_number(&mut out, message.0);
    push_text(&mut out, ",\"purpose\":");
    push_all(&mut out, purpose_json(purpose).as_slice());
    push_text(&mut out, "}}");
    out
}

impl ConsentCommand {
    pub fn grant_id(&self) -> (id: GrantId)
        ensures
            id == self@.grant_id(),
    {
        match self {
            ConsentCommand::Authorize { id, .. } => *id,
            ConsentCommand::Revoke { id } => *id,
            ConsentCommand::Inspect { id } => *id,
            ConsentCommand::Read { id, .. } => *id,
        }
    }

    fn json_bytes(&self) -> (bytes: Vec<u8>)
        ensures
            bytes@ == self@.json(),
    {
        match self {
            ConsentCommand::Authorize { id, scope, usage, expires_at } => authorize_json(
                *id,
                scope,
                usage,
                *expires_at,
            ),
            ConsentCommand::Revoke { id } => {
                let mut out = text_bytes("{\"Revoke\":{\"id\":");
                push_number(&mut out, id.0);
                push_text(&mut out, "}}");
                out
            },
            ConsentCommand::Inspect { id } => {
                let mut out = text_bytes("{\"Inspect\":{\"id\":");
                push_number(&mut out, id.0);
                push_text(&mut out, "}}");
                out
            },
            ConsentCommand::Read { id, message, purpose } => read_json(*id, *message, purpose),
        }
    }
}

/// A consent command in the name of a persona, signed by a device or a processor.
#[derive(Debug, PartialEq, Eq)]
pub struct SignedConsentRequest {
    pub product: String,
    pub account: AccountId,
    pub persona: ProtocolIdentity,
    pub actor: DecryptionActor,
    pub operation: IdempotencyKey,
    pub command: ConsentCommand,
    pub signature: Vec<u8>,
}

pub ghost struct ConsentRequestModel {
    pub product: Seq<char>,
    pub account: AccountId,
    pub persona: ProtocolIdentity,
    pub actor: DecryptionActor,
    pub operation: IdempotencyKey,
    pub command: ConsentCommandModel,
    pub signature: Seq<u8>,
}

impl View for SignedConsentRequest {
    type V = ConsentRequestModel;

    open spec fn view(&self) -> ConsentRequestModel {
        ConsentRequestModel {
            product: self.product@,
            account: self.account,
            persona: self.persona,
            actor: self.actor,
            operation: self.operation,
            command: self.command@,
            signature: self.signature@,
        }
    }
}

impl ConsentRequestModel {
    /// Whether the request names everyone that it has to name.
    pub open spec fn addressed(self) -> bool {
        self.product.len() != 0 && self.account.0 != 0 && self.persona.0 != 0 && self.operation.0
            != 0
    }

    /// What is signed.
    pub open spec fn message(self) -> Seq<u8> {
        utf8("[\"cs-mail/consent-command/v1\","@) + json_string(self.product) + utf8(","@)
            + json_number(self.account.0 as nat) + utf8(","@) + json_number(self.persona.0 as nat)
            + utf8(","@) + self.actor.json() + utf8(","@) + json_number(self.operation.0 as nat)
            + utf8(","@) + self.command.json() + utf8("]"@)
    }

    /// The verdict on the signature under a key.
    pub open spec fn verdict(self, key: Seq<u8>) -> Result<(), ConsentError> {
        if !ed25519_key_valid(key) {
            Err(ConsentError::Unauthorized)
        } else if !self.addressed() {
            Err(ConsentError::Invalid)
        } else if !ed25519_accepts_strictly(key, self.message(), self.signature) {
            Err(ConsentError::Unauthorized)
        } else {
            Ok(())
        }
    }
}

impl SignedConsentRequest {
    fn bytes(&self) -> (result: Result<Vec<u8>, ConsentError>)
        ensures
            if self@.addressed() {
                result matches Ok(bytes) && bytes@ == self@.message()
            } else {
                result == Err::<Vec<u8>, ConsentError>(ConsentError::Invalid)
            },
    {
        if self.product.as_str().is_empty() || self.account.0 == 0 || self.persona.0 == 0
            || self.operation.0 == 0 {
            return Err(ConsentError::Invalid);
        }
        let mut out = text_bytes("[\"cs-mail/consent-command/v1\",");
        push_string(&mut out, self.product.as_str());
        push_text(&mut out, ",");
        push_number(&mut out, self.account.0);
        push_text(&mut out, ",");
        push_number(&mut out, self.persona.0);
        push_text(&mut out, ",");
        push_all(&mut out, actor_json(self.actor).as_slice());
        push_text(&mut out, ",");
        push_number(&mut out, self.operation.0);
        push_text(&mut out, ",");
        push_all(&mut out, self.command.json_bytes().as_slice());
        push_text(&mut out, "]");
        Ok(out)
    }

    /// Refuses a request that leaves out its product, account, persona or operation.
    pub fn sign(self, secret: &[u8; 32]) -> (result: Result<Self, ConsentError>)
        ensures
            if self@.addressed() {
                result matches Ok(signed) && signed@ == (ConsentRequestModel {
                    signature: ed25519_signature(secret@, self@.message()),
                    ..self@
                })
            } else {
                result == Err::<Self, ConsentError>(ConsentError::Invalid)
            },
    {
        match self.bytes() {
            Ok(bytes) => {
                let signature = sign(secret, bytes.as_slice());
                Ok(SignedConsentRequest { signature, ..self })
            },
            Err(e) => Err(e),
        }
    }

    /// Refuses tampered commands and invalid keys.
    pub fn verify(&self, key: &[u8; 32]) -> (result: Result<(), ConsentError>)
        ensures
            result == self@.verdict(key@),
    {
        if !is_public_key(key) {
            return Err(ConsentError::Unauthorized);
        }
        let bytes = match self.bytes() {
            Ok(bytes) => bytes,
            Err(e) => return Err(e),
        };
        if !verify_strict(key, bytes.as_slice(), self.signature.as_slice()) {
            return Err(ConsentError::Unauthorized);
        }
        Ok(())
    }

    /// Audit records contain only the digest and signature. Refuses an incomplete request.
    pub fn digest(&self) -> (result: Result<[u8; 32], ConsentError>)
        ensures
            if self@.addressed() {
                result matches Ok(digest) && digest@ == sha256_of(self@.message())
            } else {
                result == Err::<[u8; 32], ConsentError>(ConsentError::Invalid)
            },
    {
        match self.bytes() {
            Ok(bytes) => Ok(sha256(bytes.as_slice())),
            Err(e) => Err(e),
        }
    }
}

/// A retained message as the custodian seals it anew.
#[derive(PartialEq, Eq)]
pub struct ReleasedCopy {
    pub manifest: MessageManifest,
    pub ciphertext: EncryptedContentRecord,
    pub custodian: EndpointPublicKey,
}

pub ghost struct ReleasedModel {
    pub manifest: ManifestModel,
    pub ciphertext: SealedModel,
    pub custodian: EndpointPublicKey,
}

impl View for ReleasedCopy {
    type V = ReleasedModel;

    open spec fn view(&self) -> ReleasedModel {
        ReleasedModel {
            manifest: self.manifest@,
            ciphertext: self.ciphertext@,
            custodian: self.custodian,
        }
    }
}

#[derive(Clone, Copy, Debug, PartialEq, Eq, Structural)]
pub enum ConsentOutcome {
    Granted(GrantId),
    Revoked(GrantId),
    Released { grant: GrantId, message: MessageId },
}

/// What a consent request is answered. A release that is already on record is only named: no
/// cached ciphertext and no new disclosure.
pub enum ConsentResponse {
    Outcome(ConsentOutcome),
    Grant(DecryptionGrant),
    Released(Box<ReleasedCopy>),
    AlreadyReleased { grant: GrantId, message: MessageId },
}

pub ghost enum ConsentResponseModel {
    Outcome(ConsentOutcome),
    Grant(GrantModel),
    Released(ReleasedModel),
    AlreadyReleased { grant: GrantId, message: MessageId },
}

impl View for ConsentResponse {
    type V = ConsentResponseModel;

    open spec fn view(&self) -> ConsentResponseModel {
        match self {
            ConsentResponse::Outcome(outcome) => ConsentResponseModel::Outcome(*outcome),
            ConsentResponse::Grant(grant) => ConsentResponseModel::Grant(grant@),
            ConsentResponse::Released(copy) => ConsentResponseModel::Released((**copy)@),
            ConsentResponse::AlreadyReleased { grant, message } => {
                ConsentResponseModel::AlreadyReleased { grant: *grant, message: *message }
            },
        }
    }
}

/// What is kept of a consent command that changed or released something.
#[derive(Debug, PartialEq, Eq)]
pub struct ConsentReceipt {
    pub account: AccountId,
    pub persona: ProtocolIdentity,
    pub actor: DecryptionActor,
    pub operation: IdempotencyKey,
    pub digest: [u8; 32],
    pub signature: Vec<u8>,
    pub verifying_key: [u8; 32],
    pub authorized_at: CanonicalTime,
    pub outcome: ConsentOutcome,
}

pub ghost struct ConsentReceiptModel {
    pub account: AccountId,
    pub persona: ProtocolIdentity,
    pub actor: DecryptionActor,
    pub operation: IdempotencyKey,
    pub digest: Seq<u8>,
    pub signature: Seq<u8>,
    pub verifying_key: [u8; 32],
    pub authorized_at: CanonicalTime,
    pub outcome: ConsentOutcome,
}

impl View for ConsentReceipt {
    type V = ConsentReceiptModel;

    open spec fn view(&self) -> ConsentReceiptModel {
        ConsentReceiptModel {
            account: self.account,
            persona: self.persona,
            actor: self.actor,
            operation: self.operation,
            digest: self.digest@,
            signature: self.signature@,
            verifying_key: self.verifying_key,
            authorized_at: self.authorized_at,
            outcome: self.outcome,
        }
    }
}

pub struct RetainedRecovery {
    pub record: MessageRecord,
    pub recovery: RecoveryCopy,
    pub expires_at: CanonicalTime,
}

pub ghost struct RetainedModel {
    pub record: MessageModel,
    pub recovery: RecoveryModel,
    pub expires_at: CanonicalTime,
}

impl View for RetainedRecovery {
    type V = RetainedModel;

    open spec fn view(&self) -> RetainedModel {
        RetainedModel {
            record: self.record@,
            recovery: self.recovery@,
            expires_at: self.expires_at,
        }
    }
}

/// The authority of the account in whose name a request comes. `persona_keys` holds the verifying
/// key of every operational key with which the account, in the request's product, may act for the
/// request's persona at the time of the decision.
pub struct PersonaAuthority {
    pub product: String,
    pub control: AccountControl,
    pub persona_keys: BTreeMap<u128, [u8; 32]>,
}

pub ghost struct PersonaAuthorityModel {
    pub product: Seq<char>,
    pub control: ControlModel,
    pub persona_keys: Map<u128, [u8; 32]>,
}

impl View for PersonaAuthority {
    type V = PersonaAuthorityModel;

    open spec fn view(&self) -> PersonaAuthorityModel {
        PersonaAuthorityModel {
            product: self.product@,
            control: self.control@,
            persona_keys: self.persona_keys@,
        }
    }
}

/// All that a consent decision may look at.
pub struct ConsentContext {
    pub authority: PersonaAuthority,
    pub custody_key: EndpointPublicKey,
    pub processor: Option<ProcessorRegistration>,
    pub grant: Option<DecryptionGrant>,
    pub retained: BTreeMap<u128, RetainedRecovery>,
    pub prior: Option<ConsentReceipt>,
}

pub ghost struct ConsentContextModel {
    pub authority: PersonaAuthorityModel,
    pub custody_key: EndpointPublicKey,
    pub processor: Option<ProcessorRegistration>,
    pub grant: Option<DecryptionGrant>,
    pub retained: Map<u128, RetainedModel>,
    pub prior: Option<ConsentReceiptModel>,
}

impl View for ConsentContext {
    type V = ConsentContextModel;

    open spec fn view(&self) -> ConsentContextModel {
        ConsentContextModel {
            authority: self.authority@,
            custody_key: self.custody_key,
            processor: self.processor,
            grant: self.grant,
            retained: self.retained@.map_values(|kept: RetainedRecovery| kept@),
            prior: match self.prior {
                Some(receipt) => Some(receipt@),
                None => None,
            },
        }
    }
}

pub struct ConsentEffects {
    pub grant: Option<DecryptionGrant>,
    pub receipt: ConsentReceipt,
}

/// An answer, and what comes with it. Only the use cases make one.
pub struct ConsentDecision {
    response: ConsentResponse,
    effects: Option<ConsentEffects>,
}

pub ghost struct ConsentDecisionModel {
    pub response: ConsentResponseModel,
    pub effects: Option<(Option<GrantModel>, ConsentReceiptModel)>,
}

pub open spec fn effects_model(effects: ConsentEffects) -> (
    Option<GrantModel>,
    ConsentReceiptModel,
) {
    (
        match effects.grant {
            Some(grant) => Some(grant@),
            None => None,
        },
        effects.receipt@,
    )
}

impl View for ConsentDecision {
    type V = ConsentDecisionModel;

    closed spec fn view(&self) -> ConsentDecisionModel {
        ConsentDecisionModel {
            response: self.response@,
            effects: match self.effects {
                Some(effects) => Some(effects_model(effects)),
                None => None,
            },
        }
    }
}

impl ConsentDecision {
    pub fn into_parts(self) -> (parts: (ConsentResponse, Option<ConsentEffects>))
        ensures
            parts.0@ == self@.response,
            match parts.1 {
                Some(effects) => self@.effects == Some(effects_model(effects)),
                None => self@.effects is None,
            },
    {
        (self.response, self.effects)
    }
}

/// Constructed only after live authorization and entitlement, and consumed locally under the
/// persistence protection. It is not a transferable or durable permit.
pub struct AuthorizedDecryption<'a> {
    source: &'a RecoveryCopy,
    manifest: &'a MessageManifest,
    destination: EndpointPublicKey,
    at: CanonicalTime,
    expires_at: CanonicalTime,
}

pub ghost struct PermitModel {
    pub source: RecoveryModel,
    pub manifest: ManifestModel,
    pub destination: EndpointPublicKey,
    pub at: CanonicalTime,
    pub expires_at: CanonicalTime,
}

impl<'a> View for AuthorizedDecryption<'a> {
    type V = PermitModel;

    closed spec fn view(&self) -> PermitModel {
        PermitModel {
            source: self.source@,
            manifest: self.manifest@,
            destination: self.destination,
            at: self.at,
            expires_at: self.expires_at,
        }
    }
}

impl<'a> AuthorizedDecryption<'a> {
    pub fn source(&self) -> (source: &RecoveryCopy)
        ensures
            source@ == self@.source,
    {
        self.source
    }

    pub fn manifest(&self) -> (manifest: &MessageManifest)
        ensures
            manifest@ == self@.manifest,
    {
        self.manifest
    }

    pub fn destination(&self) -> (destination: EndpointPublicKey)
        ensures
            destination == self@.destination,
    {
        self.destination
    }

    pub fn at(&self) -> (at: CanonicalTime)
        ensures
            at == self@.at,
    {
        self.at
    }

    pub fn expires_at(&self) -> (at: CanonicalTime)
        ensures
            at == self@.expires_at,
    {
        self.expires_at
    }
}

/// Local crypto only: implementations must not call remote services, retain a permit, or disclose
/// plaintext. Nothing is assumed of what they return.
pub trait LocalKeyCustody {
    fn public_key(&self) -> EndpointPublicKey;

    fn release(&self, authorization: AuthorizedDecryption<'_>) -> Result<ReleasedCopy, ConsentError>;
}

/// The key that a request has to be signed with: the device's, if it may act for the persona, or
/// the registered processor's, if the account is in service.
pub open spec fn signer(
    request: ConsentRequestModel,
    authority: PersonaAuthorityModel,
    processor: Option<ProcessorRegistration>,
) -> Result<[u8; 32], ConsentError> {
    match request.actor {
        DecryptionActor::UserDevice(key) => if authority.persona_keys.contains_key(key.0) {
            Ok(authority.persona_keys[key.0])
        } else {
            Err(ConsentError::Unauthorized)
        },
        DecryptionActor::CsqdProcessor(key) => if authority.product != request.product
            || authority.control.status != AccountStatus::Active
            || !authority.control.personas.contains(request.persona.0) {
            Err(ConsentError::Unauthorized)
        } else {
            match processor {
                Some(registration) => if registration.key != key || !registration.active {
                    Err(ConsentError::Unauthorized)
                } else if !registration.valid() {
                    Err(ConsentError::Invalid)
                } else {
                    Ok(registration.verifying_key)
                },
                None => Err(ConsentError::Unauthorized),
            }
        },
    }
}

/// The key that a request is signed with, or why it is refused.
pub open spec fn authentication(
    request: ConsentRequestModel,
    authority: PersonaAuthorityModel,
    processor: Option<ProcessorRegistration>,
) -> Result<[u8; 32], ConsentError> {
    match signer(request, authority, processor) {
        Err(e) => Err(e),
        Ok(key) => match request.verdict(key@) {
            Err(e) => Err(e),
            Ok(()) => Ok(key),
        },
    }
}

/// Authenticate before private content lookup, and again after all protected reads. Processors
/// must be registered and active; registration never grants content access.
pub fn authenticate(
    request: &SignedConsentRequest,
    authority: &PersonaAuthority,
    processor: &Option<ProcessorRegistration>,
) -> (result: Result<[u8; 32], ConsentError>)
    ensures
        result == authentication(request@, authority@, *processor),
{
    let key = match request.actor {
        DecryptionActor::UserDevice(key) => match lookup(&authority.persona_keys, key.0) {
            Some(found) => *found,
            None => return Err(ConsentError::Unauthorized),
        },
        DecryptionActor::CsqdProcessor(key) => {
            if authority.product != request.product || !authority.control.allows_service()
                || !is_member(authority.control.personas(), request.persona.0) {
                return Err(ConsentError::Unauthorized);
            }
            match processor {
                Some(registration) => {
                    if registration.key != key || !registration.active {
                        return Err(ConsentError::Unauthorized);
                    }
                    match registration.validate() {
                        Ok(()) => {},
                        Err(e) => return Err(e),
                    }
                    registration.verifying_key
                },
                None => return Err(ConsentError::Unauthorized),
            }
        },
    };
    match request.verify(&key) {
        Ok(()) => Ok(key),
        Err(e) => Err(e),
    }
}

pub open spec fn earlier(a: CanonicalTime, b: CanonicalTime) -> CanonicalTime {
    if b.0 < a.0 {
        b
    } else {
        a
    }
}

fn earlier_of(a: CanonicalTime, b: CanonicalTime) -> (time: CanonicalTime)
    ensures
        time == earlier(a, b),
{
    if b.0 < a.0 {
        b
    } else {
        a
    }
}

impl GrantModel {
    /// Terms that a grant can have; compare `GrantTerms::valid`.
    pub open spec fn terms_valid(self) -> bool {
        &&& self.usage.valid()
        &&& self.account.0 != 0
        &&& self.persona.0 != 0
        &&& self.issuer.0 != 0
        &&& self.issued_at.0 < self.expires_at.0
        &&& self.expires_at.0 - self.issued_at.0 <= crate::consent::MAX_GRANT_LIFETIME_MS
        &&& self.usage.actor matches DecryptionActor::UserDevice(key) ==> key == self.issuer
    }
}

impl ConsentContextModel {
    /// The grant, if it is the one that the request names, of the request's account and persona.
    pub open spec fn owned_grant(self, request: ConsentRequestModel) -> Option<DecryptionGrant> {
        if self.grant matches Some(grant) && grant@.account == request.account && grant@.persona
            == request.persona && grant@.id == request.command.grant_id() {
            self.grant
        } else {
            None
        }
    }

    /// The retained copy of a message that the request's persona is entitled to.
    pub open spec fn entitlement(
        self,
        request: ConsentRequestModel,
        message: MessageId,
        now: CanonicalTime,
    ) -> Result<RetainedModel, ConsentError> {
        if !self.retained.contains_key(message.0) {
            Err(ConsentError::Unavailable)
        } else {
            let kept = self.retained[message.0];
            let copy = kept.recovery;
            if kept.expires_at.0 <= now.0 || copy.ciphertext.expires_at.0 <= now.0 {
                Err(ConsentError::Unavailable)
            } else if kept.record.manifest.message != message || copy.ciphertext.binding.message_id
                != message || copy.ciphertext.binding.recipient != request.persona
                || copy.ciphertext.binding.sender != kept.record.author || copy.sender.reference
                != copy.ciphertext.envelope.sender_key || copy.ciphertext.envelope.recipient_key
                != self.custody_key.reference {
                Err(ConsentError::Invalid)
            } else {
                Ok(kept)
            }
        }
    }

    /// A processor's use has to be the one that it is registered for.
    pub open spec fn processor_check(self, usage: GrantUse) -> Result<(), ConsentError> {
        match usage.actor {
            DecryptionActor::UserDevice(_) => Ok(()),
            DecryptionActor::CsqdProcessor(key) => match self.processor {
                Some(registration) => if !registration.active || registration.key != key
                    || !registration.usage.alike(&usage) {
                    Err(ConsentError::Unauthorized)
                } else if !registration.valid() {
                    Err(ConsentError::Invalid)
                } else {
                    Ok(())
                },
                None => Err(ConsentError::Unauthorized),
            },
        }
    }

    /// The first refusal among the first `n` of some messages.
    pub open spec fn first_refusal(
        self,
        request: ConsentRequestModel,
        messages: Seq<u128>,
        n: nat,
        now: CanonicalTime,
    ) -> Option<ConsentError>
        decreases n,
    {
        if n == 0 {
            None
        } else {
            match self.first_refusal(request, messages, (n - 1) as nat, now) {
                Some(e) => Some(e),
                None => match self.entitlement(request, MessageId(messages[n - 1]), now) {
                    Err(e) => Some(e),
                    Ok(_) => None,
                },
            }
        }
    }

    /// The grant that a request to authorize issues. Every covered message has to be there.
    pub open spec fn issued(
        self,
        request: ConsentRequestModel,
        scope: Set<u128>,
        usage: GrantUse,
        expires_at: CanonicalTime,
        now: CanonicalTime,
    ) -> Result<GrantModel, ConsentError> {
        match request.actor {
            DecryptionActor::CsqdProcessor(_) => Err(ConsentError::Unauthorized),
            DecryptionActor::UserDevice(issuer) => if self.grant is Some {
                Err(ConsentError::Conflict)
            } else {
                match self.processor_check(usage) {
                    Err(e) => Err(e),
                    Ok(()) => match self.first_refusal(
                        request,
                        sorted_members(scope),
                        sorted_members(scope).len(),
                        now,
                    ) {
                        Some(e) => Err(e),
                        None => {
                            let grant = GrantModel {
                                id: request.command.grant_id(),
                                account: request.account,
                                persona: request.persona,
                                issuer,
                                scope,
                                usage,
                                issued_at: now,
                                expires_at,
                                state: GrantState::Active,
                            };
                            if grant.terms_valid() {
                                Ok(grant)
                            } else {
                                Err(ConsentError::Invalid)
                            }
                        },
                    },
                }
            },
        }
    }

    /// What a custodian may release for a request to read, or why nothing: the grant covers actor,
    /// purpose and message now, its issuer still speaks for the persona, and the copy is kept.
    pub open spec fn permit(
        self,
        request: ConsentRequestModel,
        message: MessageId,
        purpose: DecryptionPurpose,
        custodian: EndpointPublicKey,
        now: CanonicalTime,
    ) -> Result<PermitModel, ConsentError> {
        match self.owned_grant(request) {
            None => Err(ConsentError::Unauthorized),
            Some(grant) => if !self.authority.persona_keys.contains_key(grant@.issuer.0) {
                Err(ConsentError::Unauthorized)
            } else {
                match grant.authorization(request.actor, purpose, message, now) {
                    Err(e) => Err(e),
                    Ok(()) => match self.processor_check(grant@.usage) {
                        Err(e) => Err(e),
                        Ok(()) => match self.entitlement(request, message, now) {
                            Err(e) => Err(e),
                            Ok(kept) => if self.custody_key != custodian {
                                Err(ConsentError::Unavailable)
                            } else {
                                Ok(
                                    PermitModel {
                                        source: kept.recovery,
                                        manifest: kept.record.manifest,
                                        destination: grant@.usage.destination,
                                        at: now,
                                        expires_at: earlier(
                                            earlier(grant@.expires_at, kept.expires_at),
                                            kept.recovery.ciphertext.expires_at,
                                        ),
                                    },
                                )
                            },
                        },
                    },
                }
            },
        }
    }
}

/// Whether a released copy is what was permitted.
pub open spec fn release_fits(
    permit: PermitModel,
    released: ReleasedModel,
    custody_key: EndpointPublicKey,
) -> bool {
    &&& released.manifest == permit.manifest
    &&& released.custodian == custody_key
    &&& released.ciphertext.binding.alike(&permit.source.ciphertext.binding)
    &&& released.ciphertext.envelope.recipient_key == permit.destination.reference
    &&& released.ciphertext.expires_at == permit.expires_at
}

fn owned_grant<'a>(request: &SignedConsentRequest, context: &'a ConsentContext) -> (result: Result<
    &'a DecryptionGrant,
    ConsentError,
>)
    ensures
        match context@.owned_grant(request@) {
            Some(grant) => result matches Ok(found) && *found == grant,
            None => result == Err::<&'a DecryptionGrant, ConsentError>(ConsentError::Unauthorized),
        },
{
    match &context.grant {
        Some(grant) => {
            if grant.terms().account == request.account && grant.terms().persona == request.persona
                && grant.terms().id == request.command.grant_id() {
                Ok(grant)
            } else {
                Err(ConsentError::Unauthorized)
            }
        },
        None => Err(ConsentError::Unauthorized),
    }
}

fn entitled<'a>(
    context: &'a ConsentContext,
    request: &SignedConsentRequest,
    message: MessageId,
    now: CanonicalTime,
) -> (result: Result<&'a RetainedRecovery, ConsentError>)
    ensures
        match context@.entitlement(request@, message, now) {
            Ok(kept) => result matches Ok(found) && found@ == kept,
            Err(e) => result == Err::<&'a RetainedRecovery, ConsentError>(e),
        },
{
    let kept = match lookup(&context.retained, message.0) {
        Some(kept) => kept,
        None => return Err(ConsentError::Unavailable),
    };
    assert(context@.retained[message.0] == kept@);
    let copy = &kept.recovery;
    if kept.expires_at.0 <= now.0 || copy.ciphertext.expires_at.0 <= now.0 {
        return Err(ConsentError::Unavailable);
    }
    if kept.record.manifest.message() != message || copy.ciphertext.binding.message_id != message
        || copy.ciphertext.binding.recipient != request.persona || copy.ciphertext.binding.sender
        != kept.record.author || copy.sender.reference != copy.ciphertext.envelope.sender_key
        || copy.ciphertext.envelope.recipient_key != context.custody_key.reference {
        return Err(ConsentError::Invalid);
    }
    Ok(kept)
}

fn check_processor(context: &ConsentContext, usage: &GrantUse) -> (result: Result<(), ConsentError>)
    ensures
        result == context@.processor_check(*usage),
{
    match usage.actor {
        DecryptionActor::UserDevice(_) => Ok(()),
        DecryptionActor::CsqdProcessor(key) => match &context.processor {
            Some(registration) => {
                if !registration.active || registration.key != key || !registration.usage.same(
                    usage,
                ) {
                    return Err(ConsentError::Unauthorized);
                }
                registration.validate()
            },
            None => Err(ConsentError::Unauthorized),
        },
    }
}

proof fn lemma_first_refusal(
    context: ConsentContextModel,
    request: ConsentRequestModel,
    messages: Seq<u128>,
    m: nat,
    n: nat,
    now: CanonicalTime,
)
    requires
        m <= n,
    ensures
        context.first_refusal(request, messages, m, now) matches Some(e) ==> context.first_refusal(
            request,
            messages,
            n,
            now,
        ) == Some(e),
    decreases n,
{
    if m < n {
        lemma_first_refusal(context, request, messages, m, (n - 1) as nat, now);
    }
}

fn issue(
    request: &SignedConsentRequest,
    context: &ConsentContext,
    id: GrantId,
    scope: &ContentScope,
    usage: &GrantUse,
    expires_at: CanonicalTime,
    now: CanonicalTime,
) -> (result: Result<DecryptionGrant, ConsentError>)
    requires
        id == request@.command.grant_id(),
    ensures
        match context@.issued(request@, scope.covered(), *usage, expires_at, now) {
            Ok(grant) => result matches Ok(issued) && issued@ == grant,
            Err(e) => result == Err::<DecryptionGrant, ConsentError>(e),
        },
{
    let issuer = match request.actor {
        DecryptionActor::UserDevice(issuer) => issuer,
        DecryptionActor::CsqdProcessor(_) => return Err(ConsentError::Unauthorized),
    };
    if context.grant.is_some() {
        return Err(ConsentError::Conflict);
    }
    match check_processor(context, usage) {
        Ok(()) => {},
        Err(e) => return Err(e),
    }
    let messages = ordered_members(scope.messages());
    let mut i: usize = 0;
    while i < messages.len()
        invariant
            context@.grant is None,
            messages@ == sorted_members(scope.covered()),
            request@.actor == DecryptionActor::UserDevice(issuer),
            context@.processor_check(*usage) is Ok,
            0 <= i <= messages@.len(),
            context@.first_refusal(request@, messages@, i as nat, now) is None,
        decreases messages@.len() - i,
    {
        proof {
            lemma_first_refusal(
                context@,
                request@,
                messages@,
                (i + 1) as nat,
                messages@.len(),
                now,
            );
        }
        match entitled(context, request, MessageId(messages[i]), now) {
            Ok(_) => {},
            Err(e) => return Err(e),
        }
        i += 1;
    }
    DecryptionGrant::issue(
        GrantTerms {
            id,
            account: request.account,
            persona: request.persona,
            issuer,
            scope: scope.clone(),
            usage: usage.clone(),
            issued_at: now,
            expires_at,
        },
    )
}

fn permit_read<'a>(
    request: &SignedConsentRequest,
    context: &'a ConsentContext,
    message: MessageId,
    purpose: &DecryptionPurpose,
    custodian: EndpointPublicKey,
    now: CanonicalTime,
) -> (result: Result<AuthorizedDecryption<'a>, ConsentError>)
    ensures
        match context@.permit(request@, message, *purpose, custodian, now) {
            Ok(permit) => result matches Ok(found) && found@ == permit,
            Err(e) => result == Err::<AuthorizedDecryption<'a>, ConsentError>(e),
        },
{
    let grant = match owned_grant(request, context) {
        Ok(grant) => grant,
        Err(e) => return Err(e),
    };
    // Recovery revokes the old signing keys, invalidating their existing grants.
    if lookup(&context.authority.persona_keys, grant.terms().issuer.0).is_none() {
        return Err(ConsentError::Unauthorized);
    }
    match grant.authorize(request.actor, purpose, message, now) {
        Ok(()) => {},
        Err(e) => return Err(e),
    }
    match check_processor(context, &grant.terms().usage) {
        Ok(()) => {},
        Err(e) => return Err(e),
    }
    let kept = match entitled(context, request, message, now) {
        Ok(kept) => kept,
        Err(e) => return Err(e),
    };
    if !context.custody_key.same(&custodian) {
        return Err(ConsentError::Unavailable);
    }
    Ok(
        AuthorizedDecryption {
            source: &kept.recovery,
            manifest: &kept.record.manifest,
            destination: grant.terms().usage.destination,
            at: now,
            expires_at: earlier_of(
                earlier_of(grant.terms().expires_at, kept.expires_at),
                kept.recovery.ciphertext.expires_at,
            ),
        },
    )
}

/// Takes what a custodian released, if it is what was permitted.
fn accept_release(
    permit: &AuthorizedDecryption<'_>,
    released: Result<ReleasedCopy, ConsentError>,
    custody_key: &EndpointPublicKey,
) -> (result: Result<ReleasedCopy, ConsentError>)
    ensures
        match released {
            Err(e) => result == Err::<ReleasedCopy, ConsentError>(e),
            Ok(copy) => if release_fits(permit@, copy@, *custody_key) {
                result == released
            } else {
                result == Err::<ReleasedCopy, ConsentError>(ConsentError::Invalid)
            },
        },
{
    let copy = match released {
        Ok(copy) => copy,
        Err(e) => return Err(e),
    };
    if !copy.manifest.same(permit.manifest) || !copy.custodian.same(custody_key)
        || !copy.ciphertext.binding.same(&permit.source.ciphertext.binding)
        || copy.ciphertext.envelope.recipient_key != permit.destination.reference
        || copy.ciphertext.expires_at != permit.expires_at {
        return Err(ConsentError::Invalid);
    }
    Ok(copy)
}

/// Whether an outcome is one that a command can have had.
pub open spec fn outcome_fits(command: ConsentCommandModel, outcome: ConsentOutcome) -> bool {
    match (command, outcome) {
        (ConsentCommandModel::Authorize { id, .. }, ConsentOutcome::Granted(grant)) => id == grant,
        (ConsentCommandModel::Revoke { id }, ConsentOutcome::Revoked(grant)) => id == grant,
        (
            ConsentCommandModel::Read { id, message, .. },
            ConsentOutcome::Released { grant, message: of },
        ) => id == grant && message == of,
        _ => false,
    }
}

impl ConsentContextModel {
    /// What a request is answered that was decided before, if it was. Releases are not repeated.
    pub open spec fn replayed(self, request: ConsentRequestModel, key: [u8; 32]) -> Result<
        Option<ConsentDecisionModel>,
        ConsentError,
    > {
        match self.prior {
            None => Ok(None),
            Some(prior) => if prior.digest != sha256_of(request.message()) || prior.account
                != request.account || prior.persona != request.persona || prior.actor
                != request.actor || prior.operation != request.operation {
                Err(ConsentError::Conflict)
            } else if !outcome_fits(request.command, prior.outcome) || prior.verifying_key != key
                || prior.signature != request.signature {
                Err(ConsentError::Invalid)
            } else {
                Ok(
                    Some(
                        ConsentDecisionModel {
                            response: match prior.outcome {
                                ConsentOutcome::Released { grant, message } => {
                                    ConsentResponseModel::AlreadyReleased { grant, message }
                                },
                                outcome => ConsentResponseModel::Outcome(outcome),
                            },
                            effects: None,
                        },
                    ),
                )
            },
        }
    }

    /// What a new command is answered, what is recorded of it, and the grant as it leaves it.
    /// Inspection is not recorded.
    pub open spec fn acted(
        self,
        request: ConsentRequestModel,
        custodian: EndpointPublicKey,
        released: Result<ReleasedModel, ConsentError>,
        now: CanonicalTime,
    ) -> Result<
        (ConsentResponseModel, Option<(ConsentOutcome, Option<GrantModel>)>),
        ConsentError,
    > {
        match request.command {
            ConsentCommandModel::Inspect { .. } => if request.actor is CsqdProcessor {
                Err(ConsentError::Unauthorized)
            } else {
                match self.owned_grant(request) {
                    None => Err(ConsentError::Unauthorized),
                    Some(grant) => Ok((ConsentResponseModel::Grant(grant@), None)),
                }
            },
            ConsentCommandModel::Authorize { id, scope, usage, expires_at } => match self.issued(
                request,
                scope,
                usage,
                expires_at,
                now,
            ) {
                Err(e) => Err(e),
                Ok(grant) => Ok(
                    (
                        ConsentResponseModel::Outcome(ConsentOutcome::Granted(id)),
                        Some((ConsentOutcome::Granted(id), Some(grant))),
                    ),
                ),
            },
            ConsentCommandModel::Revoke { id } => if request.actor is CsqdProcessor {
                Err(ConsentError::Unauthorized)
            } else {
                match self.owned_grant(request) {
                    None => Err(ConsentError::Unauthorized),
                    Some(grant) => if now.0 < grant@.issued_at.0 {
                        Err(ConsentError::Invalid)
                    } else {
                        Ok(
                            (
                                ConsentResponseModel::Outcome(ConsentOutcome::Revoked(id)),
                                Some(
                                    (
                                        ConsentOutcome::Revoked(id),
                                        Some(
                                            GrantModel {
                                                state: grant.revoked_state(now),
                                                ..grant@
                                            },
                                        ),
                                    ),
                                ),
                            ),
                        )
                    },
                }
            },
            ConsentCommandModel::Read { id, message, purpose } => match self.permit(
                request,
                message,
                purpose,
                custodian,
                now,
            ) {
                Err(e) => Err(e),
                Ok(permit) => match released {
                    Err(e) => Err(e),
                    Ok(copy) => if release_fits(permit, copy, self.custody_key) {
                        Ok(
                            (
                                ConsentResponseModel::Released(copy),
                                Some((ConsentOutcome::Released { grant: id, message }, None)),
                            ),
                        )
                    } else {
                        Err(ConsentError::Invalid)
                    },
                },
            },
        }
    }

    /// The answer to a request and all that comes with it, or why it is refused, where a custodian
    /// with the given key returns the given copy if it is asked to.
    pub open spec fn decided(
        self,
        request: ConsentRequestModel,
        custodian: EndpointPublicKey,
        released: Result<ReleasedModel, ConsentError>,
        now: CanonicalTime,
    ) -> Result<ConsentDecisionModel, ConsentError> {
        match authentication(request, self.authority, self.processor) {
            Err(e) => Err(e),
            Ok(key) => match self.replayed(request, key) {
                Err(e) => Err(e),
                Ok(Some(prior)) => Ok(prior),
                Ok(None) => match self.acted(request, custodian, released, now) {
                    Err(e) => Err(e),
                    Ok((response, recorded)) => Ok(
                        ConsentDecisionModel {
                            response,
                            effects: match recorded {
                                None => None,
                                Some((outcome, grant)) => Some(
                                    (
                                        grant,
                                        ConsentReceiptModel {
                                            account: request.account,
                                            persona: request.persona,
                                            actor: request.actor,
                                            operation: request.operation,
                                            digest: sha256_of(request.message()),
                                            signature: request.signature,
                                            verifying_key: key,
                                            authorized_at: now,
                                            outcome,
                                        },
                                    ),
                                ),
                            },
                        },
                    ),
                },
            },
        }
    }
}

pub open spec fn released_model(released: Result<ReleasedCopy, ConsentError>) -> Result<
    ReleasedModel,
    ConsentError,
> {
    match released {
        Ok(copy) => Ok(copy@),
        Err(e) => Err(e),
    }
}

fn replay(
    request: &SignedConsentRequest,
    context: &ConsentContext,
    key: &[u8; 32],
    digest: &[u8; 32],
) -> (result: Result<Option<ConsentDecision>, ConsentError>)
    requires
        digest@ == sha256_of(request@.message()),
    ensures
        match context@.replayed(request@, *key) {
            Ok(Some(decision)) => result matches Ok(Some(found)) && found@ == decision,
            Ok(None) => result matches Ok(None),
            Err(e) => result == Err::<Option<ConsentDecision>, ConsentError>(e),
        },
{
    let prior = match &context.prior {
        Some(prior) => prior,
        None => return Ok(None),
    };
    if !same_bytes(prior.digest.as_slice(), digest.as_slice()) || prior.account != request.account
        || prior.persona != request.persona || prior.actor != request.actor || prior.operation
        != request.operation {
        return Err(ConsentError::Conflict);
    }
    let fits = match (&request.command, &prior.outcome) {
        (ConsentCommand::Authorize { id, .. }, ConsentOutcome::Granted(grant)) => *id == *grant,
        (ConsentCommand::Revoke { id }, ConsentOutcome::Revoked(grant)) => *id == *grant,
        (
            ConsentCommand::Read { id, message, .. },
            ConsentOutcome::Released { grant, message: of },
        ) => *id == *grant && *message == *of,
        _ => false,
    };
    if !fits || !same_32(&prior.verifying_key, key) || !same_bytes(
        prior.signature.as_slice(),
        request.signature.as_slice(),
    ) {
        return Err(ConsentError::Invalid);
    }
    let response = match prior.outcome {
        ConsentOutcome::Released { grant, message } => ConsentResponse::AlreadyReleased {
            grant,
            message,
        },
        outcome => ConsentResponse::Outcome(outcome),
    };
    Ok(Some(ConsentDecision { response, effects: None }))
}

fn act(
    request: &SignedConsentRequest,
    context: &ConsentContext,
    custodian: EndpointPublicKey,
    released: Result<ReleasedCopy, ConsentError>,
    now: CanonicalTime,
) -> (result: Result<
    (ConsentResponse, Option<(ConsentOutcome, Option<DecryptionGrant>)>),
    ConsentError,
>)
    ensures
        match context@.acted(request@, custodian, released_model(released), now) {
            Ok((response, recorded)) => result matches Ok(acted) && acted.0@ == response && (
            match acted.1 {
                None => recorded is None,
                Some((outcome, None)) => recorded == Some((outcome, None::<GrantModel>)),
                Some((outcome, Some(grant))) => recorded == Some((outcome, Some(grant@))),
            }),
            Err(e) => result == Err::<
                (ConsentResponse, Option<(ConsentOutcome, Option<DecryptionGrant>)>),
                ConsentError,
            >(e),
        },
{
    let device = matches!(request.actor, DecryptionActor::UserDevice(_));
    match &request.command {
        ConsentCommand::Inspect { .. } => {
            if !device {
                return Err(ConsentError::Unauthorized);
            }
            match owned_grant(request, context) {
                Ok(grant) => Ok((ConsentResponse::Grant(grant.clone()), None)),
                Err(e) => Err(e),
            }
        },
        ConsentCommand::Authorize { id, scope, usage, expires_at } => {
            match issue(request, context, *id, scope, usage, *expires_at, now) {
                Ok(grant) => {
                    let outcome = ConsentOutcome::Granted(*id);
                    Ok((ConsentResponse::Outcome(outcome), Some((outcome, Some(grant)))))
                },
                Err(e) => Err(e),
            }
        },
        ConsentCommand::Revoke { id } => {
            if !device {
                return Err(ConsentError::Unauthorized);
            }
            let grant = match owned_grant(request, context) {
                Ok(grant) => grant,
                Err(e) => return Err(e),
            };
            match grant.revoke(now) {
                Ok(revoked) => {
                    let outcome = ConsentOutcome::Revoked(*id);
                    Ok((ConsentResponse::Outcome(outcome), Some((outcome, Some(revoked)))))
                },
                Err(e) => Err(e),
            }
        },
        ConsentCommand::Read { id, message, purpose } => {
            let permit = match permit_read(request, context, *message, purpose, custodian, now) {
                Ok(permit) => permit,
                Err(e) => return Err(e),
            };
            match accept_release(&permit, released, &context.custody_key) {
                Ok(copy) => Ok(
                    (
                        ConsentResponse::Released(Box::new(copy)),
                        Some((ConsentOutcome::Released { grant: *id, message: *message }, None)),
                    ),
                ),
                Err(e) => Err(e),
            }
        },
    }
}

/// What a custodian is to release for a request, if the request is one that reads, is
/// authenticated, was not decided before, and is permitted.
pub fn release_permit<'a>(
    request: &SignedConsentRequest,
    context: &'a ConsentContext,
    custodian: EndpointPublicKey,
    now: CanonicalTime,
) -> (permit: Option<AuthorizedDecryption<'a>>)
    ensures
        match request@.command {
            ConsentCommandModel::Read { message, purpose, .. } => {
                let permitted = context@.permit(request@, message, purpose, custodian, now);
                if authentication(request@, context@.authority, context@.processor) is Ok
                    && context@.prior is None && permitted is Ok {
                    permit matches Some(found) && found@ == permitted->Ok_0
                } else {
                    permit is None
                }
            },
            _ => permit is None,
        },
{
    if authenticate(request, &context.authority, &context.processor).is_err()
        || context.prior.is_some() {
        return None;
    }
    match &request.command {
        ConsentCommand::Read { message, purpose, .. } => match permit_read(
            request,
            context,
            *message,
            purpose,
            custodian,
            now,
        ) {
            Ok(permit) => Some(permit),
            Err(_) => None,
        },
        _ => None,
    }
}

/// Decides a consent request, given the custodian's key and what the custodian released.
pub fn conclude(
    request: &SignedConsentRequest,
    context: &ConsentContext,
    custodian: EndpointPublicKey,
    released: Result<ReleasedCopy, ConsentError>,
    now: CanonicalTime,
) -> (result: Result<ConsentDecision, ConsentError>)
    ensures
        match context@.decided(request@, custodian, released_model(released), now) {
            Ok(decision) => result matches Ok(found) && found@ == decision,
            Err(e) => result == Err::<ConsentDecision, ConsentError>(e),
        },
{
    let verifying_key = match authenticate(request, &context.authority, &context.processor) {
        Ok(key) => key,
        Err(e) => return Err(e),
    };
    let digest = match request.digest() {
        Ok(digest) => digest,
        Err(e) => return Err(e),
    };
    match replay(request, context, &verifying_key, &digest) {
        Ok(Some(prior)) => return Ok(prior),
        Ok(None) => {},
        Err(e) => return Err(e),
    }
    let (response, recorded) = match act(request, context, custodian, released, now) {
        Ok(acted) => acted,
        Err(e) => return Err(e),
    };
    match recorded {
        None => Ok(ConsentDecision { response, effects: None }),
        Some((outcome, grant)) => {
            let receipt = ConsentReceipt {
                account: request.account,
                persona: request.persona,
                actor: request.actor,
                operation: request.operation,
                digest,
                signature: copy_bytes(&request.signature),
                verifying_key,
                authorized_at: now,
                outcome,
            };
            Ok(ConsentDecision { response, effects: Some(ConsentEffects { grant, receipt }) })
        },
    }
}

/// Decides a consent request. The custodian is asked for a release only under a permit; whatever
/// it returns is accepted only if it is what was permitted.
pub fn decide<K: LocalKeyCustody>(
    request: &SignedConsentRequest,
    context: &ConsentContext,
    custodian: &K,
    now: CanonicalTime,
) -> (result: Result<ConsentDecision, ConsentError>)
    ensures
        exists|key: EndpointPublicKey, released: Result<ReleasedModel, ConsentError>|
            match #[trigger] context@.decided(request@, key, released, now) {
                Ok(decision) => result matches Ok(found) && found@ == decision,
                Err(e) => result == Err::<ConsentDecision, ConsentError>(e),
            },
{
    let key = custodian.public_key();
    let released = match release_permit(request, context, key, now) {
        Some(permit) => custodian.release(permit),
        None => Err(ConsentError::Unauthorized),
    };
    let ghost outcome = released_model(released);
    let result = conclude(request, context, key, released, now);
    assert(match context@.decided(request@, key, outcome, now) {
        Ok(decision) => result matches Ok(found) && found@ == decision,
        Err(e) => result == Err::<ConsentDecision, ConsentError>(e),
    });
    result
}

/// Content leaves only under live consent: a release is authenticated, covered by a grant of the
/// persona that is neither expired nor revoked nor issued by a key that has since lost its
/// authority, sealed to the granted destination, and ends with the grant at the latest.
pub proof fn releases_need_consent(
    context: ConsentContextModel,
    request: ConsentRequestModel,
    custodian: EndpointPublicKey,
    released: Result<ReleasedModel, ConsentError>,
    now: CanonicalTime,
)
    requires
        context.decided(request, custodian, released, now) is Ok,
        context.decided(request, custodian, released, now)->Ok_0.response is Released,
    ensures
        authentication(request, context.authority, context.processor) is Ok,
        context.prior is None,
        request.command is Read,
        context.owned_grant(request) is Some,
        ({
            let grant = context.owned_grant(request)->Some_0;
            let message = request.command->Read_message;
            let copy = context.decided(request, custodian, released, now)->Ok_0.response->Released_0;
            &&& grant.standing() is Active
            &&& grant@.issued_at.0 <= now.0 < grant@.expires_at.0
            &&& grant@.scope.contains(message.0)
            &&& grant@.usage.actor == request.actor
            &&& context.authority.persona_keys.contains_key(grant@.issuer.0)
            &&& context.retained.contains_key(message.0)
            &&& now.0 < context.retained[message.0].expires_at.0
            &&& copy.ciphertext.envelope.recipient_key == grant@.usage.destination.reference
            &&& copy.ciphertext.expires_at.0 <= grant@.expires_at.0
            &&& copy.manifest == context.retained[message.0].record.manifest
        }),
{
}

/// Recovery ends earlier grants: where no key but the recovered one still acts for the persona,
/// nothing is released under a grant that another key issued.
pub proof fn recovery_ends_earlier_grants(
    context: ConsentContextModel,
    request: ConsentRequestModel,
    custodian: EndpointPublicKey,
    released: Result<ReleasedModel, ConsentError>,
    now: CanonicalTime,
    recovered: OperationalKeyRef,
)
    requires
        forall|k: u128| #[trigger]
            context.authority.persona_keys.contains_key(k) ==> k == recovered.0,
        context.owned_grant(request) matches Some(grant) && grant@.issuer != recovered,
    ensures
        context.decided(request, custodian, released, now) matches Ok(decision) ==> !(
        decision.response is Released),
{
    if context.decided(request, custodian, released, now) is Ok && context.decided(
        request,
        custodian,
        released,
        now,
    )->Ok_0.response is Released {
        releases_need_consent(context, request, custodian, released, now);
    }
}

/// An exact retry is answered from its receipt, whatever has changed since, with no effects and
/// with no ciphertext.
pub proof fn consent_retries_disclose_nothing(
    context: ConsentContextModel,
    request: ConsentRequestModel,
    custodian: EndpointPublicKey,
    released: Result<ReleasedModel, ConsentError>,
    now: CanonicalTime,
)
    requires
        context.prior is Some,
        context.decided(request, custodian, released, now) is Ok,
    ensures
        context.decided(request, custodian, released, now)->Ok_0.effects is None,
        context.decided(request, custodian, released, now)->Ok_0.response == (
        match context.prior->Some_0.outcome {
            ConsentOutcome::Released { grant, message } => ConsentResponseModel::AlreadyReleased {
                grant,
                message,
            },
            outcome => ConsentResponseModel::Outcome(outcome),
        }),
{
}

/// What was decided once is answered on an exact retry under the same key.
pub proof fn consent_retries_succeed(
    before: ConsentContextModel,
    request: ConsentRequestModel,
    custodian: EndpointPublicKey,
    released: Result<ReleasedModel, ConsentError>,
    now: CanonicalTime,
    after: ConsentContextModel,
    later: CanonicalTime,
)
    requires
        before.decided(request, custodian, released, now) is Ok,
        before.decided(request, custodian, released, now)->Ok_0.effects is Some,
        after.prior == Some(
            before.decided(request, custodian, released, now)->Ok_0.effects->Some_0.1,
        ),
        authentication(request, after.authority, after.processor) == authentication(
            request,
            before.authority,
            before.processor,
        ),
    ensures
        after.decided(request, custodian, released, later) is Ok,
{
}

/// Whose signature a request takes: that of a device that acts for the persona now, or that of the
/// active processor that is registered under its key, for an account in service, in its product and
/// with its persona.
pub proof fn requests_are_signed_by_who_may_ask(
    request: ConsentRequestModel,
    authority: PersonaAuthorityModel,
    processor: Option<ProcessorRegistration>,
)
    requires
        authentication(request, authority, processor) is Ok,
    ensures
        ({
            let key = authentication(request, authority, processor)->Ok_0;
            &&& ed25519_accepts_strictly(key@, request.message(), request.signature)
            &&& request.product.len() > 0
            &&& request.account.0 != 0
            &&& request.persona.0 != 0
            &&& request.operation.0 != 0
            &&& match request.actor {
                DecryptionActor::UserDevice(device) => authority.persona_keys.contains_key(device.0)
                    && authority.persona_keys[device.0] == key,
                DecryptionActor::CsqdProcessor(named) => {
                    &&& authority.product == request.product
                    &&& authority.control.status == AccountStatus::Active
                    &&& authority.control.personas.contains(request.persona.0)
                    &&& processor is Some
                    &&& processor->Some_0.active
                    &&& processor->Some_0.key == named
                    &&& processor->Some_0.verifying_key == key
                    &&& processor->Some_0.usage.actor == DecryptionActor::CsqdProcessor(named)
                },
            }
        }),
{
}

proof fn lemma_entitled_to(
    context: ConsentContextModel,
    request: ConsentRequestModel,
    messages: Seq<u128>,
    n: nat,
    now: CanonicalTime,
    i: int,
)
    requires
        0 <= i < n <= messages.len(),
        context.first_refusal(request, messages, n, now) is None,
    ensures
        context.entitlement(request, MessageId(messages[i]), now) is Ok,
    decreases n,
{
    if i < n - 1 {
        lemma_entitled_to(context, request, messages, (n - 1) as nat, now, i);
    }
}

/// What a grant takes: a device asks for it, under an identifier that is free; it is from now, for
/// at most a day, on the terms that were asked for; a processor gets what it is registered for.
pub proof fn grants_are_issued_by_devices(
    context: ConsentContextModel,
    request: ConsentRequestModel,
    custodian: EndpointPublicKey,
    released: Result<ReleasedModel, ConsentError>,
    now: CanonicalTime,
)
    requires
        context.decided(request, custodian, released, now) is Ok,
        context.prior is None,
        request.command is Authorize,
    ensures
        ({
            let decision = context.decided(request, custodian, released, now)->Ok_0;
            let grant = decision.effects->Some_0.0->Some_0;
            let usage = request.command->Authorize_usage;
            &&& request.actor is UserDevice
            &&& context.grant is None
            &&& decision.response == ConsentResponseModel::Outcome(
                ConsentOutcome::Granted(request.command->Authorize_id),
            )
            &&& decision.effects is Some
            &&& decision.effects->Some_0.0 is Some
            &&& grant.id == request.command->Authorize_id
            &&& grant.account == request.account
            &&& grant.persona == request.persona
            &&& grant.issuer == request.actor->UserDevice_0
            &&& grant.scope == request.command->Authorize_scope
            &&& grant.usage == usage
            &&& grant.issued_at == now
            &&& grant.expires_at == request.command->Authorize_expires_at
            &&& grant.state is Active
            &&& now.0 < grant.expires_at.0
            &&& grant.expires_at.0 - now.0 <= 24 * 60 * 60 * 1000
            &&& usage.actor is UserDevice ==> usage.actor->UserDevice_0 == grant.issuer
                && usage.purpose is Display
            &&& usage.actor is CsqdProcessor ==> {
                &&& context.processor is Some
                &&& context.processor->Some_0.active
                &&& context.processor->Some_0.key == usage.actor->CsqdProcessor_0
                &&& context.processor->Some_0.usage.destination == usage.destination
                &&& usage.purpose is CsqdProcessing
                &&& context.processor->Some_0.usage.purpose is CsqdProcessing
                &&& context.processor->Some_0.usage.purpose->operation@ == usage.purpose->operation@
            }
        }),
{
    lemma_issued(context, request, custodian, released, now);
}

proof fn lemma_issued(
    context: ConsentContextModel,
    request: ConsentRequestModel,
    custodian: EndpointPublicKey,
    released: Result<ReleasedModel, ConsentError>,
    now: CanonicalTime,
)
    requires
        context.decided(request, custodian, released, now) is Ok,
        context.prior is None,
        request.command is Authorize,
    ensures
        ({
            let decision = context.decided(request, custodian, released, now)->Ok_0;
            let grant = context.issued(
                request,
                request.command->Authorize_scope,
                request.command->Authorize_usage,
                request.command->Authorize_expires_at,
                now,
            );
            &&& grant is Ok
            &&& decision.response == ConsentResponseModel::Outcome(
                ConsentOutcome::Granted(request.command->Authorize_id),
            )
            &&& decision.effects is Some
            &&& decision.effects->Some_0.0 == Some(grant->Ok_0)
        }),
{
}

/// A grant is only for messages of which a copy is kept that the persona is entitled to: one that
/// has not expired, of that message, for that persona, from its author, and sealed to the custodian.
pub proof fn grants_are_for_kept_messages(
    context: ConsentContextModel,
    request: ConsentRequestModel,
    custodian: EndpointPublicKey,
    released: Result<ReleasedModel, ConsentError>,
    now: CanonicalTime,
    m: u128,
)
    requires
        context.decided(request, custodian, released, now) is Ok,
        context.prior is None,
        request.command is Authorize,
        request.command->Authorize_scope.contains(m),
    ensures
        ({
            let kept = context.retained[m];
            let copy = kept.recovery.ciphertext;
            &&& context.retained.contains_key(m)
            &&& now.0 < kept.expires_at.0
            &&& now.0 < copy.expires_at.0
            &&& kept.record.manifest.message.0 == m
            &&& copy.binding.message_id.0 == m
            &&& copy.binding.recipient == request.persona
            &&& copy.binding.sender == kept.record.author
            &&& copy.envelope.recipient_key == context.custody_key.reference
            &&& copy.envelope.sender_key == kept.recovery.sender.reference
        }),
{
    let scope = request.command->Authorize_scope;
    let usage = request.command->Authorize_usage;
    lemma_issued(context, request, custodian, released, now);
    lemma_in_scope(context, request, scope, usage, request.command->Authorize_expires_at, now, m);
}

proof fn lemma_in_scope(
    context: ConsentContextModel,
    request: ConsentRequestModel,
    scope: Set<u128>,
    usage: GrantUse,
    expires_at: CanonicalTime,
    now: CanonicalTime,
    m: u128,
)
    requires
        context.issued(request, scope, usage, expires_at, now) is Ok,
        scope.contains(m),
    ensures
        context.entitlement(request, MessageId(m), now) is Ok,
{
    let messages = sorted_members(scope);
    assert(context.first_refusal(request, messages, messages.len(), now) is None);
    lemma_sorted_members(scope);
    assert(messages.contains(m));
    let i = choose|i: int| 0 <= i < messages.len() && messages[i] == m;
    lemma_entitled_to(context, request, messages, messages.len(), now, i);
}

/// A device of the persona ends a grant, of the account and persona that ask, from now on; the first
/// revocation stands. Nothing else of the grant changes.
pub proof fn devices_revoke_grants(
    context: ConsentContextModel,
    request: ConsentRequestModel,
    custodian: EndpointPublicKey,
    released: Result<ReleasedModel, ConsentError>,
    now: CanonicalTime,
)
    requires
        request.command is Revoke,
        context.prior is None,
        authentication(request, context.authority, context.processor) is Ok,
    ensures
        ({
            let result = context.decided(request, custodian, released, now);
            let grant = context.grant->Some_0;
            let next = result->Ok_0.effects->Some_0.0->Some_0;
            &&& result is Ok <==> {
                &&& request.actor is UserDevice
                &&& context.grant is Some
                &&& grant@.id == request.command->Revoke_id
                &&& grant@.account == request.account
                &&& grant@.persona == request.persona
                &&& grant@.issued_at.0 <= now.0
            }
            &&& result is Ok ==> {
                &&& result->Ok_0.effects is Some
                &&& result->Ok_0.effects->Some_0.0 is Some
                &&& next.state == if grant@.state is Active {
                    GrantState::Revoked { at: now }
                } else {
                    grant@.state
                }
                &&& next.id == grant@.id && next.account == grant@.account && next.persona
                    == grant@.persona && next.issuer == grant@.issuer && next.scope == grant@.scope
                    && next.usage == grant@.usage && next.issued_at == grant@.issued_at
                    && next.expires_at == grant@.expires_at
                &&& result->Ok_0.response == ConsentResponseModel::Outcome(
                    ConsentOutcome::Revoked(request.command->Revoke_id),
                )
            }
        }),
{
}

/// Only a device sees a grant, and only one of its own account and persona; it leaves no trace.
pub proof fn devices_inspect_their_grants(
    context: ConsentContextModel,
    request: ConsentRequestModel,
    custodian: EndpointPublicKey,
    released: Result<ReleasedModel, ConsentError>,
    now: CanonicalTime,
)
    requires
        request.command is Inspect,
        context.prior is None,
        authentication(request, context.authority, context.processor) is Ok,
    ensures
        ({
            let result = context.decided(request, custodian, released, now);
            let grant = context.grant->Some_0;
            &&& result is Ok <==> {
                &&& request.actor is UserDevice
                &&& context.grant is Some
                &&& grant@.id == request.command->Inspect_id
                &&& grant@.account == request.account
                &&& grant@.persona == request.persona
            }
            &&& result is Ok ==> result->Ok_0.effects is None && result->Ok_0.response
                == ConsentResponseModel::Grant(grant@)
        }),
{
}

/// What a release takes, and what it is: a grant of the account and persona that ask, for the actor,
/// the purpose and the message, in force now and issued by a key that still acts for the persona; a
/// kept copy that the persona is entitled to; and the custodian on record. What goes out is that
/// message, sealed for the key that the grant names, and expires with the first of the grant, the
/// retention and the copy.
pub proof fn releases_are_what_was_granted(
    context: ConsentContextModel,
    request: ConsentRequestModel,
    custodian: EndpointPublicKey,
    released: Result<ReleasedModel, ConsentError>,
    now: CanonicalTime,
)
    requires
        context.decided(request, custodian, released, now) is Ok,
        context.prior is None,
        request.command is Read,
    ensures
        ({
            let decision = context.decided(request, custodian, released, now)->Ok_0;
            let copy = decision.response->Released_0;
            let grant = context.grant->Some_0@;
            let m = request.command->Read_message;
            let kept = context.retained[m.0];
            let source = kept.recovery.ciphertext;
            let until = copy.ciphertext.expires_at.0;
            &&& decision.response is Released
            &&& released == Ok::<ReleasedModel, ConsentError>(copy)
            &&& decision.effects is Some
            &&& decision.effects->Some_0.0 is None
            &&& decision.effects->Some_0.1.outcome == ConsentOutcome::Released {
                grant: grant.id,
                message: m,
            }
            &&& context.grant is Some
            &&& grant.id == request.command->Read_id
            &&& grant.account == request.account
            &&& grant.persona == request.persona
            &&& grant.state is Active
            &&& grant.issued_at.0 <= now.0 && now.0 < grant.expires_at.0
            &&& grant.usage.actor == request.actor
            &&& grant.scope.contains(m.0)
            &&& match (grant.usage.purpose, request.command->Read_purpose) {
                (DecryptionPurpose::Display, DecryptionPurpose::Display) => true,
                (
                    DecryptionPurpose::CsqdProcessing { operation: a },
                    DecryptionPurpose::CsqdProcessing { operation: b },
                ) => a@ == b@,
                _ => false,
            }
            &&& context.authority.persona_keys.contains_key(grant.issuer.0)
            &&& request.actor is CsqdProcessor ==> context.processor is Some
                && context.processor->Some_0.active
            &&& context.retained.contains_key(m.0)
            &&& now.0 < kept.expires_at.0 && now.0 < source.expires_at.0
            &&& kept.record.manifest.message == m
            &&& source.binding.message_id == m
            &&& source.binding.recipient == request.persona
            &&& source.binding.sender == kept.record.author
            &&& source.envelope.recipient_key == custodian.reference
            &&& context.custody_key == custodian
            &&& copy.custodian == custodian
            &&& copy.manifest == kept.record.manifest
            &&& copy.ciphertext.binding.message_id == m
            &&& copy.ciphertext.binding.recipient == request.persona
            &&& copy.ciphertext.binding.sender == kept.record.author
            &&& copy.ciphertext.envelope.recipient_key == grant.usage.destination.reference
            &&& until <= grant.expires_at.0 && until <= kept.expires_at.0 && until
                <= source.expires_at.0
            &&& until == grant.expires_at.0 || until == kept.expires_at.0 || until
                == source.expires_at.0
        }),
{
}

/// A request is answered from a receipt only if the receipt is its own: of the same account, persona,
/// actor and operation, for all that the request says, under the same key and signature.
pub proof fn receipts_answer_their_own_request(
    context: ConsentContextModel,
    request: ConsentRequestModel,
    custodian: EndpointPublicKey,
    released: Result<ReleasedModel, ConsentError>,
    now: CanonicalTime,
)
    requires
        context.prior is Some,
        context.decided(request, custodian, released, now) is Ok,
    ensures
        ({
            let prior = context.prior->Some_0;
            &&& prior.digest == sha256_of(request.message())
            &&& prior.account == request.account
            &&& prior.persona == request.persona
            &&& prior.actor == request.actor
            &&& prior.operation == request.operation
            &&& prior.signature == request.signature
            &&& authentication(request, context.authority, context.processor) == Ok::<
                [u8; 32],
                ConsentError,
            >(prior.verifying_key)
            &&& match (request.command, prior.outcome) {
                (ConsentCommandModel::Authorize { id, .. }, ConsentOutcome::Granted(grant)) => id
                    == grant,
                (ConsentCommandModel::Revoke { id }, ConsentOutcome::Revoked(grant)) => id == grant,
                (
                    ConsentCommandModel::Read { id, message, .. },
                    ConsentOutcome::Released { grant, message: of },
                ) => id == grant && message == of,
                _ => false,
            }
        }),
{
}

/// What is released to a processor is for the use that the processor is registered for now: its key,
/// its operation and the key that it receives under.
pub proof fn processors_get_what_they_are_registered_for(
    context: ConsentContextModel,
    request: ConsentRequestModel,
    custodian: EndpointPublicKey,
    released: Result<ReleasedModel, ConsentError>,
    now: CanonicalTime,
)
    requires
        context.decided(request, custodian, released, now) is Ok,
        context.decided(request, custodian, released, now)->Ok_0.response is Released,
        request.actor is CsqdProcessor,
    ensures
        ({
            let copy = context.decided(request, custodian, released, now)->Ok_0.response->Released_0;
            let registration = context.processor->Some_0;
            &&& context.processor is Some
            &&& registration.active
            &&& registration.key == request.actor->CsqdProcessor_0
            &&& copy.ciphertext.envelope.recipient_key == registration.usage.destination.reference
            &&& registration.usage.purpose is CsqdProcessing
            &&& request.command->Read_purpose is CsqdProcessing
            &&& registration.usage.purpose->operation@ == request.command->Read_purpose->operation@
        }),
{
}

} // verus!

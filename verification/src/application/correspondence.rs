//! Signed, headless correspondence use cases. Delivery handles only ciphertext; managed decryption
//! has its own use cases.

use super::request::{
    AuditAction, Command, CommandModel, PackageModel, PreparedMessage, RecoveryCopy, RecoveryModel,
    RequestModel, SignedRequest,
};
use super::reuse::policies;
use crate::bytes::{is_zero_32, same_32, zero_32};
use crate::capabilities::grant::{LaneMode, LaneSubject};
use crate::capabilities::lane::{Lane, LaneEvidence, LaneModel, LaneState};
use crate::content::certificate::EndpointPublicKey;
use crate::content::cipher::EncryptedContentRecord;
use crate::content::encoding::SealedModel;
use crate::correspondence::document::{
    source_models, ManifestModel, MessageManifest, SourceModel,
};
use crate::correspondence::policy::{
    persona_pair, Conversation, ConversationId, CorrespondenceError, CorrespondenceRef, ReusePolicy,
};
use crate::correspondence::selection::{MessageSelection, SelectionModel};
use crate::correspondence::shape::MAX_ENCODED_DOCUMENT_BYTES;
use crate::crypto::sha256_of;
use crate::maps::{holds, lookup, lookup_pair, put};
use crate::primitives::amounts::CanonicalTime;
use crate::primitives::declarations::DeclarationAuthority;
use crate::primitives::ids::{MessageId, OperationalKeyRef, ProtocolIdentity};
use crate::primitives::versions::{ProtocolVersion, WireVersion};
use crate::protocol::{AdmissionBasis, Relationship, RelationshipState};
use std::collections::BTreeMap;
use vstd::prelude::*;

verus! {

/// Headers survive copy deletion for provenance and current-policy evaluation.
#[derive(PartialEq, Eq)]
pub struct MessageRecord {
    pub manifest: MessageManifest,
    pub author: ProtocolIdentity,
    pub admission: AdmissionBasis,
    pub committed_at: CanonicalTime,
}

pub ghost struct MessageModel {
    pub manifest: ManifestModel,
    pub author: ProtocolIdentity,
    pub admission: AdmissionBasis,
    pub committed_at: CanonicalTime,
}

impl View for MessageRecord {
    type V = MessageModel;

    open spec fn view(&self) -> MessageModel {
        MessageModel {
            manifest: self.manifest@,
            author: self.author,
            admission: self.admission,
            committed_at: self.committed_at,
        }
    }
}

impl Clone for MessageRecord {
    fn clone(&self) -> (copy: Self)
        ensures
            copy@ == self@,
    {
        MessageRecord {
            manifest: self.manifest.clone(),
            author: self.author,
            admission: self.admission,
            committed_at: self.committed_at,
        }
    }
}

/// Whether a source of a message can be read by someone.
#[derive(Clone, Copy, Debug, PartialEq, Eq, Structural)]
pub enum SourceState {
    Available,
    Unavailable,
    AccessDenied,
}

/// Whether a message may be sent, and what its recipient will find of its sources: in manifest
/// order, without source titles, author names or previews.
#[derive(Debug, PartialEq, Eq)]
pub struct Assessment {
    pub reuse: Result<(), CorrespondenceError>,
    pub recipient_sources: Vec<SourceState>,
}

#[derive(PartialEq, Eq)]
pub struct MessageView {
    pub record: MessageRecord,
    pub ciphertext: EncryptedContentRecord,
}

/// What a request is answered.
#[derive(PartialEq, Eq)]
pub enum Response {
    Mailbox { entries: Vec<(u64, MessageRecord)>, next_after: u64 },
    Conversation(Conversation),
    Assessment(Assessment),
    Committed(MessageId),
    Message(Box<MessageView>),
    Unavailable,
    AccessDenied,
    CopiesDeleted,
}

pub ghost enum ResponseModel {
    Mailbox { entries: Seq<(u64, MessageModel)>, next_after: u64 },
    Conversation(Conversation),
    Assessment { reuse: Result<(), CorrespondenceError>, recipient_sources: Seq<SourceState> },
    Committed(MessageId),
    Message { record: MessageModel, ciphertext: SealedModel },
    Unavailable,
    AccessDenied,
    CopiesDeleted,
}

pub open spec fn entry_models(entries: Seq<(u64, MessageRecord)>) -> Seq<(u64, MessageModel)> {
    Seq::new(entries.len(), |i: int| (entries[i].0, entries[i].1@))
}

impl View for Response {
    type V = ResponseModel;

    open spec fn view(&self) -> ResponseModel {
        match self {
            Response::Mailbox { entries, next_after } => ResponseModel::Mailbox {
                entries: entry_models(entries@),
                next_after: *next_after,
            },
            Response::Conversation(conversation) => ResponseModel::Conversation(*conversation),
            Response::Assessment(assessment) => ResponseModel::Assessment {
                reuse: assessment.reuse,
                recipient_sources: assessment.recipient_sources@,
            },
            Response::Committed(message) => ResponseModel::Committed(*message),
            Response::Message(found) => ResponseModel::Message {
                record: found.record@,
                ciphertext: found.ciphertext@,
            },
            Response::Unavailable => ResponseModel::Unavailable,
            Response::AccessDenied => ResponseModel::AccessDenied,
            Response::CopiesDeleted => ResponseModel::CopiesDeleted,
        }
    }
}

fn copy_entries(entries: &Vec<(u64, MessageRecord)>) -> (copy: Vec<(u64, MessageRecord)>)
    ensures
        entry_models(copy@) == entry_models(entries@),
{
    let mut copy: Vec<(u64, MessageRecord)> = Vec::new();
    let mut i: usize = 0;
    while i < entries.len()
        invariant
            0 <= i <= entries@.len(),
            copy@.len() == i,
            forall|j: int|
                0 <= j < i ==> (#[trigger] copy@[j]).0 == entries@[j].0 && copy@[j].1@
                    == entries@[j].1@,
        decreases entries@.len() - i,
    {
        copy.push((entries[i].0, entries[i].1.clone()));
        i += 1;
    }
    assert(entry_models(copy@) =~= entry_models(entries@));
    copy
}

impl Clone for Response {
    fn clone(&self) -> (copy: Self)
        ensures
            copy@ == self@,
    {
        match self {
            Response::Mailbox { entries, next_after } => Response::Mailbox {
                entries: copy_entries(entries),
                next_after: *next_after,
            },
            Response::Conversation(conversation) => Response::Conversation(*conversation),
            Response::Assessment(assessment) => {
                let recipient_sources = assessment.recipient_sources.clone();
                assert(recipient_sources@ =~= assessment.recipient_sources@);
                Response::Assessment(Assessment { reuse: assessment.reuse, recipient_sources })
            },
            Response::Committed(message) => Response::Committed(*message),
            Response::Message(found) => Response::Message(
                Box::new(
                    MessageView {
                        record: found.record.clone(),
                        ciphertext: found.ciphertext.clone(),
                    },
                ),
            ),
            Response::Unavailable => Response::Unavailable,
            Response::AccessDenied => Response::AccessDenied,
            Response::CopiesDeleted => Response::CopiesDeleted,
        }
    }
}

/// What is kept of a command that changed something. The policy revisions are historical evidence,
/// never authority for a subsequent reuse.
#[derive(PartialEq, Eq)]
pub struct Receipt {
    pub actor: ProtocolIdentity,
    pub key: OperationalKeyRef,
    pub action: AuditAction,
    pub digest: [u8; 32],
    pub outcome: Response,
    pub authorized_at: CanonicalTime,
    pub policy_revisions: BTreeMap<u128, u64>,
}

pub ghost struct ReceiptModel {
    pub actor: ProtocolIdentity,
    pub key: OperationalKeyRef,
    pub action: AuditAction,
    pub digest: Seq<u8>,
    pub outcome: ResponseModel,
    pub authorized_at: CanonicalTime,
    pub policy_revisions: Map<u128, u64>,
}

impl View for Receipt {
    type V = ReceiptModel;

    open spec fn view(&self) -> ReceiptModel {
        ReceiptModel {
            actor: self.actor,
            key: self.key,
            action: self.action,
            digest: self.digest@,
            outcome: self.outcome@,
            authorized_at: self.authorized_at,
            policy_revisions: self.policy_revisions@,
        }
    }
}

/// All that a decision may look at. `persona_key` is the verifying key under which the account
/// lets the request's key act for the request's persona at the time of the decision, if it does.
pub struct Context {
    pub mailbox: Vec<(u64, MessageRecord, CanonicalTime)>,
    pub persona_key: Option<[u8; 32]>,
    pub custody_key: Option<EndpointPublicKey>,
    pub contact: Option<Relationship>,
    pub lane: Option<Lane>,
    pub conversations: BTreeMap<u128, Conversation>,
    pub messages: BTreeMap<u128, MessageRecord>,
    pub retained: BTreeMap<(u128, u128), CanonicalTime>,
    pub fetched_copy: Option<EncryptedContentRecord>,
    pub prior: Option<Receipt>,
}

pub ghost struct ContextModel {
    pub mailbox: Seq<(u64, MessageModel, CanonicalTime)>,
    pub persona_key: Option<[u8; 32]>,
    pub custody_key: Option<EndpointPublicKey>,
    pub contact: Option<Relationship>,
    pub lane: Option<LaneModel>,
    pub conversations: Map<u128, Conversation>,
    pub messages: Map<u128, MessageModel>,
    pub retained: Map<(u128, u128), CanonicalTime>,
    pub fetched_copy: Option<SealedModel>,
    pub prior: Option<ReceiptModel>,
}

impl View for Context {
    type V = ContextModel;

    open spec fn view(&self) -> ContextModel {
        ContextModel {
            mailbox: Seq::new(
                self.mailbox@.len(),
                |i: int| (self.mailbox@[i].0, self.mailbox@[i].1@, self.mailbox@[i].2),
            ),
            persona_key: self.persona_key,
            custody_key: self.custody_key,
            contact: self.contact,
            lane: match self.lane {
                Some(lane) => Some(lane@),
                None => None,
            },
            conversations: self.conversations@,
            messages: self.messages@.map_values(|record: MessageRecord| record@),
            retained: self.retained@,
            fetched_copy: match self.fetched_copy {
                Some(copy) => Some(copy@),
                None => None,
            },
            prior: match self.prior {
                Some(receipt) => Some(receipt@),
                None => None,
            },
        }
    }
}

impl ContextModel {
    /// Every conversation stands under its own identifier.
    pub open spec fn keyed(self) -> bool {
        forall|id: u128| #[trigger]
            self.conversations.contains_key(id) ==> self.conversations[id].id.0 == id
    }

    /// A conversation that a persona takes part in.
    pub open spec fn owned(self, id: ConversationId, actor: ProtocolIdentity) -> Option<
        Conversation,
    > {
        if self.conversations.contains_key(id.0) && self.conversations[id.0].scope.includes(actor) {
            Some(self.conversations[id.0])
        } else {
            None
        }
    }
}

/// A conversation that a persona takes part in; to anyone else there is none.
pub(crate) fn owned(context: &Context, id: ConversationId, actor: ProtocolIdentity) -> (result:
    Result<Conversation, CorrespondenceError>)
    ensures
        match context@.owned(id, actor) {
            Some(conversation) => result == Ok::<Conversation, CorrespondenceError>(conversation),
            None => result == Err::<Conversation, CorrespondenceError>(
                CorrespondenceError::Unauthorized,
            ),
        },
{
    match lookup(&context.conversations, id.0) {
        Some(conversation) => {
            if conversation.scope().contains(actor) {
                Ok(*conversation)
            } else {
                Err(CorrespondenceError::Unauthorized)
            }
        },
        None => Err(CorrespondenceError::Unauthorized),
    }
}

/// What a decision has a store commit, all of it or nothing.
pub struct Effects {
    pub lane: Option<Lane>,
    pub conversation: Option<Conversation>,
    pub delivery: Option<(MessageRecord, Box<PreparedMessage>)>,
    pub delete_copies: Option<ConversationId>,
    pub receipt: Receipt,
}

pub ghost struct EffectsModel {
    pub lane: Option<LaneModel>,
    pub conversation: Option<Conversation>,
    pub delivery: Option<(MessageModel, PackageModel)>,
    pub delete_copies: Option<ConversationId>,
    pub receipt: ReceiptModel,
}

impl View for Effects {
    type V = EffectsModel;

    open spec fn view(&self) -> EffectsModel {
        EffectsModel {
            lane: match self.lane {
                Some(lane) => Some(lane@),
                None => None,
            },
            conversation: self.conversation,
            delivery: match self.delivery {
                Some((record, package)) => Some((record@, (*package)@)),
                None => None,
            },
            delete_copies: self.delete_copies,
            receipt: self.receipt@,
        }
    }
}

/// An answer, and what comes with it. Only the use cases make one.
pub struct Decision {
    response: Response,
    effects: Option<Effects>,
}

pub ghost struct DecisionModel {
    pub response: ResponseModel,
    pub effects: Option<EffectsModel>,
}

impl View for Decision {
    type V = DecisionModel;

    closed spec fn view(&self) -> DecisionModel {
        DecisionModel {
            response: self.response@,
            effects: match self.effects {
                Some(effects) => Some(effects@),
                None => None,
            },
        }
    }
}

impl Decision {
    pub fn into_parts(self) -> (parts: (Response, Option<Effects>))
        ensures
            parts.0@ == self@.response,
            match parts.1 {
                Some(effects) => self@.effects == Some(effects@),
                None => self@.effects is None,
            },
    {
        (self.response, self.effects)
    }
}

impl ContextModel {
    /// The relationship in which one persona may write to another now: an accepted one, or one
    /// that is not blocked and has a current native lane.
    pub open spec fn contact_between(
        self,
        actor: ProtocolIdentity,
        other: ProtocolIdentity,
        now: CanonicalTime,
    ) -> Option<Relationship> {
        if self.contact matches Some(r) && r.key.sender == actor && r.key.recipient == other
            && r.state != RelationshipState::Blocked && (r.state == RelationshipState::Accepted
            || self.native_lane(actor, other, now)) {
            self.contact
        } else {
            None
        }
    }

    pub open spec fn native_lane(
        self,
        actor: ProtocolIdentity,
        other: ProtocolIdentity,
        now: CanonicalTime,
    ) -> bool {
        self.lane matches Some(lane) && lane.grant.sender == actor && lane.grant.recipient == other
            && lane.grant.subject is Native && lane.current(now)
    }

    /// Whether someone's copy of a message is still kept.
    pub open spec fn kept(self, message: MessageId, owner: ProtocolIdentity, now: CanonicalTime) -> bool {
        self.retained.contains_key((message.0, owner.0)) && now.0 < self.retained[(
            message.0,
            owner.0,
        )].0
    }

    /// Whether a persona takes part in the conversation of a known message.
    pub open spec fn accessible(self, message: MessageId, actor: ProtocolIdentity) -> bool {
        self.messages.contains_key(message.0) && self.owned(
            self.messages[message.0].manifest.conversation,
            actor,
        ) is Some
    }

    pub open spec fn source_state(
        self,
        message: MessageId,
        actor: ProtocolIdentity,
        now: CanonicalTime,
    ) -> SourceState {
        if !self.accessible(message, actor) {
            SourceState::AccessDenied
        } else if self.kept(message, actor, now) {
            SourceState::Available
        } else {
            SourceState::Unavailable
        }
    }

    /// What a persona gets of a message.
    pub open spec fn fetched(
        self,
        message: MessageId,
        actor: ProtocolIdentity,
        now: CanonicalTime,
    ) -> ResponseModel {
        if !self.accessible(message, actor) {
            ResponseModel::AccessDenied
        } else if self.fetched_copy is Some && self.kept(message, actor, now) {
            ResponseModel::Message {
                record: self.messages[message.0],
                ciphertext: self.fetched_copy->Some_0,
            }
        } else {
            ResponseModel::Unavailable
        }
    }

    /// What a persona gets of a selection's message.
    pub open spec fn resolved(
        self,
        source: SelectionModel,
        actor: ProtocolIdentity,
        now: CanonicalTime,
    ) -> Result<ResponseModel, CorrespondenceError> {
        match self.source_state(source.message, actor, now) {
            SourceState::AccessDenied => Ok(ResponseModel::AccessDenied),
            SourceState::Unavailable => Ok(ResponseModel::Unavailable),
            SourceState::Available => {
                let manifest = self.messages[source.message.0].manifest;
                if source.targets(manifest.message, manifest.version, manifest.blocks) {
                    Ok(self.fetched(source.message, actor, now))
                } else {
                    Err(CorrespondenceError::Invalid)
                }
            },
        }
    }

    /// What the recipient will find of each source.
    pub open spec fn source_states(
        self,
        manifest: ManifestModel,
        reader: ProtocolIdentity,
        now: CanonicalTime,
    ) -> Seq<SourceState> {
        Seq::new(
            manifest.sources.len(),
            |i: int| self.source_state(manifest.sources[i].selection().message, reader, now),
        )
    }

    /// Whether a message may be sent, and what its recipient will find. Nothing is said of the
    /// sources where they may not be reused.
    pub open spec fn assessed(
        self,
        manifest: ManifestModel,
        actor: ProtocolIdentity,
        now: CanonicalTime,
    ) -> Result<ResponseModel, CorrespondenceError> {
        match self.owned(manifest.conversation, actor) {
            None => Err(CorrespondenceError::Unauthorized),
            Some(conversation) => match conversation.scope.partner(actor) {
                Err(e) => Err(e),
                Ok(destination) => Ok(
                    match self.policies(manifest, actor) {
                        Ok(_) => ResponseModel::Assessment {
                            reuse: Ok(()),
                            recipient_sources: self.source_states(manifest, destination, now),
                        },
                        Err(e) => ResponseModel::Assessment {
                            reuse: Err(e),
                            recipient_sources: Seq::empty(),
                        },
                    },
                ),
            },
        }
    }

    /// The mailbox entries among the first `n` that have not expired.
    pub open spec fn current_entries(self, n: nat, now: CanonicalTime) -> Seq<(u64, MessageModel)>
        decreases n,
    {
        if n == 0 {
            Seq::empty()
        } else {
            let entry = self.mailbox[n - 1];
            let earlier = self.current_entries((n - 1) as nat, now);
            if now.0 < entry.2.0 {
                earlier.push((entry.0, entry.1))
            } else {
                earlier
            }
        }
    }

    pub open spec fn mailbox_page(self, after: u64, now: CanonicalTime) -> ResponseModel {
        ResponseModel::Mailbox {
            entries: self.current_entries(self.mailbox.len(), now),
            next_after: if self.mailbox.len() == 0 {
                after
            } else {
                self.mailbox.last().0
            },
        }
    }
}

fn contact(
    context: &Context,
    actor: ProtocolIdentity,
    other: ProtocolIdentity,
    now: CanonicalTime,
) -> (result: Result<Relationship, CorrespondenceError>)
    ensures
        match context@.contact_between(actor, other, now) {
            Some(relationship) => result == Ok::<Relationship, CorrespondenceError>(relationship),
            None => result == Err::<Relationship, CorrespondenceError>(
                CorrespondenceError::Unauthorized,
            ),
        },
{
    let lane_current = match &context.lane {
        Some(lane) => lane.grant.sender == actor && lane.grant.recipient == other && matches!(
            lane.grant.subject,
            LaneSubject::Native(_)
        ) && lane.is_current(now),
        None => false,
    };
    match context.contact {
        Some(r) => {
            if r.key.sender == actor && r.key.recipient == other && r.state
                != RelationshipState::Blocked && (r.state == RelationshipState::Accepted
                || lane_current) {
                Ok(r)
            } else {
                Err(CorrespondenceError::Unauthorized)
            }
        },
        None => Err(CorrespondenceError::Unauthorized),
    }
}

fn is_kept(context: &Context, message: MessageId, owner: ProtocolIdentity, now: CanonicalTime) -> (kept:
    bool)
    ensures
        kept == context@.kept(message, owner, now),
{
    match lookup_pair(&context.retained, (message.0, owner.0)) {
        Some(expires) => now.0 < expires.0,
        None => false,
    }
}

fn source_state(
    context: &Context,
    message: MessageId,
    actor: ProtocolIdentity,
    now: CanonicalTime,
) -> (state: SourceState)
    ensures
        state == context@.source_state(message, actor, now),
{
    let record = match lookup(&context.messages, message.0) {
        Some(record) => record,
        None => return SourceState::AccessDenied,
    };
    assert(context@.messages[message.0] == record@);
    if owned(context, record.manifest.conversation(), actor).is_err() {
        return SourceState::AccessDenied;
    }
    if is_kept(context, message, actor, now) {
        SourceState::Available
    } else {
        SourceState::Unavailable
    }
}

fn fetch(context: &Context, message: MessageId, actor: ProtocolIdentity, now: CanonicalTime) -> (response:
    Response)
    ensures
        response@ == context@.fetched(message, actor, now),
{
    let record = match lookup(&context.messages, message.0) {
        Some(record) => record,
        None => return Response::AccessDenied,
    };
    assert(context@.messages[message.0] == record@);
    if owned(context, record.manifest.conversation(), actor).is_err() {
        return Response::AccessDenied;
    }
    match &context.fetched_copy {
        Some(ciphertext) => {
            if is_kept(context, message, actor, now) {
                Response::Message(
                    Box::new(
                        MessageView { record: record.clone(), ciphertext: ciphertext.clone() },
                    ),
                )
            } else {
                Response::Unavailable
            }
        },
        None => Response::Unavailable,
    }
}

fn assess(
    context: &Context,
    manifest: &MessageManifest,
    actor: ProtocolIdentity,
    now: CanonicalTime,
) -> (result: Result<Response, CorrespondenceError>)
    ensures
        match context@.assessed(manifest@, actor, now) {
            Ok(response) => result matches Ok(found) && found@ == response,
            Err(e) => result == Err::<Response, CorrespondenceError>(e),
        },
{
    let conversation = match owned(context, manifest.conversation(), actor) {
        Ok(conversation) => conversation,
        Err(e) => return Err(e),
    };
    let destination = match conversation.scope().other(actor) {
        Ok(destination) => destination,
        Err(e) => return Err(e),
    };
    let mut recipient_sources: Vec<SourceState> = Vec::new();
    match policies(context, manifest, actor) {
        Ok(_) => {
            let sources = manifest.sources();
            let mut i: usize = 0;
            while i < sources.len()
                invariant
                    source_models(sources@) == manifest@.sources,
                    0 <= i <= sources@.len(),
                    recipient_sources@.len() == i,
                    forall|j: int|
                        0 <= j < i ==> (#[trigger] recipient_sources@[j])
                            == context@.source_states(manifest@, destination, now)[j],
                decreases sources@.len() - i,
            {
                assert(source_models(sources@)[i as int] == sources@[i as int]@);
                let message = sources[i].selection().message();
                recipient_sources.push(source_state(context, message, destination, now));
                i += 1;
            }
            assert(sources@.len() == source_models(sources@).len());
            assert(recipient_sources@ =~= context@.source_states(manifest@, destination, now));
            Ok(Response::Assessment(Assessment { reuse: Ok(()), recipient_sources }))
        },
        Err(e) => Ok(Response::Assessment(Assessment { reuse: Err(e), recipient_sources })),
    }
}

fn resolve(
    context: &Context,
    source: &MessageSelection,
    actor: ProtocolIdentity,
    now: CanonicalTime,
) -> (result: Result<Response, CorrespondenceError>)
    ensures
        match context@.resolved(source@, actor, now) {
            Ok(response) => result matches Ok(found) && found@ == response,
            Err(e) => result == Err::<Response, CorrespondenceError>(e),
        },
{
    match source_state(context, source.message(), actor, now) {
        SourceState::AccessDenied => Ok(Response::AccessDenied),
        SourceState::Unavailable => Ok(Response::Unavailable),
        SourceState::Available => {
            match lookup(&context.messages, source.message().0) {
                Some(record) => {
                    assert(context@.messages[source@.message.0] == record@);
                    match source.validate_target(&record.manifest) {
                        Ok(()) => Ok(fetch(context, source.message(), actor, now)),
                        Err(e) => Err(e),
                    }
                },
                None => Err(CorrespondenceError::Unavailable),
            }
        },
    }
}

fn list_mailbox(context: &Context, after: u64, now: CanonicalTime) -> (response: Response)
    ensures
        response@ == context@.mailbox_page(after, now),
{
    let mailbox = &context.mailbox;
    let next_after: u64 = if mailbox.len() == 0 {
        after
    } else {
        mailbox[mailbox.len() - 1].0
    };
    let mut entries: Vec<(u64, MessageRecord)> = Vec::new();
    let mut i: usize = 0;
    assert(entry_models(entries@) =~= context@.current_entries(0, now));
    while i < mailbox.len()
        invariant
            mailbox@ == context.mailbox@,
            0 <= i <= mailbox@.len(),
            entry_models(entries@) == context@.current_entries(i as nat, now),
        decreases mailbox@.len() - i,
    {
        let ghost before = entries@;
        assert(context@.mailbox[i as int] == (mailbox@[i as int].0, mailbox@[i as int].1@, mailbox@[i as int].2));
        if now.0 < mailbox[i].2.0 {
            entries.push((mailbox[i].0, mailbox[i].1.clone()));
            assert(entry_models(entries@) =~= entry_models(before).push(
                (mailbox@[i as int].0, mailbox@[i as int].1@),
            ));
        }
        i += 1;
    }
    Response::Mailbox { entries, next_after }
}

/// A ciphertext that is there and within bounds, its tag included.
pub open spec fn bounded_ciphertext(ciphertext: Seq<u8>) -> bool {
    0 < ciphertext.len() <= MAX_ENCODED_DOCUMENT_BYTES + 16
}

/// A recovery copy that goes with a copy: the same content for the same time from the same sender,
/// sealed to the custodian.
pub open spec fn recovers(
    recovery: RecoveryModel,
    copy: SealedModel,
    custody_key: EndpointPublicKey,
) -> bool {
    &&& recovery.ciphertext.binding.alike(&copy.binding)
    &&& recovery.ciphertext.created_at == copy.created_at
    &&& recovery.ciphertext.expires_at == copy.expires_at
    &&& recovery.sender.reference == copy.envelope.sender_key
    &&& !zero_32(recovery.sender.bytes)
    &&& recovery.ciphertext.envelope.sender_key == recovery.sender.reference
    &&& recovery.ciphertext.envelope.recipient_key == custody_key.reference
    &&& bounded_ciphertext(recovery.ciphertext.envelope.ciphertext)
}

/// A copy of a request's message for an owner: bound to sender, owner, message and relationship,
/// declared under the request's key, and within its lifetime.
pub open spec fn deliverable(
    copy: SealedModel,
    owner: ProtocolIdentity,
    message: MessageId,
    request: RequestModel,
    relationship: Relationship,
    now: CanonicalTime,
) -> bool {
    let binding = copy.binding;
    &&& binding.sender == request.persona
    &&& binding.recipient == owner
    &&& binding.message_id == message
    &&& binding.relationship == relationship.key.reference
    &&& binding.wire_version == WireVersion(1)
    &&& binding.protocol_version == ProtocolVersion(2)
    &&& binding.declarations.origin.authority == DeclarationAuthority::NativeSender(request.key)
    &&& copy.created_at.0 <= now.0 < copy.expires_at.0
    &&& now.0 < binding.message_valid_until.0.0
    &&& bounded_ciphertext(copy.envelope.ciphertext)
    &&& binding.declarations.check() is Ok
}

impl PackageModel {
    /// A package that a request may deliver.
    pub open spec fn valid_for(
        self,
        request: RequestModel,
        other: ProtocolIdentity,
        relationship: Relationship,
        custody_key: EndpointPublicKey,
        now: CanonicalTime,
    ) -> bool {
        let own = self.sender_copy.binding;
        &&& (crate::content::binding::ContentBinding { recipient: other, ..own }).alike(
            &self.recipient_copy.binding,
        )
        &&& self.sender_copy.envelope.sender_key == self.recipient_copy.envelope.sender_key
        &&& recovers(self.sender_recovery, self.sender_copy, custody_key)
        &&& recovers(self.recipient_recovery, self.recipient_copy, custody_key)
        &&& self.sender_recovery.sender == self.recipient_recovery.sender
        &&& deliverable(
            self.sender_copy,
            request.persona,
            self.manifest.message,
            request,
            relationship,
            now,
        )
        &&& deliverable(
            self.recipient_copy,
            other,
            self.manifest.message,
            request,
            relationship,
            now,
        )
    }

    /// Whether a request may deliver the package, and if not, why.
    pub open spec fn payload_check(
        self,
        request: RequestModel,
        other: ProtocolIdentity,
        relationship: Relationship,
        custody_key: Option<EndpointPublicKey>,
        now: CanonicalTime,
    ) -> Result<(), CorrespondenceError> {
        match custody_key {
            None => Err(CorrespondenceError::Unavailable),
            Some(key) => if self.valid_for(request, other, relationship, key, now) {
                Ok(())
            } else {
                Err(CorrespondenceError::Invalid)
            },
        }
    }
}

fn is_bounded(ciphertext: &Vec<u8>) -> (bounded: bool)
    ensures
        bounded == bounded_ciphertext(ciphertext@),
{
    ciphertext.len() != 0 && ciphertext.len() <= MAX_ENCODED_DOCUMENT_BYTES + 16
}

fn is_recovery(recovery: &RecoveryCopy, copy: &EncryptedContentRecord, custody_key: &EndpointPublicKey) -> (valid:
    bool)
    ensures
        valid == recovers(recovery@, copy@, *custody_key),
{
    recovery.ciphertext.binding.same(&copy.binding) && recovery.ciphertext.created_at
        == copy.created_at && recovery.ciphertext.expires_at == copy.expires_at
        && recovery.sender.reference == copy.envelope.sender_key && !is_zero_32(
        &recovery.sender.bytes,
    ) && recovery.ciphertext.envelope.sender_key == recovery.sender.reference
        && recovery.ciphertext.envelope.recipient_key == custody_key.reference && is_bounded(
        &recovery.ciphertext.envelope.ciphertext,
    )
}

fn is_deliverable(
    copy: &EncryptedContentRecord,
    owner: ProtocolIdentity,
    message: MessageId,
    request: &SignedRequest,
    relationship: &Relationship,
    now: CanonicalTime,
) -> (valid: bool)
    ensures
        valid == deliverable(copy@, owner, message, request@, *relationship, now),
{
    let binding = &copy.binding;
    binding.sender == request.persona && binding.recipient == owner && binding.message_id == message
        && binding.relationship.same(&relationship.key.reference) && binding.wire_version
        == WireVersion(1) && binding.protocol_version == ProtocolVersion(2)
        && binding.declarations.origin.authority == DeclarationAuthority::NativeSender(request.key)
        && copy.created_at.0 <= now.0 && now.0 < copy.expires_at.0 && now.0
        < binding.message_valid_until.0.0 && is_bounded(&copy.envelope.ciphertext)
        && binding.declarations.validate().is_ok()
}

fn validate_payload(
    package: &PreparedMessage,
    request: &SignedRequest,
    other: ProtocolIdentity,
    relationship: &Relationship,
    custody_key: Option<EndpointPublicKey>,
    now: CanonicalTime,
) -> (result: Result<(), CorrespondenceError>)
    ensures
        result == package@.payload_check(request@, other, *relationship, custody_key, now),
{
    let custody_key = match custody_key {
        Some(key) => key,
        None => return Err(CorrespondenceError::Unavailable),
    };
    let mut binding = package.sender_copy.binding.clone();
    binding.recipient = other;
    if !binding.same(&package.recipient_copy.binding) || package.sender_copy.envelope.sender_key
        != package.recipient_copy.envelope.sender_key {
        return Err(CorrespondenceError::Invalid);
    }
    if !is_recovery(&package.sender_recovery, &package.sender_copy, &custody_key) || !is_recovery(
        &package.recipient_recovery,
        &package.recipient_copy,
        &custody_key,
    ) {
        return Err(CorrespondenceError::Invalid);
    }
    if !package.sender_recovery.sender.same(&package.recipient_recovery.sender) {
        return Err(CorrespondenceError::Invalid);
    }
    let message = package.manifest.message();
    if !is_deliverable(
        &package.sender_copy,
        request.persona,
        message,
        request,
        relationship,
        now,
    ) || !is_deliverable(&package.recipient_copy, other, message, request, relationship, now) {
        return Err(CorrespondenceError::Invalid);
    }
    Ok(())
}

/// The verdict on a request under the key that its persona's account vouches for, if any.
pub open spec fn authentication(request: RequestModel, persona_key: Option<[u8; 32]>) -> Result<
    (),
    CorrespondenceError,
> {
    match persona_key {
        None => Err(CorrespondenceError::Unauthorized),
        Some(key) => request.verdict(key@),
    }
}

/// Authenticate before reading private source state, and again after all protected reads. Refuses
/// requests without a current key, and bad signatures.
pub fn authenticate_request(request: &SignedRequest, persona_key: Option<[u8; 32]>) -> (result:
    Result<(), CorrespondenceError>)
    ensures
        result == authentication(request@, persona_key),
{
    match persona_key {
        Some(key) => request.verify(&key),
        None => Err(CorrespondenceError::Unauthorized),
    }
}

impl ContextModel {
    /// How a message comes through: by the accepted relationship, or by consuming one message of
    /// the lane.
    pub open spec fn admitted(
        self,
        relationship: Relationship,
        actor: ProtocolIdentity,
        destination: ProtocolIdentity,
        package: PackageModel,
        now: CanonicalTime,
    ) -> Result<(AdmissionBasis, Option<LaneModel>), CorrespondenceError> {
        if relationship.state == RelationshipState::Accepted {
            Ok(
                (
                    AdmissionBasis::AcceptedRelationship { version: relationship.version },
                    None,
                ),
            )
        } else {
            match self.lane {
                None => Err(CorrespondenceError::Unauthorized),
                Some(lane) => match lane.grant.subject {
                    LaneSubject::Native(subject) => {
                        let binding = package.recipient_copy.binding;
                        let evidence = LaneEvidence::Native(subject);
                        let (next, consumed) = lane.consumed(
                            package.manifest.message,
                            binding.capability,
                            binding.declarations,
                            evidence,
                            now,
                        );
                        if lane.authorization(
                            actor,
                            destination,
                            binding.capability,
                            binding.declarations,
                            evidence,
                            now,
                        ) is Err {
                            Err(CorrespondenceError::Unauthorized)
                        } else {
                            match consumed {
                                Err(_) => Err(CorrespondenceError::Unauthorized),
                                Ok(true) => Err(CorrespondenceError::Conflict),
                                Ok(false) => Ok(
                                    (
                                        AdmissionBasis::ExpressLane {
                                            lane: next.grant.id,
                                            version: next.version,
                                        },
                                        Some(next),
                                    ),
                                ),
                            }
                        }
                    },
                    _ => Err(CorrespondenceError::Unauthorized),
                },
            }
        }
    }
}

/// The authenticated persona must equal the grant's native sender; the recipient signed the
/// subject binding. No sender-provided evidence is trusted.
fn admit_message(
    context: &Context,
    relationship: &Relationship,
    actor: ProtocolIdentity,
    destination: ProtocolIdentity,
    package: &PreparedMessage,
    now: CanonicalTime,
) -> (result: Result<(AdmissionBasis, Option<Lane>), CorrespondenceError>)
    ensures
        match context@.admitted(*relationship, actor, destination, package@, now) {
            Ok((basis, lane)) => result matches Ok(admission) && admission.0 == basis && (
            match admission.1 {
                Some(next) => lane == Some(next@),
                None => lane is None,
            }),
            Err(e) => result == Err::<(AdmissionBasis, Option<Lane>), CorrespondenceError>(e),
        },
{
    if relationship.state == RelationshipState::Accepted {
        return Ok(
            (AdmissionBasis::AcceptedRelationship { version: relationship.version }, None),
        );
    }
    let mut lane = match &context.lane {
        Some(lane) => lane.clone(),
        None => return Err(CorrespondenceError::Unauthorized),
    };
    let subject = match lane.grant.subject {
        LaneSubject::Native(subject) => subject,
        _ => return Err(CorrespondenceError::Unauthorized),
    };
    let binding = &package.recipient_copy.binding;
    let evidence = LaneEvidence::Native(subject);
    if lane.authorizes(
        actor,
        destination,
        binding.capability,
        &binding.declarations,
        &evidence,
        now,
    ).is_err() {
        return Err(CorrespondenceError::Unauthorized);
    }
    match lane.consume(
        package.manifest.message(),
        binding.capability,
        &binding.declarations,
        &evidence,
        now,
    ) {
        Err(_) => Err(CorrespondenceError::Unauthorized),
        Ok(true) => Err(CorrespondenceError::Conflict),
        Ok(false) => {
            let basis = AdmissionBasis::ExpressLane { lane: lane.grant.id, version: lane.version };
            Ok((basis, Some(lane)))
        },
    }
}

/// Whether an outcome is one that a command can have had.
pub open spec fn outcome_fits(
    command: CommandModel,
    outcome: ResponseModel,
    persona: ProtocolIdentity,
) -> bool {
    match (command, outcome) {
        (CommandModel::Create { id, .. }, ResponseModel::Conversation(c)) => c.id == id
            && c.scope.includes(persona),
        (CommandModel::ChangePolicy { id, .. }, ResponseModel::Conversation(c)) => c.id == id
            && c.scope.includes(persona),
        (CommandModel::Send(package), ResponseModel::Committed(message)) => package.manifest.message
            == message,
        (CommandModel::DeleteCopies { .. }, ResponseModel::CopiesDeleted) => true,
        _ => false,
    }
}

impl ContextModel {
    /// What a request is answered that was decided before, if it was.
    pub open spec fn replayed(self, request: RequestModel) -> Result<
        Option<DecisionModel>,
        CorrespondenceError,
    > {
        match self.prior {
            None => Ok(None),
            Some(prior) => if prior.digest != sha256_of(request.message()) || Some(prior.action)
                != request.command.audited() || prior.actor != request.persona || prior.key
                != request.key {
                Err(CorrespondenceError::Conflict)
            } else if !outcome_fits(request.command, prior.outcome, request.persona) {
                Err(CorrespondenceError::Invalid)
            } else {
                Ok(Some(DecisionModel { response: prior.outcome, effects: None }))
            },
        }
    }
}

fn replay(request: &SignedRequest, context: &Context, digest: &[u8; 32]) -> (result: Result<
    Option<Decision>,
    CorrespondenceError,
>)
    requires
        digest@ == sha256_of(request@.message()),
    ensures
        match context@.replayed(request@) {
            Ok(Some(decision)) => result matches Ok(Some(found)) && found@ == decision,
            Ok(None) => result matches Ok(None),
            Err(e) => result == Err::<Option<Decision>, CorrespondenceError>(e),
        },
{
    let prior = match &context.prior {
        Some(prior) => prior,
        None => return Ok(None),
    };
    if !same_32(&prior.digest, digest) || Some(prior.action) != request.command.audit_action()
        || prior.actor != request.persona || prior.key != request.key {
        assert(prior.digest != *digest ==> prior.digest@ != digest@) by {
            if prior.digest@ == digest@ {
                assert(prior.digest =~= *digest);
            }
        }
        return Err(CorrespondenceError::Conflict);
    }
    let fits = match (&request.command, &prior.outcome) {
        (Command::Create { id, .. }, Response::Conversation(c)) => c.id() == *id
            && c.scope().contains(request.persona),
        (Command::ChangePolicy { id, .. }, Response::Conversation(c)) => c.id() == *id
            && c.scope().contains(request.persona),
        (Command::Send(package), Response::Committed(message)) => package.manifest.message()
            == *message,
        (Command::DeleteCopies { .. }, Response::CopiesDeleted) => true,
        _ => false,
    };
    if !fits {
        return Err(CorrespondenceError::Invalid);
    }
    Ok(Some(Decision { response: prior.outcome.clone(), effects: None }))
}

/// What a command changes, its receipt apart.
pub ghost struct ChangesModel {
    pub lane: Option<LaneModel>,
    pub conversation: Option<Conversation>,
    pub delivery: Option<(MessageModel, PackageModel)>,
    pub delete_copies: Option<ConversationId>,
    pub policy_revisions: Map<u128, u64>,
}

pub open spec fn no_changes() -> ChangesModel {
    ChangesModel {
        lane: None,
        conversation: None,
        delivery: None,
        delete_copies: None,
        policy_revisions: Map::empty(),
    }
}

struct Changes {
    lane: Option<Lane>,
    conversation: Option<Conversation>,
    delivery: Option<(MessageRecord, Box<PreparedMessage>)>,
    delete_copies: Option<ConversationId>,
    policy_revisions: BTreeMap<u128, u64>,
}

impl View for Changes {
    type V = ChangesModel;

    closed spec fn view(&self) -> ChangesModel {
        ChangesModel {
            lane: match self.lane {
                Some(lane) => Some(lane@),
                None => None,
            },
            conversation: self.conversation,
            delivery: match self.delivery {
                Some((record, package)) => Some((record@, (*package)@)),
                None => None,
            },
            delete_copies: self.delete_copies,
            policy_revisions: self.policy_revisions@,
        }
    }
}

impl Changes {
    fn nothing() -> (changes: Self)
        ensures
            changes@ == no_changes(),
            changes.lane is None,
            changes.conversation is None,
            changes.delivery is None,
            changes.delete_copies is None,
            changes.policy_revisions@ == Map::<u128, u64>::empty(),
    {
        let policy_revisions: BTreeMap<u128, u64> = BTreeMap::new();
        assert(policy_revisions@ =~= Map::empty());
        Changes {
            lane: None,
            conversation: None,
            delivery: None,
            delete_copies: None,
            policy_revisions,
        }
    }
}

impl ContextModel {
    /// What comes of sending a package.
    pub open spec fn sent(self, request: RequestModel, package: PackageModel, now: CanonicalTime) -> Result<
        (ResponseModel, ChangesModel),
        CorrespondenceError,
    > {
        let actor = request.persona;
        let manifest = package.manifest;
        if self.messages.contains_key(manifest.message.0) {
            Err(CorrespondenceError::Conflict)
        } else {
            match self.owned(manifest.conversation, actor) {
                None => Err(CorrespondenceError::Unauthorized),
                Some(conversation) => match conversation.scope.partner(actor) {
                    Err(e) => Err(e),
                    Ok(destination) => match self.contact_between(actor, destination, now) {
                        None => Err(CorrespondenceError::Unauthorized),
                        Some(relationship) => match package.payload_check(
                            request,
                            destination,
                            relationship,
                            self.custody_key,
                            now,
                        ) {
                            Err(e) => Err(e),
                            Ok(()) => match self.admitted(
                                relationship,
                                actor,
                                destination,
                                package,
                                now,
                            ) {
                                Err(e) => Err(e),
                                Ok((admission, lane)) => match self.policies(manifest, actor) {
                                    Err(e) => Err(e),
                                    Ok(policy_revisions) => Ok(
                                        (
                                            ResponseModel::Committed(manifest.message),
                                            ChangesModel {
                                                lane,
                                                conversation: None,
                                                delivery: Some(
                                                    (
                                                        MessageModel {
                                                            manifest,
                                                            author: actor,
                                                            admission,
                                                            committed_at: now,
                                                        },
                                                        package,
                                                    ),
                                                ),
                                                delete_copies: None,
                                                policy_revisions,
                                            },
                                        ),
                                    ),
                                },
                            },
                        },
                    },
                },
            }
        }
    }

    /// What a command is answered, and what it changes.
    pub open spec fn acted(self, request: RequestModel, now: CanonicalTime) -> Result<
        (ResponseModel, ChangesModel),
        CorrespondenceError,
    > {
        let actor = request.persona;
        match request.command {
            CommandModel::Mailbox { after, .. } => Ok(
                (self.mailbox_page(after, now), no_changes()),
            ),
            CommandModel::Create { id, other } => if self.contact_between(actor, other, now)
                is None {
                Err(CorrespondenceError::Unauthorized)
            } else if self.conversations.contains_key(id.0) {
                Err(CorrespondenceError::Conflict)
            } else {
                match persona_pair(actor, other) {
                    None => Err(CorrespondenceError::Invalid),
                    Some(scope) => {
                        let conversation = Conversation {
                            id,
                            scope,
                            policy:
                                crate::correspondence::policy::ReusePolicy::AcrossRelationships,
                            revision: 0,
                            relaxation_proposer: None,
                        };
                        Ok(
                            (
                                ResponseModel::Conversation(conversation),
                                ChangesModel { conversation: Some(conversation), ..no_changes() },
                            ),
                        )
                    },
                }
            },
            CommandModel::ChangePolicy { id, revision, action } => match self.owned(id, actor) {
                None => Err(CorrespondenceError::Unauthorized),
                Some(conversation) => match conversation.changed(actor, revision, action) {
                    Err(e) => Err(e),
                    Ok(next) => Ok(
                        (
                            ResponseModel::Conversation(next),
                            ChangesModel {
                                conversation: Some(next),
                                policy_revisions: Map::empty().insert(id.0, next.revision),
                                ..no_changes()
                            },
                        ),
                    ),
                },
            },
            CommandModel::Policy { id } => match self.owned(id, actor) {
                None => Err(CorrespondenceError::Unauthorized),
                Some(conversation) => Ok((ResponseModel::Conversation(conversation), no_changes())),
            },
            CommandModel::Assess { manifest } => match self.assessed(manifest, actor, now) {
                Err(e) => Err(e),
                Ok(response) => Ok((response, no_changes())),
            },
            CommandModel::Send(package) => self.sent(request, package, now),
            CommandModel::Fetch { message } => Ok(
                (self.fetched(message, actor, now), no_changes()),
            ),
            CommandModel::Resolve { source } => match self.resolved(source, actor, now) {
                Err(e) => Err(e),
                Ok(response) => Ok((response, no_changes())),
            },
            CommandModel::DeleteCopies { id } => match self.owned(id, actor) {
                None => Err(CorrespondenceError::Unauthorized),
                Some(_) => Ok(
                    (
                        ResponseModel::CopiesDeleted,
                        ChangesModel { delete_copies: Some(id), ..no_changes() },
                    ),
                ),
            },
        }
    }

    /// The answer to a request and all that comes with it, or why it is refused.
    pub open spec fn decided(self, request: RequestModel, now: CanonicalTime) -> Result<
        DecisionModel,
        CorrespondenceError,
    > {
        match authentication(request, self.persona_key) {
            Err(e) => Err(e),
            Ok(()) => match self.replayed(request) {
                Err(e) => Err(e),
                Ok(Some(prior)) => Ok(prior),
                Ok(None) => match self.acted(request, now) {
                    Err(e) => Err(e),
                    Ok((response, changes)) => Ok(
                        DecisionModel {
                            response,
                            effects: match request.command.audited() {
                                None => None,
                                Some(action) => Some(
                                    EffectsModel {
                                        lane: changes.lane,
                                        conversation: changes.conversation,
                                        delivery: changes.delivery,
                                        delete_copies: changes.delete_copies,
                                        receipt: ReceiptModel {
                                            actor: request.persona,
                                            key: request.key,
                                            action,
                                            digest: sha256_of(request.message()),
                                            outcome: response,
                                            authorized_at: now,
                                            policy_revisions: changes.policy_revisions,
                                        },
                                    },
                                ),
                            },
                        },
                    ),
                },
            },
        }
    }
}

fn send(request: &SignedRequest, context: &Context, package: &PreparedMessage, now: CanonicalTime) -> (result:
    Result<(Response, Changes), CorrespondenceError>)
    ensures
        match context@.sent(request@, package@, now) {
            Ok((response, changes)) => result matches Ok(acted) && acted.0@ == response
                && acted.1@ == changes,
            Err(e) => result == Err::<(Response, Changes), CorrespondenceError>(e),
        },
{
    let actor = request.persona;
    let manifest = &package.manifest;
    if holds(&context.messages, manifest.message().0) {
        return Err(CorrespondenceError::Conflict);
    }
    let conversation = match owned(context, manifest.conversation(), actor) {
        Ok(conversation) => conversation,
        Err(e) => return Err(e),
    };
    let destination = match conversation.scope().other(actor) {
        Ok(destination) => destination,
        Err(e) => return Err(e),
    };
    let relationship = match contact(context, actor, destination, now) {
        Ok(relationship) => relationship,
        Err(e) => return Err(e),
    };
    match validate_payload(package, request, destination, &relationship, context.custody_key, now) {
        Ok(()) => {},
        Err(e) => return Err(e),
    }
    let (admission, lane) = match admit_message(
        context,
        &relationship,
        actor,
        destination,
        package,
        now,
    ) {
        Ok(admitted) => admitted,
        Err(e) => return Err(e),
    };
    let policy_revisions = match policies(context, manifest, actor) {
        Ok(revisions) => revisions,
        Err(e) => return Err(e),
    };
    let record = MessageRecord {
        manifest: manifest.clone(),
        author: actor,
        admission,
        committed_at: now,
    };
    Ok(
        (
            Response::Committed(manifest.message()),
            Changes {
                lane,
                conversation: None,
                delivery: Some((record, Box::new(package.clone()))),
                delete_copies: None,
                policy_revisions,
            },
        ),
    )
}

fn act(request: &SignedRequest, context: &Context, now: CanonicalTime) -> (result: Result<
    (Response, Changes),
    CorrespondenceError,
>)
    ensures
        match context@.acted(request@, now) {
            Ok((response, changes)) => result matches Ok(acted) && acted.0@ == response
                && acted.1@ == changes,
            Err(e) => result == Err::<(Response, Changes), CorrespondenceError>(e),
        },
{
    let actor = request.persona;
    let mut changes = Changes::nothing();
    match &request.command {
        Command::Mailbox { after, .. } => Ok((list_mailbox(context, *after, now), changes)),
        Command::Create { id, other } => {
            match contact(context, actor, *other, now) {
                Ok(_) => {},
                Err(e) => return Err(e),
            }
            if holds(&context.conversations, id.0) {
                return Err(CorrespondenceError::Conflict);
            }
            let scope = match CorrespondenceRef::new(actor, *other) {
                Ok(scope) => scope,
                Err(e) => return Err(e),
            };
            let conversation = Conversation::new(*id, scope);
            changes.conversation = Some(conversation);
            Ok((Response::Conversation(conversation), changes))
        },
        Command::ChangePolicy { id, revision, action } => {
            let conversation = match owned(context, *id, actor) {
                Ok(conversation) => conversation,
                Err(e) => return Err(e),
            };
            let next = match conversation.change(actor, *revision, *action) {
                Ok(next) => next,
                Err(e) => return Err(e),
            };
            put(&mut changes.policy_revisions, id.0, next.revision());
            changes.conversation = Some(next);
            Ok((Response::Conversation(next), changes))
        },
        Command::Policy { id } => match owned(context, *id, actor) {
            Ok(conversation) => Ok((Response::Conversation(conversation), changes)),
            Err(e) => Err(e),
        },
        Command::Assess { manifest } => match assess(context, manifest, actor, now) {
            Ok(response) => Ok((response, changes)),
            Err(e) => Err(e),
        },
        Command::Send(package) => send(request, context, package, now),
        Command::Fetch { message } => Ok((fetch(context, *message, actor, now), changes)),
        Command::Resolve { source } => match resolve(context, source, actor, now) {
            Ok(response) => Ok((response, changes)),
            Err(e) => Err(e),
        },
        Command::DeleteCopies { id } => match owned(context, *id, actor) {
            Ok(_) => {
                changes.delete_copies = Some(*id);
                Ok((Response::CopiesDeleted, changes))
            },
            Err(e) => Err(e),
        },
    }
}

/// Decides a request: refuses invalid live authority, stale policy, altered retries and invalid
/// effects; answers an exact retry as before; and otherwise says what is to be committed.
pub fn decide(request: &SignedRequest, context: &Context, now: CanonicalTime) -> (result: Result<
    Decision,
    CorrespondenceError,
>)
    ensures
        match context@.decided(request@, now) {
            Ok(decision) => result matches Ok(found) && found@ == decision,
            Err(e) => result == Err::<Decision, CorrespondenceError>(e),
        },
{
    match authenticate_request(request, context.persona_key) {
        Ok(()) => {},
        Err(e) => return Err(e),
    }
    let digest = match request.digest() {
        Ok(digest) => digest,
        Err(e) => return Err(e),
    };
    match replay(request, context, &digest) {
        Ok(Some(prior)) => return Ok(prior),
        Ok(None) => {},
        Err(e) => return Err(e),
    }
    let (response, changes) = match act(request, context, now) {
        Ok(acted) => acted,
        Err(e) => return Err(e),
    };
    match request.command.audit_action() {
        None => Ok(Decision { response, effects: None }),
        Some(action) => {
            let receipt = Receipt {
                actor: request.persona,
                key: request.key,
                action,
                digest,
                outcome: response.clone(),
                authorized_at: now,
                policy_revisions: changes.policy_revisions,
            };
            Ok(
                Decision {
                    response,
                    effects: Some(
                        Effects {
                            lane: changes.lane,
                            conversation: changes.conversation,
                            delivery: changes.delivery,
                            delete_copies: changes.delete_copies,
                            receipt,
                        },
                    ),
                },
            )
        },
    }
}

/// Receipts hold no read results: what is kept of a command is a conversation, a message's
/// identifier, or that copies were deleted.
pub proof fn receipts_hold_no_reads(context: ContextModel, request: RequestModel, now: CanonicalTime)
    requires
        context.decided(request, now) is Ok,
        context.decided(request, now)->Ok_0.effects is Some,
    ensures
        ({
            let receipt = context.decided(request, now)->Ok_0.effects->Some_0.receipt;
            &&& receipt.outcome is Conversation || receipt.outcome is Committed
                || receipt.outcome is CopiesDeleted
            &&& receipt.digest == sha256_of(request.message())
            &&& receipt.actor == request.persona
        }),
{
}

/// Reads have no effects, and a command that is decided anew records the answer that it gets.
pub proof fn reads_change_nothing(context: ContextModel, request: RequestModel, now: CanonicalTime)
    requires
        context.decided(request, now) is Ok,
    ensures
        request.command.audited() is None ==> context.decided(request, now)->Ok_0.effects is None,
        context.decided(request, now)->Ok_0.effects matches Some(effects)
            ==> effects.receipt.outcome == context.decided(request, now)->Ok_0.response,
{
}

/// An exact retry of a command is answered as before, whatever has changed since, and has no
/// effects; and anything else under its receipt is refused.
pub proof fn retries_are_answered_as_before(
    before: ContextModel,
    request: RequestModel,
    now: CanonicalTime,
    after: ContextModel,
    other: RequestModel,
    then_at: CanonicalTime,
)
    requires
        before.keyed(),
        before.decided(request, now) is Ok,
        before.decided(request, now)->Ok_0.effects is Some,
        after.prior == Some(before.decided(request, now)->Ok_0.effects->Some_0.receipt),
        after.persona_key is Some,
        other.verdict(after.persona_key->Some_0@) is Ok,
    ensures
        other == request ==> after.decided(other, then_at) == Ok::<
            DecisionModel,
            CorrespondenceError,
        >(
            DecisionModel {
                response: before.decided(request, now)->Ok_0.response,
                effects: None,
            },
        ),
        sha256_of(other.message()) != sha256_of(request.message()) || other.persona
            != request.persona || other.key != request.key || other.command.audited()
            != request.command.audited() ==> after.decided(other, then_at) == Err::<
            DecisionModel,
            CorrespondenceError,
        >(CorrespondenceError::Conflict),
{
    match request.command {
        CommandModel::ChangePolicy { id, revision, action } => {
            assert(before.conversations.contains_key(id.0));
        },
        _ => {},
    }
}

/// A message is delivered only under an authenticated request, as a new message, into a
/// conversation of its author's, to the other persona of it, with whom the author is in contact,
/// and with every policy of its sources permitting it.
pub proof fn deliveries_are_permitted(
    context: ContextModel,
    request: RequestModel,
    now: CanonicalTime,
)
    requires
        context.decided(request, now) is Ok,
        context.decided(request, now)->Ok_0.effects is Some,
        context.decided(request, now)->Ok_0.effects->Some_0.delivery is Some,
    ensures
        ({
            let effects = context.decided(request, now)->Ok_0.effects->Some_0;
            let (record, package) = effects.delivery->Some_0;
            let conversation = context.owned(record.manifest.conversation, request.persona);
            &&& authentication(request, context.persona_key) is Ok
            &&& request.command == CommandModel::Send(package)
            &&& record.manifest == package.manifest
            &&& record.author == request.persona
            &&& !context.messages.contains_key(record.manifest.message.0)
            &&& conversation is Some
            &&& conversation->Some_0.scope.partner(request.persona) is Ok
            &&& context.contact_between(
                request.persona,
                conversation->Some_0.scope.partner(request.persona)->Ok_0,
                now,
            ) is Some
            &&& context.policies(record.manifest, request.persona) == Ok::<
                Map<u128, u64>,
                CorrespondenceError,
            >(effects.receipt.policy_revisions)
        }),
{
}

/// Who may write to whom: a message is delivered, or a conversation opened, only where there is a
/// relationship from the author to the other persona that is accepted, or that is not blocked and
/// has a native lane of the same two that is active and in its term. A message is admitted under
/// the relationship exactly where it is accepted, at its version, and else under the lane.
pub proof fn correspondence_takes_acceptance_or_a_current_lane(
    context: ContextModel,
    request: RequestModel,
    now: CanonicalTime,
    conversation: Conversation,
)
    requires
        context.decided(request, now) is Ok,
        context.decided(request, now)->Ok_0.effects is Some,
        ({
            let effects = context.decided(request, now)->Ok_0.effects->Some_0;
            match effects.delivery {
                Some((record, _)) => conversation
                    == context.conversations[record.manifest.conversation.0],
                None => request.command is Create && effects.conversation == Some(conversation),
            }
        }),
    ensures
        ({
            let effects = context.decided(request, now)->Ok_0.effects->Some_0;
            let other = if conversation.scope.lower == request.persona {
                conversation.scope.higher
            } else {
                conversation.scope.lower
            };
            let r = context.contact->Some_0;
            let lane = context.lane->Some_0;
            let in_force = {
                &&& context.lane is Some
                &&& lane.grant.sender == request.persona
                &&& lane.grant.recipient == other
                &&& lane.grant.subject is Native
                &&& lane.state == LaneState::Active
                &&& lane.grant.not_before.0 <= now.0
                &&& now.0 < lane.grant.not_after.0
                &&& lane.grant.mode == LaneMode::Persistent || now.0 < lane.horizon_at.0
            };
            &&& conversation.scope.lower == request.persona || conversation.scope.higher
                == request.persona
            &&& context.contact is Some
            &&& r.key.sender == request.persona
            &&& r.key.recipient == other
            &&& r.state == RelationshipState::Accepted || (r.state != RelationshipState::Blocked
                && in_force)
            &&& effects.delivery matches Some((record, package)) ==> {
                &&& r.state == RelationshipState::Accepted ==> record.admission
                    == AdmissionBasis::AcceptedRelationship { version: r.version }
                    && effects.lane is None
                &&& r.state != RelationshipState::Accepted ==> {
                    &&& in_force
                    &&& package.recipient_copy.binding.capability == Some(lane.grant.id)
                    &&& effects.lane is Some
                    &&& effects.lane->Some_0.admitted_messages == lane.admitted_messages.insert(
                        record.manifest.message.0,
                    )
                    &&& effects.lane->Some_0.version.0 == lane.version.0 + 1
                    &&& record.admission == AdmissionBasis::ExpressLane {
                        lane: lane.grant.id,
                        version: effects.lane->Some_0.version,
                    }
                }
            }
        }),
{
}

/// Nobody writes without a contact: without a relationship from the author to the other persona
/// that is accepted, or not blocked and with a lane, neither a message is sent nor a conversation
/// opened.
pub proof fn strangers_are_refused(
    context: ContextModel,
    request: RequestModel,
    now: CanonicalTime,
    other: ProtocolIdentity,
)
    requires
        context.prior is None,
        context.contact is None || context.contact->Some_0.key.sender != request.persona
            || context.contact->Some_0.key.recipient != other || context.contact->Some_0.state
            == RelationshipState::Blocked || (context.contact->Some_0.state
            != RelationshipState::Accepted && context.lane is None),
        match request.command {
            CommandModel::Create { other: named, .. } => named == other,
            CommandModel::Send(package) => {
                let id = package.manifest.conversation;
                let scope = context.conversations[id.0].scope;
                context.conversations.contains_key(id.0) ==> (scope.lower == request.persona
                    && scope.higher == other) || (scope.higher == request.persona && scope.lower
                    == other)
            },
            _ => false,
        },
    ensures
        context.decided(request, now) is Err,
{
}

/// A contact is enough: where the relationship from the author to the other persona is accepted, or
/// is not blocked and has a native lane of the same two that is active and in its term, an
/// authenticated request opens a conversation under a free identifier between the two, open for
/// reuse at first.
pub proof fn contacts_open_conversations(
    context: ContextModel,
    request: RequestModel,
    now: CanonicalTime,
    id: ConversationId,
    other: ProtocolIdentity,
)
    requires
        authentication(request, context.persona_key) is Ok,
        context.prior is None,
        request.command == (CommandModel::Create { id, other }),
        context.contact is Some,
        context.contact->Some_0.key.sender == request.persona,
        context.contact->Some_0.key.recipient == other,
        context.contact->Some_0.state == RelationshipState::Accepted || {
            let lane = context.lane->Some_0;
            &&& context.contact->Some_0.state != RelationshipState::Blocked
            &&& context.lane is Some
            &&& lane.grant.sender == request.persona
            &&& lane.grant.recipient == other
            &&& lane.grant.subject is Native
            &&& lane.state == LaneState::Active
            &&& lane.grant.not_before.0 <= now.0
            &&& now.0 < lane.grant.not_after.0
            &&& lane.grant.mode == LaneMode::Persistent || now.0 < lane.horizon_at.0
        },
        !context.conversations.contains_key(id.0),
        request.persona.0 != 0,
        other.0 != 0,
        request.persona != other,
    ensures
        context.decided(request, now) is Ok,
        ({
            let decision = context.decided(request, now)->Ok_0;
            let opened = decision.response->Conversation_0;
            &&& decision.response is Conversation
            &&& decision.effects is Some
            &&& decision.effects->Some_0.conversation == Some(opened)
            &&& decision.effects->Some_0.delivery is None
            &&& decision.effects->Some_0.lane is None
            &&& decision.effects->Some_0.delete_copies is None
            &&& opened.id == id
            &&& opened.scope.lower.0 < opened.scope.higher.0
            &&& opened.scope.lower == request.persona || opened.scope.higher == request.persona
            &&& opened.scope.lower == other || opened.scope.higher == other
            &&& opened.policy == ReusePolicy::AcrossRelationships
            &&& opened.revision == 0
            &&& opened.relaxation_proposer is None
        }),
{
}

/// Under an accepted relationship from the author to the other persona of the conversation, an
/// authenticated request sends any new message whose package is valid and whose sources may be
/// reused; no lane is used up.
pub proof fn accepted_contacts_send(
    context: ContextModel,
    request: RequestModel,
    now: CanonicalTime,
    package: PackageModel,
    other: ProtocolIdentity,
)
    requires
        authentication(request, context.persona_key) is Ok,
        context.prior is None,
        request.command == CommandModel::Send(package),
        !context.messages.contains_key(package.manifest.message.0),
        context.conversations.contains_key(package.manifest.conversation.0),
        ({
            let scope = context.conversations[package.manifest.conversation.0].scope;
            (scope.lower == request.persona && scope.higher == other) || (scope.higher
                == request.persona && scope.lower == other && scope.lower != scope.higher)
        }),
        context.contact is Some,
        context.contact->Some_0.key.sender == request.persona,
        context.contact->Some_0.key.recipient == other,
        context.contact->Some_0.state == RelationshipState::Accepted,
        context.custody_key is Some,
        package.valid_for(
            request,
            other,
            context.contact->Some_0,
            context.custody_key->Some_0,
            now,
        ),
        context.policies(package.manifest, request.persona) is Ok,
    ensures
        context.decided(request, now) is Ok,
        context.decided(request, now)->Ok_0.response == ResponseModel::Committed(
            package.manifest.message,
        ),
        context.decided(request, now)->Ok_0.effects is Some,
        context.decided(request, now)->Ok_0.effects->Some_0.delivery is Some,
        context.decided(request, now)->Ok_0.effects->Some_0.lane is None,
{
}

/// What is delivered: a message that is new, by the requester, from its conversation with the other
/// persona, in one copy for each of the two and one for the custodian of each. All four carry the
/// message, the relationship and the requester's key, and are in their lifetime.
pub proof fn deliveries_are_whole(context: ContextModel, request: RequestModel, now: CanonicalTime)
    requires
        context.decided(request, now) is Ok,
        context.decided(request, now)->Ok_0.effects is Some,
        context.decided(request, now)->Ok_0.effects->Some_0.delivery is Some,
    ensures
        ({
            let decision = context.decided(request, now)->Ok_0;
            let effects = decision.effects->Some_0;
            let (record, package) = effects.delivery->Some_0;
            let own = package.sender_copy;
            let theirs = package.recipient_copy;
            let scope = context.conversations[record.manifest.conversation.0].scope;
            let custodian = context.custody_key->Some_0;
            &&& decision.response == ResponseModel::Committed(record.manifest.message)
            &&& request.command == CommandModel::Send(package)
            &&& record.manifest == package.manifest
            &&& record.author == request.persona
            &&& record.committed_at == now
            &&& !context.messages.contains_key(record.manifest.message.0)
            &&& context.conversations.contains_key(record.manifest.conversation.0)
            &&& context.custody_key is Some
            &&& own.binding.recipient == request.persona
            &&& theirs.binding.recipient == if scope.lower == request.persona {
                scope.higher
            } else {
                scope.lower
            }
            &&& own.binding.sender == request.persona && theirs.binding.sender == request.persona
            &&& own.binding.message_id == record.manifest.message && theirs.binding.message_id
                == record.manifest.message
            &&& own.binding.relationship == context.contact->Some_0.key.reference
                && theirs.binding.relationship == context.contact->Some_0.key.reference
            &&& own.binding.declarations.origin.authority == DeclarationAuthority::NativeSender(
                request.key,
            ) && theirs.binding.declarations.origin.authority
                == DeclarationAuthority::NativeSender(request.key)
            &&& own.created_at.0 <= now.0 && now.0 < own.expires_at.0
            &&& theirs.created_at.0 <= now.0 && now.0 < theirs.expires_at.0
            &&& now.0 < own.binding.message_valid_until.0.0 && now.0
                < theirs.binding.message_valid_until.0.0
            &&& own.envelope.sender_key == theirs.envelope.sender_key
            &&& own.envelope.ciphertext.len() > 0 && theirs.envelope.ciphertext.len() > 0
            &&& package.sender_recovery.sender == package.recipient_recovery.sender
            &&& package.sender_recovery.sender.reference == own.envelope.sender_key
            &&& package.sender_recovery.ciphertext.envelope.sender_key == own.envelope.sender_key
            &&& package.recipient_recovery.ciphertext.envelope.sender_key
                == theirs.envelope.sender_key
            &&& package.sender_recovery.ciphertext.envelope.recipient_key == custodian.reference
            &&& package.recipient_recovery.ciphertext.envelope.recipient_key == custodian.reference
            &&& package.sender_recovery.ciphertext.created_at == own.created_at
                && package.sender_recovery.ciphertext.expires_at == own.expires_at
            &&& package.recipient_recovery.ciphertext.created_at == theirs.created_at
                && package.recipient_recovery.ciphertext.expires_at == theirs.expires_at
            &&& package.sender_recovery.ciphertext.binding.message_id == record.manifest.message
                && package.recipient_recovery.ciphertext.binding.message_id
                == record.manifest.message
            &&& package.sender_recovery.ciphertext.binding.recipient == request.persona
                && package.recipient_recovery.ciphertext.binding.recipient
                == theirs.binding.recipient
            &&& package.sender_recovery.ciphertext.envelope.ciphertext.len() > 0
                && package.recipient_recovery.ciphertext.envelope.ciphertext.len() > 0
            &&& effects.conversation is None
            &&& effects.delete_copies is None
        }),
{
}

/// A message is shown to someone only if it is known, its conversation has that someone in it, and
/// that someone's copy is still kept; who takes no part in the conversation learns nothing else
/// than that access is denied.
pub proof fn copies_are_shown_to_their_owners(
    context: ContextModel,
    request: RequestModel,
    now: CanonicalTime,
    message: MessageId,
)
    requires
        request.command == (CommandModel::Fetch { message }),
        context.prior is None,
        context.decided(request, now) is Ok,
    ensures
        ({
            let answer = context.decided(request, now)->Ok_0.response;
            let conversation = context.messages[message.0].manifest.conversation.0;
            let scope = context.conversations[conversation].scope;
            let takes_part = context.messages.contains_key(message.0)
                && context.conversations.contains_key(conversation) && (scope.lower
                == request.persona || scope.higher == request.persona);
            let copy = (message.0, request.persona.0);
            let kept = context.retained.contains_key(copy) && now.0 < context.retained[copy].0;
            &&& answer is AccessDenied <==> !takes_part
            &&& answer is Message <==> takes_part && kept && context.fetched_copy is Some
            &&& answer is Message ==> answer == ResponseModel::Message {
                record: context.messages[message.0],
                ciphertext: context.fetched_copy->Some_0,
            }
            &&& answer is Unavailable <==> takes_part && !(kept && context.fetched_copy is Some)
        }),
{
}

/// A selection of a message is answered with the message only where the message itself would be,
/// and where the selection is of a range of the message as it stands.
pub proof fn selections_are_shown_as_their_messages(
    context: ContextModel,
    request: RequestModel,
    now: CanonicalTime,
    source: SelectionModel,
)
    requires
        request.command == (CommandModel::Resolve { source }),
        context.prior is None,
        context.decided(request, now) is Ok,
    ensures
        ({
            let answer = context.decided(request, now)->Ok_0.response;
            let message = context.messages[source.message.0];
            let conversation = message.manifest.conversation.0;
            let scope = context.conversations[conversation].scope;
            let takes_part = context.messages.contains_key(source.message.0)
                && context.conversations.contains_key(conversation) && (scope.lower
                == request.persona || scope.higher == request.persona);
            let copy = (source.message.0, request.persona.0);
            let kept = context.retained.contains_key(copy) && now.0 < context.retained[copy].0;
            &&& answer is AccessDenied <==> !takes_part
            &&& answer is Message ==> takes_part && kept && answer == ResponseModel::Message {
                record: message,
                ciphertext: context.fetched_copy->Some_0,
            }
            &&& answer is AccessDenied || answer is Message || answer is Unavailable
        }),
{
}

/// Whoever takes part in a conversation, and nobody else, sees its policy, changes it, or deletes
/// the copies of it.
pub proof fn conversations_are_their_participants(
    context: ContextModel,
    request: RequestModel,
    now: CanonicalTime,
    id: ConversationId,
)
    requires
        match request.command {
            CommandModel::Policy { id: named } => named == id,
            CommandModel::ChangePolicy { id: named, .. } => named == id,
            CommandModel::DeleteCopies { id: named } => named == id,
            _ => false,
        },
        context.prior is None,
    ensures
        ({
            let scope = context.conversations[id.0].scope;
            let takes_part = context.conversations.contains_key(id.0) && (scope.lower
                == request.persona || scope.higher == request.persona);
            let result = context.decided(request, now);
            &&& !takes_part ==> result is Err
            &&& authentication(request, context.persona_key) is Ok && !takes_part ==> result
                == Err::<DecisionModel, CorrespondenceError>(CorrespondenceError::Unauthorized)
            &&& authentication(request, context.persona_key) is Ok && takes_part ==> match request.command {
                CommandModel::Policy { .. } => result is Ok && result->Ok_0.response
                    == ResponseModel::Conversation(context.conversations[id.0])
                    && result->Ok_0.effects is None,
                CommandModel::DeleteCopies { .. } => result is Ok && result->Ok_0.response
                    == ResponseModel::CopiesDeleted && result->Ok_0.effects is Some
                    && result->Ok_0.effects->Some_0.delete_copies == Some(id)
                    && result->Ok_0.effects->Some_0.delivery is None
                    && result->Ok_0.effects->Some_0.conversation is None
                    && result->Ok_0.effects->Some_0.lane is None,
                _ => result is Ok ==> result->Ok_0.effects is Some
                    && result->Ok_0.effects->Some_0.conversation is Some && result->Ok_0.response
                    == ResponseModel::Conversation(
                    result->Ok_0.effects->Some_0.conversation->Some_0,
                ) && result->Ok_0.effects->Some_0.delivery is None
                    && result->Ok_0.effects->Some_0.delete_copies is None
                    && result->Ok_0.effects->Some_0.lane is None,
            }
        }),
{
}

proof fn lemma_entries(context: ContextModel, n: nat, now: CanonicalTime)
    requires
        n <= context.mailbox.len(),
    ensures
        context.current_entries(n, now) == context.mailbox.take(n as int).filter(
            |entry: (u64, MessageModel, CanonicalTime)| now.0 < entry.2.0,
        ).map_values(|entry: (u64, MessageModel, CanonicalTime)| (entry.0, entry.1)),
    decreases n,
{
    let kept = |entry: (u64, MessageModel, CanonicalTime)| now.0 < entry.2.0;
    let shown = |entry: (u64, MessageModel, CanonicalTime)| (entry.0, entry.1);
    reveal(Seq::filter);
    if n > 0 {
        lemma_entries(context, (n - 1) as nat, now);
        let page = context.mailbox.take(n as int);
        assert(page.drop_last() =~= context.mailbox.take(n - 1));
        assert(page.last() == context.mailbox[n - 1]);
        assert(page.filter(kept).map_values(shown) =~= context.current_entries(n, now));
    } else {
        assert(context.mailbox.take(0) =~= Seq::empty());
        assert(context.mailbox.take(0).filter(kept).map_values(shown) =~= Seq::empty());
    }
}

/// A page of a mailbox shows the entries that have not expired, in their order, and goes on after
/// the last entry that was looked at.
pub proof fn mailboxes_show_what_has_not_expired(
    context: ContextModel,
    request: RequestModel,
    now: CanonicalTime,
    after: u64,
    limit: u16,
)
    requires
        request.command == (CommandModel::Mailbox { after, limit }),
        context.prior is None,
        context.decided(request, now) is Ok,
    ensures
        ({
            let answer = context.decided(request, now)->Ok_0.response;
            &&& answer is Mailbox
            &&& answer->entries == context.mailbox.filter(
                |entry: (u64, MessageModel, CanonicalTime)| now.0 < entry.2.0,
            ).map_values(|entry: (u64, MessageModel, CanonicalTime)| (entry.0, entry.1))
            &&& answer->next_after == if context.mailbox.len() == 0 {
                after
            } else {
                context.mailbox.last().0
            }
            &&& context.decided(request, now)->Ok_0.effects is None
        }),
{
    lemma_entries(context, context.mailbox.len(), now);
    assert(context.mailbox.take(context.mailbox.len() as int) =~= context.mailbox);
}

/// Nothing is answered without authority: the request names its product, account, persona and
/// operation, and the key that the persona's account vouches for signed all that it says.
pub proof fn answers_take_a_signature(context: ContextModel, request: RequestModel, now: CanonicalTime)
    requires
        context.decided(request, now) is Ok,
    ensures
        context.persona_key is Some,
        crate::crypto::ed25519_accepts_strictly(
            context.persona_key->Some_0@,
            request.message(),
            request.signature,
        ),
        request.product.len() > 0,
        request.account.0 != 0,
        request.persona.0 != 0,
        request.operation.0 != 0,
{
}

/// An assessment is for whoever takes part in the conversation. It says whether the sources may be
/// reused, and if so what the other persona will find of each: it is available if that persona takes
/// part in the source's conversation and a copy is still kept for it.
pub proof fn assessments_tell_what_the_recipient_finds(
    context: ContextModel,
    request: RequestModel,
    now: CanonicalTime,
    manifest: ManifestModel,
    i: int,
)
    requires
        request.command == (CommandModel::Assess { manifest }),
        context.prior is None,
        context.decided(request, now) is Ok,
        0 <= i < manifest.sources.len(),
    ensures
        ({
            let answer = context.decided(request, now)->Ok_0.response;
            let scope = context.conversations[manifest.conversation.0].scope;
            let other = if scope.lower == request.persona {
                scope.higher
            } else {
                scope.lower
            };
            let source = match manifest.sources[i] {
                SourceModel::Reference(s) => s.message.0,
                SourceModel::Quotation(s) => s.message.0,
                SourceModel::Sharing(s) => s.message.0,
            };
            let home = context.messages[source].manifest.conversation.0;
            let pair = context.conversations[home].scope;
            let takes_part = context.messages.contains_key(source)
                && context.conversations.contains_key(home) && (pair.lower == other || pair.higher
                == other);
            let kept = context.retained.contains_key((source, other.0)) && now.0 < context.retained[(
                source,
                other.0,
            )].0;
            let found = answer->recipient_sources[i];
            &&& context.conversations.contains_key(manifest.conversation.0)
            &&& scope.lower == request.persona || scope.higher == request.persona
            &&& answer is Assessment
            &&& answer->reuse is Ok <==> context.policies(manifest, request.persona) is Ok
            &&& answer->reuse is Err ==> answer->recipient_sources.len() == 0
            &&& answer->reuse is Ok ==> {
                &&& answer->recipient_sources.len() == manifest.sources.len()
                &&& found == SourceState::AccessDenied <==> !takes_part
                &&& found == SourceState::Available <==> takes_part && kept
                &&& found == SourceState::Unavailable <==> takes_part && !kept
            }
            &&& context.decided(request, now)->Ok_0.effects is None
        }),
{
}

/// The copies of a delivered message are one message: they are bound alike but for whose copy it is,
/// under the supported versions, with well-formed declarations; each has content, within bounds; and
/// the copies for the custodian are of the same content, from a key that is there.
pub proof fn copies_are_of_one_message(context: ContextModel, request: RequestModel, now: CanonicalTime)
    requires
        context.decided(request, now) is Ok,
        context.decided(request, now)->Ok_0.effects is Some,
        context.decided(request, now)->Ok_0.effects->Some_0.delivery is Some,
    ensures
        ({
            let package = context.decided(request, now)->Ok_0.effects->Some_0.delivery->Some_0.1;
            let (own, theirs) = (package.sender_copy.binding, package.recipient_copy.binding);
            let (held, kept) = (
                package.sender_recovery.ciphertext.binding,
                package.recipient_recovery.ciphertext.binding,
            );
            let most = 24 * 1024 * 1024 + 16;
            &&& own.wire_version.0 == 1 && theirs.wire_version.0 == 1
            &&& own.protocol_version.0 == 2 && theirs.protocol_version.0 == 2
            &&& own.declarations.check() is Ok && theirs.declarations.check() is Ok
            &&& own.content_ref == theirs.content_ref && held.content_ref == own.content_ref
                && kept.content_ref == theirs.content_ref
            &&& own.capability == theirs.capability && held.capability == own.capability
                && kept.capability == theirs.capability
            &&& own.message_valid_until == theirs.message_valid_until && held.message_valid_until
                == own.message_valid_until && kept.message_valid_until
                == theirs.message_valid_until
            &&& held.sender == request.persona && kept.sender == request.persona
            &&& held.relationship == own.relationship && kept.relationship == theirs.relationship
            &&& package.sender_copy.envelope.ciphertext.len() <= most
                && package.recipient_copy.envelope.ciphertext.len() <= most
            &&& package.sender_recovery.ciphertext.envelope.ciphertext.len() <= most
                && package.recipient_recovery.ciphertext.envelope.ciphertext.len() <= most
            &&& exists|i: int| 0 <= i < 32 && package.sender_recovery.sender.bytes@[i] != 0
        }),
{
    let package = context.decided(request, now)->Ok_0.effects->Some_0.delivery->Some_0.1;
    assert(!zero_32(package.sender_recovery.sender.bytes));
}

} // verus!

use cs_mail::application::consent::{
    conclude, decide as decide_consent, AuthorizedDecryption, ConsentCommand, ConsentContext,
    ConsentOutcome, ConsentResponse, LocalKeyCustody, PersonaAuthority, ProcessorRegistration,
    ReleasedCopy, RetainedRecovery, SignedConsentRequest,
};
use cs_mail::application::correspondence::{
    decide, Assessment, Context, MessageRecord, MessageView, Response, SourceState,
};
use cs_mail::application::request::{Command, PreparedMessage, RecoveryCopy, SignedRequest};
use cs_mail::application::reuse::MAX_SOURCE_GRAPH;
use cs_mail::accounts::control::AccountControl;
use cs_mail::client::{compose_with, package, recognize, NativeClient};
use cs_mail::consent::{
    ConsentError, ContentScope, DecryptionActor, DecryptionPurpose, GrantId, GrantUse,
};
use cs_mail::content::binding::{ContentBinding, ContentError};
use cs_mail::content::certificate::{ContentCertificateDigest, EndpointPublicKey};
use cs_mail::content::cipher::EncryptedContentRecord;
use cs_mail::correspondence::document::{
    selection_json, Document, DocumentPart, MessageManifest, SourceReference,
};
use cs_mail::correspondence::policy::{
    Conversation, ConversationId, CorrespondenceError, CorrespondenceRef, PolicyAction,
};
use cs_mail::correspondence::selection::{MessageSelection, SelectionElement};
use cs_mail::custody::{released_copy, LocalCustodian};
use cs_mail::primitives::amounts::{CanonicalTime, MessageValidityUntil};
use cs_mail::primitives::declarations::{
    DeclarationAuthority, DeclaredPurpose, KnownPurpose, MessageDeclarations, OriginDeclaration,
    OriginMode,
};
use cs_mail::primitives::ids::{
    AccountId, ContentKeyRef, ContentRef, IdempotencyKey, MessageId, OperationalKeyRef,
    ProtocolIdentity, ProviderRef,
};
use cs_mail::primitives::references::{ContentScopeRef, RelationshipRef, RequestHistoryRef};
use cs_mail::primitives::versions::{ProtocolVersion, RelationshipVersion, WireVersion};
use cs_mail::protocol::{
    ActorRef, AdmissionBasis, Relationship, RelationshipKey, RelationshipState,
};
use ed25519_dalek::{Signer, SigningKey};
use std::collections::{BTreeMap, BTreeSet};

const ALICE: ProtocolIdentity = ProtocolIdentity(1);
const BOB: ProtocolIdentity = ProtocolIdentity(2);
const CAROL: ProtocolIdentity = ProtocolIdentity(3);
const SECRET: [u8; 32] = [5; 32];

fn public() -> [u8; 32] {
    SigningKey::from_bytes(&SECRET).verifying_key().to_bytes()
}

fn pair(a: ProtocolIdentity, b: ProtocolIdentity) -> CorrespondenceRef {
    CorrespondenceRef::new(a, b).unwrap()
}

fn conversation(id: u128, a: ProtocolIdentity, b: ProtocolIdentity) -> Conversation {
    Conversation::new(ConversationId::new(id).unwrap(), pair(a, b))
}

fn reference() -> RelationshipRef {
    RelationshipRef::from_u128_for_test(5)
}

fn relationship(state: RelationshipState) -> Relationship {
    Relationship {
        key: RelationshipKey {
            sender: ALICE,
            recipient: BOB,
            reference: reference(),
        },
        history: RequestHistoryRef::new(1, [1; 32]),
        state,
        version: RelationshipVersion(4),
        changed_at: CanonicalTime(0),
    }
}

fn context() -> Context {
    Context {
        mailbox: vec![],
        persona_key: Some(public()),
        custody_key: Some(custodian().public_key()),
        contact: Some(relationship(RelationshipState::Accepted)),
        lane: None,
        conversations: BTreeMap::new(),
        messages: BTreeMap::new(),
        retained: BTreeMap::new(),
        fetched_copy: None,
        prior: None,
    }
}

fn request(command: Command) -> SignedRequest {
    SignedRequest {
        product: "mail".into(),
        account: AccountId(7),
        persona: ALICE,
        key: OperationalKeyRef(11),
        operation: IdempotencyKey(1),
        command,
        signature: vec![],
    }
    .sign(&SECRET)
    .unwrap()
}

fn custodian() -> LocalCustodian {
    LocalCustodian::from_secret_bytes(ContentKeyRef(90), &[9; 32]).unwrap()
}

fn binding(message: u128) -> ContentBinding {
    ContentBinding {
        wire_version: WireVersion(1),
        content_ref: ContentRef(3),
        message_id: MessageId(message),
        sender: ALICE,
        recipient: BOB,
        protocol_version: ProtocolVersion(2),
        relationship: reference(),
        content_scope: ContentScopeRef::from_u128_for_test(6),
        sender_certificate: ContentCertificateDigest([7; 32]),
        declarations: MessageDeclarations {
            purpose: DeclaredPurpose::Known(KnownPurpose::Personal),
            origin: OriginDeclaration {
                mode: OriginMode::HumanInitiated,
                authority: DeclarationAuthority::NativeSender(OperationalKeyRef(11)),
            },
            payload_schema: None,
        },
        message_valid_until: MessageValidityUntil(CanonicalTime(500)),
        capability: None,
    }
}

fn alice() -> NativeClient {
    NativeClient::new(
        ActorRef::Sender(ALICE),
        OperationalKeyRef(11),
        &SECRET,
        ContentKeyRef(1),
    )
}

fn bob() -> NativeClient {
    NativeClient::new(
        ActorRef::Recipient(BOB),
        OperationalKeyRef(12),
        &[6; 32],
        ContentKeyRef(2),
    )
}

fn prepared(
    sender: &NativeClient,
    recipient: EndpointPublicKey,
    document: &Document,
    message: u128,
) -> PreparedMessage {
    sender
        .prepare_correspondence(
            document,
            ConversationId::new(1).unwrap(),
            recipient,
            custodian().public_key(),
            binding(message),
            (CanonicalTime(10), CanonicalTime(1_000)),
        )
        .ok()
        .unwrap()
}

fn letter() -> Document {
    compose_with(vec![DocumentPart::Text("hello".into())], Some([4; 32])).unwrap()
}

fn record(manifest: MessageManifest, author: ProtocolIdentity) -> MessageRecord {
    MessageRecord {
        manifest,
        author,
        admission: AdmissionBasis::AcceptedRelationship {
            version: RelationshipVersion(4),
        },
        committed_at: CanonicalTime(1),
    }
}

#[test]
fn created_conversations_replay_and_conflict() {
    let create = || {
        request(Command::Create {
            id: ConversationId::new(1).unwrap(),
            other: BOB,
        })
    };
    let first = decide(&create(), &context(), CanonicalTime(20)).ok().unwrap();
    let (response, effects) = first.into_parts();
    let effects = effects.unwrap();
    assert!(response == Response::Conversation(conversation(1, ALICE, BOB)));
    assert_eq!(effects.conversation, Some(conversation(1, ALICE, BOB)));
    assert!(effects.receipt.outcome == response);
    let mut later = context();
    later
        .conversations
        .insert(1, conversation(1, ALICE, BOB));
    assert_eq!(
        decide(&create(), &later, CanonicalTime(21)).err(),
        Some(CorrespondenceError::Conflict)
    );
    later.contact = None;
    later.prior = Some(effects.receipt);
    let (again, none) = decide(&create(), &later, CanonicalTime(9_000))
        .ok()
        .unwrap()
        .into_parts();
    assert!(again == response && none.is_none());
    let altered = request(Command::Create {
        id: ConversationId::new(1).unwrap(),
        other: CAROL,
    });
    assert_eq!(
        decide(&altered, &later, CanonicalTime(22)).err(),
        Some(CorrespondenceError::Conflict)
    );
}

#[test]
fn requests_need_a_current_key_an_address_and_an_intact_signature() {
    let mut state = context();
    state.persona_key = None;
    let read = request(Command::Mailbox { after: 3, limit: 5 });
    assert_eq!(
        decide(&read, &state, CanonicalTime(1)).err(),
        Some(CorrespondenceError::Unauthorized)
    );
    let mut tampered = request(Command::Mailbox { after: 3, limit: 5 });
    tampered.command = Command::Mailbox { after: 4, limit: 5 };
    assert_eq!(
        decide(&tampered, &context(), CanonicalTime(1)).err(),
        Some(CorrespondenceError::Unauthorized)
    );
    let mut nameless = request(Command::Mailbox { after: 3, limit: 5 });
    nameless.product = String::new();
    assert_eq!(
        decide(&nameless, &context(), CanonicalTime(1)).err(),
        Some(CorrespondenceError::Invalid)
    );
    assert_eq!(
        nameless.sign(&SECRET).err(),
        Some(CorrespondenceError::Invalid)
    );
}

#[test]
fn mailboxes_list_what_has_not_expired() {
    let manifest = || {
        letter()
            .manifest(MessageId(8), ConversationId::new(1).unwrap())
            .unwrap()
    };
    let mut state = context();
    state.mailbox = vec![
        (4, record(manifest(), BOB), CanonicalTime(10)),
        (5, record(manifest(), BOB), CanonicalTime(30)),
        (6, record(manifest(), BOB), CanonicalTime(20)),
    ];
    let read = request(Command::Mailbox { after: 3, limit: 5 });
    let (response, effects) = decide(&read, &state, CanonicalTime(20))
        .ok()
        .unwrap()
        .into_parts();
    assert!(effects.is_none());
    match response {
        Response::Mailbox {
            entries,
            next_after,
        } => {
            assert_eq!(next_after, 6);
            assert_eq!(entries.len(), 1);
            assert_eq!(entries[0].0, 5);
        }
        _ => panic!("a mailbox was asked for"),
    }
    state.mailbox.clear();
    let (response, _) = decide(&read, &state, CanonicalTime(20))
        .ok()
        .unwrap()
        .into_parts();
    assert!(
        response
            == Response::Mailbox {
                entries: vec![],
                next_after: 3
            }
    );
}

#[test]
fn a_prepared_message_is_delivered_read_and_recognized() {
    let (alice, bob) = (alice(), bob());
    let document = letter();
    let package = prepared(&alice, bob.content_public_key(), &document, 8);
    let mut state = context();
    state.conversations.insert(1, conversation(1, ALICE, BOB));
    let (response, effects) = decide(
        &request(Command::Send(Box::new(package.clone()))),
        &state,
        CanonicalTime(20),
    )
    .ok()
    .unwrap()
    .into_parts();
    assert!(response == Response::Committed(MessageId(8)));
    let effects = effects.unwrap();
    assert!(effects.lane.is_none());
    let revisions: Vec<(u128, u64)> = effects.receipt.policy_revisions.into_iter().collect();
    assert_eq!(revisions, vec![(1, 0)]);
    let (delivered, sealed) = effects.delivery.unwrap();
    assert_eq!(delivered.author, ALICE);
    let view = MessageView {
        record: delivered,
        ciphertext: sealed.recipient_copy.clone(),
    };
    let plaintext = bob
        .open_correspondence(&view, alice.content_public_key())
        .unwrap();
    assert_eq!(plaintext, document.json_bytes());
    assert!(recognize(&view.record.manifest, Some(letter())).is_ok());
    let other = compose_with(vec![DocumentPart::Text("other".into())], Some([4; 32])).unwrap();
    assert!(recognize(&view.record.manifest, Some(other)).is_err());
    assert!(recognize(&view.record.manifest, None).is_err());
    // The author's copy is not the recipient's.
    let foreign = MessageView {
        record: view.record,
        ciphertext: sealed.sender_copy.clone(),
    };
    assert_eq!(
        bob.open_correspondence(&foreign, alice.content_public_key()),
        Err(CorrespondenceError::Invalid)
    );
}

#[test]
fn deliveries_are_refused_for_what_is_wrong_with_them() {
    let (alice, bob) = (alice(), bob());
    let send = |package: &PreparedMessage, state: &Context, now: u64| {
        decide(
            &request(Command::Send(Box::new(package.clone()))),
            state,
            CanonicalTime(now),
        )
        .err()
    };
    let package = prepared(&alice, bob.content_public_key(), &letter(), 8);
    let ready = || {
        let mut state = context();
        state.conversations.insert(1, conversation(1, ALICE, BOB));
        state
    };
    assert_eq!(send(&package, &ready(), 20), None);
    assert_eq!(
        send(&package, &context(), 20),
        Some(CorrespondenceError::Unauthorized)
    );
    let mut blocked = ready();
    blocked.contact = Some(relationship(RelationshipState::Blocked));
    assert_eq!(
        send(&package, &blocked, 20),
        Some(CorrespondenceError::Unauthorized)
    );
    let mut keyless = ready();
    keyless.custody_key = None;
    assert_eq!(
        send(&package, &keyless, 20),
        Some(CorrespondenceError::Unavailable)
    );
    assert_eq!(
        send(&package, &ready(), 9),
        Some(CorrespondenceError::Invalid)
    );
    assert_eq!(
        send(&package, &ready(), 500),
        Some(CorrespondenceError::Invalid)
    );
    let mut unmatched = package.clone();
    unmatched.recipient_recovery.ciphertext.expires_at = CanonicalTime(999);
    assert_eq!(
        send(&unmatched, &ready(), 20),
        Some(CorrespondenceError::Invalid)
    );
    let mut known = ready();
    known
        .messages
        .insert(8, record(package.manifest.clone(), ALICE));
    assert_eq!(
        send(&package, &known, 20),
        Some(CorrespondenceError::Conflict)
    );
}

fn source_of(manifest: &MessageManifest) -> MessageSelection {
    MessageSelection::new(
        manifest.message(),
        manifest.version(),
        vec![SelectionElement::TextRange {
            block: 0,
            start: 0,
            end: 5,
        }],
    )
    .unwrap()
}

fn drawing_on(manifest: &MessageManifest, message: u128, conversation: u128) -> MessageManifest {
    compose_with(
        vec![
            DocumentPart::Text("hello".into()),
            DocumentPart::Reference(SourceReference(source_of(manifest))),
        ],
        Some([4; 32]),
    )
    .unwrap()
    .manifest(MessageId(message), ConversationId::new(conversation).unwrap())
    .unwrap()
}

fn assessed(state: &Context, manifest: &MessageManifest) -> Assessment {
    let (response, effects) = decide(
        &request(Command::Assess {
            manifest: manifest.clone(),
        }),
        state,
        CanonicalTime(20),
    )
    .ok()
    .unwrap()
    .into_parts();
    assert!(effects.is_none());
    match response {
        Response::Assessment(assessment) => assessment,
        _ => panic!("an assessment was asked for"),
    }
}

#[test]
fn a_restricted_ancestor_stops_reuse_however_it_is_reached() {
    let root = letter()
        .manifest(MessageId(20), ConversationId::new(2).unwrap())
        .unwrap();
    let middle = drawing_on(&root, 21, 3);
    let draft = drawing_on(&middle, 22, 1);
    let mut state = context();
    state.conversations.insert(1, conversation(1, ALICE, BOB));
    state.conversations.insert(2, conversation(2, ALICE, CAROL));
    state.conversations.insert(3, conversation(3, ALICE, CAROL));
    state.messages.insert(20, record(root, CAROL));
    state.messages.insert(21, record(middle, ALICE));
    state.retained.insert((21, 2), CanonicalTime(50));
    assert_eq!(
        assessed(&state, &draft),
        Assessment {
            reuse: Ok(()),
            recipient_sources: vec![SourceState::AccessDenied],
        }
    );
    let restricted = state.conversations[&2]
        .change(CAROL, 0, PolicyAction::Restrict)
        .unwrap();
    state.conversations.insert(2, restricted);
    assert_eq!(
        assessed(&state, &draft),
        Assessment {
            reuse: Err(CorrespondenceError::PolicyRestricted),
            recipient_sources: vec![],
        }
    );
    state.messages.remove(&20);
    assert_eq!(
        assessed(&state, &draft).reuse,
        Err(CorrespondenceError::PolicyUnresolved)
    );
}

#[test]
fn too_many_sources_stop_reuse() {
    let chain = |length: usize| {
        let mut state = context();
        state.conversations.insert(1, conversation(1, ALICE, BOB));
        let mut last = letter()
            .manifest(MessageId(100), ConversationId::new(1).unwrap())
            .unwrap();
        state.messages.insert(100, record(last.clone(), ALICE));
        for i in 1..length {
            let next = drawing_on(&last, 100 + i as u128, 1);
            state
                .messages
                .insert(100 + i as u128, record(next.clone(), ALICE));
            last = next;
        }
        let draft = drawing_on(&last, 5, 1);
        assessed(&state, &draft).reuse
    };
    assert_eq!(chain(MAX_SOURCE_GRAPH), Ok(()));
    assert_eq!(
        chain(MAX_SOURCE_GRAPH + 1),
        Err(CorrespondenceError::Invalid)
    );
}

#[test]
fn fetching_and_resolving_keep_to_participants_and_retention() {
    let manifest = letter()
        .manifest(MessageId(20), ConversationId::new(1).unwrap())
        .unwrap();
    let source = source_of(&manifest);
    let package = prepared(&alice(), bob().content_public_key(), &letter(), 20);
    let mut state = context();
    let fetch = || request(Command::Fetch { message: MessageId(20) });
    let answer = |command: &SignedRequest, state: &Context| {
        decide(command, state, CanonicalTime(20))
            .ok()
            .unwrap()
            .into_parts()
            .0
    };
    assert!(answer(&fetch(), &state) == Response::AccessDenied);
    state.messages.insert(20, record(manifest, BOB));
    assert!(answer(&fetch(), &state) == Response::AccessDenied);
    state.conversations.insert(1, conversation(1, ALICE, BOB));
    assert!(answer(&fetch(), &state) == Response::Unavailable);
    state.retained.insert((20, 1), CanonicalTime(21));
    state.fetched_copy = Some(package.sender_copy.clone());
    assert!(matches!(answer(&fetch(), &state), Response::Message(_)));
    let resolve = request(Command::Resolve {
        source: source.clone(),
    });
    assert!(matches!(answer(&resolve, &state), Response::Message(_)));
    let stale = MessageSelection::new(
        MessageId(20),
        cs_mail::correspondence::shape::MessageVersion([1; 32]),
        source.elements().to_vec(),
    )
    .unwrap();
    assert_eq!(
        decide(
            &request(Command::Resolve { source: stale }),
            &state,
            CanonicalTime(20)
        )
        .err(),
        Some(CorrespondenceError::Invalid)
    );
    state.retained.insert((20, 1), CanonicalTime(20));
    assert!(answer(&resolve, &state) == Response::Unavailable);
    let (response, effects) = decide(
        &request(Command::DeleteCopies {
            id: ConversationId::new(1).unwrap(),
        }),
        &state,
        CanonicalTime(20),
    )
    .ok()
    .unwrap()
    .into_parts();
    assert!(response == Response::CopiesDeleted);
    assert_eq!(
        effects.unwrap().delete_copies,
        Some(ConversationId::new(1).unwrap())
    );
}

#[test]
fn requests_are_signed_over_their_compact_json() {
    let signed = request(Command::ChangePolicy {
        id: ConversationId::new(4).unwrap(),
        revision: 2,
        action: PolicyAction::ProposeRelaxation,
    });
    let expected = "[\"cs-mail/correspondence-command/v3\",\"mail\",7,1,11,1,\
        {\"kind\":\"ChangePolicy\",\"data\":{\"id\":4,\"revision\":2,\"action\":\"ProposeRelaxation\"}}]";
    let digest: [u8; 32] = <sha2::Sha256 as sha2::Digest>::digest(expected.as_bytes()).into();
    assert_eq!(signed.digest(), Ok(digest));
    let quoted = SignedRequest {
        product: "a\"b\n".into(),
        ..request(Command::Policy {
            id: ConversationId::new(4).unwrap(),
        })
    };
    let expected = "[\"cs-mail/correspondence-command/v3\",\"a\\\"b\\n\",7,1,11,1,\
        {\"kind\":\"Policy\",\"data\":{\"id\":4}}]";
    let digest: [u8; 32] = <sha2::Sha256 as sha2::Digest>::digest(expected.as_bytes()).into();
    assert_eq!(quoted.digest(), Ok(digest));
    assert_eq!(
        request(Command::Fetch { message: MessageId(3) })
            .command
            .source_messages(),
        vec![MessageId(3)]
    );
}

#[test]
fn composed_documents_have_secrets_of_their_own() {
    let parts = || vec![DocumentPart::Text("same".into())];
    let (a, b) = (
        NativeClient::compose_correspondence(parts()).unwrap(),
        NativeClient::compose_correspondence(parts()).unwrap(),
    );
    assert_ne!(a.json_bytes(), b.json_bytes());
    assert!(NativeClient::compose_correspondence(vec![]).is_err());
    assert_eq!(
        compose_with(parts(), None).err(),
        Some(CorrespondenceError::Unavailable)
    );
}

#[test]
fn preparation_refuses_providers_foreign_authors_and_self_delivery() {
    let provider = NativeClient::new(
        ActorRef::Provider(ProviderRef(1)),
        OperationalKeyRef(1),
        &SECRET,
        ContentKeyRef(1),
    );
    let prepare = |client: &NativeClient, binding: ContentBinding| {
        client
            .prepare_correspondence(
                &letter(),
                ConversationId::new(1).unwrap(),
                bob().content_public_key(),
                custodian().public_key(),
                binding,
                (CanonicalTime(10), CanonicalTime(1_000)),
            )
            .err()
    };
    assert_eq!(
        prepare(&provider, binding(8)),
        Some(CorrespondenceError::Unauthorized)
    );
    assert_eq!(
        prepare(&bob(), binding(8)),
        Some(CorrespondenceError::Invalid)
    );
    let mut own = binding(8);
    own.recipient = ALICE;
    assert_eq!(
        prepare(&alice(), own),
        Some(CorrespondenceError::Invalid)
    );
    assert_eq!(prepare(&alice(), binding(8)), None);
}

struct Keeper(LocalCustodian, Document);

impl LocalKeyCustody for Keeper {
    fn public_key(&self) -> EndpointPublicKey {
        self.0.public_key()
    }

    fn release(&self, authorization: AuthorizedDecryption<'_>) -> Result<ReleasedCopy, ConsentError> {
        let plaintext = self.0.open(&authorization)?;
        let document = if plaintext == self.1.json_bytes() {
            Some(self.1.clone())
        } else {
            None
        };
        self.0.seal(&authorization, &plaintext, &document)
    }
}

fn consent_request(actor: DecryptionActor, command: ConsentCommand) -> SignedConsentRequest {
    SignedConsentRequest {
        product: "mail".into(),
        account: AccountId(7),
        persona: BOB,
        actor,
        operation: IdempotencyKey(1),
        command,
        signature: vec![],
    }
    .sign(&SECRET)
    .unwrap()
}

fn display(device: &NativeClient) -> GrantUse {
    GrantUse {
        actor: DecryptionActor::UserDevice(OperationalKeyRef(12)),
        purpose: DecryptionPurpose::Display,
        destination: device.content_public_key(),
    }
}

fn consent_context(package: &PreparedMessage) -> ConsentContext {
    ConsentContext {
        authority: PersonaAuthority {
            product: "mail".into(),
            control: AccountControl::new(BOB, OperationalKeyRef(12)).unwrap(),
            persona_keys: BTreeMap::from([(12, public())]),
        },
        custody_key: custodian().public_key(),
        processor: None,
        grant: None,
        retained: BTreeMap::from([(
            8,
            RetainedRecovery {
                record: record(package.manifest.clone(), ALICE),
                recovery: package.recipient_recovery.clone(),
                expires_at: CanonicalTime(900),
            },
        )]),
        prior: None,
    }
}

#[test]
fn consent_is_granted_used_and_revoked() {
    let (alice, bob) = (alice(), bob());
    let package = prepared(&alice, bob.content_public_key(), &letter(), 8);
    let keeper = Keeper(custodian(), letter());
    let device = DecryptionActor::UserDevice(OperationalKeyRef(12));
    let id = GrantId::new(77).unwrap();
    let mut state = consent_context(&package);
    let authorize = consent_request(
        device,
        ConsentCommand::Authorize {
            id,
            scope: ContentScope::new(BTreeSet::from([8])).unwrap(),
            usage: display(&bob),
            expires_at: CanonicalTime(300),
        },
    );
    let (response, effects) = decide_consent(&authorize, &state, &keeper, CanonicalTime(100))
        .ok()
        .unwrap()
        .into_parts();
    assert!(matches!(
        response,
        ConsentResponse::Outcome(ConsentOutcome::Granted(granted)) if granted == id
    ));
    let effects = effects.unwrap();
    state.grant = effects.grant;
    let read = consent_request(
        device,
        ConsentCommand::Read {
            id,
            message: MessageId(8),
            purpose: DecryptionPurpose::Display,
        },
    );
    let (response, effects) = decide_consent(&read, &state, &keeper, CanonicalTime(120))
        .ok()
        .unwrap()
        .into_parts();
    let released = match response {
        ConsentResponse::Released(copy) => copy,
        _ => panic!("the copy is released"),
    };
    assert_eq!(released.ciphertext.expires_at, CanonicalTime(300));
    let plaintext = bob
        .open_released(&released, custodian().public_key())
        .unwrap();
    assert_eq!(plaintext, letter().json_bytes());
    assert_eq!(
        bob.open_released(&released, alice.content_public_key()),
        Err(CorrespondenceError::Invalid)
    );
    // A retry names the release and discloses nothing.
    let mut replayed = consent_context(&package);
    replayed.prior = Some(effects.unwrap().receipt);
    let (response, none) = decide_consent(&read, &replayed, &keeper, CanonicalTime(5_000))
        .ok()
        .unwrap()
        .into_parts();
    assert!(none.is_none());
    assert!(matches!(response, ConsentResponse::AlreadyReleased { .. }));
    // Revocation ends it.
    let revoke = consent_request(device, ConsentCommand::Revoke { id });
    let (_, effects) = decide_consent(&revoke, &state, &keeper, CanonicalTime(130))
        .ok()
        .unwrap()
        .into_parts();
    state.grant = effects.unwrap().grant;
    assert_eq!(
        decide_consent(&read, &state, &keeper, CanonicalTime(140)).err(),
        Some(ConsentError::Revoked)
    );
    let inspect = consent_request(device, ConsentCommand::Inspect { id });
    assert!(matches!(
        decide_consent(&inspect, &state, &keeper, CanonicalTime(140))
            .ok()
            .unwrap()
            .into_parts(),
        (ConsentResponse::Grant(_), None)
    ));
}

#[test]
fn consent_refuses_expiry_lost_keys_and_substituted_releases() {
    let (alice, bob) = (alice(), bob());
    let package = prepared(&alice, bob.content_public_key(), &letter(), 8);
    let keeper = Keeper(custodian(), letter());
    let device = DecryptionActor::UserDevice(OperationalKeyRef(12));
    let id = GrantId::new(77).unwrap();
    let mut state = consent_context(&package);
    let authorize = |expires_at: u64, message: u128| {
        consent_request(
            device,
            ConsentCommand::Authorize {
                id,
                scope: ContentScope::new(BTreeSet::from([message])).unwrap(),
                usage: display(&bob),
                expires_at: CanonicalTime(expires_at),
            },
        )
    };
    assert_eq!(
        decide_consent(&authorize(300, 9), &state, &keeper, CanonicalTime(100)).err(),
        Some(ConsentError::Unavailable)
    );
    assert_eq!(
        decide_consent(&authorize(100, 8), &state, &keeper, CanonicalTime(100)).err(),
        Some(ConsentError::Invalid)
    );
    let (_, effects) = decide_consent(&authorize(300, 8), &state, &keeper, CanonicalTime(100))
        .ok()
        .unwrap()
        .into_parts();
    state.grant = effects.unwrap().grant;
    assert_eq!(
        decide_consent(&authorize(300, 8), &state, &keeper, CanonicalTime(100)).err(),
        Some(ConsentError::Conflict)
    );
    let read = |message: u128| {
        consent_request(
            device,
            ConsentCommand::Read {
                id,
                message: MessageId(message),
                purpose: DecryptionPurpose::Display,
            },
        )
    };
    assert_eq!(
        decide_consent(&read(8), &state, &keeper, CanonicalTime(300)).err(),
        Some(ConsentError::Expired)
    );
    assert_eq!(
        decide_consent(&read(9), &state, &keeper, CanonicalTime(120)).err(),
        Some(ConsentError::ScopeDenied)
    );
    // A custodian that holds another document releases nothing.
    let other = compose_with(vec![DocumentPart::Text("other".into())], Some([4; 32])).unwrap();
    assert_eq!(
        decide_consent(
            &read(8),
            &state,
            &Keeper(custodian(), other),
            CanonicalTime(120)
        )
        .err(),
        Some(ConsentError::Invalid)
    );
    // A custodian with another key is not asked.
    let stranger = LocalCustodian::from_secret_bytes(ContentKeyRef(91), &[1; 32]).unwrap();
    assert_eq!(
        decide_consent(
            &read(8),
            &state,
            &Keeper(stranger, letter()),
            CanonicalTime(120)
        )
        .err(),
        Some(ConsentError::Unavailable)
    );
    assert_eq!(
        conclude(
            &read(8),
            &state,
            custodian().public_key(),
            Err(ConsentError::Unavailable),
            CanonicalTime(120)
        )
        .err(),
        Some(ConsentError::Unavailable)
    );
    state.authority.persona_keys.clear();
    assert_eq!(
        decide_consent(&read(8), &state, &keeper, CanonicalTime(120)).err(),
        Some(ConsentError::Unauthorized)
    );
}

#[test]
fn processors_read_only_what_they_are_registered_and_granted_for() {
    let bob = bob();
    let package = prepared(&alice(), bob.content_public_key(), &letter(), 8);
    let keeper = Keeper(custodian(), letter());
    let actor = DecryptionActor::CsqdProcessor(OperationalKeyRef(30));
    let usage = || GrantUse {
        actor,
        purpose: DecryptionPurpose::CsqdProcessing {
            operation: "spam-check".into(),
        },
        destination: bob.content_public_key(),
    };
    let id = GrantId::new(78).unwrap();
    let mut state = consent_context(&package);
    let authorize = consent_request(
        DecryptionActor::UserDevice(OperationalKeyRef(12)),
        ConsentCommand::Authorize {
            id,
            scope: ContentScope::new(BTreeSet::from([8])).unwrap(),
            usage: usage(),
            expires_at: CanonicalTime(300),
        },
    );
    assert_eq!(
        decide_consent(&authorize, &state, &keeper, CanonicalTime(100)).err(),
        Some(ConsentError::Unauthorized)
    );
    state.processor = Some(ProcessorRegistration {
        key: OperationalKeyRef(30),
        verifying_key: public(),
        usage: usage(),
        active: true,
    });
    let (_, effects) = decide_consent(&authorize, &state, &keeper, CanonicalTime(100))
        .ok()
        .unwrap()
        .into_parts();
    let read = consent_request(
        actor,
        ConsentCommand::Read {
            id,
            message: MessageId(8),
            purpose: DecryptionPurpose::CsqdProcessing {
                operation: "spam-check".into(),
            },
        },
    );
    assert_eq!(
        decide_consent(&read, &state, &keeper, CanonicalTime(120)).err(),
        Some(ConsentError::Unauthorized)
    );
    state.grant = effects.unwrap().grant;
    assert!(decide_consent(&read, &state, &keeper, CanonicalTime(120)).is_ok());
    let revoke = consent_request(actor, ConsentCommand::Revoke { id });
    assert_eq!(
        decide_consent(&revoke, &state, &keeper, CanonicalTime(120)).err(),
        Some(ConsentError::Unauthorized)
    );
    state.processor.as_mut().unwrap().active = false;
    assert_eq!(
        decide_consent(&read, &state, &keeper, CanonicalTime(120)).err(),
        Some(ConsentError::Unauthorized)
    );
}

fn array(bytes: &[u8]) -> String {
    format!("{bytes:?}").replace(' ', "")
}

fn key_json(key: &EndpointPublicKey) -> String {
    format!(
        "{{\"reference\":{},\"bytes\":{}}}",
        key.reference.0,
        array(&key.bytes)
    )
}

fn copy_json(copy: &EncryptedContentRecord) -> String {
    let b = &copy.binding;
    let e = &copy.envelope;
    let reference = |version: u16, bytes: &[u8; 32]| {
        format!(
            "{{\"derivation_version\":{version},\"bytes\":{}}}",
            array(bytes)
        )
    };
    format!(
        "{{\"binding\":{{\"wire_version\":1,\"content_ref\":3,\"message_id\":{},\"sender\":{},\"recipient\":{},\"protocol_version\":2,\"relationship\":{},\"content_scope\":{},\"sender_certificate\":{},\"declarations\":{{\"purpose\":{{\"Known\":\"Personal\"}},\"origin\":{{\"mode\":\"HumanInitiated\",\"authority\":{{\"NativeSender\":11}}}},\"payload_schema\":null}},\"message_valid_until\":500,\"capability\":null}},\"envelope\":{{\"suite\":\"HpkeX25519HkdfSha256ChaCha20Poly1305V1\",\"sender_key\":{},\"recipient_key\":{},\"encapsulated_key\":{},\"ciphertext\":{}}},\"created_at\":10,\"expires_at\":1000}}",
        b.message_id.0,
        b.sender.0,
        b.recipient.0,
        reference(b.relationship.derivation_version, &b.relationship.bytes),
        reference(b.content_scope.derivation_version, &b.content_scope.bytes),
        array(&b.sender_certificate.0),
        e.sender_key.0,
        e.recipient_key.0,
        array(&e.encapsulated_key),
        array(&e.ciphertext),
    )
}

#[test]
fn a_sent_message_is_signed_in_every_part() {
    let bob = bob();
    let document = letter();
    let package = prepared(&alice(), bob.content_public_key(), &document, 8);
    let manifest = format!(
        "{{\"message\":8,\"conversation\":1,\"version\":{},\"blocks\":[{{\"Text\":{{\"bytes\":5}}}}],\"sources\":[]}}",
        array(&package.manifest.version().0)
    );
    let recovery = |copy: &RecoveryCopy| {
        format!(
            "{{\"sender\":{},\"ciphertext\":{}}}",
            key_json(&copy.sender),
            copy_json(&copy.ciphertext)
        )
    };
    let statement = format!(
        "[\"cs-mail/correspondence-command/v3\",\"mail\",7,{},11,1,{{\"kind\":\"Send\",\"data\":{{\"manifest\":{manifest},\"sender_copy\":{},\"recipient_copy\":{},\"sender_recovery\":{},\"recipient_recovery\":{}}}}}]",
        ALICE.0,
        copy_json(&package.sender_copy),
        copy_json(&package.recipient_copy),
        recovery(&package.sender_recovery),
        recovery(&package.recipient_recovery),
    );
    let signed = request(Command::Send(Box::new(package)));
    assert_eq!(
        signed.signature,
        SigningKey::from_bytes(&SECRET)
            .sign(statement.as_bytes())
            .to_bytes()
            .to_vec()
    );
}

#[test]
fn documents_are_encoded_in_every_part() {
    let original = letter();
    let manifest = original
        .manifest(MessageId(8), ConversationId::new(1).unwrap())
        .unwrap();
    let selection = source_of(&manifest);
    let quoted = original.quote(&manifest, selection.clone()).unwrap();
    let document = compose_with(
        vec![
            DocumentPart::Text("a \"b\"".into()),
            DocumentPart::Quotation(quoted),
        ],
        Some([4; 32]),
    )
    .unwrap();
    let text = String::from_utf8(document.json_bytes()).unwrap();
    let source = String::from_utf8(selection_json(&selection)).unwrap();
    assert_eq!(
        source,
        format!(
            "{{\"message\":8,\"version\":{},\"elements\":[{{\"TextRange\":{{\"block\":0,\"start\":0,\"end\":5}}}}]}}",
            array(&manifest.version().0)
        )
    );
    assert_eq!(
        text,
        format!(
            "{{\"version_secret\":{},\"parts\":[{{\"Text\":\"a \\\"b\\\"\"}},{{\"Quotation\":{{\"source\":{source},\"blocks\":[{{\"Text\":\"hello\"}}]}}}}]}}",
            array(&[4; 32])
        )
    );
    let other = compose_with(vec![DocumentPart::Text("hello".into())], Some([5; 32])).unwrap();
    assert!(other.json_bytes() != original.json_bytes());
    assert!(
        other
            .manifest(MessageId(8), ConversationId::new(1).unwrap())
            .unwrap()
            .version()
            != manifest.version()
    );
}

#[test]
fn packages_need_every_sealed_copy() {
    let bob = bob();
    let made = prepared(&alice(), bob.content_public_key(), &letter(), 8);
    let sender = alice().content_public_key();
    let copies = || {
        [
            Ok(made.sender_copy.clone()),
            Ok(made.recipient_copy.clone()),
            Ok(made.sender_recovery.ciphertext.clone()),
            Ok(made.recipient_recovery.ciphertext.clone()),
        ]
    };
    let [a, b, c, d] = copies();
    let packed = package(made.manifest.clone(), sender, a, b, c, d).ok().unwrap();
    assert!(packed.manifest == made.manifest);
    assert!(packed.sender_copy == made.sender_copy);
    assert!(packed.recipient_copy == made.recipient_copy);
    assert!(packed.sender_recovery.ciphertext == made.sender_recovery.ciphertext);
    assert!(packed.recipient_recovery.ciphertext == made.recipient_recovery.ciphertext);
    assert_eq!(packed.sender_recovery.sender, sender);
    assert_eq!(packed.recipient_recovery.sender, sender);
    for missing in 0..4 {
        let mut all = copies();
        all[missing] = Err(ContentError::InvalidPublicKey);
        let [a, b, c, d] = all;
        assert_eq!(
            package(made.manifest.clone(), sender, a, b, c, d).err(),
            Some(CorrespondenceError::Invalid)
        );
    }
    let custodian = custodian().public_key();
    let released = released_copy(
        Ok(made.sender_copy.clone()),
        made.manifest.clone(),
        custodian,
    )
    .ok()
    .unwrap();
    assert!(released.ciphertext == made.sender_copy && released.manifest == made.manifest);
    assert_eq!(released.custodian, custodian);
    assert_eq!(
        released_copy(
            Err(ContentError::InvalidCiphertext),
            made.manifest.clone(),
            custodian
        )
        .err(),
        Some(ConsentError::Invalid)
    );
}

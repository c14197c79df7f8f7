//! Native endpoint helpers. Plaintext never crosses this interface's provider boundary.

use crate::application::consent::ReleasedCopy;
use crate::application::correspondence::{bounded_ciphertext, MessageView};
use crate::application::request::{PreparedMessage, RecoveryCopy, RequestModel};
use crate::billing::commands::{BillingCommand, SignedBillingCommand};
use crate::billing::offer::BillingError;
use crate::bytes::zero_32;
use crate::content::binding::{message_declaration_digest, ContentBinding, ContentError};
use crate::content::certificate::{ContentKeyCertificate, EndpointPublicKey};
use crate::content::cipher::{
    decrypt, decrypted, encrypt, encryption_fault, EncryptedContentRecord, EndpointSecretKey,
};
use crate::content::hpke_suite::hpke_public;
use crate::correspondence::document::{
    flattened, part_models, valid_content, Document, DocumentModel, DocumentPart, ManifestModel,
    MessageManifest,
};
use crate::correspondence::policy::{ConversationId, CorrespondenceError};
use crate::correspondence::shape::MAX_PARTS;
use crate::crypto::{ed25519_public, ed25519_signature, public_key, sha256_of};
use crate::finance::scope::FinancialScope;
use crate::primitives::amounts::CanonicalTime;
use crate::primitives::declarations::{
    DeclarationAuthority, MessageDeclarationDigest, MessageDeclarations,
};
use crate::primitives::ids::{
    BillingAccountId, ContentKeyRef, IdempotencyKey, OperationalKeyRef, ProtocolIdentity,
    ProviderRef,
};
use crate::primitives::references::RelationshipRef;
use crate::primitives::versions::{ContentKeyVersion, ProtocolVersion, WireVersion};
use crate::protocol::{ActorRef, Relationship, SecurityError};
use vstd::prelude::*;

verus! {

/// How a recipient's endpoint shows a message.
#[derive(Clone, Copy, Debug, PartialEq, Eq, Structural)]
pub enum PresentationDisposition {
    Inbox,
    Quiet,
    Digest,
}

pub struct PresentationPolicyInput<'a> {
    pub sender: ProtocolIdentity,
    pub declarations: &'a MessageDeclarations,
}

/// Recipient-owned presentation policy. Its output has no protocol or ledger authority.
pub trait PresentationPolicy {
    fn decide(&self, input: &PresentationPolicyInput<'_>) -> PresentationDisposition;
}

#[derive(Clone, Copy, Debug, Default)]
pub struct DefaultPresentationPolicy;

impl PresentationPolicy for DefaultPresentationPolicy {
    fn decide(&self, _input: &PresentationPolicyInput<'_>) -> (disposition: PresentationDisposition)
        ensures
            disposition == PresentationDisposition::Inbox,
    {
        PresentationDisposition::Inbox
    }
}

/// Where a signature is meant to count.
#[derive(Clone, Copy, PartialEq, Eq)]
pub struct SigningScope {
    pub deployment_domain: [u8; 32],
    pub intended_provider: ProviderRef,
    pub relationship: RelationshipRef,
}

/// An endpoint with its operational key and its content key.
pub struct NativeClient {
    actor: ActorRef,
    operational_key: OperationalKeyRef,
    signing_secret: [u8; 32],
    content_secret: EndpointSecretKey,
    content_public: EndpointPublicKey,
}

/// Calls `getrandom::fill` on 32 bytes; none where the system has no randomness to give. Nothing
/// is said of which bytes come.
#[verifier::external_body]
fn random_secret() -> (secret: Option<[u8; 32]>) {
    let mut secret = [0u8; 32];
    getrandom::fill(&mut secret).ok()?;
    Some(secret)
}

/// Packs a message's four sealed copies with its manifest, and with the sender's key for either
/// recovery; nothing is packed unless all four were sealed.
pub fn package(
    manifest: MessageManifest,
    sender: EndpointPublicKey,
    sender_copy: Result<EncryptedContentRecord, ContentError>,
    recipient_copy: Result<EncryptedContentRecord, ContentError>,
    sender_recovery: Result<EncryptedContentRecord, ContentError>,
    recipient_recovery: Result<EncryptedContentRecord, ContentError>,
) -> (result: Result<PreparedMessage, CorrespondenceError>)
    ensures
        match (sender_copy, recipient_copy, sender_recovery, recipient_recovery) {
            (Ok(a), Ok(b), Ok(c), Ok(d)) => result == Ok::<PreparedMessage, CorrespondenceError>(
                PreparedMessage {
                    manifest,
                    sender_copy: a,
                    recipient_copy: b,
                    sender_recovery: RecoveryCopy { sender, ciphertext: c },
                    recipient_recovery: RecoveryCopy { sender, ciphertext: d },
                },
            ),
            _ => result == Err::<PreparedMessage, CorrespondenceError>(
                CorrespondenceError::Invalid,
            ),
        },
{
    match (sender_copy, recipient_copy, sender_recovery, recipient_recovery) {
        (Ok(sender_copy), Ok(recipient_copy), Ok(own), Ok(other)) => Ok(
            PreparedMessage {
                manifest,
                sender_copy,
                recipient_copy,
                sender_recovery: RecoveryCopy { sender, ciphertext: own },
                recipient_recovery: RecoveryCopy { sender, ciphertext: other },
            },
        ),
        _ => Err(CorrespondenceError::Invalid),
    }
}

/// The document of some parts under a secret, if they make one.
pub open spec fn composed(parts: Seq<DocumentPart>, secret: Option<[u8; 32]>) -> Result<
    DocumentModel,
    CorrespondenceError,
> {
    match secret {
        None => Err(CorrespondenceError::Unavailable),
        Some(bytes) => if !zero_32(bytes) && 1 <= parts.len() <= MAX_PARTS && valid_content(
            flattened(part_models(parts)),
        ) {
            Ok(DocumentModel { version_secret: bytes@, parts: part_models(parts) })
        } else {
            Err(CorrespondenceError::Invalid)
        },
    }
}

/// The document of some parts under a fresh secret, if one was to be had.
pub fn compose_with(parts: Vec<DocumentPart>, secret: Option<[u8; 32]>) -> (result: Result<
    Document,
    CorrespondenceError,
>)
    ensures
        match composed(parts@, secret) {
            Ok(model) => result matches Ok(document) && document@ == model,
            Err(e) => result == Err::<Document, CorrespondenceError>(e),
        },
{
    match secret {
        Some(bytes) => Document::new(parts, bytes),
        None => Err(CorrespondenceError::Unavailable),
    }
}

/// A document that is what a manifest says, and nothing else.
pub fn recognize(manifest: &MessageManifest, document: Option<Document>) -> (result: Result<
    Document,
    CorrespondenceError,
>)
    ensures
        match document {
            Some(parsed) => if parsed@.manifest(manifest@.message, manifest@.conversation) == Ok::<
                ManifestModel,
                CorrespondenceError,
            >(manifest@) {
                result == Ok::<Document, CorrespondenceError>(parsed)
            } else {
                result == Err::<Document, CorrespondenceError>(CorrespondenceError::Invalid)
            },
            None => result == Err::<Document, CorrespondenceError>(CorrespondenceError::Invalid),
        },
{
    let document = match document {
        Some(document) => document,
        None => return Err(CorrespondenceError::Invalid),
    };
    match document.manifest(manifest.message(), manifest.conversation()) {
        Ok(own) => {
            if own.same(manifest) {
                Ok(document)
            } else {
                Err(CorrespondenceError::Invalid)
            }
        },
        Err(e) => Err(e),
    }
}

impl NativeClient {
    pub closed spec fn acts_as(&self) -> ActorRef {
        self.actor
    }

    pub closed spec fn signs_as(&self) -> OperationalKeyRef {
        self.operational_key
    }

    pub closed spec fn signing(&self) -> Seq<u8> {
        self.signing_secret@
    }

    pub closed spec fn content_key(&self) -> EndpointSecretKey {
        self.content_secret
    }

    pub closed spec fn public_half(&self) -> EndpointPublicKey {
        self.content_public
    }

    #[verifier::type_invariant]
    spec fn well_formed(self) -> bool {
        self.content_key().matches_public(self.public_half())
    }

    /// An endpoint with a new content key.
    pub fn new(
        actor: ActorRef,
        operational_key: OperationalKeyRef,
        signing_secret: &[u8; 32],
        content_key: ContentKeyRef,
    ) -> (client: Self)
        ensures
            client.acts_as() == actor,
            client.signs_as() == operational_key,
            client.signing() == signing_secret@,
            client.content_key().names() == content_key,
    {
        let (content_secret, content_public) = EndpointSecretKey::generate(content_key);
        NativeClient {
            actor,
            operational_key,
            signing_secret: *signing_secret,
            content_secret,
            content_public,
        }
    }

    /// The certificate of the endpoint's content key, to be signed under its operational key. Only
    /// a sender has one.
    pub fn certify_content_key(
        &self,
        scope: SigningScope,
        protocol_version: ProtocolVersion,
        content_key_version: ContentKeyVersion,
        valid_from: CanonicalTime,
        valid_until: CanonicalTime,
    ) -> (result: Result<ContentKeyCertificate, SecurityError>)
        ensures
            match self.acts_as() {
                ActorRef::Sender(owner) => result == Ok::<ContentKeyCertificate, SecurityError>(
                    ContentKeyCertificate {
                        wire_version: WireVersion(1),
                        protocol_version,
                        deployment_domain: scope.deployment_domain,
                        intended_provider: scope.intended_provider,
                        relationship: scope.relationship,
                        owner,
                        operational_key: self.signs_as(),
                        content_key_version,
                        key: self.public_half(),
                        valid_from,
                        valid_until,
                    },
                ),
                _ => result == Err::<ContentKeyCertificate, SecurityError>(
                    SecurityError::SigningScopeMismatch,
                ),
            },
    {
        match self.actor {
            ActorRef::Sender(owner) => Ok(
                ContentKeyCertificate {
                    wire_version: WireVersion(1),
                    protocol_version,
                    deployment_domain: scope.deployment_domain,
                    intended_provider: scope.intended_provider,
                    relationship: scope.relationship,
                    owner,
                    operational_key: self.operational_key,
                    content_key_version,
                    key: self.content_public,
                    valid_from,
                    valid_until,
                },
            ),
            _ => Err(SecurityError::SigningScopeMismatch),
        }
    }

    pub fn operational_verifying_key(&self) -> (key: [u8; 32])
        ensures
            key@ == ed25519_public(self.signing()),
    {
        public_key(&self.signing_secret)
    }

    pub fn content_public_key(&self) -> (key: EndpointPublicKey)
        ensures
            key == self.public_half(),
            self.content_key().matches_public(key),
    {
        proof {
            use_type_invariant(self);
        }
        self.content_public
    }

    /// Encrypts subject, body, and attachment bytes before upload. Invalid keys, lifetimes and
    /// content sizes are refused.
    pub fn encrypt_for(
        &self,
        recipient: EndpointPublicKey,
        binding: ContentBinding,
        plaintext: &[u8],
        created_at: CanonicalTime,
        expires_at: CanonicalTime,
    ) -> (result: Result<EncryptedContentRecord, ContentError>)
        ensures
            match encryption_fault(binding, plaintext@.len(), created_at, expires_at) {
                Some(e) => result == Err::<EncryptedContentRecord, ContentError>(e),
                None => match result {
                    Ok(record) => record.binding == binding && record.created_at == created_at
                        && record.expires_at == expires_at && record.envelope.sender_key
                        == self.public_half().reference && record.envelope.recipient_key
                        == recipient.reference,
                    Err(e) => e == ContentError::InvalidPublicKey || e
                        == ContentError::InvalidCiphertext,
                },
            },
            result matches Ok(record) ==> forall|secret: Seq<u8>|
                #![trigger decrypted(secret, recipient.reference, self.public_half(), record@)]
                secret.len() == 32 && hpke_public(secret) == recipient.bytes@ ==> decrypted(
                    secret,
                    recipient.reference,
                    self.public_half(),
                    record@,
                ) == Ok::<Seq<u8>, ContentError>(plaintext@),
    {
        proof {
            use_type_invariant(self);
        }
        encrypt(&self.content_secret, recipient, binding, plaintext, created_at, expires_at)
    }

    /// Computes the declaration digest used by contact terms and bonded admission. An invalid
    /// declaration set is refused.
    pub fn declaration_digest(declarations: &MessageDeclarations) -> (result: Result<
        MessageDeclarationDigest,
        ContentError,
    >)
        ensures
            match declarations.check() {
                Ok(()) => result matches Ok(digest) && digest.0@ == sha256_of(
                    declarations.canonical(),
                ),
                Err(_) => result == Err::<MessageDeclarationDigest, ContentError>(
                    ContentError::InvalidDeclaration,
                ),
            },
    {
        message_declaration_digest(declarations)
    }

    /// Applies recipient-owned presentation policy without changing protocol state.
    pub fn presentation_disposition<P: PresentationPolicy>(
        policy: &P,
        record: &EncryptedContentRecord,
    ) -> (disposition: PresentationDisposition)
        ensures
            call_ensures(
                P::decide,
                (
                    policy,
                    &(PresentationPolicyInput {
                        sender: record.binding.sender,
                        declarations: &record.binding.declarations,
                    }),
                ),
                disposition,
            ),
    {
        policy.decide(
            &PresentationPolicyInput {
                sender: record.binding.sender,
                declarations: &record.binding.declarations,
            },
        )
    }

    /// Authenticates and decrypts a record addressed to this endpoint. The wrong endpoint,
    /// tampering and malformed ciphertext are refused.
    pub fn decrypt(&self, sender: EndpointPublicKey, record: &EncryptedContentRecord) -> (result:
        Result<Vec<u8>, ContentError>)
        ensures
            match decrypted(
                self.content_key().secret(),
                self.content_key().names(),
                sender,
                record@,
            ) {
                Ok(plaintext) => result matches Ok(bytes) && bytes@ == plaintext,
                Err(e) => result == Err::<Vec<u8>, ContentError>(e),
            },
    {
        decrypt(&self.content_secret, sender, record)
    }

    /// Builds an explicit outgoing document with a fresh private version secret. Keep this document
    /// and its prepared request stable across retries. Invalid content is refused, and so is
    /// everything while the system has no randomness to give.
    pub fn compose_correspondence(parts: Vec<DocumentPart>) -> (result: Result<
        Document,
        CorrespondenceError,
    >)
        ensures
            exists|secret: Option<[u8; 32]>|
                match #[trigger] composed(parts@, secret) {
                    Ok(model) => result matches Ok(document) && document@ == model,
                    Err(e) => result == Err::<Document, CorrespondenceError>(e),
                },
    {
        let secret = random_secret();
        let ghost all = parts@;
        let result = compose_with(parts, secret);
        assert(match composed(all, secret) {
            Ok(model) => result matches Ok(document) && document@ == model,
            Err(e) => result == Err::<Document, CorrespondenceError>(e),
        });
        result
    }

    /// Why a document is not prepared, before anything is encrypted.
    pub open spec fn preparation_fault(
        &self,
        document: DocumentModel,
        conversation: ConversationId,
        binding: ContentBinding,
        lifetime: (CanonicalTime, CanonicalTime),
    ) -> Option<CorrespondenceError> {
        match self.acts_as().acting_persona() {
            None => Some(CorrespondenceError::Unauthorized),
            Some(author) => if binding.sender != author || binding.recipient == author {
                Some(CorrespondenceError::Invalid)
            } else if document.manifest(binding.message_id, conversation) is Err {
                Some(CorrespondenceError::Invalid)
            } else if encryption_fault(binding, document.json().len(), lifetime.0, lifetime.1)
                is Some {
                Some(CorrespondenceError::Invalid)
            } else {
                None
            },
        }
    }

    /// A copy that this endpoint made of a document for a key.
    pub open spec fn made_copy(
        &self,
        record: EncryptedContentRecord,
        recipient: EndpointPublicKey,
        binding: ContentBinding,
        document: DocumentModel,
        lifetime: (CanonicalTime, CanonicalTime),
    ) -> bool {
        &&& record.binding == binding
        &&& record.created_at == lifetime.0
        &&& record.expires_at == lifetime.1
        &&& record.envelope.sender_key == self.public_half().reference
        &&& record.envelope.recipient_key == recipient.reference
        &&& forall|secret: Seq<u8>|
            #![trigger decrypted(secret, recipient.reference, self.public_half(), record@)]
            secret.len() == 32 && hpke_public(secret) == recipient.bytes@ ==> decrypted(
                secret,
                recipient.reference,
                self.public_half(),
                record@,
            ) == Ok::<Seq<u8>, ContentError>(document.json())
    }

    /// A package that this endpoint made of a document.
    pub open spec fn prepared(
        &self,
        package: PreparedMessage,
        document: DocumentModel,
        conversation: ConversationId,
        recipient: EndpointPublicKey,
        custodian: EndpointPublicKey,
        binding: ContentBinding,
        lifetime: (CanonicalTime, CanonicalTime),
    ) -> bool {
        let author = self.acts_as().acting_persona()->Some_0;
        let own = ContentBinding { recipient: author, ..binding };
        &&& document.manifest(binding.message_id, conversation) == Ok::<
            ManifestModel,
            CorrespondenceError,
        >(package.manifest@)
        &&& self.made_copy(package.sender_copy, self.public_half(), own, document, lifetime)
        &&& self.made_copy(package.recipient_copy, recipient, binding, document, lifetime)
        &&& package.sender_recovery.sender == self.public_half()
        &&& self.made_copy(package.sender_recovery.ciphertext, custodian, own, document, lifetime)
        &&& package.recipient_recovery.sender == self.public_half()
        &&& self.made_copy(
            package.recipient_recovery.ciphertext,
            custodian,
            binding,
            document,
            lifetime,
        )
    }

    fn copy_for(
        &self,
        recipient: EndpointPublicKey,
        binding: &ContentBinding,
        document: &Document,
        plaintext: &[u8],
        lifetime: (CanonicalTime, CanonicalTime),
    ) -> (result: Result<EncryptedContentRecord, ContentError>)
        requires
            plaintext@ == document@.json(),
        ensures
            encryption_fault(*binding, plaintext@.len(), lifetime.0, lifetime.1) is Some
                ==> result is Err,
            result matches Ok(record) ==> self.made_copy(
                record,
                recipient,
                *binding,
                document@,
                lifetime,
            ),
    {
        self.encrypt_for(recipient, binding.clone(), plaintext, lifetime.0, lifetime.1)
    }

    /// Seals a document for its recipient, for its author, and twice for the custodian. A foreign
    /// author, self-delivery and invalid content are refused, and so are keys that cannot be
    /// sealed to. Recipient keys must come from the host's authenticated key-discovery path.
    pub fn prepare_correspondence(
        &self,
        document: &Document,
        conversation: ConversationId,
        recipient: EndpointPublicKey,
        custodian: EndpointPublicKey,
        binding: ContentBinding,
        lifetime: (CanonicalTime, CanonicalTime),
    ) -> (result: Result<PreparedMessage, CorrespondenceError>)
        ensures
            match self.preparation_fault(document@, conversation, binding, lifetime) {
                Some(e) => result == Err::<PreparedMessage, CorrespondenceError>(e),
                None => match result {
                    Ok(package) => self.prepared(
                        package,
                        document@,
                        conversation,
                        recipient,
                        custodian,
                        binding,
                        lifetime,
                    ),
                    Err(e) => e == CorrespondenceError::Invalid,
                },
            },
    {
        let author = match self.actor.persona() {
            Some(author) => author,
            None => return Err(CorrespondenceError::Unauthorized),
        };
        if binding.sender != author || binding.recipient == author {
            return Err(CorrespondenceError::Invalid);
        }
        let manifest = match document.manifest(binding.message_id, conversation) {
            Ok(manifest) => manifest,
            Err(e) => return Err(e),
        };
        let plaintext = document.json_bytes();
        let bytes = plaintext.as_slice();
        let mut own = binding.clone();
        own.recipient = author;
        let public = self.content_public_key();
        let sender_copy = self.copy_for(public, &own, document, bytes, lifetime);
        let recipient_copy = self.copy_for(recipient, &binding, document, bytes, lifetime);
        let sender_recovery = self.copy_for(custodian, &own, document, bytes, lifetime);
        let recipient_recovery = self.copy_for(custodian, &binding, document, bytes, lifetime);
        package(manifest, public, sender_copy, recipient_copy, sender_recovery, recipient_recovery)
    }

    /// The content of a delivered message. Substituted source metadata, another owner's copies and
    /// tampering are refused; `recognize` holds the content to the manifest. The supplied sender
    /// key must be pinned or authenticated by the endpoint's key-discovery path.
    pub fn open_correspondence(&self, view: &MessageView, sender: EndpointPublicKey) -> (result:
        Result<Vec<u8>, CorrespondenceError>)
        ensures
            match self.acts_as().acting_persona() {
                None => result == Err::<Vec<u8>, CorrespondenceError>(
                    CorrespondenceError::Unauthorized,
                ),
                Some(owner) => {
                    let binding = view.ciphertext.binding;
                    let found = decrypted(
                        self.content_key().secret(),
                        self.content_key().names(),
                        sender,
                        view.ciphertext@,
                    );
                    if binding.sender == view.record.author && binding.recipient == owner
                        && binding.message_id == view.record.manifest@.message && found is Ok {
                        result matches Ok(plaintext) && plaintext@ == found->Ok_0
                    } else {
                        result == Err::<Vec<u8>, CorrespondenceError>(CorrespondenceError::Invalid)
                    }
                },
            },
    {
        let owner = match self.actor.persona() {
            Some(owner) => owner,
            None => return Err(CorrespondenceError::Unauthorized),
        };
        let binding = &view.ciphertext.binding;
        if binding.sender != view.record.author || binding.recipient != owner || binding.message_id
            != view.record.manifest.message() {
            return Err(CorrespondenceError::Invalid);
        }
        match self.decrypt(sender, &view.ciphertext) {
            Ok(plaintext) => Ok(plaintext),
            Err(_) => Err(CorrespondenceError::Invalid),
        }
    }

    /// The content of a sealed, scoped response from the authenticated custody service. Another
    /// device's response and a substituted custody key are refused; `recognize` holds the content
    /// to the manifest.
    pub fn open_released(&self, released: &ReleasedCopy, custodian: EndpointPublicKey) -> (result:
        Result<Vec<u8>, CorrespondenceError>)
        ensures
            ({
                let found = decrypted(
                    self.content_key().secret(),
                    self.content_key().names(),
                    custodian,
                    released.ciphertext@,
                );
                if released.custodian == custodian && released.ciphertext.binding.message_id
                    == released.manifest@.message && found is Ok {
                    result matches Ok(plaintext) && plaintext@ == found->Ok_0
                } else {
                    result == Err::<Vec<u8>, CorrespondenceError>(CorrespondenceError::Invalid)
                }
            }),
    {
        if !released.custodian.same(&custodian) || released.ciphertext.binding.message_id
            != released.manifest.message() {
            return Err(CorrespondenceError::Invalid);
        }
        match self.decrypt(custodian, &released.ciphertext) {
            Ok(plaintext) => Ok(plaintext),
            Err(_) => Err(CorrespondenceError::Invalid),
        }
    }
}

/// What is sent can be read, and read as it was written: by its recipient, by its author, and by
/// the custodian from either recovery copy.
pub proof fn sent_content_comes_back(
    sender: NativeClient,
    package: PreparedMessage,
    document: DocumentModel,
    conversation: ConversationId,
    recipient: EndpointSecretKey,
    recipient_key: EndpointPublicKey,
    custodian: EndpointSecretKey,
    custodian_key: EndpointPublicKey,
    binding: ContentBinding,
    lifetime: (CanonicalTime, CanonicalTime),
)
    requires
        sender.content_key().matches_public(sender.public_half()),
        recipient.matches_public(recipient_key),
        custodian.matches_public(custodian_key),
        sender.prepared(
            package,
            document,
            conversation,
            recipient_key,
            custodian_key,
            binding,
            lifetime,
        ),
    ensures
        ({
            let from = sender.public_half();
            let own = sender.content_key();
            let written = Ok::<Seq<u8>, ContentError>(document.json());
            &&& decrypted(recipient.secret(), recipient.names(), from, package.recipient_copy@)
                == written
            &&& decrypted(own.secret(), own.names(), from, package.sender_copy@) == written
            &&& decrypted(
                custodian.secret(),
                custodian.names(),
                from,
                package.sender_recovery.ciphertext@,
            ) == written
            &&& decrypted(
                custodian.secret(),
                custodian.names(),
                from,
                package.recipient_recovery.ciphertext@,
            ) == written
        }),
{
}

/// What an endpoint prepares, the delivery service accepts from its author during its lifetime, if
/// the ciphertexts keep to their bound.
pub proof fn prepared_messages_are_deliverable(
    sender: NativeClient,
    package: PreparedMessage,
    document: DocumentModel,
    conversation: ConversationId,
    recipient: EndpointPublicKey,
    custodian: EndpointPublicKey,
    binding: ContentBinding,
    lifetime: (CanonicalTime, CanonicalTime),
    request: RequestModel,
    relationship: Relationship,
    now: CanonicalTime,
)
    requires
        sender.preparation_fault(document, conversation, binding, lifetime) is None,
        sender.prepared(
            package,
            document,
            conversation,
            recipient,
            custodian,
            binding,
            lifetime,
        ),
        sender.acts_as().acting_persona() == Some(request.persona),
        !zero_32(sender.public_half().bytes),
        binding.declarations.origin.authority == DeclarationAuthority::NativeSender(request.key),
        binding.relationship == relationship.key.reference,
        binding.protocol_version == ProtocolVersion(2),
        lifetime.0.0 <= now.0 < lifetime.1.0,
        now.0 < binding.message_valid_until.0.0,
        bounded_ciphertext(package.sender_copy.envelope.ciphertext@),
        bounded_ciphertext(package.recipient_copy.envelope.ciphertext@),
        bounded_ciphertext(package.sender_recovery.ciphertext.envelope.ciphertext@),
        bounded_ciphertext(package.recipient_recovery.ciphertext.envelope.ciphertext@),
    ensures
        package@.valid_for(request, binding.recipient, relationship, custodian, now),
{
}

/// Signs account actions under an operational key with an explicit account grant.
pub struct BillingClient {
    account: BillingAccountId,
    scope: FinancialScope,
    secret: [u8; 32],
    key: OperationalKeyRef,
}

impl BillingClient {
    pub closed spec fn acts_for(&self) -> BillingAccountId {
        self.account
    }

    pub closed spec fn within(&self) -> FinancialScope {
        self.scope
    }

    pub closed spec fn signing(&self) -> Seq<u8> {
        self.secret@
    }

    pub closed spec fn signs_as(&self) -> OperationalKeyRef {
        self.key
    }

    pub fn new(
        account: BillingAccountId,
        scope: FinancialScope,
        key: OperationalKeyRef,
        secret: [u8; 32],
    ) -> (client: Self)
        ensures
            client.acts_for() == account,
            client.within() == scope,
            client.signs_as() == key,
            client.signing() == secret@,
    {
        BillingClient { account, scope, secret, key }
    }

    /// Signs a command; signing never fails. The service enforces owner and administrator
    /// privileges.
    pub fn sign(&self, revision: u64, key: IdempotencyKey, command: BillingCommand) -> (result:
        Result<SignedBillingCommand, BillingError>)
        ensures
            result matches Ok(signed) && signed.account == self.acts_for()
                && signed.operational_key == self.signs_as() && signed.scope == self.within()
                && signed.expected_revision == revision && signed.idempotency_key == key
                && signed.command == command && signed.signature@ == ed25519_signature(
                self.signing(),
                signed.statement(),
            ),
    {
        SignedBillingCommand::sign(
            self.account,
            self.key,
            self.scope,
            revision,
            key,
            command,
            &self.secret,
        )
    }
}

/// A message is prepared only by the persona that it is from, for another, as a message that can be,
/// within the bounds and the lifetime of content.
pub proof fn messages_are_prepared_by_their_author(
    client: NativeClient,
    document: DocumentModel,
    conversation: ConversationId,
    binding: ContentBinding,
    lifetime: (CanonicalTime, CanonicalTime),
)
    requires
        client.preparation_fault(document, conversation, binding, lifetime) is None,
    ensures
        client.acts_as() == ActorRef::Sender(binding.sender) || client.acts_as()
            == ActorRef::Recipient(binding.sender),
        binding.recipient != binding.sender,
        binding.message_id.0 != 0,
        document.manifest(binding.message_id, conversation) is Ok,
        document.json().len() <= 32 * 1024 * 1024,
        lifetime.0.0 < lifetime.1.0,
        lifetime.0.0 < binding.message_valid_until.0.0,
        binding.wire_version.0 == 1,
{
}

} // verus!

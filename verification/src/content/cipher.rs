//! Encryption of native content at endpoints.

use super::binding::{binding_bytes, ContentBinding, ContentError};
use super::certificate::EndpointPublicKey;
use super::encoding::SealedModel;
use super::hpke_suite::{
    generate, hpke_opened, hpke_public, hpke_receives, open, public_half, receives, seal, SealError,
    Sealed,
};
use crate::bytes::{copy_bytes, text_bytes, utf8};
use crate::primitives::amounts::CanonicalTime;
use crate::primitives::ids::ContentKeyRef;
use vstd::prelude::*;

verus! {

/// The most bytes that native content may have.
pub const MAX_PLAINTEXT_BYTES: usize = 33_554_432;

#[derive(Clone, Copy, Debug, PartialEq, Eq, Structural)]
pub enum ContentCipherSuite {
    HpkeX25519HkdfSha256ChaCha20Poly1305V1,
}

/// The purpose that keys are derived for.
pub open spec fn content_info() -> Seq<u8> {
    utf8("cs-mail/native-content/v1"@)
}

fn info_bytes() -> (bytes: Vec<u8>)
    ensures
        bytes@ == content_info(),
        bytes@.len() < 65531,
{
    let bytes = text_bytes("cs-mail/native-content/v1");
    proof {
        reveal_strlit("cs-mail/native-content/v1");
        vstd::string::is_ascii_spec_bytes("cs-mail/native-content/v1");
        assert(vstd::utf8::is_ascii_chars("cs-mail/native-content/v1"@));
    }
    bytes
}

/// An endpoint-only secret. It deliberately has no way out in print or in storage.
pub struct EndpointSecretKey {
    reference: ContentKeyRef,
    private: [u8; 32],
}

impl EndpointSecretKey {
    pub closed spec fn secret(&self) -> Seq<u8> {
        self.private@
    }

    pub closed spec fn names(&self) -> ContentKeyRef {
        self.reference
    }

    /// The public key of this secret.
    pub open spec fn matches_public(&self, key: EndpointPublicKey) -> bool {
        key.reference == self.names() && key.bytes@ == hpke_public(self.secret())
            && self.secret().len() == 32
    }

    /// A new key, and its public half.
    pub fn generate(reference: ContentKeyRef) -> (pair: (Self, EndpointPublicKey))
        ensures
            pair.0.names() == reference,
            pair.0.matches_public(pair.1),
    {
        let (private, bytes) = generate();
        (EndpointSecretKey { reference, private }, EndpointPublicKey { reference, bytes })
    }

    /// A key from the bytes of its secret, and its public half.
    pub fn from_secret_bytes(reference: ContentKeyRef, secret: &[u8; 32]) -> (result: Result<
        (Self, EndpointPublicKey),
        ContentError,
    >)
        ensures
            result matches Ok(pair) && pair.0.names() == reference && pair.0.secret() == secret@
                && pair.0.matches_public(pair.1),
    {
        match public_half(secret) {
            Some(bytes) => Ok(
                (
                    EndpointSecretKey { reference, private: *secret },
                    EndpointPublicKey { reference, bytes },
                ),
            ),
            None => Err(ContentError::InvalidPublicKey),
        }
    }

    pub fn reference(&self) -> (reference: ContentKeyRef)
        ensures
            reference == self.names(),
    {
        self.reference
    }
}

#[derive(Debug, PartialEq, Eq)]
pub struct CiphertextEnvelope {
    pub suite: ContentCipherSuite,
    pub sender_key: ContentKeyRef,
    pub recipient_key: ContentKeyRef,
    pub encapsulated_key: Vec<u8>,
    pub ciphertext: Vec<u8>,
}

impl CiphertextEnvelope {
    pub open spec fn alike(&self, other: &Self) -> bool {
        &&& self.suite == other.suite
        &&& self.sender_key == other.sender_key
        &&& self.recipient_key == other.recipient_key
        &&& self.encapsulated_key@ == other.encapsulated_key@
        &&& self.ciphertext@ == other.ciphertext@
    }
}

impl Clone for CiphertextEnvelope {
    fn clone(&self) -> (copy: Self)
        ensures
            copy.alike(self),
    {
        CiphertextEnvelope {
            suite: self.suite,
            sender_key: self.sender_key,
            recipient_key: self.recipient_key,
            encapsulated_key: copy_bytes(&self.encapsulated_key),
            ciphertext: copy_bytes(&self.ciphertext),
        }
    }
}

#[derive(PartialEq, Eq)]
pub struct EncryptedContentRecord {
    pub binding: ContentBinding,
    pub envelope: CiphertextEnvelope,
    pub created_at: CanonicalTime,
    pub expires_at: CanonicalTime,
}

impl Clone for EncryptedContentRecord {
    fn clone(&self) -> (copy: Self)
        ensures
            copy.binding == self.binding,
            copy.envelope.alike(&self.envelope),
            copy.created_at == self.created_at,
            copy.expires_at == self.expires_at,
    {
        EncryptedContentRecord {
            binding: self.binding.clone(),
            envelope: self.envelope.clone(),
            created_at: self.created_at,
            expires_at: self.expires_at,
        }
    }
}

/// What a secret key makes of a record: the content, or why there is none.
pub open spec fn decrypted(
    secret: Seq<u8>,
    reference: ContentKeyRef,
    sender_key: EndpointPublicKey,
    record: SealedModel,
) -> Result<Seq<u8>, ContentError> {
    let envelope = record.envelope;
    if reference != envelope.recipient_key || sender_key.reference != envelope.sender_key {
        Err(ContentError::WrongRecipientKey)
    } else if !hpke_receives(
        secret,
        sender_key.bytes@,
        envelope.encapsulated_key,
        content_info(),
    ) {
        Err(ContentError::InvalidCiphertext)
    } else {
        match record.binding.check() {
            Err(e) => Err(e),
            Ok(()) => match hpke_opened(
                secret,
                sender_key.bytes@,
                envelope.encapsulated_key,
                content_info(),
                record.binding.canonical(),
                envelope.ciphertext,
            ) {
                Some(plaintext) => Ok(plaintext),
                None => Err(ContentError::InvalidCiphertext),
            },
        }
    }
}

/// Why content is refused before anything is encrypted.
pub open spec fn encryption_fault(
    binding: ContentBinding,
    length: nat,
    created_at: CanonicalTime,
    expires_at: CanonicalTime,
) -> Option<ContentError> {
    if length > MAX_PLAINTEXT_BYTES {
        Some(ContentError::PlaintextTooLarge)
    } else if expires_at.0 <= created_at.0 || binding.message_valid_until.0.0 <= created_at.0 {
        Some(ContentError::InvalidLifetime)
    } else {
        match binding.check() {
            Err(e) => Some(e),
            Ok(()) => None,
        }
    }
}

/// The record that a sealed plaintext makes, or the error that a failure to seal means.
pub fn sealed_record(
    sealed: Result<Sealed, SealError>,
    sender_key: ContentKeyRef,
    recipient_key: ContentKeyRef,
    binding: ContentBinding,
    created_at: CanonicalTime,
    expires_at: CanonicalTime,
) -> (result: Result<EncryptedContentRecord, ContentError>)
    ensures
        match sealed {
            Ok(s) => result == Ok::<EncryptedContentRecord, ContentError>(
                EncryptedContentRecord {
                    binding,
                    envelope: CiphertextEnvelope {
                        suite: ContentCipherSuite::HpkeX25519HkdfSha256ChaCha20Poly1305V1,
                        sender_key,
                        recipient_key,
                        encapsulated_key: s.encapsulated,
                        ciphertext: s.ciphertext,
                    },
                    created_at,
                    expires_at,
                },
            ),
            Err(SealError::Encapsulation) => result == Err::<EncryptedContentRecord, ContentError>(
                ContentError::InvalidPublicKey,
            ),
            Err(SealError::Encryption) => result == Err::<EncryptedContentRecord, ContentError>(
                ContentError::InvalidCiphertext,
            ),
        },
{
    match sealed {
        Ok(s) => Ok(
            EncryptedContentRecord {
                binding,
                envelope: CiphertextEnvelope {
                    suite: ContentCipherSuite::HpkeX25519HkdfSha256ChaCha20Poly1305V1,
                    sender_key,
                    recipient_key,
                    encapsulated_key: s.encapsulated,
                    ciphertext: s.ciphertext,
                },
                created_at,
                expires_at,
            },
        ),
        Err(SealError::Encapsulation) => Err(ContentError::InvalidPublicKey),
        Err(SealError::Encryption) => Err(ContentError::InvalidCiphertext),
    }
}

/// Encrypts native content for one recipient endpoint and authenticates its protocol binding.
/// Oversized input, a lifetime that has passed, and a malformed binding are refused, as is a
/// recipient key that cannot be used.
pub fn encrypt(
    sender_key: &EndpointSecretKey,
    recipient_key: EndpointPublicKey,
    binding: ContentBinding,
    plaintext: &[u8],
    created_at: CanonicalTime,
    expires_at: CanonicalTime,
) -> (result: Result<EncryptedContentRecord, ContentError>)
    ensures
        match encryption_fault(binding, plaintext@.len(), created_at, expires_at) {
            Some(e) => result == Err::<EncryptedContentRecord, ContentError>(e),
            None => match result {
                Ok(record) => record.binding == binding && record.created_at == created_at
                    && record.expires_at == expires_at && record.envelope.sender_key
                    == sender_key.names() && record.envelope.recipient_key
                    == recipient_key.reference,
                Err(e) => e == ContentError::InvalidPublicKey || e
                    == ContentError::InvalidCiphertext,
            },
        },
        result matches Ok(record) ==> forall|secret: Seq<u8>, sender: EndpointPublicKey|
            #![trigger decrypted(secret, recipient_key.reference, sender, record@)]
            secret.len() == 32 && hpke_public(secret) == recipient_key.bytes@ && sender_key.matches_public(sender)
                ==> decrypted(secret, recipient_key.reference, sender, record@) == Ok::<
                Seq<u8>,
                ContentError,
            >(plaintext@),
{
    if plaintext.len() > MAX_PLAINTEXT_BYTES {
        return Err(ContentError::PlaintextTooLarge);
    }
    if expires_at.0 <= created_at.0 || binding.message_valid_until.0.0 <= created_at.0 {
        return Err(ContentError::InvalidLifetime);
    }
    let associated = match binding_bytes(&binding) {
        Ok(bytes) => bytes,
        Err(e) => return Err(e),
    };
    let info = info_bytes();
    let sealed = seal(
        &sender_key.private,
        &recipient_key.bytes,
        info.as_slice(),
        associated.as_slice(),
        plaintext,
    );
    sealed_record(
        sealed,
        sender_key.reference,
        recipient_key.reference,
        binding,
        created_at,
        expires_at,
    )
}

/// Authenticates and decrypts native content at the recipient endpoint. Another endpoint key,
/// malformed data, and authentication failure are refused.
pub fn decrypt(
    recipient_key: &EndpointSecretKey,
    sender_key: EndpointPublicKey,
    record: &EncryptedContentRecord,
) -> (result: Result<Vec<u8>, ContentError>)
    ensures
        match decrypted(recipient_key.secret(), recipient_key.names(), sender_key, record@) {
            Ok(plaintext) => result matches Ok(bytes) && bytes@ == plaintext,
            Err(e) => result == Err::<Vec<u8>, ContentError>(e),
        },
{
    let envelope = &record.envelope;
    if recipient_key.reference != envelope.recipient_key || sender_key.reference
        != envelope.sender_key {
        return Err(ContentError::WrongRecipientKey);
    }
    let info = info_bytes();
    if !receives(
        &recipient_key.private,
        &sender_key.bytes,
        envelope.encapsulated_key.as_slice(),
        info.as_slice(),
    ) {
        return Err(ContentError::InvalidCiphertext);
    }
    let associated = match binding_bytes(&record.binding) {
        Ok(bytes) => bytes,
        Err(e) => return Err(e),
    };
    match open(
        &recipient_key.private,
        &sender_key.bytes,
        envelope.encapsulated_key.as_slice(),
        info.as_slice(),
        associated.as_slice(),
        envelope.ciphertext.as_slice(),
    ) {
        Some(plaintext) => Ok(plaintext),
        None => Err(ContentError::InvalidCiphertext),
    }
}

/// Content is sealed only if it is no larger than 32 mebibytes, expires after it is made, is valid
/// after that too, and has a binding of the supported wire version with well-formed declarations.
pub proof fn content_is_sealed_within_bounds(
    binding: ContentBinding,
    length: nat,
    created_at: CanonicalTime,
    expires_at: CanonicalTime,
)
    ensures
        encryption_fault(binding, length, created_at, expires_at) is None <==> {
            &&& length <= 32 * 1024 * 1024
            &&& created_at.0 < expires_at.0
            &&& created_at.0 < binding.message_valid_until.0.0
            &&& binding.wire_version.0 == 1
            &&& binding.declarations.check() is Ok
        },
{
}

/// Content is opened only with the key that it was sealed to, and as from the key that it was sealed
/// by; and only under a binding that content can have.
pub proof fn content_is_opened_by_its_recipient(
    secret: Seq<u8>,
    reference: ContentKeyRef,
    sender_key: EndpointPublicKey,
    record: SealedModel,
)
    ensures
        decrypted(secret, reference, sender_key, record) is Ok ==> {
            &&& reference == record.envelope.recipient_key
            &&& sender_key.reference == record.envelope.sender_key
            &&& record.binding.wire_version.0 == 1
            &&& record.binding.declarations.check() is Ok
            &&& hpke_opened(
                secret,
                sender_key.bytes@,
                record.envelope.encapsulated_key,
                content_info(),
                record.binding.canonical(),
                record.envelope.ciphertext,
            ) == Some(decrypted(secret, reference, sender_key, record)->Ok_0)
        },
        decrypted(secret, reference, sender_key, record) == Err::<Seq<u8>, ContentError>(
            ContentError::WrongRecipientKey,
        ) <==> reference != record.envelope.recipient_key || sender_key.reference
            != record.envelope.sender_key,
{
}

} // verus!

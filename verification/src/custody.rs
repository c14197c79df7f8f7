//! Local custody. Host-provisioned secrets never enter the message database. This is an operational
//! trust boundary, not protection against the host operator.

use crate::application::consent::{
    release_fits, AuthorizedDecryption, PermitModel, ReleasedCopy,
};
use crate::consent::ConsentError;
use crate::content::binding::ContentError;
use crate::content::certificate::EndpointPublicKey;
use crate::content::cipher::{
    decrypt, decrypted, encrypt, encryption_fault, EncryptedContentRecord, EndpointSecretKey,
};
use crate::content::hpke_suite::hpke_public;
use crate::correspondence::document::{Document, ManifestModel, MessageManifest};
use crate::correspondence::policy::CorrespondenceError;
use crate::primitives::ids::ContentKeyRef;
use vstd::prelude::*;

verus! {

/// A custodian that holds its key in memory.
pub struct LocalCustodian {
    secret: EndpointSecretKey,
    public: EndpointPublicKey,
}

impl LocalCustodian {
    pub closed spec fn key(&self) -> EndpointSecretKey {
        self.secret
    }

    pub closed spec fn public_half(&self) -> EndpointPublicKey {
        self.public
    }

    #[verifier::type_invariant]
    spec fn well_formed(self) -> bool {
        self.key().matches_public(self.public_half())
    }

    /// The host restores this same secret across restarts using its protected secret store. Every
    /// secret is one.
    pub fn from_secret_bytes(reference: ContentKeyRef, secret: &[u8; 32]) -> (result: Result<
        Self,
        ConsentError,
    >)
        ensures
            result matches Ok(custodian) && custodian.key().names() == reference
                && custodian.key().secret() == secret@ && custodian.key().matches_public(
                custodian.public_half(),
            ),
    {
        match EndpointSecretKey::from_secret_bytes(reference, secret) {
            Ok((secret, public)) => Ok(LocalCustodian { secret, public }),
            Err(_) => Err(ConsentError::Invalid),
        }
    }

    pub fn public_key(&self) -> (key: EndpointPublicKey)
        ensures
            key == self.public_half(),
            self.key().matches_public(key),
    {
        proof {
            use_type_invariant(self);
        }
        self.public
    }

    /// What a retained copy holds.
    pub open spec fn opened(&self, permit: PermitModel) -> Result<Seq<u8>, ContentError> {
        decrypted(
            self.key().secret(),
            self.key().names(),
            permit.source.sender,
            permit.source.ciphertext,
        )
    }

    /// The content of a retained copy. A copy for another key and invalid ciphertext are refused.
    pub fn open(&self, authorization: &AuthorizedDecryption<'_>) -> (result: Result<
        Vec<u8>,
        ConsentError,
    >)
        ensures
            match self.opened(authorization@) {
                Ok(plaintext) => result matches Ok(bytes) && bytes@ == plaintext,
                Err(_) => result == Err::<Vec<u8>, ConsentError>(ConsentError::Unavailable),
            },
    {
        let source = authorization.source();
        match decrypt(&self.secret, source.sender, &source.ciphertext) {
            Ok(plaintext) => Ok(plaintext),
            Err(_) => Err(ConsentError::Unavailable),
        }
    }

    /// Seals opened content anew for the destination, if the document that it holds is the one
    /// that the manifest describes. Invalid documents and substituted ones are refused, and so are
    /// destinations that cannot be sealed to.
    pub fn seal(
        &self,
        authorization: &AuthorizedDecryption<'_>,
        plaintext: &[u8],
        document: &Option<Document>,
    ) -> (result: Result<ReleasedCopy, ConsentError>)
        ensures
            ({
                let permit = authorization@;
                let binding = permit.source.ciphertext.binding;
                let manifest = permit.manifest;
                let described = document matches Some(parsed) && parsed@.manifest(
                    manifest.message,
                    manifest.conversation,
                ) == Ok::<ManifestModel, CorrespondenceError>(manifest);
                let fault = encryption_fault(
                    binding,
                    plaintext@.len(),
                    permit.at,
                    permit.expires_at,
                );
                &&& !described || fault is Some ==> result is Err
                &&& match result {
                    Ok(released) => {
                        &&& release_fits(permit, released@, self.public_half())
                        &&& released.ciphertext.binding == binding
                        &&& released.ciphertext.created_at == permit.at
                        &&& forall|secret: Seq<u8>|
                            #![trigger decrypted(secret, permit.destination.reference, self.public_half(), released.ciphertext@)]
                            secret.len() == 32 && hpke_public(secret) == permit.destination.bytes@ ==> decrypted(
                                secret,
                                permit.destination.reference,
                                self.public_half(),
                                released.ciphertext@,
                            ) == Ok::<Seq<u8>, ContentError>(plaintext@)
                    },
                    Err(e) => e == ConsentError::Invalid,
                }
            }),
    {
        proof {
            use_type_invariant(self);
        }
        let document = match document {
            Some(document) => document,
            None => return Err(ConsentError::Invalid),
        };
        let manifest = authorization.manifest();
        match document.manifest(manifest.message(), manifest.conversation()) {
            Ok(own) => {
                if !own.same(manifest) {
                    return Err(ConsentError::Invalid);
                }
            },
            Err(_) => return Err(ConsentError::Invalid),
        }
        let source = authorization.source();
        let sealed = encrypt(
            &self.secret,
            authorization.destination(),
            source.ciphertext.binding.clone(),
            plaintext,
            authorization.at(),
            authorization.expires_at(),
        );
        released_copy(sealed, manifest.clone(), self.public)
    }
}

/// Packs a copy that was sealed anew with the manifest and the custodian's key; nothing is released
/// unless it was sealed.
pub fn released_copy(
    ciphertext: Result<EncryptedContentRecord, ContentError>,
    manifest: MessageManifest,
    custodian: EndpointPublicKey,
) -> (result: Result<ReleasedCopy, ConsentError>)
    ensures
        match ciphertext {
            Ok(sealed) => result == Ok::<ReleasedCopy, ConsentError>(
                ReleasedCopy { manifest, ciphertext: sealed, custodian },
            ),
            Err(_) => result == Err::<ReleasedCopy, ConsentError>(ConsentError::Invalid),
        },
{
    match ciphertext {
        Ok(ciphertext) => Ok(ReleasedCopy { manifest, ciphertext, custodian }),
        Err(_) => Err(ConsentError::Invalid),
    }
}

} // verus!

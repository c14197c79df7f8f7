//! What the library takes from the outside crate `hpke`: authenticated encryption to an X25519 key
//! with HKDF-SHA256 and ChaCha20-Poly1305.

use hpke::aead::ChaCha20Poly1305 as Cipher;
use hpke::kdf::HkdfSha256;
use hpke::kem::X25519HkdfSha256 as Suite;
use hpke::{
    setup_receiver, setup_sender, Deserializable, Kem, OpModeR, OpModeS, Serializable,
};
use vstd::prelude::*;

verus! {

/// The public key that belongs to a secret key.
pub uninterp spec fn hpke_public(secret: Seq<u8>) -> Seq<u8>;

/// Whether a secret key, a sender's public key and an encapsulated key agree on a shared secret.
pub uninterp spec fn hpke_receives(
    secret: Seq<u8>,
    sender: Seq<u8>,
    encapsulated: Seq<u8>,
    info: Seq<u8>,
) -> bool;

/// The plaintext of an authentic ciphertext; none of any other.
pub uninterp spec fn hpke_opened(
    secret: Seq<u8>,
    sender: Seq<u8>,
    encapsulated: Seq<u8>,
    info: Seq<u8>,
    associated: Seq<u8>,
    ciphertext: Seq<u8>,
) -> Option<Seq<u8>>;

/// Why nothing was sealed.
#[derive(Clone, Copy, Debug, PartialEq, Eq, Structural)]
pub enum SealError {
    Encapsulation,
    Encryption,
}

/// What a recipient needs to open a sealed plaintext.
pub struct Sealed {
    pub encapsulated: Vec<u8>,
    pub ciphertext: Vec<u8>,
}

/// Calls `hpke::Kem::gen_keypair` for X25519. The pair is random; the public key is that of the
/// secret key. The call panics if the system has no randomness to give, which no argument decides.
#[verifier::external_body]
pub(crate) fn generate() -> (pair: ([u8; 32], [u8; 32]))
    ensures
        pair.1@ == hpke_public(pair.0@),
{
    let (secret, public) = Suite::gen_keypair();
    (secret.to_bytes().into(), public.to_bytes().into())
}

/// Calls `hpke::Kem::sk_to_pk` for X25519 on a secret key decoded from bytes. Any 32 bytes decode,
/// so there is always a public key, and it is a function of the secret key.
#[verifier::external_body]
pub(crate) fn public_half(secret: &[u8; 32]) -> (found: Option<[u8; 32]>)
    ensures
        found is Some,
        found->Some_0@ == hpke_public(secret@),
{
    let secret = <Suite as Kem>::PrivateKey::from_bytes(secret).ok()?;
    Some(Suite::sk_to_pk(&secret).to_bytes().into())
}

/// Calls `hpke::setup_sender` in the mode that authenticates the sender, and `seal` once on the
/// context. The ephemeral key is random, so nothing is said of which bytes come out, nor of when
/// the call succeeds; what is sealed opens, at any secret key of the recipient's public key, to the
/// plaintext. `setup_sender` panics on `info` of 65531 bytes and more, and if the system has no
/// randomness to give, which no argument decides.
#[verifier::external_body]
pub(crate) fn seal(
    sender: &[u8; 32],
    recipient: &[u8; 32],
    info: &[u8],
    associated: &[u8],
    plaintext: &[u8],
) -> (result: Result<Sealed, SealError>)
    requires
        info@.len() < 65531,
    ensures
        result matches Ok(sealed) ==> forall|secret: Seq<u8>|
            secret.len() == 32 && #[trigger] hpke_public(secret) == recipient@ ==> hpke_receives(
                secret,
                hpke_public(sender@),
                sealed.encapsulated@,
                info@,
            ) && hpke_opened(
                secret,
                hpke_public(sender@),
                sealed.encapsulated@,
                info@,
                associated@,
                sealed.ciphertext@,
            ) == Some(plaintext@),
{
    let secret = <Suite as Kem>::PrivateKey::from_bytes(sender);
    let public = <Suite as Kem>::PublicKey::from_bytes(recipient);
    let (Ok(secret), Ok(public)) = (secret, public) else {
        return Err(SealError::Encapsulation);
    };
    let mode = OpModeS::Auth((secret.clone(), Suite::sk_to_pk(&secret)));
    let (encapsulated, mut context) = setup_sender::<Cipher, HkdfSha256, Suite>(&mode, &public, info)
        .map_err(|_| SealError::Encapsulation)?;
    let ciphertext = context.seal(plaintext, associated).map_err(|_| SealError::Encryption)?;
    Ok(Sealed { encapsulated: encapsulated.to_bytes().to_vec(), ciphertext })
}

/// Calls `hpke::setup_receiver` in the mode that authenticates the sender, on keys decoded from
/// bytes; `hpke_receives` names whether it succeeds, which it does not where the encapsulated key
/// fails to decode. `setup_receiver` panics on `info` of 65531 bytes and more.
#[verifier::external_body]
pub(crate) fn receives(secret: &[u8; 32], sender: &[u8; 32], encapsulated: &[u8], info: &[u8]) -> (result:
    bool)
    requires
        info@.len() < 65531,
    ensures
        result == hpke_receives(secret@, sender@, encapsulated@, info@),
{
    let secret = <Suite as Kem>::PrivateKey::from_bytes(secret);
    let public = <Suite as Kem>::PublicKey::from_bytes(sender);
    let key = <Suite as Kem>::EncappedKey::from_bytes(encapsulated);
    let (Ok(secret), Ok(public), Ok(key)) = (secret, public, key) else {
        return false;
    };
    setup_receiver::<Cipher, HkdfSha256, Suite>(&OpModeR::Auth(public), &secret, &key, info).is_ok()
}

/// Calls `hpke::setup_receiver` in the mode that authenticates the sender, and `open` once on the
/// context. The outcome is a function of the arguments; `hpke_opened` names it. `setup_receiver`
/// panics on `info` of 65531 bytes and more.
#[verifier::external_body]
pub(crate) fn open(
    secret: &[u8; 32],
    sender: &[u8; 32],
    encapsulated: &[u8],
    info: &[u8],
    associated: &[u8],
    ciphertext: &[u8],
) -> (plaintext: Option<Vec<u8>>)
    requires
        info@.len() < 65531,
    ensures
        match plaintext {
            Some(bytes) => hpke_opened(
                secret@,
                sender@,
                encapsulated@,
                info@,
                associated@,
                ciphertext@,
            ) == Some(bytes@),
            None => hpke_opened(secret@, sender@, encapsulated@, info@, associated@, ciphertext@) is None,
        },
{
    let secret = <Suite as Kem>::PrivateKey::from_bytes(secret).ok()?;
    let public = <Suite as Kem>::PublicKey::from_bytes(sender).ok()?;
    let key = <Suite as Kem>::EncappedKey::from_bytes(encapsulated).ok()?;
    let mode = OpModeR::Auth(public);
    let mut context = setup_receiver::<Cipher, HkdfSha256, Suite>(&mode, &secret, &key, info).ok()?;
    context.open(ciphertext, associated).ok()
}

} // verus!

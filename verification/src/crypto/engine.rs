//! The cipher engine as the library sees it: the types of the `openssl` crate
//! that pass through the library's hands, and what is taken for granted of
//! each of its functions that the library calls.
//!
//! Nothing here is proved. Keys and cipher contexts are opaque, and of most
//! calls nothing is stated but the inputs on which they must not be made.

use vstd::prelude::*;
use openssl::encrypt::{Decrypter, Encrypter};
use openssl::error::ErrorStack;
use openssl::hash::MessageDigest;
use openssl::pkey::{PKey, Private, Public};
use openssl::rsa::{Padding, Rsa};

verus! {

/// `openssl::error::ErrorStack`: the errors that a call of the engine left
/// behind. Opaque; the library only shows it as text.
#[verifier::external_type_specification]
#[verifier::external_body]
pub struct ExErrorStack(ErrorStack);

/// `openssl::pkey::Public`: the mark of a key that has public parts only.
#[verifier::external_type_specification]
#[verifier::external_body]
pub struct ExPublic(Public);

/// `openssl::pkey::Private`: the mark of a key that has private parts.
#[verifier::external_type_specification]
#[verifier::external_body]
pub struct ExPrivate(Private);

/// `openssl::pkey::PKey`: a key of any kind. Opaque.
#[verifier::external_type_specification]
#[verifier::external_body]
#[verifier::reject_recursive_types(T)]
pub struct ExPKey<T>(PKey<T>);

/// `openssl::rsa::Rsa`: an RSA key. Opaque.
#[verifier::external_type_specification]
#[verifier::external_body]
#[verifier::reject_recursive_types(T)]
pub struct ExRsa<T>(Rsa<T>);

/// `openssl::encrypt::Encrypter`: a context that encrypts under one key.
/// Opaque.
#[verifier::external_type_specification]
#[verifier::external_body]
pub struct ExEncrypter<'a>(Encrypter<'a>);

/// `openssl::encrypt::Decrypter`: a context that decrypts with one key.
/// Opaque.
#[verifier::external_type_specification]
#[verifier::external_body]
pub struct ExDecrypter<'a>(Decrypter<'a>);

/// `openssl::rsa::Padding`: the engine's name for a padding scheme. Opaque.
#[verifier::external_type_specification]
#[verifier::external_body]
pub struct ExPadding(Padding);

/// `openssl::hash::MessageDigest`: the engine's name for a digest
/// algorithm. Opaque.
#[verifier::external_type_specification]
#[verifier::external_body]
pub struct ExMessageDigest(MessageDigest);

/// The longest PEM text, in bytes, that the engine's parsers take.
pub const MAX_PEM_LEN: usize = 0x7fff_ffff;

/// `Rsa::public_key_from_pem_pkcs1`: parses a PEM-encoded PKCS#1 public key.
/// It panics on a text of more than [`MAX_PEM_LEN`] bytes. Nothing is stated
/// of the outcome.
pub assume_specification[ Rsa::<Public>::public_key_from_pem_pkcs1 ](pem: &[u8]) -> (parsed: Result<
    Rsa<Public>,
    ErrorStack,
>)
    requires
        pem@.len() <= MAX_PEM_LEN,
;

/// `PKey::from_rsa`: wraps an RSA key as a general key. Nothing is stated of
/// the outcome.
pub assume_specification<T>[ PKey::<T>::from_rsa ](rsa: Rsa<T>) -> (wrapped: Result<
    PKey<T>,
    ErrorStack,
>)
;

/// `PKey::public_key_from_pem`: parses a PEM-encoded SubjectPublicKeyInfo.
/// It panics on a text of more than [`MAX_PEM_LEN`] bytes. Nothing is stated
/// of the outcome.
pub assume_specification[ PKey::<Public>::public_key_from_pem ](pem: &[u8]) -> (parsed: Result<
    PKey<Public>,
    ErrorStack,
>)
    requires
        pem@.len() <= MAX_PEM_LEN,
;

/// `PKey::private_key_from_pem_passphrase`: parses a PEM-encoded private key
/// with the passphrase given, which is used where the key is protected. It
/// panics on a text of more than
/// [`MAX_PEM_LEN`] bytes and on a passphrase that holds a zero byte. Nothing
/// is stated of the outcome.
pub assume_specification[ PKey::<Private>::private_key_from_pem_passphrase ](
    pem: &[u8],
    passphrase: &[u8],
) -> (parsed: Result<PKey<Private>, ErrorStack>)
    requires
        pem@.len() <= MAX_PEM_LEN,
        !passphrase@.contains(0u8),
;

/// `Rsa::generate`: a fresh RSA key pair with a modulus of `bits` bits.
/// Nothing is stated of the outcome.
pub assume_specification[ Rsa::<Private>::generate ](bits: u32) -> (made: Result<
    Rsa<Private>,
    ErrorStack,
>)
;

/// `PKeyRef::private_key_to_pem_pkcs8`: the private key as PEM-encoded
/// PKCS#8. Nothing is stated of the outcome.
#[verifier::external_body]
pub(crate) fn private_key_to_pem_pkcs8(key: &PKey<Private>) -> (pem: Result<Vec<u8>, ErrorStack>) {
    key.private_key_to_pem_pkcs8()
}

/// `PKeyRef::public_key_to_pem`: the public half of the key as PEM-encoded
/// SubjectPublicKeyInfo. Nothing is stated of the outcome.
#[verifier::external_body]
pub(crate) fn public_key_to_pem(key: &PKey<Private>) -> (pem: Result<Vec<u8>, ErrorStack>) {
    key.public_key_to_pem()
}

/// `Padding::PKCS1_OAEP`: the engine's name for OAEP padding.
#[verifier::external_body]
pub(crate) fn oaep_padding() -> (padding: Padding) {
    Padding::PKCS1_OAEP
}

/// `MessageDigest::sha256`: the engine's name for SHA-256.
pub assume_specification[ MessageDigest::sha256 ]() -> (digest: MessageDigest)
;

/// `Encrypter::new`: an encryption context for `key`. Nothing is stated of
/// the outcome.
#[verifier::external_body]
pub(crate) fn encrypter_for<'a>(key: &'a PKey<Public>) -> (made: Result<Encrypter<'a>, ErrorStack>) {
    Encrypter::new(key)
}

/// `Encrypter::set_rsa_padding`. Nothing is stated of the outcome.
pub assume_specification<'a>[ Encrypter::<'a>::set_rsa_padding ](
    encrypter: &mut Encrypter<'a>,
    padding: Padding,
) -> (set: Result<(), ErrorStack>)
;

/// `Encrypter::set_rsa_oaep_md`. Nothing is stated of the outcome.
pub assume_specification<'a>[ Encrypter::<'a>::set_rsa_oaep_md ](
    encrypter: &mut Encrypter<'a>,
    md: MessageDigest,
) -> (set: Result<(), ErrorStack>)
;

/// `Encrypter::set_rsa_mgf1_md`. Nothing is stated of the outcome.
pub assume_specification<'a>[ Encrypter::<'a>::set_rsa_mgf1_md ](
    encrypter: &mut Encrypter<'a>,
    md: MessageDigest,
) -> (set: Result<(), ErrorStack>)
;

/// `Encrypter::encrypt_len`: the size of the buffer that encrypting `from`
/// needs. Nothing is stated of the outcome.
pub assume_specification<'a>[ Encrypter::<'a>::encrypt_len ](
    encrypter: &Encrypter<'a>,
    from: &[u8],
) -> (needed: Result<usize, ErrorStack>)
;

/// `Encrypter::encrypt`: encrypts `from` into `to` and returns how many bytes
/// it wrote. Nothing is stated of the outcome.
pub assume_specification<'a>[ Encrypter::<'a>::encrypt ](
    encrypter: &Encrypter<'a>,
    from: &[u8],
    to: &mut [u8],
) -> (written: Result<usize, ErrorStack>)
;

/// `Decrypter::new`: a decryption context for `key`. Nothing is stated of
/// the outcome.
#[verifier::external_body]
pub(crate) fn decrypter_for<'a>(key: &'a PKey<Private>) -> (made: Result<Decrypter<'a>, ErrorStack>) {
    Decrypter::new(key)
}

/// `Decrypter::set_rsa_padding`. Nothing is stated of the outcome.
pub assume_specification<'a>[ Decrypter::<'a>::set_rsa_padding ](
    decrypter: &mut Decrypter<'a>,
    padding: Padding,
) -> (set: Result<(), ErrorStack>)
;

/// `Decrypter::set_rsa_oaep_md`. Nothing is stated of the outcome.
pub assume_specification<'a>[ Decrypter::<'a>::set_rsa_oaep_md ](
    decrypter: &mut Decrypter<'a>,
    md: MessageDigest,
) -> (set: Result<(), ErrorStack>)
;

/// `Decrypter::set_rsa_mgf1_md`. Nothing is stated of the outcome.
pub assume_specification<'a>[ Decrypter::<'a>::set_rsa_mgf1_md ](
    decrypter: &mut Decrypter<'a>,
    md: MessageDigest,
) -> (set: Result<(), ErrorStack>)
;

/// `Decrypter::decrypt_len`: the size of the buffer that decrypting `from`
/// needs. Nothing is stated of the outcome.
pub assume_specification<'a>[ Decrypter::<'a>::decrypt_len ](
    decrypter: &Decrypter<'a>,
    from: &[u8],
) -> (needed: Result<usize, ErrorStack>)
;

/// `Decrypter::decrypt`: decrypts `from` into `to` and returns how many bytes
/// it wrote. Nothing is stated of the outcome.
pub assume_specification<'a>[ Decrypter::<'a>::decrypt ](
    decrypter: &Decrypter<'a>,
    from: &[u8],
    to: &mut [u8],
) -> (written: Result<usize, ErrorStack>)
;

} // verus!

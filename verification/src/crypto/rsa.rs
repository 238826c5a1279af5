//! Loading keys, and encrypting and decrypting with RSA-OAEP, SHA-256 being
//! both the digest and the digest of the mask function.
//!
//! The cipher itself is the engine's. What is proved here is what the library
//! adds: which parser a key text goes to, that no input makes the engine
//! panic, which inputs the library itself refuses and with which words, and
//! that a failure of the cipher looks the same whatever caused it.

use vstd::prelude::*;
use vstd::string::*;
use vstd::utf8::encode_utf8;
use openssl::error::ErrorStack;
use openssl::hash::MessageDigest;
use openssl::pkey::{PKey, Private, Public};
use openssl::rsa::Rsa;
use crate::crypto::engine::{
    decrypter_for,
    encrypter_for,
    oaep_padding,
    private_key_to_pem_pkcs8,
    public_key_to_pem,
    MAX_PEM_LEN,
};
use crate::errors::CryptoError;
use crate::storage::fsio::BlobWrite;

verus! {

/// The text that marks a PEM as a PKCS#1 public key.
pub const PKCS1_MARKER: &'static str = "BEGIN RSA PUBLIC KEY";

/// The size in bits of the modulus of a generated key.
pub const KEY_BITS: u32 = 3072;

/// The two encodings of a public key that the library takes.
#[derive(Clone, Copy, Debug, PartialEq, Eq, Structural)]
pub enum KeyFormat {
    /// The older PKCS#1 `RSAPublicKey`.
    Pkcs1,
    /// `SubjectPublicKeyInfo`.
    SubjectPublicKeyInfo,
}

/// Whether `part` stands in `text` at position `at`.
pub open spec fn occurs_at(text: Seq<u8>, part: Seq<u8>, at: int) -> bool {
    0 <= at && at + part.len() <= text.len() && text.subrange(at, at + part.len()) == part
}

/// Whether `part` stands somewhere in `text`.
pub open spec fn occurs_in(text: Seq<u8>, part: Seq<u8>) -> bool {
    exists|at: int| occurs_at(text, part, at)
}

/// Whether the bytes of `pem` hold the marker of a PKCS#1 public key.
pub open spec fn is_pkcs1_pem(pem: Seq<char>) -> bool {
    occurs_in(encode_utf8(pem), encode_utf8(PKCS1_MARKER@))
}

/// The encoding that a public key text is taken to be in.
pub open spec fn format_of(pem: Seq<char>) -> KeyFormat {
    if is_pkcs1_pem(pem) {
        KeyFormat::Pkcs1
    } else {
        KeyFormat::SubjectPublicKeyInfo
    }
}

/// Whether `pem` is short enough for the engine's parsers.
pub open spec fn fits_parser(pem: Seq<char>) -> bool {
    encode_utf8(pem).len() <= MAX_PEM_LEN
}

/// The words with which the library refuses a key text that is too long for
/// the engine.
pub open spec fn too_long_text() -> Seq<char> {
    "the key text is too long"@
}

/// The words with which the library refuses a passphrase that holds a zero
/// byte.
pub open spec fn zero_byte_text() -> Seq<char> {
    "the passphrase holds a zero byte"@
}

/// The one text of every failure to encrypt once the key is loaded.
pub open spec fn encryption_failed_text() -> Seq<char> {
    "encryption failed"@
}

/// The one text of every failure to decrypt once the key is loaded: a wrong
/// key, a damaged ciphertext and bad padding all read the same.
pub open spec fn decryption_failed_text() -> Seq<char> {
    "decryption failed"@
}

/// Whether the text of `error` starts with `step`, a colon and a space.
pub open spec fn blames(error: CryptoError, step: Seq<char>) -> bool {
    (step + ": "@).is_prefix_of(error.message())
}

/// Whether `error` names a step of loading the public key `pem`.
pub open spec fn blames_public_key(error: CryptoError, pem: Seq<char>) -> bool {
    if is_pkcs1_pem(pem) {
        blames(error, "pkcs1"@) || blames(error, "pkey from rsa"@)
    } else {
        blames(error, "public_key_from_pem"@)
    }
}

/// Whether `error` names the step of loading a private key, with a
/// passphrase or without.
pub open spec fn blames_private_key(error: CryptoError, with_pass: bool) -> bool {
    if with_pass {
        blames(error, "private+pass"@)
    } else {
        blames(error, "private"@)
    }
}

/// Whether `error` names a step of generating a key pair.
pub open spec fn blames_generation(error: CryptoError) -> bool {
    ||| blames(error, "rsa gen"@)
    ||| blames(error, "to pkey"@)
    ||| blames(error, "pem pkcs8"@)
    ||| blames(error, "pub pem"@)
}

/// Whether there is a passphrase and it holds a zero byte.
pub open spec fn has_zero_byte(pass: Option<&[u8]>) -> bool {
    match pass {
        Some(p) => p@.contains(0u8),
        None => false,
    }
}

/// Whether `error` is what loading the public key `pem` may fail with.
pub open spec fn is_public_key_error(error: CryptoError, pem: Seq<char>) -> bool {
    error.message() == too_long_text() || blames_public_key(error, pem)
}

/// Whether `error` is what loading a private key may fail with.
pub open spec fn is_private_key_error(error: CryptoError, with_pass: bool) -> bool {
    ||| error.message() == too_long_text()
    ||| error.message() == zero_byte_text()
    ||| blames_private_key(error, with_pass)
}

/// An error that names a step of loading a key is none of the library's
/// fixed texts: those do not start with the name of such a step.
pub proof fn lemma_key_step_is_no_fixed_text(error: CryptoError, pem: Seq<char>, with_pass: bool)
    requires
        blames_public_key(error, pem) || blames_private_key(error, with_pass),
    ensures
        error.message() != too_long_text(),
        error.message() != zero_byte_text(),
        error.message() != encryption_failed_text(),
        error.message() != decryption_failed_text(),
{
    reveal_strlit("pkcs1");
    reveal_strlit("pkey from rsa");
    reveal_strlit("public_key_from_pem");
    reveal_strlit("private+pass");
    reveal_strlit("private");
    reveal_strlit(": ");
    reveal_strlit("the key text is too long");
    reveal_strlit("the passphrase holds a zero byte");
    reveal_strlit("encryption failed");
    reveal_strlit("decryption failed");
    let text = error.message();
    assert(text.len() > 0 && text[0] == 'p') by {
        if blames(error, "pkcs1"@) {
            assert(("pkcs1"@ + ": "@)[0] == 'p');
        }
        if blames(error, "pkey from rsa"@) {
            assert(("pkey from rsa"@ + ": "@)[0] == 'p');
        }
        if blames(error, "public_key_from_pem"@) {
            assert(("public_key_from_pem"@ + ": "@)[0] == 'p');
        }
        if blames(error, "private+pass"@) {
            assert(("private+pass"@ + ": "@)[0] == 'p');
        }
        if blames(error, "private"@) {
            assert(("private"@ + ": "@)[0] == 'p');
        }
    }
}

/// The library's fixed texts differ from one another.
pub proof fn lemma_fixed_texts_differ()
    ensures
        too_long_text() != zero_byte_text(),
        too_long_text() != encryption_failed_text(),
        too_long_text() != decryption_failed_text(),
        zero_byte_text() != encryption_failed_text(),
        zero_byte_text() != decryption_failed_text(),
        encryption_failed_text() != decryption_failed_text(),
{
    reveal_strlit("the key text is too long");
    reveal_strlit("the passphrase holds a zero byte");
    reveal_strlit("encryption failed");
    reveal_strlit("decryption failed");
    assert(too_long_text()[4] == 'k');
    assert(zero_byte_text()[4] == 'p');
    assert(encryption_failed_text()[0] == 'e');
    assert(decryption_failed_text()[0] == 'd');
}

/// The error with the fixed text `text`.
fn fixed_error(text: &str) -> (error: CryptoError)
    ensures
        error.message() == text@,
{
    CryptoError::OpenSsl(text.to_owned())
}

/// The error for the step `ctx` at which the engine reported `e`: the step, a
/// colon, and the engine's own words.
fn map_err(ctx: &str, e: ErrorStack) -> (error: CryptoError)
    ensures
        blames(error, ctx@),
{
    let detail = e.to_string();
    let text = String::from_str(ctx).concat(": ").concat(detail.as_str());
    assert((ctx@ + ": "@) =~= text@.subrange(0, (ctx@ + ": "@).len() as int));
    CryptoError::OpenSsl(text)
}

/// Whether `part` stands somewhere in `text`.
pub fn contains_bytes(text: &[u8], part: &[u8]) -> (found: bool)
    ensures
        found == occurs_in(text@, part@),
{
    if part.len() > text.len() {
        assert forall|at: int| !occurs_at(text@, part@, at) by {}
        return false;
    }
    let last: usize = text.len() - part.len();
    let mut at: usize = 0;
    while at <= last
        invariant
            part@.len() <= text@.len() <= usize::MAX,
            last == text@.len() - part@.len(),
            at <= last + 1,
            forall|k: int| 0 <= k < at ==> !occurs_at(text@, part@, k),
        decreases last + 1 - at,
    {
        let mut i: usize = 0;
        while i < part.len() && text[at + i] == part[i]
            invariant
                at <= last,
                part@.len() <= text@.len() <= usize::MAX,
                last == text@.len() - part@.len(),
                i <= part@.len(),
                forall|k: int| 0 <= k < i ==> text@[at + k] == part@[k],
            decreases part@.len() - i,
        {
            i += 1;
        }
        if i == part.len() {
            assert(text@.subrange(at as int, at + part@.len()) =~= part@);
            assert(occurs_at(text@, part@, at as int));
            return true;
        }
        assert(!occurs_at(text@, part@, at as int)) by {
            if occurs_at(text@, part@, at as int) {
                assert(text@.subrange(at as int, at + part@.len())[i as int] == part@[i as int]);
            }
        }
        at += 1;
    }
    assert forall|k: int| !occurs_at(text@, part@, k) by {}
    false
}

/// Whether `bytes` holds a zero byte.
pub fn holds_nul(bytes: &[u8]) -> (found: bool)
    ensures
        found == bytes@.contains(0u8),
{
    let mut i: usize = 0;
    while i < bytes.len()
        invariant
            i <= bytes@.len(),
            forall|k: int| 0 <= k < i ==> bytes@[k] != 0u8,
        decreases bytes@.len() - i,
    {
        if bytes[i] == 0 {
            return true;
        }
        i += 1;
    }
    false
}

/// The encoding that the public key text `pem` is taken to be in: PKCS#1
/// where it holds [`PKCS1_MARKER`], `SubjectPublicKeyInfo` where it does not.
pub fn public_key_format(pem: &str) -> (format: KeyFormat)
    ensures
        format == format_of(pem@),
{
    if contains_bytes(pem.as_bytes(), PKCS1_MARKER.as_bytes()) {
        KeyFormat::Pkcs1
    } else {
        KeyFormat::SubjectPublicKeyInfo
    }
}

/// Loads a public key from PEM text, with the parser of its
/// [`public_key_format`].
///
/// A text too long for the parsers is refused, with the words of
/// [`too_long_text`], and no other text is. Whether a text of accepted length
/// holds a key is the engine's to say; its error names the step that failed.
pub fn load_public_key(pem: &str) -> (loaded: Result<PKey<Public>, CryptoError>)
    ensures
        !fits_parser(pem@) <==> (loaded matches Err(e) && e.message() == too_long_text()),
        loaded matches Err(e) ==> is_public_key_error(e, pem@),
{
    let bytes = pem.as_bytes();
    if bytes.len() > MAX_PEM_LEN {
        return Err(fixed_error("the key text is too long"));
    }
    let loaded = match public_key_format(pem) {
        KeyFormat::Pkcs1 => match Rsa::public_key_from_pem_pkcs1(bytes) {
            Ok(rsa) => match PKey::from_rsa(rsa) {
                Ok(key) => Ok(key),
                Err(e) => Err(map_err("pkey from rsa", e)),
            },
            Err(e) => Err(map_err("pkcs1", e)),
        },
        KeyFormat::SubjectPublicKeyInfo => match PKey::public_key_from_pem(bytes) {
            Ok(key) => Ok(key),
            Err(e) => Err(map_err("public_key_from_pem", e)),
        },
    };
    proof {
        if loaded is Err {
            lemma_key_step_is_no_fixed_text(loaded->Err_0, pem@, false);
        }
    }
    loaded
}

/// Loads a private key from PEM text, with the passphrase that protects it
/// where there is one. Without one the engine is handed the empty passphrase,
/// so that it fails on a protected key and asks nobody.
///
/// A text too long for the parsers is refused with the words of
/// [`too_long_text`], a passphrase that holds a zero byte with those of
/// [`zero_byte_text`], and nothing else is. Whether the text holds a key that
/// the passphrase opens is the engine's to say; its error names the step
/// that failed.
pub fn load_private_key(pem: &str, pass: Option<&[u8]>) -> (loaded: Result<
    PKey<Private>,
    CryptoError,
>)
    ensures
        !fits_parser(pem@) <==> (loaded matches Err(e) && e.message() == too_long_text()),
        (fits_parser(pem@) && has_zero_byte(pass)) <==> (loaded matches Err(e) && e.message()
            == zero_byte_text()),
        loaded matches Err(e) ==> is_private_key_error(e, pass is Some),
{
    proof {
        lemma_fixed_texts_differ();
    }
    let bytes = pem.as_bytes();
    if bytes.len() > MAX_PEM_LEN {
        return Err(fixed_error("the key text is too long"));
    }
    let loaded = match pass {
        Some(p) => {
            if holds_nul(p) {
                return Err(fixed_error("the passphrase holds a zero byte"));
            }
            match PKey::private_key_from_pem_passphrase(bytes, p) {
                Ok(key) => Ok(key),
                Err(e) => Err(map_err("private+pass", e)),
            }
        },
        None => {
            let empty: Vec<u8> = Vec::new();
            match PKey::private_key_from_pem_passphrase(bytes, empty.as_slice()) {
                Ok(key) => Ok(key),
                Err(e) => Err(map_err("private", e)),
            }
        },
    };
    proof {
        if loaded is Err {
            lemma_key_step_is_no_fixed_text(loaded->Err_0, pem@, pass is Some);
        }
    }
    loaded
}

/// The part of the buffer `out` that the engine filled: its first `written`
/// bytes, or all of it where the engine claims more.
pub fn written_part(out: Vec<u8>, written: usize) -> (kept: Vec<u8>)
    ensures
        kept@ == out@.take(
            if written <= out@.len() {
                written as int
            } else {
                out@.len() as int
            },
        ),
{
    let mut kept = out;
    kept.truncate(written);
    assert(kept@ =~= out@.take(
        if written <= out@.len() {
            written as int
        } else {
            out@.len() as int
        },
    ));
    kept
}

/// Encrypts `plain` under `key`.
///
/// The ciphertext is the engine's and differs from call to call. Every
/// failure is the same error, with the words of [`encryption_failed_text`].
pub fn encrypt_with_key(plain: &[u8], key: &PKey<Public>) -> (sealed: Result<Vec<u8>, CryptoError>)
    ensures
        sealed matches Err(e) ==> e.message() == encryption_failed_text(),
{
    let mut enc = match encrypter_for(key) {
        Ok(enc) => enc,
        Err(_) => {
            return Err(fixed_error("encryption failed"));
        },
    };
    if enc.set_rsa_padding(oaep_padding()).is_err() {
        return Err(fixed_error("encryption failed"));
    }
    if enc.set_rsa_oaep_md(MessageDigest::sha256()).is_err() {
        return Err(fixed_error("encryption failed"));
    }
    if enc.set_rsa_mgf1_md(MessageDigest::sha256()).is_err() {
        return Err(fixed_error("encryption failed"));
    }
    let needed = match enc.encrypt_len(plain) {
        Ok(n) => n,
        Err(_) => {
            return Err(fixed_error("encryption failed"));
        },
    };
    let mut out: Vec<u8> = vec![0u8; needed];
    match enc.encrypt(plain, out.as_mut_slice()) {
        Ok(written) => Ok(written_part(out, written)),
        Err(_) => Err(fixed_error("encryption failed")),
    }
}

/// Encrypts `plain` under the public key in `pub_pem`.
///
/// Fails as [`load_public_key`] does where the key cannot be loaded, and with
/// the one error of [`encrypt_with_key`] where the cipher fails.
pub fn encrypt_with_pub(plain: &[u8], pub_pem: &str) -> (sealed: Result<Vec<u8>, CryptoError>)
    ensures
        !fits_parser(pub_pem@) <==> (sealed matches Err(e) && e.message() == too_long_text()),
        sealed matches Err(e) ==> is_public_key_error(e, pub_pem@) || e.message()
            == encryption_failed_text(),
{
    proof {
        lemma_fixed_texts_differ();
    }
    let pkey = match load_public_key(pub_pem) {
        Ok(key) => key,
        Err(e) => {
            return Err(e);
        },
    };
    encrypt_with_key(plain, &pkey)
}

/// Decrypts `cipher` with `key`.
///
/// Whether the ciphertext was made for this key is the engine's to say. Every
/// failure is the same error, with the words of [`decryption_failed_text`]:
/// nothing of what the engine reports is passed on, so that the error cannot
/// tell a wrong key from a damaged ciphertext.
pub fn decrypt_with_key(cipher: &[u8], key: &PKey<Private>) -> (opened: Result<
    Vec<u8>,
    CryptoError,
>)
    ensures
        opened matches Err(e) ==> e.message() == decryption_failed_text(),
{
    let mut dec = match decrypter_for(key) {
        Ok(dec) => dec,
        Err(_) => {
            return Err(fixed_error("decryption failed"));
        },
    };
    if dec.set_rsa_padding(oaep_padding()).is_err() {
        return Err(fixed_error("decryption failed"));
    }
    if dec.set_rsa_oaep_md(MessageDigest::sha256()).is_err() {
        return Err(fixed_error("decryption failed"));
    }
    if dec.set_rsa_mgf1_md(MessageDigest::sha256()).is_err() {
        return Err(fixed_error("decryption failed"));
    }
    let needed = match dec.decrypt_len(cipher) {
        Ok(n) => n,
        Err(_) => {
            return Err(fixed_error("decryption failed"));
        },
    };
    let mut out: Vec<u8> = vec![0u8; needed];
    match dec.decrypt(cipher, out.as_mut_slice()) {
        Ok(written) => Ok(written_part(out, written)),
        Err(_) => Err(fixed_error("decryption failed")),
    }
}

/// Decrypts `cipher` with the private key in `priv_pem`.
///
/// Fails as [`load_private_key`] does where the key cannot be loaded, and
/// with the one error of [`decrypt_with_key`] where the cipher fails.
pub fn decrypt_with_priv(cipher: &[u8], priv_pem: &str, pass: Option<&[u8]>) -> (opened: Result<
    Vec<u8>,
    CryptoError,
>)
    ensures
        !fits_parser(priv_pem@) <==> (opened matches Err(e) && e.message() == too_long_text()),
        (fits_parser(priv_pem@) && has_zero_byte(pass)) <==> (opened matches Err(e) && e.message()
            == zero_byte_text()),
        opened matches Err(e) ==> is_private_key_error(e, pass is Some) || e.message()
            == decryption_failed_text(),
{
    proof {
        lemma_fixed_texts_differ();
    }
    let pkey = match load_private_key(priv_pem, pass) {
        Ok(key) => key,
        Err(e) => {
            return Err(e);
        },
    };
    decrypt_with_key(cipher, &pkey)
}

/// The two writes that store a key pair: the private key at `priv_out`, the
/// public key at `pub_out`, in that order.
pub fn key_writes(priv_out: &str, pub_out: &str, sk_pem: Vec<u8>, pk_pem: Vec<u8>) -> (writes: (
    BlobWrite,
    BlobWrite,
))
    ensures
        writes.0.path@ == priv_out@,
        writes.0.content@ == sk_pem@,
        writes.1.path@ == pub_out@,
        writes.1.content@ == pk_pem@,
{
    (
        BlobWrite { path: priv_out.to_owned(), content: sk_pem },
        BlobWrite { path: pub_out.to_owned(), content: pk_pem },
    )
}

/// Generates a key pair of [`KEY_BITS`] bits and returns the
/// [`key_writes`] that store it: the private key as PKCS#8 PEM at `priv_out`,
/// the public key as PEM at `pub_out`.
///
/// Which keys come back is the engine's to say. An error names the step that
/// failed.
pub fn generate_keys(priv_out: &str, pub_out: &str) -> (made: Result<
    (BlobWrite, BlobWrite),
    CryptoError,
>)
    ensures
        match made {
            Ok((private, public)) => private.path@ == priv_out@ && public.path@ == pub_out@,
            Err(e) => blames_generation(e),
        },
{
    let rsa = match Rsa::generate(KEY_BITS) {
        Ok(rsa) => rsa,
        Err(e) => {
            return Err(map_err("rsa gen", e));
        },
    };
    let pkey = match PKey::from_rsa(rsa) {
        Ok(key) => key,
        Err(e) => {
            return Err(map_err("to pkey", e));
        },
    };
    let sk_pem = match private_key_to_pem_pkcs8(&pkey) {
        Ok(pem) => pem,
        Err(e) => {
            return Err(map_err("pem pkcs8", e));
        },
    };
    let pk_pem = match public_key_to_pem(&pkey) {
        Ok(pem) => pem,
        Err(e) => {
            return Err(map_err("pub pem", e));
        },
    };
    Ok(key_writes(priv_out, pub_out, sk_pem, pk_pem))
}

} // verus!

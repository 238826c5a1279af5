//! The encrypt command.

use vstd::prelude::*;
use vstd::string::*;
use crate::cli::Args;
use crate::config::DEFAULT_OUT_MSG;
use crate::crypto::rsa::{
    encrypt_with_pub,
    encryption_failed_text,
    fits_parser,
    is_public_key_error,
    too_long_text,
};
use crate::errors::CryptoError;
use crate::message::sync::{drop_path, is_drop_path};
use crate::storage::fsio::BlobWrite;

verus! {

/// Whether `c` has the Unicode property `White_Space`.
pub uninterp spec fn is_white_space(c: char) -> bool;

/// `char::is_whitespace`: whether the character has the Unicode property
/// `White_Space`.
pub assume_specification[ char::is_whitespace ](c: char) -> (white: bool)
    ensures
        white == is_white_space(c),
;

/// `text` without the white space at its end.
pub open spec fn trimmed(text: Seq<char>) -> Seq<char>
    decreases text.len(),
{
    if text.len() > 0 && is_white_space(text.last()) {
        trimmed(text.drop_last())
    } else {
        text
    }
}

/// The plaintext of a message before it is trimmed: a line that names the
/// author, then the content.
pub open spec fn payload_text(author: Seq<char>, content: Seq<char>) -> Seq<char> {
    "Author: "@ + author + "\n"@ + content
}

/// `text` without the white space at its end.
pub fn trim_end(text: &str) -> (kept: &str)
    ensures
        kept@ == trimmed(text@),
{
    let mut end: usize = text.unicode_len();
    assert(text@.take(end as int) =~= text@);
    while end > 0 && text.get_char(end - 1).is_whitespace()
        invariant
            end <= text@.len(),
            trimmed(text@) == trimmed(text@.take(end as int)),
        decreases end,
    {
        assert(text@.take(end as int).drop_last() =~= text@.take(end - 1));
        end -= 1;
    }
    text.substring_char(0, end)
}

/// The plaintext of a message: the author's line and the content, without
/// the white space at the end.
pub fn compose_payload(author: &str, content: &str) -> (payload: String)
    ensures
        payload@ == trimmed(payload_text(author@, content@)),
{
    let full = String::from_str("Author: ").concat(author).concat("\n").concat(content);
    trim_end(full.as_str()).to_owned()
}

/// The write that stores the blob `cipher`: at the path of `args` where it
/// names one, else at `fresh`.
pub fn blob_for(args: &Args, cipher: Vec<u8>, fresh: String) -> (write: BlobWrite)
    ensures
        write.content@ == cipher@,
        write.path@ == match args.path {
            Some(path) => path@,
            None => fresh@,
        },
{
    let path = match &args.path {
        Some(path) => path.clone(),
        None => fresh,
    };
    BlobWrite { path, content: cipher }
}

/// Encrypts the [`compose_payload`] of `author` and `content` under the
/// public key in `pk_pem` and returns the [`blob_for`] the ciphertext: at the
/// path of `args` where it names one, else in the outbox under a fresh random
/// name.
///
/// Fails as [`encrypt_with_pub`] does.
pub fn run(args: &Args, author: &str, content: &str, pk_pem: &str) -> (stored: Result<
    BlobWrite,
    CryptoError,
>)
    ensures
        match stored {
            Ok(write) => match args.path {
                Some(path) => write.path@ == path@,
                None => is_drop_path(write.path@, DEFAULT_OUT_MSG@),
            },
            Err(e) => is_public_key_error(e, pk_pem@) || e.message() == encryption_failed_text(),
        },
        !fits_parser(pk_pem@) <==> (stored matches Err(e) && e.message() == too_long_text()),
{
    let payload = compose_payload(author, content);
    let cipher = match encrypt_with_pub(payload.as_str().as_bytes(), pk_pem) {
        Ok(cipher) => cipher,
        Err(e) => {
            return Err(e);
        },
    };
    Ok(blob_for(args, cipher, drop_path(DEFAULT_OUT_MSG)))
}

} // verus!

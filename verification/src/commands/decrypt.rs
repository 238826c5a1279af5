//! The decrypt command.

use vstd::prelude::*;
use crate::cli::Args;
use crate::crypto::rsa::{
    decrypt_with_priv,
    decryption_failed_text,
    fits_parser,
    is_private_key_error,
    too_long_text,
};
use crate::errors::{CommandError, CryptoError, UsageError};

verus! {

/// The blob that the command is to decrypt. The command cannot run without
/// one.
pub fn input_path(args: &Args) -> (path: Result<&String, UsageError>)
    ensures
        match path {
            Ok(p) => args.path == Some(*p),
            Err(e) => args.path is None && e == UsageError::PathRequired,
        },
{
    match &args.path {
        Some(p) => Ok(p),
        None => Err(UsageError::PathRequired),
    }
}

/// Whether `error` is what the decrypt command may fail with once it has a
/// path: a key that cannot be loaded, or the one error of a failed
/// decryption.
pub open spec fn is_decrypt_failure(error: CommandError, with_pass: bool) -> bool {
    match error {
        CommandError::Usage(_) => false,
        CommandError::Crypto(e) => is_private_key_error(e, with_pass) || e.message()
            == decryption_failed_text(),
    }
}

/// Decrypts `ciphertext`, the bytes of the blob at the path of `args`, with
/// the private key in `private_pem` and the passphrase of `args`. The
/// plaintext is what the command prints.
///
/// Without a path in `args` the command fails with
/// [`UsageError::PathRequired`] and decrypts nothing.
pub fn run(args: &Args, private_pem: &str, ciphertext: &[u8]) -> (plain: Result<
    Vec<u8>,
    CommandError,
>)
    ensures
        args.path is None <==> (plain matches Err(CommandError::Usage(e)) && e
            == UsageError::PathRequired),
        args.path is Some ==> (plain matches Err(e) ==> is_decrypt_failure(
            e,
            args.passphrase is Some,
        )),
        args.path is Some ==> (!fits_parser(private_pem@) <==> (plain matches Err(
            CommandError::Crypto(e),
        ) && e.message() == too_long_text())),
{
    match input_path(args) {
        Ok(_) => {},
        Err(e) => {
            return Err(CommandError::Usage(e));
        },
    }
    match decrypt_with_priv(ciphertext, private_pem, args.passphrase_bytes()) {
        Ok(plain) => Ok(plain),
        Err(e) => Err(CommandError::Crypto(e)),
    }
}

} // verus!

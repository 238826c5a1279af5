//! The arguments of the command line, as plain values.

use vstd::prelude::*;

verus! {

/// What the user asked for. Parsing the command line is the caller's; the
/// flags `encrypt`, `decrypt`, `inbox` and `generate_new_keys` are meant to
/// exclude one another.
#[derive(Debug)]
pub struct Args {
    /// Encrypt a message.
    pub encrypt: bool,
    /// Decrypt the blob at `path`.
    pub decrypt: bool,
    /// Show the messages addressed to the holder of the private key.
    pub inbox: bool,
    /// The blob to read or to write.
    pub path: Option<String>,
    /// Make a new key pair.
    pub generate_new_keys: bool,
    /// The file of the public key.
    pub public_key: String,
    /// The file of the private key.
    pub private_key: String,
    /// The passphrase of the private key, if it has one.
    pub passphrase: Option<String>,
}

impl Args {
    /// The passphrase as the cipher engine takes it.
    pub fn passphrase_bytes(&self) -> (pass: Option<&[u8]>)
        ensures
            match pass {
                Some(bytes) => self.passphrase matches Some(text) && bytes@
                    == vstd::utf8::encode_utf8(text@),
                None => self.passphrase is None,
            },
    {
        match &self.passphrase {
            Some(text) => Some(text.as_str().as_bytes()),
            None => None,
        }
    }
}

} // verus!

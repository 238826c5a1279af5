//! Where the program keeps its own files, relative to its working directory.

use vstd::prelude::*;

verus! {

/// The outbox: the directory that holds the ciphertexts made here.
pub const DEFAULT_OUT_MSG: &'static str = "storage/messages/";

/// The file of the private key.
pub const DEFAULT_PRIVKEY: &'static str = "storage/keys/private.pem";

/// The file of the public key.
pub const DEFAULT_PUBKEY: &'static str = "storage/keys/public.pem";

} // verus!

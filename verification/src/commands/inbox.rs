//! The inbox command.

use vstd::prelude::*;
use vstd::string::*;
use vstd::utf8::encode_utf8;
use crate::cli::Args;
use crate::crypto::rsa::is_private_key_error;
use crate::errors::CryptoError;
use crate::message::scan::{
    get_intended_messages_with_pass,
    messages,
    scan_trials,
    selected,
    Found,
};
use crate::storage::fsio::{Entry, FsView};
use crate::storage::paths::{persistent_path, ram_path, Platform};

verus! {

/// One message as it is printed: the path of its blob, a line of three
/// dashes, the plaintext, and a line break.
pub open spec fn shown(message: (Seq<char>, Seq<u8>)) -> Seq<u8> {
    encode_utf8(message.0) + encode_utf8("\n---\n"@) + message.1 + encode_utf8("\n"@)
}

/// The messages as they are printed, one after the other.
pub open spec fn rendered(found: Seq<(Seq<char>, Seq<u8>)>) -> Seq<u8> {
    found.map_values(|message: (Seq<char>, Seq<u8>)| shown(message)).flatten()
}

/// The bytes that print `found`.
pub fn render(found: &Vec<Found>) -> (out: Vec<u8>)
    ensures
        out@ == rendered(messages(found@)),
{
    let mut out: Vec<u8> = Vec::new();
    let ghost all = messages(found@);
    let ghost pieces = all.map_values(|message: (Seq<char>, Seq<u8>)| shown(message));
    let mut i: usize = 0;
    assert(pieces.take(0).flatten() =~= Seq::<u8>::empty());
    while i < found.len()
        invariant
            i <= found@.len(),
            all == messages(found@),
            pieces == all.map_values(|message: (Seq<char>, Seq<u8>)| shown(message)),
            out@ == pieces.take(i as int).flatten(),
        decreases found@.len() - i,
    {
        let ghost before = out@;
        out.extend_from_slice(found[i].0.as_str().as_bytes());
        out.extend_from_slice("\n---\n".as_bytes());
        out.extend_from_slice(found[i].1.as_slice());
        out.extend_from_slice("\n".as_bytes());
        proof {
            assert(out@ =~= before + shown(all[i as int]));
            assert(pieces.take(i + 1) =~= pieces.take(i as int).push(pieces[i as int]));
            pieces.take(i as int).lemma_flatten_push(pieces[i as int]);
        }
        i += 1;
    }
    assert(pieces.take(i as int) =~= pieces);
    out
}

/// Whether `out` is what the inbox command may end with: the messages that
/// opened, printed one after the other, or the failure to load the key.
pub open spec fn is_inbox_result(
    out: Result<Vec<u8>, CryptoError>,
    trials: Seq<Entry>,
    with_pass: bool,
) -> bool {
    match out {
        Ok(bytes) => exists|opened: Seq<Option<Seq<u8>>>|
            opened.len() == trials.len() && bytes@ == rendered(#[trigger] selected(trials, opened)),
        Err(e) => trials.len() > 0 && is_private_key_error(e, with_pass),
    }
}

/// What the inbox command prints: the messages in the dropboxes of `platform`
/// that the private key in `private_pem` opens with the passphrase of `args`.
///
/// Fails where there is a blob to try and the key cannot be loaded.
pub fn run(args: &Args, view: &FsView, platform: Platform, private_pem: &str) -> (out: Result<
    Vec<u8>,
    CryptoError,
>)
    ensures
        is_inbox_result(
            out,
            scan_trials(*view, persistent_path(platform), ram_path(platform)),
            args.passphrase is Some,
        ),
        !view.has_dir(persistent_path(platform)) && !view.has_dir(ram_path(platform)) ==> (
        out matches Ok(bytes) && bytes@.len() == 0),
{
    match get_intended_messages_with_pass(view, platform, private_pem, args.passphrase_bytes()) {
        Ok(found) => {
            assert(found@.len() == 0 ==> rendered(messages(found@)) =~= Seq::<u8>::empty());
            Ok(render(&found))
        },
        Err(e) => Err(e),
    }
}

} // verus!

//! The discovery scanner: which blobs of the dropboxes are addressed to the
//! holder of a private key.
//!
//! A blob carries no address. It is the holder's if the holder's key opens
//! it, and anything that does not open is passed over in silence, whatever
//! the reason.

use vstd::prelude::*;
use vstd::string::*;
use openssl::pkey::{PKey, Private};
use crate::crypto::rsa::{
    decrypt_with_key,
    fits_parser,
    has_zero_byte,
    is_private_key_error,
    load_private_key,
    too_long_text,
    zero_byte_text,
};
use crate::errors::CryptoError;
use crate::message::sync::files_of;
use crate::storage::fsio::{Entry, FsView};
use crate::storage::paths::{persistent_dir, persistent_path, ram_dir, ram_path, Platform};

verus! {

/// A message that the scanner found: the path of the blob and its plaintext.
pub type Found = (String, Vec<u8>);

/// The found messages as plain values.
pub open spec fn messages(found: Seq<Found>) -> Seq<(Seq<char>, Seq<u8>)> {
    found.map_values(|m: Found| (m.0@, m.1@))
}

/// The entries of the two dropboxes, the ephemeral one first. A dropbox that
/// does not exist adds nothing.
pub open spec fn candidates(view: FsView, persistent: Seq<char>, ram: Seq<char>) -> Seq<Entry> {
    view.listing(ram) + view.listing(persistent)
}

/// Whether `entry` is a blob to try the key on: a regular file whose bytes
/// could be read.
pub open spec fn is_trial(entry: Entry) -> bool {
    entry.is_file && entry.content is Some
}

/// The entries of `entries` that are blobs to try the key on, in order.
pub open spec fn trials_of(entries: Seq<Entry>) -> Seq<Entry> {
    entries.filter(|e: Entry| is_trial(e))
}

/// The blobs of the two dropboxes that the key is tried on.
pub open spec fn scan_trials(view: FsView, persistent: Seq<char>, ram: Seq<char>) -> Seq<Entry> {
    trials_of(candidates(view, persistent, ram))
}

/// The message that a blob yields, given what decrypting it gave: the path
/// and the plaintext where it opened, nothing where it did not.
pub open spec fn message_of(attempt: (Entry, Option<Seq<u8>>)) -> Option<(Seq<char>, Seq<u8>)> {
    match attempt.1 {
        Some(plain) => Some((attempt.0.path@, plain)),
        None => None,
    }
}

/// The messages that the blobs `trials` yield, in order, where `opened`
/// holds for each blob the plaintext that decrypting it gave, if any.
pub open spec fn selected(trials: Seq<Entry>, opened: Seq<Option<Seq<u8>>>) -> Seq<
    (Seq<char>, Seq<u8>),
> {
    trials.zip_with(opened).filter_map(|attempt: (Entry, Option<Seq<u8>>)| message_of(attempt))
}

/// Whether `found` is what a scan of the blobs `trials` may end with.
///
/// With no blob to try the key is not needed, and the scan finds nothing.
/// With a blob to try, the key is loaded: the scan fails exactly as
/// [`load_private_key`] does, and otherwise returns the messages that opened,
/// whatever the cipher engine said of each blob.
pub open spec fn is_scan_result(
    found: Result<Vec<Found>, CryptoError>,
    trials: Seq<Entry>,
    pem: Seq<char>,
    pass: Option<&[u8]>,
) -> bool {
    &&& match found {
        Ok(list) => exists|opened: Seq<Option<Seq<u8>>>|
            opened.len() == trials.len() && #[trigger] selected(trials, opened) == messages(list@),
        Err(e) => trials.len() > 0 && is_private_key_error(e, pass is Some),
    }
    &&& trials.len() == 0 ==> (found matches Ok(list) && list@.len() == 0)
    &&& trials.len() > 0 ==> (!fits_parser(pem) <==> (found matches Err(e) && e.message()
        == too_long_text()))
    &&& trials.len() > 0 ==> ((fits_parser(pem) && has_zero_byte(pass)) <==> (found matches Err(e)
        && e.message() == zero_byte_text()))
}

/// The diagnostics for the dropboxes that do not exist, the persistent one
/// first.
pub open spec fn diagnostics(view: FsView, persistent: Seq<char>, ram: Seq<char>) -> Seq<
    Seq<char>,
> {
    let first = if view.has_dir(persistent) {
        Seq::<Seq<char>>::empty()
    } else {
        seq!["Couldn't find persistent folder at "@ + persistent]
    };
    if view.has_dir(ram) {
        first
    } else {
        first.push("Couldn't find RAM folder at "@ + ram)
    }
}

/// One line for each dropbox that `view` does not hold. A missing dropbox is
/// no error: it is reported here and otherwise counts as empty.
pub fn missing_dropboxes(view: &FsView, persistent: &str, ram: &str) -> (lines: Vec<String>)
    ensures
        lines@.map_values(|line: String| line@) == diagnostics(*view, persistent@, ram@),
{
    let mut lines: Vec<String> = Vec::new();
    if view.find_dir(persistent).is_none() {
        lines.push(String::from_str("Couldn't find persistent folder at ").concat(persistent));
    }
    if view.find_dir(ram).is_none() {
        lines.push(String::from_str("Couldn't find RAM folder at ").concat(ram));
    }
    assert(lines@.map_values(|line: String| line@) =~= diagnostics(*view, persistent@, ram@));
    lines
}

/// Appends references to the entries of the directory at `path`, if `view`
/// holds it.
fn append_listing<'a>(found: &mut Vec<&'a Entry>, view: &'a FsView, path: &str)
    ensures
        files_of(final(found)@) == files_of(old(found)@) + view.listing(path@),
{
    let ghost before = found@;
    match view.find_dir(path) {
        Some(d) => {
            let entries = &view.dirs[d].entries;
            let mut i: usize = 0;
            while i < entries.len()
                invariant
                    i <= entries@.len(),
                    found@.len() == before.len() + i,
                    forall|j: int| 0 <= j < before.len() ==> (#[trigger] found@[j]) == before[j],
                    forall|j: int|
                        0 <= j < i ==> *(#[trigger] found@[before.len() + j]) == entries@[j],
                decreases entries@.len() - i,
            {
                found.push(&entries[i]);
                i += 1;
            }
            proof {
                assert forall|j: int| 0 <= j < found@.len() implies files_of(found@)[j] == (
                files_of(before) + entries@)[j] by {
                    if j >= before.len() {
                        assert(*found@[before.len() + (j - before.len())] == entries@[j
                            - before.len()]);
                    }
                }
                assert(files_of(found@) =~= files_of(before) + entries@);
            }
        },
        None => {
            assert(files_of(found@) =~= files_of(before) + view.listing(path@));
        },
    }
}

/// The entries of the two dropboxes at `persistent` and `ram`, those of the
/// ephemeral one first. A dropbox that `view` does not hold adds nothing.
pub fn search_messages_in<'a>(view: &'a FsView, persistent: &str, ram: &str) -> (found: Vec<
    &'a Entry,
>)
    ensures
        files_of(found@) == candidates(*view, persistent@, ram@),
        !view.has_dir(persistent@) && !view.has_dir(ram@) ==> found@.len() == 0,
{
    let mut found: Vec<&'a Entry> = Vec::new();
    assert(files_of(found@) =~= Seq::<Entry>::empty());
    append_listing(&mut found, view, ram);
    append_listing(&mut found, view, persistent);
    assert(files_of(found@) =~= candidates(*view, persistent@, ram@));
    assert(files_of(found@).len() == found@.len());
    found
}

/// The entries of the two dropboxes of `platform`.
pub fn search_messages<'a>(view: &'a FsView, platform: Platform) -> (found: Vec<&'a Entry>)
    ensures
        files_of(found@) == candidates(*view, persistent_path(platform), ram_path(platform)),
{
    search_messages_in(view, persistent_dir(platform), ram_dir(platform))
}

/// Takes the outcome of one trial decryption into the result: a plaintext is
/// kept with the path of its blob, a failure leaves no trace.
pub fn keep_opened(found: &mut Vec<Found>, path: &str, outcome: Result<Vec<u8>, CryptoError>)
    ensures
        messages(final(found)@) == match outcome {
            Ok(plain) => messages(old(found)@).push((path@, plain@)),
            Err(_) => messages(old(found)@),
        },
{
    match outcome {
        Ok(plain) => {
            let ghost before = found@;
            let ghost kept = plain@;
            found.push((path.to_owned(), plain));
            assert(messages(found@) =~= messages(before).push((path@, kept)));
        },
        Err(_) => {},
    }
}

/// Missing-directory tolerance: where neither dropbox exists, there is no
/// blob to try, so a scan finds nothing and cannot fail.
pub proof fn lemma_missing_dropboxes_hold_no_blob(
    view: FsView,
    persistent: Seq<char>,
    ram: Seq<char>,
)
    ensures
        !view.has_dir(persistent) && !view.has_dir(ram) ==> scan_trials(
            view,
            persistent,
            ram,
        ).len() == 0,
{
    candidates(view, persistent, ram).lemma_filter_len(|e: Entry| is_trial(e));
}

/// The blobs among `entries` to try the key on: the regular files whose
/// bytes could be read, in order.
pub fn trials<'a>(entries: &Vec<&'a Entry>) -> (picked: Vec<&'a Entry>)
    ensures
        files_of(picked@) == trials_of(files_of(entries@)),
{
    let ghost all = files_of(entries@);
    let ghost wanted = |e: Entry| is_trial(e);
    let mut picked: Vec<&'a Entry> = Vec::new();
    let mut i: usize = 0;
    assert(all.take(0).filter(wanted) =~= files_of(picked@)) by {
        all.take(0).lemma_filter_len(wanted);
    }
    while i < entries.len()
        invariant
            i <= entries@.len(),
            all == files_of(entries@),
            wanted == (|e: Entry| is_trial(e)),
            files_of(picked@) == all.take(i as int).filter(wanted),
        decreases entries@.len() - i,
    {
        let entry = entries[i];
        let ghost before = picked@;
        proof {
            assert(all.take(i + 1) =~= all.take(i as int).push(all[i as int]));
            all.take(i as int).lemma_filter_push(all[i as int], wanted);
            assert(*entry == all[i as int]);
        }
        if entry.is_file && entry.content.is_some() {
            picked.push(entry);
            assert(files_of(picked@) =~= files_of(before).push(*entry));
        }
        i += 1;
    }
    assert(all.take(i as int) =~= all);
    picked
}

/// Tries `key` on each blob of `picked` and returns what opened.
fn open_each(picked: &Vec<&Entry>, key: &PKey<Private>) -> (found: Vec<Found>)
    ensures
        exists|opened: Seq<Option<Seq<u8>>>|
            opened.len() == picked@.len() && #[trigger] selected(files_of(picked@), opened)
                == messages(found@),
{
    let ghost all = files_of(picked@);
    let mut found: Vec<Found> = Vec::new();
    let ghost mut opened: Seq<Option<Seq<u8>>> = Seq::empty();
    let mut i: usize = 0;
    assert(messages(found@) =~= selected(all.take(0), opened));
    while i < picked.len()
        invariant
            i <= picked@.len(),
            all == files_of(picked@),
            opened.len() == i,
            messages(found@) == selected(all.take(i as int), opened),
        decreases picked@.len() - i,
    {
        let entry = picked[i];
        assert(*entry == all[i as int]);
        let ghost mut outcome: Option<Seq<u8>> = None;
        match &entry.content {
            Some(cipher) => {
                let attempt = decrypt_with_key(cipher.as_slice(), key);
                proof {
                    outcome = match &attempt {
                        Ok(plain) => Some(plain@),
                        Err(_) => None,
                    };
                }
                keep_opened(&mut found, entry.path.as_str(), attempt);
            },
            None => {},
        }
        proof {
            let attempts = all.take(i as int).zip_with(opened);
            let longer = all.take(i + 1).zip_with(opened.push(outcome));
            assert(longer =~= attempts.push((all[i as int], outcome)));
            assert(longer.drop_last() =~= attempts);
            assert(messages(found@) =~= selected(all.take(i + 1), opened.push(outcome)));
            opened = opened.push(outcome);
        }
        i += 1;
    }
    assert(all.take(i as int) =~= all);
    found
}

/// The messages in the dropboxes at `persistent` and `ram` that the private
/// key in `private_pem` opens, each with the path of its blob, in the order
/// of [`candidates`].
///
/// The [`trials`] among the entries are the blobs that the key is tried on.
/// Where there is none, nothing is found and the key is not looked at. Where
/// there is one, the key is loaded once: a key that cannot be loaded fails
/// the scan, as [`load_private_key`] says. Each blob is then handed to the
/// cipher engine once. What opens is returned, and a blob that does not open
/// is passed over in silence, whatever the reason.
pub fn get_intended_messages_in_with_pass(
    view: &FsView,
    private_pem: &str,
    pass: Option<&[u8]>,
    persistent: &str,
    ram: &str,
) -> (found: Result<Vec<Found>, CryptoError>)
    ensures
        is_scan_result(found, scan_trials(*view, persistent@, ram@), private_pem@, pass),
        !view.has_dir(persistent@) && !view.has_dir(ram@) ==> (found matches Ok(list) && list@.len()
            == 0),
{
    proof {
        lemma_missing_dropboxes_hold_no_blob(*view, persistent@, ram@);
    }
    let entries = search_messages_in(view, persistent, ram);
    let picked = trials(&entries);
    assert(files_of(picked@).len() == picked@.len());
    if picked.len() == 0 {
        let none: Vec<Found> = Vec::new();
        assert(selected(files_of(picked@), Seq::<Option<Seq<u8>>>::empty()) =~= messages(none@));
        return Ok(none);
    }
    let key = match load_private_key(private_pem, pass) {
        Ok(key) => key,
        Err(e) => {
            return Err(e);
        },
    };
    Ok(open_each(&picked, &key))
}

/// The messages in the dropboxes of `platform` that the private key in
/// `private_pem` opens with the passphrase `pass`.
pub fn get_intended_messages_with_pass(
    view: &FsView,
    platform: Platform,
    private_pem: &str,
    pass: Option<&[u8]>,
) -> (found: Result<Vec<Found>, CryptoError>)
    ensures
        is_scan_result(
            found,
            scan_trials(*view, persistent_path(platform), ram_path(platform)),
            private_pem@,
            pass,
        ),
        !view.has_dir(persistent_path(platform)) && !view.has_dir(ram_path(platform)) ==> (
        found matches Ok(list) && list@.len() == 0),
{
    get_intended_messages_in_with_pass(
        view,
        private_pem,
        pass,
        persistent_dir(platform),
        ram_dir(platform),
    )
}

/// The messages in the dropboxes of `platform` that the private key in
/// `private_pem`, which needs no passphrase, opens.
pub fn get_intended_messages(view: &FsView, platform: Platform, private_pem: &str) -> (found:
    Result<Vec<Found>, CryptoError>)
    ensures
        is_scan_result(
            found,
            scan_trials(*view, persistent_path(platform), ram_path(platform)),
            private_pem@,
            None,
        ),
        !view.has_dir(persistent_path(platform)) && !view.has_dir(ram_path(platform)) ==> (
        found matches Ok(list) && list@.len() == 0),
{
    get_intended_messages_with_pass(view, platform, private_pem, None)
}

} // verus!

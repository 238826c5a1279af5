//! The sync engine: which blobs of the outbox are missing from the dropboxes,
//! which blobs of the dropboxes are missing from the outbox, and the writes
//! that bring the two sides together.
//!
//! A blob is identified by its content digest. Nothing is ever deleted, and a
//! digest that both sides hold causes no write.

use vstd::prelude::*;
use vstd::string::*;
use crate::config::DEFAULT_OUT_MSG;
use crate::errors::StorageError;
use crate::message::hash::{digest_of, sha256_file, Digest};
use crate::storage::fsio::{
    copy_msg,
    is_valid_dir,
    list_files,
    readable,
    BlobWrite,
    Entry,
    FsView,
};
use crate::storage::paths::{persistent_dir, persistent_path, ram_dir, ram_path, Platform};

verus! {

/// How many blobs one sync moved in each direction.
#[derive(Clone, Copy, Debug, PartialEq, Eq, Structural)]
pub struct SyncReport {
    /// Blobs newly copied from the outbox to the dropbox.
    pub copied_to_remote: usize,
    /// Blobs newly copied from the dropboxes to the outbox.
    pub copied_to_local: usize,
}

/// The writes that one sync calls for.
pub struct SyncPlan {
    /// The blobs to write into the dropbox.
    pub to_remote: Vec<BlobWrite>,
    /// The blobs to write into the outbox.
    pub to_local: Vec<BlobWrite>,
}

impl SyncPlan {
    /// The report of a sync that carried out every write of the plan.
    pub fn report(&self) -> (report: SyncReport)
        ensures
            report.copied_to_remote == self.to_remote@.len(),
            report.copied_to_local == self.to_local@.len(),
    {
        SyncReport {
            copied_to_remote: self.to_remote.len(),
            copied_to_local: self.to_local.len(),
        }
    }
}

/// The digests of `files`, in order.
pub open spec fn digests_of(files: Seq<Entry>) -> Seq<Seq<u8>> {
    files.map_values(|e: Entry| digest_of(e))
}

/// The files of all `groups`, group after group.
pub open spec fn merged(groups: Seq<&[Entry]>) -> Seq<Entry> {
    groups.map_values(|g: &[Entry]| g@).flatten()
}

/// Whether the file at position `i` of one side is to be copied to the other
/// side: its digest does not occur there, and it is the last file of its own
/// side with that digest.
pub open spec fn is_pending(own: Seq<Seq<u8>>, other: Seq<Seq<u8>>, i: int) -> bool {
    &&& 0 <= i < own.len()
    &&& !other.contains(own[i])
    &&& forall|j: int| i < j < own.len() ==> own[j] != own[i]
}

/// The positions `0`, `1`, ... below `n`.
pub open spec fn positions(n: nat) -> Seq<int> {
    Seq::new(n, |i: int| i)
}

/// The positions of the files of one side that are to be copied to the other,
/// in rising order. `own` holds the digests of the side, `other` those of the
/// other side.
pub open spec fn pending(own: Seq<Seq<u8>>, other: Seq<Seq<u8>>) -> Seq<int> {
    positions(own.len()).filter(|i: int| is_pending(own, other, i))
}

/// The digests that a sync copies from the side `own` to the side `other`, in
/// the order of the copies.
pub open spec fn copied(own: Seq<Seq<u8>>, other: Seq<Seq<u8>>) -> Seq<Seq<u8>> {
    pending(own, other).map_values(|i: int| own[i])
}

/// Whether `c` is a digit or a lower-case letter of a hexadecimal number.
pub open spec fn is_lower_hex(c: char) -> bool {
    ('0' <= c && c <= '9') || ('a' <= c && c <= 'f')
}

/// Whether `name` has the shape of a hyphenated lower-case UUID.
pub open spec fn is_uuid_text(name: Seq<char>) -> bool {
    &&& name.len() == 36
    &&& forall|i: int|
        0 <= i < 36 ==> if i == 8 || i == 13 || i == 18 || i == 23 {
            name[i] == '-'
        } else {
            is_lower_hex(#[trigger] name[i])
        }
}

/// Whether `path` is `dest` followed by a name in the shape of a UUID.
pub open spec fn is_drop_path(path: Seq<char>, dest: Seq<char>) -> bool {
    &&& path.len() == dest.len() + 36
    &&& path.subrange(0, dest.len() as int) == dest
    &&& is_uuid_text(path.subrange(dest.len() as int, path.len() as int))
}

/// Whether `writes` copies the files of `files` at the positions `picks`, in
/// that order, each to a drop path of its own under `dest`.
pub open spec fn carries(
    writes: Seq<BlobWrite>,
    files: Seq<Entry>,
    picks: Seq<int>,
    dest: Seq<char>,
) -> bool {
    &&& writes.len() == picks.len()
    &&& forall|k: int|
        0 <= k < writes.len() ==> {
            &&& 0 <= picks[k] < files.len()
            &&& files[picks[k]]@.content == Some((#[trigger] writes[k]).content@)
            &&& is_drop_path(writes[k].path@, dest)
        }
}

/// Whether position `i` holds the first file of `files` that could not be
/// read.
pub open spec fn is_first_unreadable(files: Seq<Entry>, i: int) -> bool {
    &&& 0 <= i < files.len()
    &&& !readable(files[i])
    &&& forall|j: int| 0 <= j < i ==> readable(#[trigger] files[j])
}

/// `uuid::Uuid::new_v4`, shown as text: a random version-4 UUID in its
/// hyphenated lower-case form, which is 36 characters, hyphens at the four
/// fixed places and hexadecimal digits elsewhere. Which UUID comes back is
/// not stated. It panics where the system gives no random bytes.
#[verifier::external_body]
fn fresh_name() -> (name: String)
    ensures
        is_uuid_text(name@),
{
    uuid::Uuid::new_v4().to_string()
}

/// A path for a new blob under `dest`: `dest` followed by a fresh random
/// name. The name says nothing of the blob or of where it came from.
pub fn drop_path(dest: &str) -> (path: String)
    ensures
        is_drop_path(path@, dest@),
{
    let name = fresh_name();
    let path = dest.to_owned().concat(name.as_str());
    proof {
        assert(path@.subrange(0, dest@.len() as int) =~= dest@);
        assert(path@.subrange(dest@.len() as int, path@.len() as int) =~= name@);
    }
    path
}

/// Whether two digests are equal.
fn same_digest(a: &Digest, b: &Digest) -> (same: bool)
    ensures
        same == (a@ == b@),
{
    let mut i: usize = 0;
    while i < 32
        invariant
            i <= 32,
            forall|j: int| 0 <= j < i ==> a@[j] == b@[j],
        decreases 32 - i,
    {
        if a[i] != b[i] {
            return false;
        }
        i += 1;
    }
    assert(a@ =~= b@);
    true
}

/// The digests as plain values.
pub open spec fn digest_views(digests: Seq<Digest>) -> Seq<Seq<u8>> {
    digests.map_values(|d: Digest| d@)
}

/// Whether `wanted` occurs in `digests` at position `from` or later.
fn occurs_from(digests: &Vec<Digest>, from: usize, wanted: &Digest) -> (found: bool)
    requires
        from <= digests@.len(),
    ensures
        found == exists|j: int| from <= j < digests@.len() && (#[trigger] digests@[j])@ == wanted@,
{
    let mut j: usize = from;
    while j < digests.len()
        invariant
            from <= j <= digests@.len(),
            forall|k: int| from <= k < j ==> (#[trigger] digests@[k])@ != wanted@,
        decreases digests@.len() - j,
    {
        if same_digest(&digests[j], wanted) {
            return true;
        }
        j += 1;
    }
    false
}

/// The files behind the references, as values.
pub open spec fn files_of(refs: Seq<&Entry>) -> Seq<Entry> {
    refs.map_values(|e: &Entry| *e)
}

/// References to the files of `files`, in order.
fn refs_of<'a>(files: &'a [Entry]) -> (refs: Vec<&'a Entry>)
    ensures
        files_of(refs@) == files@,
{
    let mut refs: Vec<&'a Entry> = Vec::new();
    let mut i: usize = 0;
    while i < files.len()
        invariant
            i <= files@.len(),
            refs@.len() == i,
            forall|j: int| 0 <= j < i ==> *(#[trigger] refs@[j]) == files@[j],
        decreases files@.len() - i,
    {
        refs.push(&files[i]);
        i += 1;
    }
    assert(files_of(refs@) =~= files@);
    refs
}

/// References to the files of all `groups`, group after group.
fn merged_refs_of<'a>(groups: &[&'a [Entry]]) -> (refs: Vec<&'a Entry>)
    ensures
        files_of(refs@) == merged(groups@),
{
    let mut refs: Vec<&'a Entry> = Vec::new();
    let mut g: usize = 0;
    while g < groups.len()
        invariant
            g <= groups@.len(),
            files_of(refs@) == merged(groups@.take(g as int)),
        decreases groups@.len() - g,
    {
        let group: &'a [Entry] = groups[g];
        let ghost before = refs@;
        let mut i: usize = 0;
        while i < group.len()
            invariant
                i <= group@.len(),
                refs@.len() == before.len() + i,
                forall|j: int| 0 <= j < before.len() ==> (#[trigger] refs@[j]) == before[j],
                forall|j: int| 0 <= j < i ==> *(#[trigger] refs@[before.len() + j]) == group@[j],
            decreases group@.len() - i,
        {
            refs.push(&group[i]);
            i += 1;
        }
        proof {
            assert forall|j: int| 0 <= j < refs@.len() implies files_of(refs@)[j] == (files_of(
                before,
            ) + group@)[j] by {
                if j >= before.len() {
                    assert(*refs@[before.len() + (j - before.len())] == group@[j - before.len()]);
                }
            }
            assert(files_of(refs@) =~= files_of(before) + group@);
            let done = groups@.take(g as int).map_values(|s: &[Entry]| s@);
            assert(groups@.take(g + 1).map_values(|s: &[Entry]| s@) =~= done.push(group@));
            done.lemma_flatten_push(group@);
        }
        g += 1;
    }
    assert(groups@.take(g as int) =~= groups@);
    refs
}

/// The digest of each file, in order. Fails at the first file that could not
/// be read.
fn digest_each(files: &Vec<&Entry>) -> (hashed: Result<Vec<Digest>, StorageError>)
    ensures
        match hashed {
            Ok(digests) => {
                &&& forall|i: int| 0 <= i < files@.len() ==> readable(*#[trigger] files@[i])
                &&& digests@.len() == files@.len()
                &&& digest_views(digests@) == digests_of(files_of(files@))
            },
            Err(StorageError::Unreadable(path)) => exists|i: int|
                #![auto]
                is_first_unreadable(files_of(files@), i) && path@ == files@[i].path@,
            Err(_) => false,
        },
{
    let mut digests: Vec<Digest> = Vec::new();
    let mut i: usize = 0;
    while i < files.len()
        invariant
            i <= files@.len(),
            digests@.len() == i,
            forall|j: int| 0 <= j < i ==> readable(*#[trigger] files@[j]),
            forall|j: int| 0 <= j < i ==> (#[trigger] digests@[j])@ == digest_of(*files@[j]),
        decreases files@.len() - i,
    {
        match sha256_file(files[i]) {
            Ok(digest) => {
                digests.push(digest);
            },
            Err(e) => {
                assert(is_first_unreadable(files_of(files@), i as int));
                return Err(e);
            },
        }
        i += 1;
    }
    assert(digest_views(digests@) =~= digests_of(files_of(files@)));
    Ok(digests)
}

/// The writes that copy to `dest` each file of one side whose digest the other
/// side lacks. `own` holds the digests of `files`, `other` those of the other
/// side. Files that could all be read are all copied: there is no failure.
fn plan_copies(files: &Vec<&Entry>, own: &Vec<Digest>, other: &Vec<Digest>, dest: &str) -> (planned:
    Result<Vec<BlobWrite>, StorageError>)
    requires
        own@.len() == files@.len(),
        forall|i: int| 0 <= i < files@.len() ==> readable(*#[trigger] files@[i]),
    ensures
        planned matches Ok(writes) && carries(
            writes@,
            files_of(files@),
            pending(digest_views(own@), digest_views(other@)),
            dest@,
        ),
{
    let ghost mine = digest_views(own@);
    let ghost theirs = digest_views(other@);
    let ghost wanted = |i: int| is_pending(mine, theirs, i);
    let mut writes: Vec<BlobWrite> = Vec::new();
    let mut i: usize = 0;
    while i < files.len()
        invariant
            i <= files@.len(),
            own@.len() == files@.len(),
            mine == digest_views(own@),
            theirs == digest_views(other@),
            wanted == (|i: int| is_pending(mine, theirs, i)),
            forall|j: int| 0 <= j < files@.len() ==> readable(*#[trigger] files@[j]),
            carries(writes@, files_of(files@), positions(i as nat).filter(wanted), dest@),
        decreases files@.len() - i,
    {
        let ghost seen = positions(i as nat);
        proof {
            assert(positions((i + 1) as nat) =~= seen.push(i as int));
            seen.lemma_filter_push(i as int, wanted);
        }
        let absent = !occurs_from(other, 0, &own[i]);
        let last = !occurs_from(own, i + 1, &own[i]);
        proof {
            if absent {
                assert forall|x: int| 0 <= x < theirs.len() implies theirs[x] != mine[i as int] by {
                    assert(other@[x]@ != own@[i as int]@);
                }
            } else {
                let x = choose|x: int| 0 <= x < other@.len() && (#[trigger] other@[x])@ == own@[i as int]@;
                assert(theirs[x] == mine[i as int]);
            }
            if last {
                assert forall|x: int| i < x < mine.len() implies mine[x] != mine[i as int] by {
                    assert(own@[x]@ != own@[i as int]@);
                }
            } else {
                let x = choose|x: int| i + 1 <= x < own@.len() && (#[trigger] own@[x])@ == own@[i as int]@;
                assert(mine[x] == mine[i as int]);
            }
            assert(wanted(i as int) == (absent && last));
        }
        if absent && last {
            let path = drop_path(dest);
            match copy_msg(files[i], path.as_str()) {
                Ok(write) => {
                    writes.push(write);
                },
                Err(e) => {
                    return Err(e);
                },
            }
        }
        i += 1;
    }
    Ok(writes)
}

/// Plans one sync between the outbox files `local_outbox` and the dropbox
/// files `remote_dirs`, one group for each dropbox.
///
/// Every file is digested first. A file of the outbox whose digest no dropbox
/// file has is to be written to `remote_dest`, and a dropbox file whose digest
/// no outbox file has is to be written to `local_dest`, each under a fresh
/// random name; where one side holds a digest several times, the last file
/// with it is the one that is copied, once. The writes come in the order of
/// the files that they copy.
///
/// Fails with the path of the first file, outbox first, that could not be
/// read; nothing is planned then.
pub fn bidirectional_sync(
    local_outbox: &[Entry],
    remote_dirs: &[&[Entry]],
    local_dest: &str,
    remote_dest: &str,
) -> (planned: Result<SyncPlan, StorageError>)
    ensures
        match planned {
            Ok(plan) => {
                let own = local_outbox@;
                let other = merged(remote_dirs@);
                &&& forall|i: int| 0 <= i < own.len() ==> readable(#[trigger] own[i])
                &&& forall|i: int| 0 <= i < other.len() ==> readable(#[trigger] other[i])
                &&& carries(
                    plan.to_remote@,
                    own,
                    pending(digests_of(own), digests_of(other)),
                    remote_dest@,
                )
                &&& carries(
                    plan.to_local@,
                    other,
                    pending(digests_of(other), digests_of(own)),
                    local_dest@,
                )
            },
            Err(StorageError::Unreadable(path)) => exists|i: int|
                #![auto]
                is_first_unreadable(local_outbox@ + merged(remote_dirs@), i) && path@ == (
                local_outbox@ + merged(remote_dirs@))[i].path@,
            Err(_) => false,
        },
{
    let locals = refs_of(local_outbox);
    let remotes = merged_refs_of(remote_dirs);
    let ghost all = local_outbox@ + merged(remote_dirs@);
    let own = match digest_each(&locals) {
        Ok(digests) => digests,
        Err(e) => {
            proof {
                let i = choose|i: int|
                    #![auto]
                    is_first_unreadable(files_of(locals@), i) && e.path() == locals@[i].path@;
                assert(is_first_unreadable(all, i));
            }
            return Err(e);
        },
    };
    let other = match digest_each(&remotes) {
        Ok(digests) => digests,
        Err(e) => {
            proof {
                let i = choose|i: int|
                    #![auto]
                    is_first_unreadable(files_of(remotes@), i) && e.path() == remotes@[i].path@;
                assert(is_first_unreadable(all, local_outbox@.len() + i));
            }
            return Err(e);
        },
    };
    let to_remote = match plan_copies(&locals, &own, &other, remote_dest) {
        Ok(writes) => writes,
        Err(e) => {
            return Err(e);
        },
    };
    let to_local = match plan_copies(&remotes, &other, &own, local_dest) {
        Ok(writes) => writes,
        Err(e) => {
            return Err(e);
        },
    };
    Ok(SyncPlan { to_remote, to_local })
}

/// The files of the dropboxes of `platform`, those of the persistent one
/// first. A dropbox that does not exist adds nothing.
pub open spec fn dropbox_files(view: FsView, platform: Platform) -> Seq<Entry> {
    view.listing(persistent_path(platform)) + view.listing(ram_path(platform))
}

/// The entries of the directory at `path`, or none where `view` holds no such
/// directory.
fn listing_or_nothing<'a>(view: &'a FsView, path: &str, nothing: &'a Vec<Entry>) -> (entries: &'a [
    Entry
])
    requires
        nothing@.len() == 0,
    ensures
        entries@ == view.listing(path@),
{
    match list_files(view, path) {
        Ok(entries) => entries.as_slice(),
        Err(_) => {
            assert(nothing@ =~= view.listing(path@));
            nothing.as_slice()
        },
    }
}

/// Plans one sync between the outbox and the two dropboxes of `platform`, as
/// `view` holds them.
///
/// The outbox is the directory at [`DEFAULT_OUT_MSG`]; it must exist. A
/// dropbox that does not exist is no error: it holds nothing, and nothing is
/// copied into it. Blobs that the dropboxes lack go to the persistent one.
pub fn auto_sync(view: &FsView, platform: Platform) -> (planned: Result<SyncPlan, StorageError>)
    ensures
        match planned {
            Ok(plan) => {
                let own = view.listing(DEFAULT_OUT_MSG@);
                let other = dropbox_files(*view, platform);
                &&& view.has_dir(DEFAULT_OUT_MSG@)
                &&& forall|i: int| 0 <= i < own.len() ==> readable(#[trigger] own[i])
                &&& forall|i: int| 0 <= i < other.len() ==> readable(#[trigger] other[i])
                &&& if view.has_dir(persistent_path(platform)) {
                    carries(
                        plan.to_remote@,
                        own,
                        pending(digests_of(own), digests_of(other)),
                        persistent_path(platform),
                    )
                } else {
                    plan.to_remote@.len() == 0
                }
                &&& carries(
                    plan.to_local@,
                    other,
                    pending(digests_of(other), digests_of(own)),
                    DEFAULT_OUT_MSG@,
                )
            },
            Err(StorageError::MissingDirectory(path)) => !view.has_dir(DEFAULT_OUT_MSG@) && path@
                == DEFAULT_OUT_MSG@,
            Err(StorageError::Unreadable(path)) => view.has_dir(DEFAULT_OUT_MSG@) && exists|i: int|
                #![auto]
                is_first_unreadable(
                    view.listing(DEFAULT_OUT_MSG@) + dropbox_files(*view, platform),
                    i,
                ) && path@ == (view.listing(DEFAULT_OUT_MSG@) + dropbox_files(
                    *view,
                    platform,
                ))[i].path@,
        },
        !view.has_dir(persistent_path(platform)) && !view.has_dir(ram_path(platform)) ==> (
        planned matches Ok(plan) ==> plan.to_remote@.len() == 0 && plan.to_local@.len() == 0),
{
    let local = match list_files(view, DEFAULT_OUT_MSG) {
        Ok(entries) => entries,
        Err(e) => {
            return Err(e);
        },
    };
    let nothing: Vec<Entry> = Vec::new();
    let persistent = persistent_dir(platform);
    let remote_p = listing_or_nothing(view, persistent, &nothing);
    let remote_r = listing_or_nothing(view, ram_dir(platform), &nothing);
    let mut groups: Vec<&[Entry]> = Vec::new();
    groups.push(remote_p);
    groups.push(remote_r);
    proof {
        let lists = groups@.map_values(|g: &[Entry]| g@);
        assert(lists =~= Seq::<Seq<Entry>>::empty().push(remote_p@).push(remote_r@));
        Seq::<Seq<Entry>>::empty().lemma_flatten_push(remote_p@);
        Seq::<Seq<Entry>>::empty().push(remote_p@).lemma_flatten_push(remote_r@);
        assert(Seq::<Seq<Entry>>::empty().flatten() =~= Seq::<Entry>::empty());
        assert(merged(groups@) =~= dropbox_files(*view, platform));
    }
    let mut plan = match bidirectional_sync(
        local.as_slice(),
        groups.as_slice(),
        DEFAULT_OUT_MSG,
        persistent,
    ) {
        Ok(plan) => plan,
        Err(e) => {
            return Err(e);
        },
    };
    if !is_valid_dir(view, persistent) {
        plan.to_remote = Vec::new();
    }
    proof {
        if !view.has_dir(persistent_path(platform)) && !view.has_dir(ram_path(platform)) {
            let own = digests_of(view.listing(DEFAULT_OUT_MSG@));
            let other = digests_of(dropbox_files(*view, platform));
            assert(other.len() == 0);
            positions(other.len()).lemma_filter_len(|i: int| is_pending(other, own, i));
        }
    }
    Ok(plan)
}

} // verus!

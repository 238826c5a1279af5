//! The observed state of directories, and the orders to write blobs into them.
//!
//! An [`FsView`] holds what a caller found on disk: for each directory that
//! exists, its entries, and for each entry whether it is a regular file and
//! what reading it gave. Everything the library decides about files, it
//! decides from such a view.

use vstd::prelude::*;
use vstd::string::*;
use vstd::utf8::*;
use crate::errors::StorageError;

verus! {

/// One entry of an observed directory.
pub struct Entry {
    /// The entry's full path.
    pub path: String,
    /// Whether the entry is a regular file.
    pub is_file: bool,
    /// The bytes that reading the entry gave, or `None` where it could not be
    /// read.
    pub content: Option<Vec<u8>>,
}

/// An entry as plain values.
pub struct EntryView {
    /// The text of the path.
    pub path: Seq<char>,
    /// Whether the entry is a regular file.
    pub is_file: bool,
    /// The bytes that reading the entry gave, if it could be read.
    pub content: Option<Seq<u8>>,
}

impl View for Entry {
    type V = EntryView;

    open spec fn view(&self) -> EntryView {
        EntryView {
            path: self.path@,
            is_file: self.is_file,
            content: match self.content {
                Some(bytes) => Some(bytes@),
                None => None,
            },
        }
    }
}

/// A directory that was found to exist, with its entries in the order in
/// which they were listed.
pub struct Directory {
    /// The directory's path, as the caller names it.
    pub path: String,
    /// The entries found in it.
    pub entries: Vec<Entry>,
}

/// The directories that were found to exist. A path that no directory here
/// carries is taken not to be a directory.
pub struct FsView {
    /// The directories, each with the path under which callers ask for it.
    /// Where two carry one path, the first counts.
    pub dirs: Vec<Directory>,
}

/// A blob to be written: the Blob Writer's input.
pub struct BlobWrite {
    /// Where the blob goes.
    pub path: String,
    /// The blob's bytes.
    pub content: Vec<u8>,
}

impl FsView {
    /// Whether the view holds a directory at `path`.
    pub open spec fn has_dir(self, path: Seq<char>) -> bool {
        exists|i: int| 0 <= i < self.dirs@.len() && (#[trigger] self.dirs@[i]).path@ == path
    }

    /// The position of the first directory at `path`.
    pub open spec fn dir_index(self, path: Seq<char>) -> int
        recommends
            self.has_dir(path),
    {
        choose|i: int|
            0 <= i < self.dirs@.len() && (#[trigger] self.dirs@[i]).path@ == path && forall|j: int|
                0 <= j < i ==> (#[trigger] self.dirs@[j]).path@ != path
    }

    /// The entries of the directory at `path`; none where there is no such
    /// directory.
    pub open spec fn listing(self, path: Seq<char>) -> Seq<Entry> {
        if self.has_dir(path) {
            self.dirs@[self.dir_index(path)].entries@
        } else {
            Seq::empty()
        }
    }

    /// A view in which no directory exists.
    pub fn new() -> (view: FsView)
        ensures
            view.dirs@.len() == 0,
            forall|path: Seq<char>| !view.has_dir(path),
    {
        FsView { dirs: Vec::new() }
    }

    /// The first directory at `path`, if there is one.
    pub fn find_dir(&self, path: &str) -> (found: Option<usize>)
        ensures
            match found {
                Some(i) => self.has_dir(path@) && i == self.dir_index(path@) && i
                    < self.dirs@.len(),
                None => !self.has_dir(path@),
            },
    {
        let mut i: usize = 0;
        while i < self.dirs.len()
            invariant
                i <= self.dirs@.len(),
                forall|j: int| 0 <= j < i ==> (#[trigger] self.dirs@[j]).path@ != path@,
            decreases self.dirs@.len() - i,
        {
            if same_text(self.dirs[i].path.as_str(), path) {
                proof {
                    let k = self.dir_index(path@);
                    assert(0 <= k < self.dirs@.len() && self.dirs@[k].path@ == path@ && forall|
                        j: int,
                    | 0 <= j < k ==> (#[trigger] self.dirs@[j]).path@ != path@);
                    assert(k == i);
                }
                return Some(i);
            }
            i += 1;
        }
        None
    }
}

/// Whether two texts are the same, character for character.
pub fn same_text(a: &str, b: &str) -> (same: bool)
    ensures
        same == (a@ == b@),
{
    let left = a.as_bytes();
    let right = b.as_bytes();
    if left.len() != right.len() {
        return false;
    }
    let mut i: usize = 0;
    while i < left.len()
        invariant
            i <= left@.len(),
            left@.len() == right@.len(),
            left@ == encode_utf8(a@),
            right@ == encode_utf8(b@),
            forall|j: int| 0 <= j < i ==> left@[j] == right@[j],
        decreases left@.len() - i,
    {
        if left[i] != right[i] {
            return false;
        }
        i += 1;
    }
    proof {
        assert(left@ =~= right@);
        encode_utf8_decode_utf8(a@);
        encode_utf8_decode_utf8(b@);
    }
    true
}

/// Whether `path` is a directory in `view`.
pub fn is_valid_dir(view: &FsView, path: &str) -> (valid: bool)
    ensures
        valid == view.has_dir(path@),
{
    view.find_dir(path).is_some()
}

/// The entries of the directory at `directory_path`, in listing order.
/// Fails where `view` holds no such directory.
pub fn list_files<'a>(view: &'a FsView, directory_path: &str) -> (listed: Result<
    &'a Vec<Entry>,
    StorageError,
>)
    ensures
        match listed {
            Ok(entries) => view.has_dir(directory_path@) && entries@ == view.listing(
                directory_path@,
            ),
            Err(StorageError::MissingDirectory(p)) => !view.has_dir(directory_path@) && p@
                == directory_path@,
            Err(_) => false,
        },
{
    match view.find_dir(directory_path) {
        Some(i) => Ok(&view.dirs[i].entries),
        None => Err(StorageError::MissingDirectory(directory_path.to_owned())),
    }
}

/// Whether reading `entry` gave its bytes.
pub open spec fn readable(entry: Entry) -> bool {
    entry.content is Some
}

/// The write that copies the blob at `source` to `destination`. Fails where
/// the source could not be read.
pub fn copy_msg(source: &Entry, destination: &str) -> (copy: Result<BlobWrite, StorageError>)
    ensures
        match copy {
            Ok(write) => write.path@ == destination@ && source@.content == Some(write.content@),
            Err(StorageError::Unreadable(path)) => !readable(*source) && path@ == source.path@,
            Err(_) => false,
        },
{
    match &source.content {
        Some(bytes) => {
            let content = bytes.clone();
            assert(content@ =~= bytes@);
            Ok(BlobWrite { path: destination.to_owned(), content })
        },
        None => Err(StorageError::Unreadable(source.path.clone())),
    }
}

/// The permission bits of a stored blob: its owner may read and write it,
/// nobody else may do anything.
pub const OWNER_ONLY_MODE: u32 = 0o600;

/// The time, in seconds since the Unix epoch, that a stored blob shows as its
/// times of modification and access.
pub const NEUTRAL_TIME: i64 = 0;

/// The steps of writing one blob, in the order in which they are taken.
#[derive(Clone, Copy, Debug, PartialEq, Eq, Structural)]
pub enum WriteStep {
    /// Make every directory above the blob.
    CreateParents,
    /// Create the file, or empty it.
    OpenTruncate,
    /// Set the permissions to [`OWNER_ONLY_MODE`], before any content is
    /// there to be read.
    RestrictPermissions,
    /// Write the whole buffer.
    WriteContent,
    /// Flush, and wait until the blob has reached the disk.
    SyncToDisk,
    /// Set the permissions to [`OWNER_ONLY_MODE`] once more.
    ReassertPermissions,
    /// Set the times of modification and access to [`NEUTRAL_TIME`].
    ResetTimes,
}

/// Where a write stands after a step.
#[derive(Clone, Copy, Debug, PartialEq, Eq, Structural)]
pub enum Progress {
    /// Take this step next.
    Continue(WriteStep),
    /// The blob is written.
    Done,
    /// The write has failed at this step, and the failure is to be reported.
    Failed(WriteStep),
}

impl WriteStep {
    /// The place of the step in the order of the steps.
    pub open spec fn rank(self) -> nat {
        match self {
            WriteStep::CreateParents => 0,
            WriteStep::OpenTruncate => 1,
            WriteStep::RestrictPermissions => 2,
            WriteStep::WriteContent => 3,
            WriteStep::SyncToDisk => 4,
            WriteStep::ReassertPermissions => 5,
            WriteStep::ResetTimes => 6,
        }
    }

    /// Whether a failure of the step fails the write. The last two steps only
    /// hide when a blob arrived; a blob is written without them.
    pub open spec fn fatal(self) -> bool {
        self.rank() <= 4
    }

    /// The step that follows this one, if any.
    pub open spec fn successor(self) -> Option<WriteStep> {
        match self {
            WriteStep::CreateParents => Some(WriteStep::OpenTruncate),
            WriteStep::OpenTruncate => Some(WriteStep::RestrictPermissions),
            WriteStep::RestrictPermissions => Some(WriteStep::WriteContent),
            WriteStep::WriteContent => Some(WriteStep::SyncToDisk),
            WriteStep::SyncToDisk => Some(WriteStep::ReassertPermissions),
            WriteStep::ReassertPermissions => Some(WriteStep::ResetTimes),
            WriteStep::ResetTimes => None,
        }
    }

    /// Where the write stands once this step has been tried.
    pub open spec fn outcome(self, succeeded: bool) -> Progress {
        if !succeeded && self.fatal() {
            Progress::Failed(self)
        } else {
            match self.successor() {
                Some(next) => Progress::Continue(next),
                None => Progress::Done,
            }
        }
    }

    /// The step that a write starts with.
    pub fn first() -> (step: WriteStep)
        ensures
            step == WriteStep::CreateParents,
    {
        WriteStep::CreateParents
    }

    /// Whether a failure of the step fails the write.
    pub fn is_fatal(self) -> (fatal: bool)
        ensures
            fatal == self.fatal(),
    {
        match self {
            WriteStep::ReassertPermissions | WriteStep::ResetTimes => false,
            _ => true,
        }
    }

    /// What to do once this step has been tried and has succeeded or not.
    pub fn advance(self, succeeded: bool) -> (progress: Progress)
        ensures
            progress == self.outcome(succeeded),
    {
        if !succeeded && self.is_fatal() {
            return Progress::Failed(self);
        }
        match self {
            WriteStep::CreateParents => Progress::Continue(WriteStep::OpenTruncate),
            WriteStep::OpenTruncate => Progress::Continue(WriteStep::RestrictPermissions),
            WriteStep::RestrictPermissions => Progress::Continue(WriteStep::WriteContent),
            WriteStep::WriteContent => Progress::Continue(WriteStep::SyncToDisk),
            WriteStep::SyncToDisk => Progress::Continue(WriteStep::ReassertPermissions),
            WriteStep::ReassertPermissions => Progress::Continue(WriteStep::ResetTimes),
            WriteStep::ResetTimes => Progress::Done,
        }
    }
}

/// How a write ends that starts at `from`, where `works` says of each step
/// whether it succeeds when it is tried.
pub open spec fn ending(from: WriteStep, works: spec_fn(WriteStep) -> bool) -> Progress
    decreases 7 - from.rank(),
{
    match from.outcome(works(from)) {
        Progress::Continue(next) => ending(next, works),
        end => end,
    }
}

/// The rule of the Blob Writer: a write succeeds exactly when every fatal
/// step succeeds, and it fails at the first fatal step that does not. So a
/// blob whose write succeeded had its permissions restricted before the first
/// byte of it was written, and has reached the disk. That its times were
/// reset is not promised: that step may fail and the write still succeed.
pub proof fn lemma_write_succeeds_iff_fatal_steps_do(works: spec_fn(WriteStep) -> bool)
    ensures
        ending(WriteStep::CreateParents, works) == Progress::Done <==> (forall|step: WriteStep|
            step.fatal() ==> works(step)),
        forall|step: WriteStep|
            ending(WriteStep::CreateParents, works) == Progress::Failed(step) <==> {
                &&& step.fatal()
                &&& !works(step)
                &&& forall|earlier: WriteStep|
                    earlier.rank() < step.rank() ==> #[trigger] works(earlier)
            },
        !(ending(WriteStep::CreateParents, works) matches Progress::Continue(_)),
        WriteStep::RestrictPermissions.fatal(),
        WriteStep::RestrictPermissions.rank() < WriteStep::WriteContent.rank(),
{
    reveal_with_fuel(ending, 8);
    assert forall|step: WriteStep|
        ending(WriteStep::CreateParents, works) == Progress::Failed(step) implies forall|
        earlier: WriteStep,
    | earlier.rank() < step.rank() ==> #[trigger] works(earlier) by {
        assert forall|earlier: WriteStep| earlier.rank() < step.rank() implies #[trigger] works(
            earlier,
        ) by {
            lemma_steps(earlier);
        }
    }
    assert forall|step: WriteStep|
        {
            &&& step.fatal()
            &&& !works(step)
            &&& forall|earlier: WriteStep|
                earlier.rank() < step.rank() ==> #[trigger] works(earlier)
        } implies ending(WriteStep::CreateParents, works) == Progress::Failed(step) by {
        lemma_steps(step);
        assert(WriteStep::CreateParents.rank() == 0);
        assert(WriteStep::OpenTruncate.rank() == 1);
        assert(WriteStep::RestrictPermissions.rank() == 2);
        assert(WriteStep::WriteContent.rank() == 3);
    }
    if ending(WriteStep::CreateParents, works) == Progress::Done {
        assert forall|step: WriteStep| step.fatal() implies works(step) by {
            lemma_steps(step);
        }
    }
}

/// There are seven steps.
proof fn lemma_steps(step: WriteStep)
    ensures
        step == WriteStep::CreateParents || step == WriteStep::OpenTruncate || step
            == WriteStep::RestrictPermissions || step == WriteStep::WriteContent || step
            == WriteStep::SyncToDisk || step == WriteStep::ReassertPermissions || step
            == WriteStep::ResetTimes,
{
}

} // verus!

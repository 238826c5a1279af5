//! Content digests: the identity of a blob for deduplication.

use vstd::prelude::*;
use vstd::slice::slice_subrange;
use crate::errors::StorageError;
use crate::storage::fsio::{readable, Entry};

verus! {

/// A content digest: 256 bits.
pub type Digest = [u8; 32];

/// The number of bytes handed to the hasher at a time.
pub const CHUNK_LEN: usize = 4096;

/// `openssl::sha::Sha256`: a hasher that is fed bytes piece by piece.
/// Opaque, but for the bytes it has been fed.
#[verifier::external_type_specification]
#[verifier::external_body]
pub struct ExSha256(openssl::sha::Sha256);

/// The SHA-256 digest of `data`, as `openssl::sha::Sha256::finish` gives it
/// for a hasher that was fed `data`.
pub uninterp spec fn sha256_digest(data: Seq<u8>) -> Seq<u8>;

/// The bytes that `hasher` has been fed since it was made, in order.
pub uninterp spec fn absorbed(hasher: openssl::sha::Sha256) -> Seq<u8>;

/// `openssl::sha::Sha256::new`: a hasher that has been fed nothing.
pub assume_specification[ openssl::sha::Sha256::new ]() -> (hasher: openssl::sha::Sha256)
    ensures
        absorbed(hasher) == Seq::<u8>::empty(),
;

/// `openssl::sha::Sha256::update`: feeds `buf` to the hasher, after what it
/// was fed before.
pub assume_specification[ openssl::sha::Sha256::update ](
    hasher: &mut openssl::sha::Sha256,
    buf: &[u8],
)
    ensures
        absorbed(*final(hasher)) == absorbed(*old(hasher)) + buf@,
;

/// `openssl::sha::Sha256::finish`: the SHA-256 digest of everything the hasher
/// was fed.
pub assume_specification[ openssl::sha::Sha256::finish ](hasher: openssl::sha::Sha256) -> (digest:
    [u8; 32])
    ensures
        digest@ == sha256_digest(absorbed(hasher)),
;

/// The SHA-256 digest of `content`, computed by feeding it to the hasher in
/// chunks of at most [`CHUNK_LEN`] bytes.
pub fn sha256_bytes(content: &[u8]) -> (digest: [u8; 32])
    ensures
        digest@ == sha256_digest(content@),
{
    let mut hasher = openssl::sha::Sha256::new();
    let mut done: usize = 0;
    while done < content.len()
        invariant
            done <= content.len(),
            absorbed(hasher) == content@.subrange(0, done as int),
        decreases content.len() - done,
    {
        let end: usize = if content.len() - done > CHUNK_LEN {
            done + CHUNK_LEN
        } else {
            content.len()
        };
        let chunk = slice_subrange(content, done, end);
        hasher.update(chunk);
        assert(content@.subrange(0, done as int) + content@.subrange(done as int, end as int)
            == content@.subrange(0, end as int));
        done = end;
    }
    assert(content@.subrange(0, done as int) == content@);
    hasher.finish()
}

/// The content digest of a readable entry.
pub open spec fn digest_of(entry: Entry) -> Seq<u8>
    recommends
        readable(entry),
{
    sha256_digest(entry.content->Some_0@)
}

/// The content digest of the file at `entry`. Fails where the entry could not
/// be read.
pub fn sha256_file(entry: &Entry) -> (hashed: Result<Digest, StorageError>)
    ensures
        match hashed {
            Ok(digest) => readable(*entry) && digest@ == digest_of(*entry),
            Err(StorageError::Unreadable(path)) => !readable(*entry) && path@ == entry.path@,
            Err(_) => false,
        },
{
    match &entry.content {
        Some(bytes) => Ok(sha256_bytes(bytes.as_slice())),
        None => Err(StorageError::Unreadable(entry.path.clone())),
    }
}

} // verus!

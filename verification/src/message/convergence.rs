//! What the sync engine guarantees: which blobs a sync copies, that content
//! present on both sides is never copied, and that a sync leaves nothing for
//! the next one to do.

use vstd::prelude::*;
use crate::message::hash::digest_of;
use crate::message::sync::{carries, copied, digests_of, is_pending, pending, positions};
use crate::storage::fsio::{readable, BlobWrite, Entry};

verus! {

/// The positions that a filter keeps of `positions(n)` are below `n` and rise.
proof fn lemma_kept_positions_rise(n: nat, keep: spec_fn(int) -> bool)
    ensures
        forall|k: int|
            0 <= k < positions(n).filter(keep).len() ==> 0 <= #[trigger] positions(n).filter(
                keep,
            )[k] < n,
        forall|k: int, l: int|
            0 <= k < l < positions(n).filter(keep).len() ==> positions(n).filter(keep)[k]
                < positions(n).filter(keep)[l],
    decreases n,
{
    if n == 0 {
        positions(n).lemma_filter_len(keep);
    } else {
        let shorter = positions((n - 1) as nat);
        lemma_kept_positions_rise((n - 1) as nat, keep);
        assert(positions(n) =~= shorter.push(n - 1));
        shorter.lemma_filter_push(n - 1, keep);
    }
}

/// The last position at which `d` occurs in `digests`.
proof fn lemma_last_occurrence(digests: Seq<Seq<u8>>, d: Seq<u8>) -> (i: int)
    requires
        digests.contains(d),
    ensures
        0 <= i < digests.len(),
        digests[i] == d,
        forall|j: int| i < j < digests.len() ==> digests[j] != d,
    decreases digests.len(),
{
    if digests.last() == d {
        digests.len() - 1
    } else {
        let shorter = digests.drop_last();
        let at = choose|at: int| 0 <= at < digests.len() && digests[at] == d;
        assert(shorter[at] == d);
        let i = lemma_last_occurrence(shorter, d);
        assert forall|j: int| i < j < digests.len() implies digests[j] != d by {
            if j < shorter.len() {
                assert(shorter[j] != d);
            }
        }
        i
    }
}

/// The pending positions are exactly the positions that satisfy
/// [`is_pending`], each once, in rising order.
pub proof fn lemma_pending_exact(own: Seq<Seq<u8>>, other: Seq<Seq<u8>>)
    ensures
        forall|k: int|
            0 <= k < pending(own, other).len() ==> is_pending(
                own,
                other,
                #[trigger] pending(own, other)[k],
            ),
        forall|i: int| is_pending(own, other, i) ==> pending(own, other).contains(i),
        forall|k: int, l: int|
            0 <= k < l < pending(own, other).len() ==> pending(own, other)[k] < pending(
                own,
                other,
            )[l],
{
    let all = positions(own.len());
    let keep = |i: int| is_pending(own, other, i);
    assert forall|k: int| 0 <= k < pending(own, other).len() implies is_pending(
        own,
        other,
        #[trigger] pending(own, other)[k],
    ) by {
        all.lemma_filter_pred(keep, k);
    }
    assert forall|i: int| is_pending(own, other, i) implies pending(own, other).contains(i) by {
        assert(all[i] == i);
        all.lemma_filter_contains(keep, i);
    }
    lemma_kept_positions_rise(own.len(), keep);
}

/// A sync copies from one side exactly the digests that the side holds and
/// the other lacks, each once.
pub proof fn lemma_copied_exact(own: Seq<Seq<u8>>, other: Seq<Seq<u8>>)
    ensures
        forall|d: Seq<u8>| #[trigger]
            copied(own, other).contains(d) <==> own.contains(d) && !other.contains(d),
        copied(own, other).no_duplicates(),
        copied(own, other).len() == pending(own, other).len(),
{
    let picks = pending(own, other);
    let moved = copied(own, other);
    lemma_pending_exact(own, other);
    assert forall|d: Seq<u8>| #[trigger] moved.contains(d) implies own.contains(d)
        && !other.contains(d) by {
        let k = choose|k: int| 0 <= k < moved.len() && moved[k] == d;
        assert(is_pending(own, other, picks[k]));
    }
    assert forall|d: Seq<u8>| own.contains(d) && !other.contains(d) implies #[trigger]
        moved.contains(d) by {
        let i = lemma_last_occurrence(own, d);
        assert(is_pending(own, other, i));
        let k = choose|k: int| 0 <= k < picks.len() && picks[k] == i;
        assert(moved[k] == d);
    }
    assert forall|k: int, l: int| 0 <= k < moved.len() && 0 <= l < moved.len() && k != l implies
        moved[k] != moved[l] by {
        assert(is_pending(own, other, picks[k]));
        assert(is_pending(own, other, picks[l]));
        if k < l {
            assert(picks[k] < picks[l]);
        } else {
            assert(picks[l] < picks[k]);
        }
    }
}

/// The number of blobs that a sync copies from one side is the number of
/// distinct digests that the side holds and the other lacks.
pub proof fn lemma_pending_counts_distinct(own: Seq<Seq<u8>>, other: Seq<Seq<u8>>)
    ensures
        pending(own, other).len() == own.to_set().difference(other.to_set()).len(),
{
    let moved = copied(own, other);
    lemma_copied_exact(own, other);
    assert(moved.to_set() =~= own.to_set().difference(other.to_set()));
    moved.unique_seq_to_set();
}

/// A sync copies nothing from a side exactly when the other side holds every
/// digest of it.
pub proof fn lemma_nothing_pending_iff_covered(own: Seq<Seq<u8>>, other: Seq<Seq<u8>>)
    ensures
        pending(own, other).len() == 0 <==> forall|i: int|
            0 <= i < own.len() ==> other.contains(#[trigger] own[i]),
{
    let moved = copied(own, other);
    lemma_copied_exact(own, other);
    if pending(own, other).len() == 0 {
        assert forall|i: int| 0 <= i < own.len() implies other.contains(#[trigger] own[i]) by {
            if !other.contains(own[i]) {
                assert(own.contains(own[i]));
                assert(moved.contains(own[i]));
            }
        }
    } else {
        assert(moved.contains(moved[0]));
        let i = choose|i: int| 0 <= i < own.len() && own[i] == moved[0];
        assert(!other.contains(own[i]));
    }
}

/// Dedup by content: a file whose bytes some file of the other side also has
/// is not copied, whatever the two files are called and wherever they lie.
pub proof fn lemma_shared_content_is_not_copied(own: Seq<Entry>, other: Seq<Entry>, i: int, j: int)
    requires
        0 <= i < own.len(),
        0 <= j < other.len(),
        readable(own[i]),
        own[i]@.content == other[j]@.content,
    ensures
        !pending(digests_of(own), digests_of(other)).contains(i),
{
    let mine = digests_of(own);
    let theirs = digests_of(other);
    lemma_pending_exact(mine, theirs);
    if pending(mine, theirs).contains(i) {
        let k = choose|k: int| 0 <= k < pending(mine, theirs).len() && pending(mine, theirs)[k] == i;
        assert(is_pending(mine, theirs, pending(mine, theirs)[k]));
        assert(theirs[j] == mine[i]);
    }
}

/// Dedup by content, for whole sides: where every file of each side has its
/// bytes in some file of the other side, a sync copies nothing either way.
pub proof fn lemma_same_contents_need_no_copy(own: Seq<Entry>, other: Seq<Entry>)
    requires
        forall|i: int| 0 <= i < own.len() ==> readable(#[trigger] own[i]),
        forall|j: int| 0 <= j < other.len() ==> readable(#[trigger] other[j]),
        forall|i: int|
            0 <= i < own.len() ==> exists|j: int|
                0 <= j < other.len() && (#[trigger] own[i])@.content == (#[trigger] other[j])@.content,
        forall|j: int|
            0 <= j < other.len() ==> exists|i: int|
                0 <= i < own.len() && (#[trigger] own[i])@.content == (#[trigger] other[j])@.content,
    ensures
        pending(digests_of(own), digests_of(other)).len() == 0,
        pending(digests_of(other), digests_of(own)).len() == 0,
{
    let mine = digests_of(own);
    let theirs = digests_of(other);
    lemma_nothing_pending_iff_covered(mine, theirs);
    lemma_nothing_pending_iff_covered(theirs, mine);
    assert forall|i: int| 0 <= i < mine.len() implies theirs.contains(#[trigger] mine[i]) by {
        let j = choose|j: int| 0 <= j < other.len() && own[i]@.content == (#[trigger] other[j])@.content;
        assert(theirs[j] == mine[i]);
    }
    assert forall|j: int| 0 <= j < theirs.len() implies mine.contains(#[trigger] theirs[j]) by {
        let i = choose|i: int| 0 <= i < own.len() && (#[trigger] own[i])@.content == other[j]@.content;
        assert(mine[i] == theirs[j]);
    }
}

/// Whether a side that held the digests `before` holds exactly the digests
/// `after` once a sync has copied into it from a side that held `source`.
pub open spec fn holds_after(before: Seq<Seq<u8>>, source: Seq<Seq<u8>>, after: Seq<Seq<u8>>) -> bool {
    forall|d: Seq<u8>| #[trigger]
        after.contains(d) <==> before.contains(d) || copied(source, before).contains(d)
}

/// A sync moves something exactly when the two sides do not hold the same
/// digests.
pub proof fn lemma_sync_moves_iff_divergent(own: Seq<Seq<u8>>, other: Seq<Seq<u8>>)
    ensures
        (pending(own, other).len() == 0 && pending(other, own).len() == 0) <==> (forall|d: Seq<u8>|
            own.contains(d) <==> other.contains(d)),
{
    lemma_nothing_pending_iff_covered(own, other);
    lemma_nothing_pending_iff_covered(other, own);
    if pending(own, other).len() == 0 && pending(other, own).len() == 0 {
        assert forall|d: Seq<u8>| own.contains(d) <==> other.contains(d) by {
            if own.contains(d) {
                let i = choose|i: int| 0 <= i < own.len() && own[i] == d;
                assert(other.contains(own[i]));
            }
            if other.contains(d) {
                let j = choose|j: int| 0 <= j < other.len() && other[j] == d;
                assert(own.contains(other[j]));
            }
        }
    }
    if forall|d: Seq<u8>| own.contains(d) <==> other.contains(d) {
        assert forall|i: int| 0 <= i < own.len() implies other.contains(#[trigger] own[i]) by {
            assert(own.contains(own[i]));
        }
        assert forall|j: int| 0 <= j < other.len() implies own.contains(#[trigger] other[j]) by {
            assert(other.contains(other[j]));
        }
    }
}

/// Sync idempotence: once the writes of a sync have been carried out, the
/// next sync copies nothing in either direction.
///
/// `own` and `other` are the digests of the two sides before the first sync,
/// `own_after` and `other_after` those found afterwards, in any order and
/// under any names.
pub proof fn lemma_second_sync_copies_nothing(
    own: Seq<Seq<u8>>,
    other: Seq<Seq<u8>>,
    own_after: Seq<Seq<u8>>,
    other_after: Seq<Seq<u8>>,
)
    requires
        holds_after(own, other, own_after),
        holds_after(other, own, other_after),
    ensures
        pending(own_after, other_after).len() == 0,
        pending(other_after, own_after).len() == 0,
{
    lemma_copied_exact(own, other);
    lemma_copied_exact(other, own);
    lemma_nothing_pending_iff_covered(own_after, other_after);
    lemma_nothing_pending_iff_covered(other_after, own_after);
    assert forall|i: int| 0 <= i < own_after.len() implies other_after.contains(
        #[trigger] own_after[i],
    ) by {
        let d = own_after[i];
        assert(own_after.contains(d));
        if !other.contains(d) {
            assert(copied(own, other).contains(d));
        }
    }
    assert forall|j: int| 0 <= j < other_after.len() implies own_after.contains(
        #[trigger] other_after[j],
    ) by {
        let d = other_after[j];
        assert(other_after.contains(d));
        if !own.contains(d) {
            assert(copied(other, own).contains(d));
        }
    }
}

/// Whether some file of `files` holds the bytes `content`.
pub open spec fn holds_content(files: Seq<Entry>, content: Seq<u8>) -> bool {
    exists|i: int| 0 <= i < files.len() && (#[trigger] files[i])@.content == Some(content)
}

/// Whether some write of `writes` brings the bytes `content`.
pub open spec fn brings(writes: Seq<BlobWrite>, content: Seq<u8>) -> bool {
    exists|k: int| 0 <= k < writes.len() && (#[trigger] writes[k]).content@ == content
}

/// Whether `after` is what a side that held `before` holds once `writes` have
/// been carried out: every file can be read, and the contents are those of
/// `before` and those that the writes brought. Names, places and order are
/// free.
pub open spec fn settled(before: Seq<Entry>, writes: Seq<BlobWrite>, after: Seq<Entry>) -> bool {
    &&& forall|i: int| 0 <= i < after.len() ==> readable(#[trigger] after[i])
    &&& forall|content: Seq<u8>| #[trigger]
        holds_content(after, content) <==> holds_content(before, content) || brings(
            writes,
            content,
        )
}

/// The digests of a side that has settled are those it held and those that
/// were copied into it.
proof fn lemma_settled_digests(
    before: Seq<Entry>,
    source: Seq<Entry>,
    writes: Seq<BlobWrite>,
    dest: Seq<char>,
    after: Seq<Entry>,
)
    requires
        forall|i: int| 0 <= i < before.len() ==> readable(#[trigger] before[i]),
        forall|i: int| 0 <= i < source.len() ==> readable(#[trigger] source[i]),
        carries(writes, source, pending(digests_of(source), digests_of(before)), dest),
        settled(before, writes, after),
    ensures
        holds_after(digests_of(before), digests_of(source), digests_of(after)),
{
    let had = digests_of(before);
    let gave = digests_of(source);
    let has = digests_of(after);
    let picks = pending(gave, had);
    let moved = copied(gave, had);
    assert forall|d: Seq<u8>| #[trigger] has.contains(d) implies had.contains(d) || moved.contains(
        d,
    ) by {
        let i = choose|i: int| 0 <= i < has.len() && has[i] == d;
        assert(readable(after[i]));
        let content = after[i].content->Some_0@;
        assert(holds_content(after, content));
        if holds_content(before, content) {
            let j = choose|j: int|
                0 <= j < before.len() && (#[trigger] before[j])@.content == Some(content);
            assert(had[j] == d);
        } else {
            let k = choose|k: int| 0 <= k < writes.len() && (#[trigger] writes[k]).content@ == content;
            assert(gave[picks[k]] == d);
            assert(moved[k] == d);
        }
    }
    assert forall|d: Seq<u8>| had.contains(d) || moved.contains(d) implies #[trigger] has.contains(
        d,
    ) by {
        let content = if had.contains(d) {
            let j = choose|j: int| 0 <= j < had.len() && had[j] == d;
            assert(readable(before[j]));
            let content = before[j].content->Some_0@;
            assert(holds_content(before, content));
            content
        } else {
            let k = choose|k: int| 0 <= k < moved.len() && moved[k] == d;
            let content = writes[k].content@;
            assert(brings(writes, content));
            assert(digest_of(source[picks[k]]) == d);
            content
        };
        assert(holds_content(after, content));
        let i = choose|i: int| 0 <= i < after.len() && (#[trigger] after[i])@.content == Some(content);
        assert(has[i] == d);
    }
}

/// Sync idempotence, over files: plan a sync, carry out its writes, and
/// observe both sides again, under whatever names and in whatever order. The
/// next sync then copies nothing in either direction.
pub proof fn lemma_sync_is_idempotent(
    local: Seq<Entry>,
    remote: Seq<Entry>,
    to_remote: Seq<BlobWrite>,
    to_local: Seq<BlobWrite>,
    local_dest: Seq<char>,
    remote_dest: Seq<char>,
    local_after: Seq<Entry>,
    remote_after: Seq<Entry>,
)
    requires
        forall|i: int| 0 <= i < local.len() ==> readable(#[trigger] local[i]),
        forall|i: int| 0 <= i < remote.len() ==> readable(#[trigger] remote[i]),
        carries(to_remote, local, pending(digests_of(local), digests_of(remote)), remote_dest),
        carries(to_local, remote, pending(digests_of(remote), digests_of(local)), local_dest),
        settled(local, to_local, local_after),
        settled(remote, to_remote, remote_after),
    ensures
        pending(digests_of(local_after), digests_of(remote_after)).len() == 0,
        pending(digests_of(remote_after), digests_of(local_after)).len() == 0,
{
    lemma_settled_digests(local, remote, to_local, local_dest, local_after);
    lemma_settled_digests(remote, local, to_remote, remote_dest, remote_after);
    lemma_second_sync_copies_nothing(
        digests_of(local),
        digests_of(remote),
        digests_of(local_after),
        digests_of(remote_after),
    );
}

} // verus!

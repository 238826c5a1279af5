//! What the discovery scanner guarantees: it returns one message for each
//! blob that opened, and an entry that is no blob or did not open changes
//! nothing.

use vstd::prelude::*;
use crate::message::scan::{is_trial, message_of, selected, trials_of};
use crate::message::sync::positions;
use crate::storage::fsio::Entry;

verus! {

/// Whether the entry at position `i` yields a message.
pub open spec fn is_hit(entries: Seq<Entry>, opened: Seq<Option<Seq<u8>>>, i: int) -> bool {
    0 <= i < entries.len() && message_of((entries[i], opened[i])) is Some
}

/// The positions of the entries that yield a message, in rising order.
pub open spec fn hits(entries: Seq<Entry>, opened: Seq<Option<Seq<u8>>>) -> Seq<int> {
    positions(entries.len()).filter(|i: int| is_hit(entries, opened, i))
}

/// Two filters that agree on every element of a sequence keep the same
/// elements of it.
proof fn lemma_filters_agree<A>(s: Seq<A>, p: spec_fn(A) -> bool, q: spec_fn(A) -> bool)
    requires
        forall|i: int| 0 <= i < s.len() ==> p(s[i]) == q(s[i]),
    ensures
        s.filter(p) == s.filter(q),
    decreases s.len(),
{
    reveal(Seq::filter);
    if s.len() > 0 {
        lemma_filters_agree(s.drop_last(), p, q);
    }
}

/// Splitting a sequence splits what a filtering map makes of it.
proof fn lemma_filter_map_splits<A, B>(s: Seq<A>, t: Seq<A>, f: spec_fn(A) -> Option<B>)
    ensures
        (s + t).filter_map(f) == s.filter_map(f) + t.filter_map(f),
    decreases t.len(),
{
    if t.len() == 0 {
        assert(s + t =~= s);
        assert(s.filter_map(f) + t.filter_map(f) =~= s.filter_map(f));
    } else {
        assert((s + t).drop_last() =~= s + t.drop_last());
        lemma_filter_map_splits(s, t.drop_last(), f);
        match f(t.last()) {
            Some(b) => {
                assert((s + t).filter_map(f) =~= s.filter_map(f) + t.filter_map(f));
            },
            None => {},
        }
    }
}

/// Ownership filtering: the scanner returns exactly the entries that opened,
/// in order, each with its path and its plaintext. How many entries did not
/// open, and what they hold, makes no difference.
pub proof fn lemma_scan_returns_what_opened(entries: Seq<Entry>, opened: Seq<Option<Seq<u8>>>)
    requires
        opened.len() == entries.len(),
    ensures
        selected(entries, opened).len() == hits(entries, opened).len(),
        forall|k: int|
            0 <= k < hits(entries, opened).len() ==> {
                let i = #[trigger] hits(entries, opened)[k];
                &&& is_hit(entries, opened, i)
                &&& selected(entries, opened)[k] == (entries[i].path@, opened[i]->Some_0)
            },
        forall|i: int|
            is_hit(entries, opened, i) ==> hits(entries, opened).contains(i),
    decreases entries.len(),
{
    let n = entries.len();
    let keep = |i: int| is_hit(entries, opened, i);
    assert forall|i: int| is_hit(entries, opened, i) implies hits(entries, opened).contains(i) by {
        assert(positions(n)[i] == i);
        positions(n).lemma_filter_contains(keep, i);
    }
    if n == 0 {
        positions(n).lemma_filter_len(keep);
    } else {
        let fewer = entries.drop_last();
        let before = opened.drop_last();
        lemma_scan_returns_what_opened(fewer, before);
        let keep_before = |i: int| is_hit(fewer, before, i);
        let shorter = positions((n - 1) as nat);
        lemma_filters_agree(shorter, keep, keep_before);
        assert(positions(n) =~= shorter.push(n - 1));
        shorter.lemma_filter_push(n - 1, keep);
        assert(entries.zip_with(opened).drop_last() =~= fewer.zip_with(before));
        assert(entries.zip_with(opened).last() == (entries[n - 1], opened[n - 1]));
        assert(selected(entries, opened) == if is_hit(entries, opened, n - 1) {
            selected(fewer, before) + seq![(entries[n - 1].path@, opened[n - 1]->Some_0)]
        } else {
            selected(fewer, before)
        });
    }
}

/// An entry that did not open is ignored: without it the scanner returns the
/// same messages.
pub proof fn lemma_miss_is_ignored(entries: Seq<Entry>, opened: Seq<Option<Seq<u8>>>, i: int)
    requires
        opened.len() == entries.len(),
        0 <= i < entries.len(),
        !is_hit(entries, opened, i),
    ensures
        selected(entries.remove(i), opened.remove(i)) == selected(entries, opened),
{
    let pick = |attempt: (Entry, Option<Seq<u8>>)| message_of(attempt);
    let attempts = entries.zip_with(opened);
    let n = entries.len() as int;
    let head = attempts.subrange(0, i);
    let miss = attempts.subrange(i, i + 1);
    let tail = attempts.subrange(i + 1, n);
    assert(attempts =~= head + miss + tail);
    assert(entries.remove(i).zip_with(opened.remove(i)) =~= head + tail);
    lemma_filter_map_splits(head + miss, tail, pick);
    lemma_filter_map_splits(head, miss, pick);
    lemma_filter_map_splits(head, tail, pick);
    assert(miss =~= seq![(entries[i], opened[i])]);
    Seq::lemma_filter_map_singleton((entries[i], opened[i]), pick);
    assert(head.filter_map(pick) + miss.filter_map(pick) =~= head.filter_map(pick));
}

/// An entry that is no regular file, or that could not be read, is not
/// tried: without it the scanner tries the same blobs.
pub proof fn lemma_only_blobs_are_tried(entries: Seq<Entry>, i: int)
    requires
        0 <= i < entries.len(),
        !is_trial(entries[i]),
    ensures
        trials_of(entries.remove(i)) == trials_of(entries),
{
    let wanted = |e: Entry| is_trial(e);
    let n = entries.len() as int;
    let head = entries.subrange(0, i);
    let other = entries.subrange(i, i + 1);
    let tail = entries.subrange(i + 1, n);
    assert(entries =~= head + other + tail);
    assert(entries.remove(i) =~= head + tail);
    Seq::filter_distributes_over_add(head + other, tail, wanted);
    Seq::filter_distributes_over_add(head, other, wanted);
    Seq::filter_distributes_over_add(head, tail, wanted);
    assert(other =~= Seq::<Entry>::empty().push(entries[i]));
    Seq::<Entry>::empty().lemma_filter_push(entries[i], wanted);
    Seq::<Entry>::empty().lemma_filter_len(wanted);
    assert(other.filter(wanted) =~= Seq::<Entry>::empty());
    assert(head.filter(wanted) + other.filter(wanted) =~= head.filter(wanted));
}

} // verus!

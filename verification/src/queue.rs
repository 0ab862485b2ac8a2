//! A tenant's playback queue: an ordered sequence of tracks, a current-track
//! slot at position 0, and a play/pause flag.

use vstd::prelude::*;
use vstd::seq_lib::lemma_multiset_commutative;
use crate::error::{AppError, AppErrorType};
use crate::track::Track;
use rand::seq::SliceRandom;

verus! {

broadcast use vstd::seq_lib::group_to_multiset_ensures, vstd::multiset::group_multiset_axioms;

/// One queued item: the track, plus the handle that names this particular
/// enqueueing. Handles give items an identity: a re-sourced copy of a track
/// is a new item even when its metadata is equal.
#[derive(Debug, Clone, PartialEq, Eq)]
pub struct QueueEntry {
    pub handle: u64,
    pub track: Track,
}

/// Pairwise-distinct handles: no two positions name the same item.
pub open spec fn handles_unique(s: Seq<QueueEntry>) -> bool {
    forall|i: int, j: int| 0 <= i < j < s.len() ==> s[i].handle != s[j].handle
}

/// Every handle in the sequence lies below the bound.
pub open spec fn handles_below(s: Seq<QueueEntry>, bound: u64) -> bool {
    forall|i: int| 0 <= i < s.len() ==> s[i].handle < bound
}

/// The tracks of a queue view, in play order.
pub open spec fn tracks_of(v: Seq<QueueEntry>) -> Seq<Track> {
    v.map_values(|e: QueueEntry| e.track)
}

/// The view a queue reaches by enqueueing `tracks` in order, starting from
/// the view `v` with `nh` the next handle to be issued — one `enqueue` call
/// per track, exactly as `enqueue` states its effect.
pub open spec fn view_after_enqueues(v: Seq<QueueEntry>, nh: u64, tracks: Seq<Track>) -> Seq<
    QueueEntry,
>
    decreases tracks.len(),
{
    if tracks.len() == 0 {
        v
    } else {
        view_after_enqueues(
            v.push(QueueEntry { handle: nh, track: tracks[0] }),
            (nh + 1) as u64,
            tracks.skip(1),
        )
    }
}

/// Law (insertion order): any sequence of enqueue operations lists its
/// tracks behind the ones already queued, in exactly the order they were
/// inserted — until some reordering operation is applied.
pub proof fn lemma_enqueues_keep_insertion_order(v: Seq<QueueEntry>, nh: u64, tracks: Seq<Track>)
    ensures
        tracks_of(view_after_enqueues(v, nh, tracks)) == tracks_of(v) + tracks,
    decreases tracks.len(),
{
    if tracks.len() == 0 {
        assert(tracks_of(v) + tracks =~= tracks_of(v));
    } else {
        let e = QueueEntry { handle: nh, track: tracks[0] };
        lemma_enqueues_keep_insertion_order(v.push(e), (nh + 1) as u64, tracks.skip(1));
        assert(tracks_of(v.push(e)) =~= tracks_of(v).push(tracks[0]));
        assert(tracks_of(v).push(tracks[0]) + tracks.skip(1) =~= tracks_of(v) + tracks);
    }
}

/// A permutation of entries with pairwise-distinct handles again has
/// pairwise-distinct handles.
pub proof fn lemma_permutation_keeps_handles_unique(a: Seq<QueueEntry>, b: Seq<QueueEntry>)
    requires
        a.to_multiset() == b.to_multiset(),
        handles_unique(a),
    ensures
        handles_unique(b),
{
    assert(a.no_duplicates());
    a.lemma_multiset_has_no_duplicates();
    assert forall|i: int, j: int| 0 <= i < j < b.len() implies b[i].handle != b[j].handle by {
        if b[i].handle == b[j].handle {
            if b[i] == b[j] {
                // the shared value occurs at least twice in b, hence in a,
                // yet entries of a are pairwise distinct
                let s0 = b.subrange(0, j);
                let s1 = b.subrange(j, b.len() as int);
                assert(b =~= s0 + s1);
                lemma_multiset_commutative(s0, s1);
                assert(s0.contains(b[i])) by {
                    assert(s0[i] == b[i]);
                }
                assert(s1.contains(b[j])) by {
                    assert(s1[0] == b[j]);
                }
                assert(a.to_multiset().count(b[i]) >= 2);
                assert(a.to_multiset().contains(b[i]));
                assert(false);
            } else {
                // both values occur in a, at distinct positions with one handle
                assert(b.contains(b[i]));
                assert(b.contains(b[j]));
                assert(a.to_multiset().count(b[i]) > 0);
                assert(a.to_multiset().count(b[j]) > 0);
                assert(a.contains(b[i]));
                assert(a.contains(b[j]));
                let k = choose|k: int| 0 <= k < a.len() && a[k] == b[i];
                let l = choose|l: int| 0 <= l < a.len() && a[l] == b[j];
                assert(a[k].handle == a[l].handle);
                assert(false);
            }
        }
    }
}

/// Relies on rand's `SliceRandom::shuffle`: an in-place permutation of the
/// slice, chosen by the thread-local generator. Nothing is promised about
/// the order that comes out, only that the same items remain.
#[verifier::external_body]
fn shuffle_entries(v: &mut Vec<QueueEntry>)
    ensures
        final(v)@.len() == old(v)@.len(),
        final(v)@.to_multiset() == old(v)@.to_multiset(),
{
    v.as_mut_slice().shuffle(&mut rand::thread_rng());
}

/// A tenant's playback queue. Position 0 is the current track when the
/// session is active; the queue records order, not transport state.
#[derive(Debug)]
pub struct Queue {
    entries: Vec<QueueEntry>,
    playing: bool,
    next_handle: u64,
}

impl View for Queue {
    type V = Seq<QueueEntry>;

    closed spec fn view(&self) -> Seq<QueueEntry> {
        self.entries@
    }
}

impl Queue {
    /// The play/pause flag.
    pub closed spec fn spec_playing(self) -> bool {
        self.playing
    }

    /// The handle the next enqueued item will receive.
    pub closed spec fn spec_next_handle(self) -> u64 {
        self.next_handle
    }

    /// Well-formedness: item handles are pairwise distinct and all lie below
    /// the next handle to be issued.
    pub open spec fn wf(self) -> bool {
        &&& handles_unique(self@)
        &&& handles_below(self@, self.spec_next_handle())
    }

    /// An empty, idle queue.
    pub fn new() -> (q: Queue)
        ensures
            q@ == Seq::<QueueEntry>::empty(),
            !q.spec_playing(),
            q.spec_next_handle() == 0,
            q.wf(),
    {
        Queue { entries: Vec::new(), playing: false, next_handle: 0 }
    }

    /// Appends the track at the back and returns the handle naming the new
    /// item. The queue's order before the new item is untouched.
    pub fn enqueue(&mut self, track: Track) -> (h: u64)
        requires
            old(self).wf(),
            old(self).spec_next_handle() < u64::MAX,
        ensures
            final(self).wf(),
            h == old(self).spec_next_handle(),
            final(self)@ == old(self)@.push(QueueEntry { handle: h, track }),
            final(self).spec_playing() == old(self).spec_playing(),
            final(self).spec_next_handle() == old(self).spec_next_handle() + 1,
    {
        let h = self.next_handle;
        self.entries.push(QueueEntry { handle: h, track });
        self.next_handle = h + 1;
        h
    }

    /// The current item: the element at position 0, or none if the queue is
    /// empty.
    pub fn current(&self) -> (r: Option<&QueueEntry>)
        ensures
            match r {
                Some(e) => self@.len() > 0 && *e == self@[0],
                None => self@.len() == 0,
            },
    {
        if self.entries.len() == 0 {
            None
        } else {
            Some(&self.entries[0])
        }
    }

    /// A read-only view of the queue in play order.
    pub fn list(&self) -> (r: &Vec<QueueEntry>)
        ensures
            r@ == self@,
    {
        &self.entries
    }

    pub fn is_empty(&self) -> (r: bool)
        ensures
            r == (self@.len() == 0),
    {
        self.entries.len() == 0
    }

    pub fn is_playing(&self) -> (r: bool)
        ensures
            r == self.spec_playing(),
    {
        self.playing
    }

    /// How many handles have been issued so far; the next enqueued item
    /// receives this number. Callers check it against the handle space
    /// before enqueueing.
    pub fn issued_handles(&self) -> (h: u64)
        ensures
            h == self.spec_next_handle(),
    {
        self.next_handle
    }

    /// Clears the play flag. Fails with `NotPlaying` when the queue has no
    /// current track; the queue itself is never changed.
    pub fn pause(&mut self) -> (r: Result<(), AppError>)
        ensures
            final(self)@ == old(self)@,
            final(self).spec_next_handle() == old(self).spec_next_handle(),
            old(self)@.len() == 0 ==> r == Err::<(), AppError>(AppError {
                cause: None,
                message: None,
                error_type: AppErrorType::NotPlaying,
            }) && final(self).spec_playing() == old(self).spec_playing(),
            old(self)@.len() > 0 ==> r == Ok::<(), AppError>(()) && !final(self).spec_playing(),
            old(self).wf() ==> final(self).wf(),
    {
        if self.entries.len() == 0 {
            Err(AppError::of_type(AppErrorType::NotPlaying))
        } else {
            self.playing = false;
            Ok(())
        }
    }

    /// Sets the play flag. Fails with `NotPlaying` when the queue has no
    /// current track; the queue itself is never changed.
    pub fn resume(&mut self) -> (r: Result<(), AppError>)
        ensures
            final(self)@ == old(self)@,
            final(self).spec_next_handle() == old(self).spec_next_handle(),
            old(self)@.len() == 0 ==> r == Err::<(), AppError>(AppError {
                cause: None,
                message: None,
                error_type: AppErrorType::NotPlaying,
            }) && final(self).spec_playing() == old(self).spec_playing(),
            old(self)@.len() > 0 ==> r == Ok::<(), AppError>(()) && final(self).spec_playing(),
            old(self).wf() ==> final(self).wf(),
    {
        if self.entries.len() == 0 {
            Err(AppError::of_type(AppErrorType::NotPlaying))
        } else {
            self.playing = true;
            Ok(())
        }
    }

    /// Removes the current element; position 0 advances to the next queued
    /// element. Fails with `NotPlaying` when the queue is empty.
    pub fn skip(&mut self) -> (r: Result<(), AppError>)
        ensures
            final(self).spec_next_handle() == old(self).spec_next_handle(),
            final(self).spec_playing() == old(self).spec_playing(),
            old(self)@.len() == 0 ==> r == Err::<(), AppError>(AppError {
                cause: None,
                message: None,
                error_type: AppErrorType::NotPlaying,
            }) && final(self)@ == old(self)@,
            old(self)@.len() > 0 ==> r == Ok::<(), AppError>(()) && final(self)@ == old(self)@.skip(1),
            old(self).wf() ==> final(self).wf(),
    {
        if self.entries.len() == 0 {
            Err(AppError::of_type(AppErrorType::NotPlaying))
        } else {
            self.entries.remove(0);
            proof {
                assert(self.entries@ =~= old(self)@.skip(1));
            }
            Ok(())
        }
    }

    /// Moves the element at `index` to position 1, directly behind the
    /// current track, so it plays next. Indices 0 and 1 are already at the
    /// front: those calls change nothing. An index past the end fails with
    /// `IndexOutOfRange`.
    pub fn move_to_front(&mut self, index: usize) -> (r: Result<(), AppError>)
        ensures
            final(self).spec_next_handle() == old(self).spec_next_handle(),
            final(self).spec_playing() == old(self).spec_playing(),
            index <= 1 ==> r == Ok::<(), AppError>(()) && final(self)@ == old(self)@,
            index > 1 && index >= old(self)@.len() ==> r == Err::<(), AppError>(AppError {
                cause: None,
                message: None,
                error_type: AppErrorType::IndexOutOfRange,
            }) && final(self)@ == old(self)@,
            1 < index < old(self)@.len() ==> r == Ok::<(), AppError>(()) && final(self)@
                == old(self)@.remove(index as int).insert(1, old(self)@[index as int]),
            old(self).wf() ==> final(self).wf(),
    {
        if index <= 1 {
            return Ok(());
        }
        if index >= self.entries.len() {
            return Err(AppError::of_type(AppErrorType::IndexOutOfRange));
        }
        let e = self.entries.remove(index);
        self.entries.insert(1, e);
        proof {
            if old(self).wf() {
                assert(handles_unique(self.entries@));
                assert(handles_below(self.entries@, self.next_handle));
            }
        }
        Ok(())
    }

    /// Randomly permutes every element except the current one: the element
    /// at position 0 stays in place, the rest keep exactly their multiset.
    pub fn shuffle_remainder(&mut self)
        ensures
            final(self).spec_next_handle() == old(self).spec_next_handle(),
            final(self).spec_playing() == old(self).spec_playing(),
            final(self)@.len() == old(self)@.len(),
            old(self)@.len() > 0 ==> final(self)@[0] == old(self)@[0],
            final(self)@.skip(1).to_multiset() == old(self)@.skip(1).to_multiset(),
            old(self).wf() ==> final(self).wf(),
    {
        if self.entries.len() <= 1 {
            return ;
        }
        let ghost orig = self.entries@;
        let mut tail: Vec<QueueEntry> = Vec::new();
        proof {
            assert(self.entries@ =~= orig.take(orig.len() as int));
            assert(tail@ =~= orig.skip(orig.len() as int).reverse());
        }
        while self.entries.len() > 1
            invariant
                self.playing == old(self).spec_playing(),
                self.next_handle == old(self).spec_next_handle(),
                1 <= self.entries@.len() <= orig.len(),
                self.entries@ == orig.take(self.entries@.len() as int),
                tail@ == orig.skip(self.entries@.len() as int).reverse(),
            decreases self.entries@.len(),
        {
            let ghost k = self.entries@.len() as int;
            let e = self.entries.pop().unwrap();
            tail.push(e);
            proof {
                assert(self.entries@ =~= orig.take(k - 1));
                assert(e == orig[k - 1]);
                assert(tail@ =~= orig.skip(k - 1).reverse());
            }
        }
        let ghost t0 = orig.skip(1).reverse();
        shuffle_entries(&mut tail);
        let ghost t1 = tail@;
        proof {
            assert(tail@ =~= t1.take(t1.len() as int));
            assert(self.entries@ =~= orig.take(1) + t1.skip(t1.len() as int).reverse());
        }
        while tail.len() > 0
            invariant
                self.playing == old(self).spec_playing(),
                self.next_handle == old(self).spec_next_handle(),
                tail@.len() <= t1.len(),
                t1.len() == orig.len() - 1,
                t1.to_multiset() == t0.to_multiset(),
                tail@ == t1.take(tail@.len() as int),
                self.entries@ == orig.take(1) + t1.skip(tail@.len() as int).reverse(),
            decreases tail@.len(),
        {
            let ghost k = tail@.len() as int;
            let e = tail.pop().unwrap();
            self.entries.push(e);
            proof {
                assert(tail@ =~= t1.take(k - 1));
                assert(e == t1[k - 1]);
                assert(self.entries@ =~= orig.take(1) + t1.skip(k - 1).reverse());
            }
        }
        proof {
            let fin = self.entries@;
            assert(fin =~= orig.take(1) + t1.reverse());
            assert(fin[0] == orig[0]);
            assert(fin.skip(1) =~= t1.reverse());
            t1.lemma_reverse_to_multiset();
            orig.skip(1).lemma_reverse_to_multiset();
            assert(fin.skip(1).to_multiset() == orig.skip(1).to_multiset());
            if old(self).wf() {
                lemma_skip_one_multiset_permutation(orig, fin);
                lemma_permutation_keeps_handles_unique(orig, fin);
                assert forall|i: int| 0 <= i < fin.len() implies fin[i].handle
                    < self.next_handle by {
                    if i > 0 {
                        assert(fin.skip(1).contains(fin[i])) by {
                            assert(fin.skip(1)[i - 1] == fin[i]);
                        }
                        assert(orig.skip(1).to_multiset().count(fin[i]) > 0);
                        assert(orig.skip(1).contains(fin[i]));
                        let k = choose|k: int|
                            0 <= k < orig.skip(1).len() && orig.skip(1)[k] == fin[i];
                        assert(orig[k + 1] == fin[i]);
                    }
                }
            }
        }
    }

    /// Removes the current element and appends a freshly sourced copy at the
    /// back; the next queued element becomes current. Used when the loop
    /// policy rotates the queue. The copy is a new item under a new handle.
    pub fn rotate_current_to_back(&mut self, fresh: Track) -> (h: u64)
        requires
            old(self).wf(),
            old(self)@.len() > 0,
            old(self).spec_next_handle() < u64::MAX,
        ensures
            final(self).wf(),
            h == old(self).spec_next_handle(),
            final(self)@ == old(self)@.skip(1).push(QueueEntry { handle: h, track: fresh }),
            final(self).spec_playing() == old(self).spec_playing(),
            final(self).spec_next_handle() == old(self).spec_next_handle() + 1,
    {
        let h = self.next_handle;
        self.entries.remove(0);
        self.entries.push(QueueEntry { handle: h, track: fresh });
        self.next_handle = h + 1;
        proof {
            assert(self.entries@ =~= old(self)@.skip(1).push(
                QueueEntry { handle: h, track: fresh },
            ));
        }
        h
    }

    /// Removes the current element and re-inserts a freshly sourced copy at
    /// position 0, so the same track plays again next. Used when the loop
    /// policy repeats the track. The copy is a new item under a new handle.
    pub fn requeue_current_front(&mut self, fresh: Track) -> (h: u64)
        requires
            old(self).wf(),
            old(self)@.len() > 0,
            old(self).spec_next_handle() < u64::MAX,
        ensures
            final(self).wf(),
            h == old(self).spec_next_handle(),
            final(self)@ == seq![QueueEntry { handle: h, track: fresh }] + old(self)@.skip(1),
            final(self).spec_playing() == old(self).spec_playing(),
            final(self).spec_next_handle() == old(self).spec_next_handle() + 1,
    {
        let h = self.next_handle;
        self.entries.remove(0);
        self.entries.insert(0, QueueEntry { handle: h, track: fresh });
        self.next_handle = h + 1;
        proof {
            assert(self.entries@ =~= seq![QueueEntry { handle: h, track: fresh }] + old(
                self,
            )@.skip(1));
        }
        h
    }
}

/// Sequences that agree at position 0 and whose tails are permutations of
/// each other are permutations of each other.
proof fn lemma_skip_one_multiset_permutation(a: Seq<QueueEntry>, b: Seq<QueueEntry>)
    requires
        a.len() == b.len(),
        a.len() > 0 ==> a[0] == b[0],
        a.skip(1).to_multiset() == b.skip(1).to_multiset(),
    ensures
        a.to_multiset() == b.to_multiset(),
{
    if a.len() == 0 {
        assert(a =~= b);
    } else {
        assert(a =~= seq![a[0]] + a.skip(1));
        assert(b =~= seq![b[0]] + b.skip(1));
        lemma_multiset_commutative(seq![a[0]], a.skip(1));
        lemma_multiset_commutative(seq![b[0]], b.skip(1));
    }
}

} // verus!

//! The track-end state machine: on every "track finished" notification it
//! decides, from the loop policy read at the start of handling, whether to
//! re-queue the finished track, rotate it to the back, or drop it — and
//! whether the session should be left because nothing remains to play.
//!
//! Resolving a fresh source is I/O and happens outside the library: a caller
//! first asks for a [`TrackEndPlan`], resolves a source if the plan needs
//! one, and then applies the event with whatever the resolver returned.

use vstd::prelude::*;
use crate::policy::LoopMode;
use crate::queue::{Queue, QueueEntry};
use crate::track::Track;

verus! {

/// Whether the item named by a track-end event is still the current one.
/// Items are compared by handle, not by track metadata: after a concurrent
/// skip the handle at position 0 differs and the event must not advance the
/// queue a second time.
pub open spec fn spec_current_matches(q: Queue, ended: u64) -> bool {
    q@.len() > 0 && q@[0].handle == ended
}

/// Whether handling the event calls for a freshly resolved source: the
/// ended item is still current, the policy re-queues it, and its track
/// carries a locator to resolve.
pub open spec fn spec_needs_resource(q: Queue, policy: LoopMode, ended: u64) -> bool {
    spec_current_matches(q, ended) && !(policy is Off) && q@[0].track.url is Some
}

/// What one track-end event asks of its surroundings before the queue is
/// touched. The policy is the value read at the start of handling; applying
/// the event uses this plan's policy, never a later one.
#[derive(Debug, Clone, Copy, PartialEq, Eq, Structural)]
pub struct TrackEndPlan {
    pub policy: LoopMode,
    pub current_matches: bool,
    pub needs_resource: bool,
}

/// The plan for an event, as a function of the queue and policy it found.
pub open spec fn spec_plan(q: Queue, policy: LoopMode, ended: u64) -> TrackEndPlan {
    TrackEndPlan {
        policy,
        current_matches: spec_current_matches(q, ended),
        needs_resource: spec_needs_resource(q, policy, ended),
    }
}

/// The router's verdict on one track-end event.
#[derive(Debug, Clone, Copy, PartialEq, Eq, Structural)]
pub enum TrackEndOutcome {
    /// The ended item was no longer current — a concurrent command already
    /// advanced the queue — so nothing was changed and no signal is owed.
    Stale,
    /// The event was applied. When `leave` is true the queue emptied on this
    /// event and exactly one leave signal is owed to the connection layer.
    Handled { leave: bool },
}

/// How one track-end event transforms a queue: the relation between the
/// queue before, the queue after, and the router's verdict. A missing
/// `resourced` track under a re-queueing policy — the resolver failed, or
/// the track had no locator — degrades to dropping the track, so the router
/// never stalls.
pub open spec fn track_end_applied(
    pre: Queue,
    post: Queue,
    policy: LoopMode,
    ended: u64,
    resourced: Option<Track>,
    out: TrackEndOutcome,
) -> bool {
    &&& post.spec_playing() == pre.spec_playing()
    &&& if !spec_current_matches(pre, ended) {
        &&& out == TrackEndOutcome::Stale
        &&& post@ == pre@
        &&& post.spec_next_handle() == pre.spec_next_handle()
    } else if policy is Off || resourced is None {
        &&& post@ == pre@.skip(1)
        &&& post.spec_next_handle() == pre.spec_next_handle()
        &&& out == (TrackEndOutcome::Handled { leave: pre@.len() == 1 })
    } else if policy is Track {
        &&& post@ == seq![
            QueueEntry { handle: pre.spec_next_handle(), track: resourced.unwrap() },
        ] + pre@.skip(1)
        &&& post.spec_next_handle() == pre.spec_next_handle() + 1
        &&& out == (TrackEndOutcome::Handled { leave: false })
    } else {
        &&& post@ == pre@.skip(1).push(
            QueueEntry { handle: pre.spec_next_handle(), track: resourced.unwrap() },
        )
        &&& post.spec_next_handle() == pre.spec_next_handle() + 1
        &&& out == (TrackEndOutcome::Handled { leave: false })
    }
}

/// Reads what a track-end event will need, without touching the queue.
pub fn plan_track_end(queue: &Queue, policy: LoopMode, ended: u64) -> (p: TrackEndPlan)
    ensures
        p == spec_plan(*queue, policy, ended),
{
    let (current_matches, has_url) = match queue.current() {
        Some(e) => (e.handle == ended, e.track.url.is_some()),
        None => (false, false),
    };
    let loops = match policy {
        LoopMode::Off => false,
        LoopMode::Track => true,
        LoopMode::Queue => true,
    };
    TrackEndPlan { policy, current_matches, needs_resource: current_matches && loops && has_url }
}

/// Applies one track-end event to the queue: drop, re-queue at the front,
/// or rotate to the back, as [`track_end_applied`] states — and reports
/// whether the event was stale and whether a leave signal is owed.
pub fn apply_track_end(
    queue: &mut Queue,
    policy: LoopMode,
    ended: u64,
    resourced: Option<Track>,
) -> (out: TrackEndOutcome)
    requires
        old(queue).wf(),
        old(queue).spec_next_handle() < u64::MAX,
    ensures
        final(queue).wf(),
        track_end_applied(*old(queue), *final(queue), policy, ended, resourced, out),
{
    let still_current = match queue.current() {
        Some(e) => e.handle == ended,
        None => false,
    };
    if !still_current {
        return TrackEndOutcome::Stale;
    }
    match (policy, resourced) {
        (LoopMode::Track, Some(fresh)) => {
            queue.requeue_current_front(fresh);
            TrackEndOutcome::Handled { leave: false }
        },
        (LoopMode::Queue, Some(fresh)) => {
            queue.rotate_current_to_back(fresh);
            TrackEndOutcome::Handled { leave: false }
        },
        _ => {
            let skipped = queue.skip();
            proof {
                assert(skipped is Ok);
            }
            TrackEndOutcome::Handled { leave: queue.is_empty() }
        },
    }
}

/// Law (loop policy `Track`): after a track-end event the re-sourced track
/// is current again and the queue's length is unchanged.
pub proof fn lemma_track_policy_repeats_current(
    pre: Queue,
    post: Queue,
    ended: u64,
    fresh: Track,
    out: TrackEndOutcome,
)
    requires
        spec_current_matches(pre, ended),
        track_end_applied(pre, post, LoopMode::Track, ended, Some(fresh), out),
    ensures
        post@.len() == pre@.len(),
        post@[0].track == fresh,
        out == (TrackEndOutcome::Handled { leave: false }),
{
}

/// Law (loop policy `Queue`): after a track-end event every remaining item
/// moves up one place, the re-sourced copy sits at the back, and the former
/// second item is current.
pub proof fn lemma_queue_policy_rotates(
    pre: Queue,
    post: Queue,
    ended: u64,
    fresh: Track,
    out: TrackEndOutcome,
)
    requires
        spec_current_matches(pre, ended),
        track_end_applied(pre, post, LoopMode::Queue, ended, Some(fresh), out),
    ensures
        post@.len() == pre@.len(),
        forall|i: int| 0 <= i < pre@.len() - 1 ==> post@[i] == pre@[i + 1],
        post@[post@.len() - 1].track == fresh,
        out == (TrackEndOutcome::Handled { leave: false }),
{
}

/// Law (loop policy `Off` on a single-item queue): the queue empties and
/// exactly one leave signal is owed; a further event for the same item
/// finds the queue already empty, is stale, and owes none.
pub proof fn lemma_off_policy_leaves_once(
    pre: Queue,
    mid: Queue,
    post: Queue,
    ended: u64,
    out1: TrackEndOutcome,
    out2: TrackEndOutcome,
)
    requires
        pre@.len() == 1,
        spec_current_matches(pre, ended),
        track_end_applied(pre, mid, LoopMode::Off, ended, None, out1),
        track_end_applied(mid, post, LoopMode::Off, ended, None, out2),
    ensures
        mid@.len() == 0,
        out1 == (TrackEndOutcome::Handled { leave: true }),
        out2 == TrackEndOutcome::Stale,
        post@ == mid@,
{
}

/// Law (a skip racing a natural track-end): once a skip has removed the
/// current item, the track-end event for that item is stale, whatever the
/// policy — the queue advances exactly once, never twice.
pub proof fn lemma_skip_then_track_end_advances_once(
    pre: Queue,
    mid: Queue,
    post: Queue,
    ended: u64,
    policy: LoopMode,
    resourced: Option<Track>,
    out: TrackEndOutcome,
)
    requires
        pre.wf(),
        pre@.len() > 0,
        ended == pre@[0].handle,
        mid@ == pre@.skip(1),
        track_end_applied(mid, post, policy, ended, resourced, out),
    ensures
        out == TrackEndOutcome::Stale,
        post@ == mid@,
{
    if mid@.len() > 0 {
        assert(mid@[0] == pre@[1]);
        assert(pre@[0].handle != pre@[1].handle);
    }
}

} // verus!

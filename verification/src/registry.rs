//! The concurrency-safe entry point: a mapping from tenant identifier to
//! that tenant's queue and loop policy, created lazily on first use.
//!
//! The registry itself is sequential; a caller serialises access per tenant,
//! simplest by holding one lock around each whole operation. Every command
//! of the engine is exposed here keyed by tenant, so a caller never reaches
//! into a queue it has not looked up.

use std::collections::HashMap;
use vstd::prelude::*;
use crate::error::{AppError, AppErrorType};
use crate::policy::LoopMode;
use crate::queue::{Queue, QueueEntry};
use crate::router;
use crate::router::{TrackEndOutcome, TrackEndPlan};
use crate::track::Track;

verus! {

broadcast use vstd::std_specs::hash::group_hash_axioms;

/// Everything the engine keeps for one tenant: the playback queue and the
/// tenant's loop policy.
#[derive(Debug)]
pub struct TenantState {
    pub queue: Queue,
    pub loop_mode: LoopMode,
}

impl TenantState {
    pub open spec fn wf(self) -> bool {
        self.queue.wf()
    }

    /// A fresh tenant: an empty, idle queue with looping off.
    pub fn new() -> (ts: TenantState)
        ensures
            ts.queue@ == Seq::<QueueEntry>::empty(),
            !ts.queue.spec_playing(),
            ts.queue.spec_next_handle() == 0,
            ts.loop_mode == LoopMode::Off,
            ts.wf(),
    {
        TenantState { queue: Queue::new(), loop_mode: LoopMode::Off }
    }
}

/// The shared mapping from tenant identifier to tenant state. Entries are
/// created lazily and never require teardown; absence of an entry is never
/// load-bearing.
#[derive(Debug)]
pub struct QueueRegistry {
    map: HashMap<u64, TenantState>,
    /// The tenants present in `map`, kept in first-seen order so a snapshot
    /// is a plain copy.
    tenants: Vec<u64>,
}

impl View for QueueRegistry {
    type V = Map<u64, TenantState>;

    closed spec fn view(&self) -> Map<u64, TenantState> {
        self.map@
    }
}

impl QueueRegistry {
    /// The tenant identifiers in first-seen order.
    pub closed spec fn spec_tenants(self) -> Seq<u64> {
        self.tenants@
    }

    /// Well-formedness: every tenant's state is well formed, and the tenant
    /// list names exactly the mapped tenants, each once.
    pub open spec fn wf(self) -> bool {
        &&& forall|t: u64| self@.contains_key(t) ==> (#[trigger] self@[t]).wf()
        &&& self.spec_tenants().no_duplicates()
        &&& forall|t: u64| #[trigger] self.spec_tenants().contains(t) <==> self@.contains_key(t)
    }

    /// An empty registry.
    pub fn new() -> (r: QueueRegistry)
        ensures
            r@ == Map::<u64, TenantState>::empty(),
            r.spec_tenants() == Seq::<u64>::empty(),
            r.wf(),
    {
        QueueRegistry { map: HashMap::new(), tenants: Vec::new() }
    }

    /// Looks a tenant up.
    pub fn get(&self, tenant: u64) -> (r: Option<&TenantState>)
        ensures
            match r {
                Some(ts) => self@.contains_key(tenant) && *ts == self@[tenant],
                None => !self@.contains_key(tenant),
            },
    {
        self.map.get(&tenant)
    }

    /// Makes sure the tenant exists, creating an empty, idle state on first
    /// access; an existing tenant is untouched.
    pub fn get_or_create(&mut self, tenant: u64)
        requires
            old(self).wf(),
        ensures
            final(self).wf(),
            final(self)@.contains_key(tenant),
            old(self)@.contains_key(tenant) ==> final(self)@ == old(self)@,
            !old(self)@.contains_key(tenant) ==> {
                &&& final(self)@ == old(self)@.insert(tenant, final(self)@[tenant])
                &&& final(self)@[tenant].queue@ == Seq::<QueueEntry>::empty()
                &&& !final(self)@[tenant].queue.spec_playing()
                &&& final(self)@[tenant].queue.spec_next_handle() == 0
                &&& final(self)@[tenant].loop_mode == LoopMode::Off
            },
            final(self).spec_tenants() == if old(self)@.contains_key(tenant) {
                old(self).spec_tenants()
            } else {
                old(self).spec_tenants().push(tenant)
            },
    {
        if !self.map.contains_key(&tenant) {
            self.map.insert(tenant, TenantState::new());
            self.tenants.push(tenant);
            proof {
                assert forall|t: u64| #[trigger]
                    self.tenants@.contains(t) <==> self.map@.contains_key(t) by {
                    if self.tenants@.contains(t) {
                        let k = choose|k: int|
                            0 <= k < self.tenants@.len() && self.tenants@[k] == t;
                        if k < old(self).spec_tenants().len() {
                            assert(old(self).spec_tenants().contains(t));
                        }
                    }
                    if self.map@.contains_key(t) && t != tenant {
                        assert(old(self).spec_tenants().contains(t));
                        let k = choose|k: int|
                            0 <= k < old(self).spec_tenants().len()
                                && old(self).spec_tenants()[k] == t;
                        assert(self.tenants@[k] == t);
                    }
                    if t == tenant {
                        assert(self.tenants@.last() == tenant);
                    }
                }
                assert(!old(self).spec_tenants().contains(tenant));
                assert forall|i: int, j: int|
                    0 <= i < self.tenants@.len() && 0 <= j < self.tenants@.len() && i
                        != j implies self.tenants@[i] != self.tenants@[j] by {
                    let n = old(self).spec_tenants().len() as int;
                    if i < n && j < n {
                        assert(old(self).spec_tenants()[i] == self.tenants@[i]);
                        assert(old(self).spec_tenants()[j] == self.tenants@[j]);
                    } else if i < n && j == n {
                        assert(old(self).spec_tenants().contains(self.tenants@[i])) by {
                            assert(old(self).spec_tenants()[i] == self.tenants@[i]);
                        }
                    } else if j < n && i == n {
                        assert(old(self).spec_tenants().contains(self.tenants@[j])) by {
                            assert(old(self).spec_tenants()[j] == self.tenants@[j]);
                        }
                    }
                }
                assert(self.tenants@.no_duplicates());
            }
        }
    }

    /// A consistent point-in-time view of the tenants present: each appears
    /// exactly once.
    pub fn snapshot_tenants(&self) -> (r: Vec<u64>)
        requires
            self.wf(),
        ensures
            r@ == self.spec_tenants(),
            r@.no_duplicates(),
            forall|t: u64| #[trigger] r@.contains(t) <==> self@.contains_key(t),
    {
        let mut out: Vec<u64> = Vec::new();
        let mut i: usize = 0;
        while i < self.tenants.len()
            invariant
                i <= self.tenants@.len(),
                out@ == self.tenants@.take(i as int),
            decreases self.tenants@.len() - i,
        {
            out.push(self.tenants[i]);
            i = i + 1;
            proof {
                assert(out@ =~= self.tenants@.take(i as int));
            }
        }
        proof {
            assert(out@ =~= self.tenants@);
        }
        out
    }

    /// The tenant's queue in play order, or `NotFound` when the tenant is
    /// absent.
    pub fn get_queue(&self, tenant: u64) -> (r: Result<&Vec<QueueEntry>, AppError>)
        ensures
            match r {
                Ok(entries) => self@.contains_key(tenant) && entries@ == self@[tenant].queue@,
                Err(e) => !self@.contains_key(tenant) && e == (AppError {
                    cause: None,
                    message: None,
                    error_type: AppErrorType::NotFound,
                }),
            },
    {
        match self.map.get(&tenant) {
            Some(ts) => Ok(ts.queue.list()),
            None => Err(AppError::not_found()),
        }
    }

    /// The tenant's current item — none when its queue is empty — or
    /// `NotFound` when the tenant is absent.
    pub fn current(&self, tenant: u64) -> (r: Result<Option<&QueueEntry>, AppError>)
        ensures
            match r {
                Ok(Some(e)) => self@.contains_key(tenant) && self@[tenant].queue@.len() > 0 && *e
                    == self@[tenant].queue@[0],
                Ok(None) => self@.contains_key(tenant) && self@[tenant].queue@.len() == 0,
                Err(e) => !self@.contains_key(tenant) && e == (AppError {
                    cause: None,
                    message: None,
                    error_type: AppErrorType::NotFound,
                }),
            },
    {
        match self.map.get(&tenant) {
            Some(ts) => Ok(ts.queue.current()),
            None => Err(AppError::not_found()),
        }
    }

    /// Sets the tenant's loop policy, creating the tenant on first use. The
    /// policy takes effect for events whose handling starts after this call.
    pub fn set_loop_mode(&mut self, tenant: u64, mode: LoopMode)
        requires
            old(self).wf(),
        ensures
            final(self).wf(),
            final(self)@ == old(self)@.insert(tenant, final(self)@[tenant]),
            final(self)@[tenant].loop_mode == mode,
            old(self)@.contains_key(tenant) ==> final(self)@[tenant].queue
                == old(self)@[tenant].queue,
            !old(self)@.contains_key(tenant) ==> {
                &&& final(self)@[tenant].queue@ == Seq::<QueueEntry>::empty()
                &&& !final(self)@[tenant].queue.spec_playing()
                &&& final(self)@[tenant].queue.spec_next_handle() == 0
            },
    {
        self.get_or_create(tenant);
        let mut ts = self.map.remove(&tenant).unwrap();
        ts.loop_mode = mode;
        self.map.insert(tenant, ts);
        proof {
            assert(self.map@ =~= old(self).map@.insert(tenant, self.map@[tenant]));
        }
    }

    /// Appends a resolved track to the tenant's queue, creating the tenant
    /// on first use, and returns the handle naming the new item.
    pub fn enqueue(&mut self, tenant: u64, track: Track) -> (h: u64)
        requires
            old(self).wf(),
            old(self)@.contains_key(tenant) ==> old(self)@[tenant].queue.spec_next_handle()
                < u64::MAX,
        ensures
            final(self).wf(),
            final(self)@ == old(self)@.insert(tenant, final(self)@[tenant]),
            old(self)@.contains_key(tenant) ==> {
                let q0 = old(self)@[tenant].queue;
                &&& h == q0.spec_next_handle()
                &&& final(self)@[tenant].queue@ == q0@.push(QueueEntry { handle: h, track })
                &&& final(self)@[tenant].queue.spec_playing() == q0.spec_playing()
                &&& final(self)@[tenant].queue.spec_next_handle() == q0.spec_next_handle() + 1
                &&& final(self)@[tenant].loop_mode == old(self)@[tenant].loop_mode
            },
            !old(self)@.contains_key(tenant) ==> {
                &&& h == 0
                &&& final(self)@[tenant].queue@ == seq![QueueEntry { handle: 0, track }]
                &&& !final(self)@[tenant].queue.spec_playing()
                &&& final(self)@[tenant].queue.spec_next_handle() == 1
                &&& final(self)@[tenant].loop_mode == LoopMode::Off
            },
    {
        self.get_or_create(tenant);
        let mut ts = self.map.remove(&tenant).unwrap();
        let h = ts.queue.enqueue(track);
        self.map.insert(tenant, ts);
        proof {
            assert(self.map@ =~= old(self).map@.insert(tenant, self.map@[tenant]));
            if !old(self)@.contains_key(tenant) {
                assert(self.map@[tenant].queue@ =~= seq![QueueEntry { handle: 0, track }]);
            }
        }
        h
    }

    /// Clears the play flag of the tenant's queue; `NotFound` when the
    /// tenant is absent, `NotPlaying` when its queue is empty.
    pub fn pause(&mut self, tenant: u64) -> (r: Result<(), AppError>)
        requires
            old(self).wf(),
        ensures
            final(self).wf(),
            !old(self)@.contains_key(tenant) ==> final(self)@ == old(self)@ && r == Err::<
                (),
                AppError,
            >(AppError { cause: None, message: None, error_type: AppErrorType::NotFound }),
            old(self)@.contains_key(tenant) ==> {
                let q0 = old(self)@[tenant].queue;
                &&& final(self)@ == old(self)@.insert(tenant, final(self)@[tenant])
                &&& final(self)@[tenant].loop_mode == old(self)@[tenant].loop_mode
                &&& final(self)@[tenant].queue@ == q0@
                &&& final(self)@[tenant].queue.spec_next_handle() == q0.spec_next_handle()
                &&& (q0@.len() == 0 ==> r == Err::<(), AppError>(AppError {
                    cause: None,
                    message: None,
                    error_type: AppErrorType::NotPlaying,
                }) && final(self)@[tenant].queue.spec_playing() == q0.spec_playing())
                &&& (q0@.len() > 0 ==> r == Ok::<(), AppError>(())
                    && !final(self)@[tenant].queue.spec_playing())
            },
    {
        match self.map.remove(&tenant) {
            None => {
                proof {
                    assert(self.map@ =~= old(self).map@);
                }
                Err(AppError::not_found())
            },
            Some(mut ts) => {
                let r = ts.queue.pause();
                self.map.insert(tenant, ts);
                proof {
                    assert(self.map@ =~= old(self).map@.insert(tenant, self.map@[tenant]));
                }
                r
            },
        }
    }

    /// Sets the play flag of the tenant's queue; `NotFound` when the tenant
    /// is absent, `NotPlaying` when its queue is empty.
    pub fn resume(&mut self, tenant: u64) -> (r: Result<(), AppError>)
        requires
            old(self).wf(),
        ensures
            final(self).wf(),
            !old(self)@.contains_key(tenant) ==> final(self)@ == old(self)@ && r == Err::<
                (),
                AppError,
            >(AppError { cause: None, message: None, error_type: AppErrorType::NotFound }),
            old(self)@.contains_key(tenant) ==> {
                let q0 = old(self)@[tenant].queue;
                &&& final(self)@ == old(self)@.insert(tenant, final(self)@[tenant])
                &&& final(self)@[tenant].loop_mode == old(self)@[tenant].loop_mode
                &&& final(self)@[tenant].queue@ == q0@
                &&& final(self)@[tenant].queue.spec_next_handle() == q0.spec_next_handle()
                &&& (q0@.len() == 0 ==> r == Err::<(), AppError>(AppError {
                    cause: None,
                    message: None,
                    error_type: AppErrorType::NotPlaying,
                }) && final(self)@[tenant].queue.spec_playing() == q0.spec_playing())
                &&& (q0@.len() > 0 ==> r == Ok::<(), AppError>(())
                    && final(self)@[tenant].queue.spec_playing())
            },
    {
        match self.map.remove(&tenant) {
            None => {
                proof {
                    assert(self.map@ =~= old(self).map@);
                }
                Err(AppError::not_found())
            },
            Some(mut ts) => {
                let r = ts.queue.resume();
                self.map.insert(tenant, ts);
                proof {
                    assert(self.map@ =~= old(self).map@.insert(tenant, self.map@[tenant]));
                }
                r
            },
        }
    }

    /// Removes the current element of the tenant's queue; `NotFound` when
    /// the tenant is absent, `NotPlaying` when its queue is empty.
    pub fn skip(&mut self, tenant: u64) -> (r: Result<(), AppError>)
        requires
            old(self).wf(),
        ensures
            final(self).wf(),
            !old(self)@.contains_key(tenant) ==> final(self)@ == old(self)@ && r == Err::<
                (),
                AppError,
            >(AppError { cause: None, message: None, error_type: AppErrorType::NotFound }),
            old(self)@.contains_key(tenant) ==> {
                let q0 = old(self)@[tenant].queue;
                &&& final(self)@ == old(self)@.insert(tenant, final(self)@[tenant])
                &&& final(self)@[tenant].loop_mode == old(self)@[tenant].loop_mode
                &&& final(self)@[tenant].queue.spec_playing() == q0.spec_playing()
                &&& final(self)@[tenant].queue.spec_next_handle() == q0.spec_next_handle()
                &&& (q0@.len() == 0 ==> r == Err::<(), AppError>(AppError {
                    cause: None,
                    message: None,
                    error_type: AppErrorType::NotPlaying,
                }) && final(self)@[tenant].queue@ == q0@)
                &&& (q0@.len() > 0 ==> r == Ok::<(), AppError>(()) && final(self)@[tenant].queue@
                    == q0@.skip(1))
            },
    {
        match self.map.remove(&tenant) {
            None => {
                proof {
                    assert(self.map@ =~= old(self).map@);
                }
                Err(AppError::not_found())
            },
            Some(mut ts) => {
                let r = ts.queue.skip();
                self.map.insert(tenant, ts);
                proof {
                    assert(self.map@ =~= old(self).map@.insert(tenant, self.map@[tenant]));
                }
                r
            },
        }
    }

    /// Moves the element at `index` of the tenant's queue to position 1 so
    /// it plays next; `NotFound` when the tenant is absent, and otherwise as
    /// the queue's own reorder states.
    pub fn move_to_front(&mut self, tenant: u64, index: usize) -> (r: Result<(), AppError>)
        requires
            old(self).wf(),
        ensures
            final(self).wf(),
            !old(self)@.contains_key(tenant) ==> final(self)@ == old(self)@ && r == Err::<
                (),
                AppError,
            >(AppError { cause: None, message: None, error_type: AppErrorType::NotFound }),
            old(self)@.contains_key(tenant) ==> {
                let q0 = old(self)@[tenant].queue;
                &&& final(self)@ == old(self)@.insert(tenant, final(self)@[tenant])
                &&& final(self)@[tenant].loop_mode == old(self)@[tenant].loop_mode
                &&& final(self)@[tenant].queue.spec_playing() == q0.spec_playing()
                &&& final(self)@[tenant].queue.spec_next_handle() == q0.spec_next_handle()
                &&& (index <= 1 ==> r == Ok::<(), AppError>(()) && final(self)@[tenant].queue@
                    == q0@)
                &&& (index > 1 && index >= q0@.len() ==> r == Err::<(), AppError>(AppError {
                    cause: None,
                    message: None,
                    error_type: AppErrorType::IndexOutOfRange,
                }) && final(self)@[tenant].queue@ == q0@)
                &&& (1 < index < q0@.len() ==> r == Ok::<(), AppError>(())
                    && final(self)@[tenant].queue@ == q0@.remove(index as int).insert(
                    1,
                    q0@[index as int],
                ))
            },
    {
        match self.map.remove(&tenant) {
            None => {
                proof {
                    assert(self.map@ =~= old(self).map@);
                }
                Err(AppError::not_found())
            },
            Some(mut ts) => {
                let r = ts.queue.move_to_front(index);
                self.map.insert(tenant, ts);
                proof {
                    assert(self.map@ =~= old(self).map@.insert(tenant, self.map@[tenant]));
                }
                r
            },
        }
    }

    /// Randomly permutes the tenant's queue behind the current element;
    /// `NotFound` when the tenant is absent.
    pub fn shuffle_remainder(&mut self, tenant: u64) -> (r: Result<(), AppError>)
        requires
            old(self).wf(),
        ensures
            final(self).wf(),
            !old(self)@.contains_key(tenant) ==> final(self)@ == old(self)@ && r == Err::<
                (),
                AppError,
            >(AppError { cause: None, message: None, error_type: AppErrorType::NotFound }),
            old(self)@.contains_key(tenant) ==> {
                let q0 = old(self)@[tenant].queue;
                &&& r == Ok::<(), AppError>(())
                &&& final(self)@ == old(self)@.insert(tenant, final(self)@[tenant])
                &&& final(self)@[tenant].loop_mode == old(self)@[tenant].loop_mode
                &&& final(self)@[tenant].queue.spec_playing() == q0.spec_playing()
                &&& final(self)@[tenant].queue.spec_next_handle() == q0.spec_next_handle()
                &&& final(self)@[tenant].queue@.len() == q0@.len()
                &&& (q0@.len() > 0 ==> final(self)@[tenant].queue@[0] == q0@[0])
                &&& final(self)@[tenant].queue@.skip(1).to_multiset() == q0@.skip(1).to_multiset()
            },
    {
        match self.map.remove(&tenant) {
            None => {
                proof {
                    assert(self.map@ =~= old(self).map@);
                }
                Err(AppError::not_found())
            },
            Some(mut ts) => {
                ts.queue.shuffle_remainder();
                self.map.insert(tenant, ts);
                proof {
                    assert(self.map@ =~= old(self).map@.insert(tenant, self.map@[tenant]));
                }
                Ok(())
            },
        }
    }

    /// Reads what handling a track-end event for the tenant will need: the
    /// loop policy as of now, and whether a fresh source must be resolved
    /// first. `NotFound` when the tenant is absent.
    pub fn plan_track_end(&self, tenant: u64, ended: u64) -> (r: Result<TrackEndPlan, AppError>)
        ensures
            match r {
                Ok(p) => self@.contains_key(tenant) && p == router::spec_plan(
                    self@[tenant].queue,
                    self@[tenant].loop_mode,
                    ended,
                ),
                Err(e) => !self@.contains_key(tenant) && e == (AppError {
                    cause: None,
                    message: None,
                    error_type: AppErrorType::NotFound,
                }),
            },
    {
        match self.map.get(&tenant) {
            Some(ts) => Ok(router::plan_track_end(&ts.queue, ts.loop_mode, ended)),
            None => Err(AppError::not_found()),
        }
    }

    /// Applies a track-end event to the tenant's queue under the policy the
    /// plan read, handing in whatever the resolver returned. `NotFound` when
    /// the tenant is absent; otherwise the queue changes exactly as
    /// [`router::track_end_applied`] states.
    pub fn apply_track_end(
        &mut self,
        tenant: u64,
        ended: u64,
        policy: LoopMode,
        resourced: Option<Track>,
    ) -> (r: Result<TrackEndOutcome, AppError>)
        requires
            old(self).wf(),
            old(self)@.contains_key(tenant) ==> old(self)@[tenant].queue.spec_next_handle()
                < u64::MAX,
        ensures
            final(self).wf(),
            !old(self)@.contains_key(tenant) ==> final(self)@ == old(self)@ && r == Err::<
                TrackEndOutcome,
                AppError,
            >(AppError { cause: None, message: None, error_type: AppErrorType::NotFound }),
            old(self)@.contains_key(tenant) ==> {
                &&& r is Ok
                &&& final(self)@ == old(self)@.insert(tenant, final(self)@[tenant])
                &&& final(self)@[tenant].loop_mode == old(self)@[tenant].loop_mode
                &&& router::track_end_applied(
                    old(self)@[tenant].queue,
                    final(self)@[tenant].queue,
                    policy,
                    ended,
                    resourced,
                    r.unwrap(),
                )
            },
    {
        match self.map.remove(&tenant) {
            None => {
                proof {
                    assert(self.map@ =~= old(self).map@);
                }
                Err(AppError::not_found())
            },
            Some(mut ts) => {
                let out = router::apply_track_end(&mut ts.queue, policy, ended, resourced);
                self.map.insert(tenant, ts);
                proof {
                    assert(self.map@ =~= old(self).map@.insert(tenant, self.map@[tenant]));
                }
                Ok(out)
            },
        }
    }
}

} // verus!

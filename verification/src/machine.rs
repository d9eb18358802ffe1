//! The whole emulated machine: the thread manager (which owns the
//! synchronization state) plus host configuration, and the invariant that
//! every shim operation preserves.
//!
//! The invariant [`Machine::inv`] holds of the fresh machine and is both
//! required and ensured by every shim-level operation, so it holds of every
//! reachable state. Its clauses are the safety properties of the emulation:
//! mutex ownership agrees with the lock count, writers and readers exclude
//! each other, a blocked thread stands in exactly one wait queue (or is
//! sleeping on a timeout), at most one thread ever joins a thread, and each
//! thread has at most one pending timeout callback (the callback table is
//! indexed by thread, so that last one holds by construction).

use vstd::prelude::*;
use crate::sync::{
    Mutex, RwLock, Condvar, CondvarWaiter, SynchronizationState, count_tid, mutex_waits,
    rwlock_waits, condvar_waits,
};
use crate::posix::MachineStop;
use crate::thread::{
    Thread, ThreadId, ThreadJoinStatus, ThreadManager, ThreadState, TimeoutCallback,
};

verus! {

/// One mutex record is well formed: it is owned exactly when its lock count
/// is positive, and its owner never stands in its own wait queue.
pub open spec fn mutex_rec_wf(m: Mutex) -> bool {
    &&& (m.owner is None <==> m.lock_count == 0)
    &&& (m.owner matches Some(o) ==> count_tid(m.queue@, o) == 0)
}

/// One rwlock record is well formed: a writer excludes all readers.
pub open spec fn rwlock_rec_wf(l: RwLock) -> bool {
    l.writer is Some ==> l.readers@.len() == 0
}

/// Every thread id in the mutex's wait queue indexes the thread table.
pub open spec fn mutex_rec_bounded(m: Mutex, n: nat) -> bool {
    forall|p: int| 0 <= p < m.queue@.len() ==> (#[trigger] m.queue@[p]).0 < n
}

/// Every thread id in the rwlock's wait queues indexes the thread table.
pub open spec fn rwlock_rec_bounded(l: RwLock, n: nat) -> bool {
    &&& forall|p: int| 0 <= p < l.writer_queue@.len() ==> (#[trigger] l.writer_queue@[p]).0 < n
    &&& forall|p: int| 0 <= p < l.reader_queue@.len() ==> (#[trigger] l.reader_queue@[p]).0 < n
}

/// Every waiter of the condvar names a valid thread and a valid mutex, and
/// never waits to reacquire a mutex it still owns.
pub open spec fn condvar_rec_wf(c: Condvar, n: nat, sy: SynchronizationState) -> bool {
    forall|p: int|
        0 <= p < c.waiters@.len() ==> {
            &&& (#[trigger] c.waiters@[p]).thread.0 < n
            &&& sy.valid_mutex(c.waiters@[p].mutex)
            &&& sy.mutex(c.waiters@[p].mutex).owner != Some(c.waiters@[p].thread)
        }
}

/// The emulated machine. `F` is the host interpreter's call-frame type.
pub struct Machine<F> {
    /// The guest threads, the synchronization primitives, and the pending
    /// timeout callbacks.
    pub threads: ThreadManager<F>,
    /// The guest target's pointer size in bytes (4 or 8); it decides where
    /// the kind field of a `pthread_mutex_t` lives.
    pub pointer_bytes: u32,
    /// Whether the guest may observe the host's real clocks. With isolation
    /// enforced (`communicate == false`), operations that read the wall
    /// clock are refused as unsupported.
    pub communicate: bool,
    /// The guest's last error number (`errno`), set by the clock operations
    /// on failure.
    pub last_error: i32,
}

impl<F> Machine<F> {
    /// Shorthand for the synchronization state.
    pub open spec fn sy(self) -> SynchronizationState {
        self.threads.sync
    }

    /// Shorthand for the number of threads.
    pub open spec fn n(self) -> nat {
        self.threads.threads@.len()
    }

    /// Every thread name fits the 15-byte limit `prctl` maintains.
    pub open spec fn names_wf(self) -> bool {
        forall|j: int|
            0 <= j < self.n() ==> ((#[trigger] self.threads.threads@[j]).thread_name matches Some(
                nm,
            ) ==> nm@.len() <= 15)
    }

    /// All mutex records are well formed and their queues bounded.
    pub open spec fn mutexes_wf(self) -> bool {
        forall|i: int|
            0 <= i < self.sy().mutexes@.len() ==> mutex_rec_wf(#[trigger] self.sy().mutexes@[i])
                && mutex_rec_bounded(self.sy().mutexes@[i], self.n())
    }

    /// All rwlock records are well formed and their queues bounded.
    pub open spec fn rwlocks_wf(self) -> bool {
        forall|i: int|
            0 <= i < self.sy().rwlocks@.len() ==> rwlock_rec_wf(#[trigger] self.sy().rwlocks@[i])
                && rwlock_rec_bounded(self.sy().rwlocks@[i], self.n())
    }

    /// All condvar records are well formed.
    pub open spec fn condvars_wf(self) -> bool {
        forall|i: int|
            0 <= i < self.sy().condvars@.len() ==> condvar_rec_wf(
                #[trigger] self.sy().condvars@[i],
                self.n(),
                self.sy(),
            )
    }

    /// Whoever blocks joining a thread has already marked it joined. Since
    /// joining marks the target joined at once, a still-joinable thread has
    /// no blocked joiner at all — so no two threads ever wait to join the
    /// same still-joinable thread.
    #[verifier::opaque]
    pub open spec fn join_wf(self) -> bool {
        &&& forall|j: int|
            0 <= j < self.n() ==> ((#[trigger] self.threads.threads@[j]).state matches
            ThreadState::BlockedOnJoin(t) ==> t.0 < self.n())
        &&& forall|j: int, k: int|
            0 <= j < self.n() && 0 <= k < self.n() && (#[trigger] self.threads.threads@[j]).state
                == ThreadState::BlockedOnJoin(ThreadId(k as u32)) ==> (
            #[trigger] self.threads.threads@[k]).join_status == ThreadJoinStatus::Joined
    }

    /// The accounting of blocked threads:
    /// - a thread with a wait-queue entry is blocked on sync, and has
    ///   exactly that one entry over all queues of all primitives;
    /// - a thread blocked on sync has exactly one entry, unless it sleeps
    ///   (then it has none, and a wake-sleep timeout is pending for it);
    /// - a thread with a pending timeout callback is blocked on sync;
    /// - a sleeping thread's timeout is a wake-sleep and it has no entry;
    /// - a timed-out wait's timeout names the condvar entry of its thread.
    #[verifier::opaque]
    pub open spec fn blocked_wf(self) -> bool {
        &&& forall|t: ThreadId|
            #[trigger] self.sy().total_waits(t) > 0 ==> t.0 < self.n() && self.threads.threads@[
                t.0 as int
            ].state == ThreadState::BlockedOnSync && self.sy().total_waits(t) == 1
        &&& forall|j: int|
            0 <= j < self.n() && (#[trigger] self.threads.threads@[j]).state
                == ThreadState::BlockedOnSync ==> self.sy().total_waits(ThreadId(j as u32)) == 1
                || (self.sy().total_waits(ThreadId(j as u32)) == 0 && self.sleeping(j))
        &&& forall|j: int|
            0 <= j < self.n() && (#[trigger] self.threads.timeout_callbacks@[j]) is Some
                ==> self.threads.threads@[j].state == ThreadState::BlockedOnSync
        &&& forall|j: int|
            0 <= j < self.n() ==> ((#[trigger] self.threads.timeout_callbacks@[j]) matches Some(
                info,
            ) ==> (info.callback is WakeSleep ==> self.sy().total_waits(ThreadId(j as u32)) == 0))
        &&& forall|j: int|
            0 <= j < self.n() ==> ((#[trigger] self.threads.timeout_callbacks@[j]) matches Some(
                info,
            ) ==> (info.callback matches TimeoutCallback::CondTimeout { condvar, mutex } ==> {
                &&& self.sy().valid_condvar(condvar)
                &&& exists|p: int|
                    0 <= p < self.sy().condvar(condvar).waiters@.len() && self.sy().condvar(
                        condvar,
                    ).waiters@[p] == (CondvarWaiter { thread: ThreadId(j as u32), mutex })
            }))
    }

    /// Thread `j`'s pending timeout callback is a wake-sleep (`nanosleep`).
    pub open spec fn sleeping(self, j: int) -> bool {
        self.threads.timeout_callbacks@[j] matches Some(info) && info.callback is WakeSleep
    }

    /// The machine invariant: holds initially and is preserved by every
    /// shim operation, so it holds in every reachable state.
    pub open spec fn inv(self) -> bool {
        &&& self.n() >= 1
        &&& self.n() <= u32::MAX
        &&& self.threads.valid_thread(self.threads.active_thread)
        &&& self.threads.callbacks_parallel()
        &&& self.pointer_bytes == 4 || self.pointer_bytes == 8
        &&& self.names_wf()
        &&& self.mutexes_wf()
        &&& self.rwlocks_wf()
        &&& self.condvars_wf()
        &&& self.join_wf()
        &&& self.blocked_wf()
    }

    /// Nothing observable differs from `pre`.
    pub open spec fn unchanged_from(self, pre: Self) -> bool {
        &&& self.threads.unchanged_from(pre.threads)
        &&& self.pointer_bytes == pre.pointer_bytes
        &&& self.communicate == pre.communicate
        &&& self.last_error == pre.last_error
    }

    /// The host configuration (pointer size, isolation, errno) of `pre`.
    pub open spec fn same_config(self, pre: Self) -> bool {
        &&& self.pointer_bytes == pre.pointer_bytes
        &&& self.communicate == pre.communicate
        &&& self.last_error == pre.last_error
    }

    /// A fresh machine: only the main thread, no primitives, no callbacks.
    pub fn new(pointer_bytes: u32, communicate: bool) -> (r: Machine<F>)
        requires
            pointer_bytes == 4 || pointer_bytes == 8,
        ensures
            r.inv(),
            r.threads.threads@.len() == 1,
            r.threads.thread(ThreadId(0)).state == ThreadState::Enabled,
            r.threads.thread(ThreadId(0)).join_status == ThreadJoinStatus::Detached,
            r.threads.thread(ThreadId(0)).stack@.len() == 0,
            r.threads.active_thread == ThreadId(0),
            r.threads.yield_active_thread == false,
            r.threads.timeout_callbacks@[0] is None,
            r.threads.sync.mutexes@.len() == 0,
            r.threads.sync.rwlocks@.len() == 0,
            r.threads.sync.condvars@.len() == 0,
            r.threads.thread_local_alloc_ids@.len() == 0,
            r.pointer_bytes == pointer_bytes,
            r.communicate == communicate,
            r.last_error == 0,
    {
        let m = Machine {
            threads: ThreadManager::default(),
            pointer_bytes,
            communicate,
            last_error: 0,
        };
        proof {
            reveal(Machine::blocked_wf);
            reveal(Machine::join_wf);
            assert forall|t: ThreadId| #[trigger] m.sy().total_waits(t) == 0 by {
                assert(m.sy().mutexes@.len() == 0);
            }
        }
        m
    }
}

/// The join bookkeeping is preserved whenever the thread table is.
pub proof fn lemma_join_wf_preserved<F>(pre: Machine<F>, post: Machine<F>)
    requires
        pre.join_wf(),
        post.n() == pre.n(),
        forall|j: int|
            0 <= j < pre.n() ==> (#[trigger] post.threads.threads@[j]).state
                == pre.threads.threads@[j].state,
        forall|j: int|
            0 <= j < pre.n() ==> (#[trigger] post.threads.threads@[j]).join_status
                == pre.threads.threads@[j].join_status,
    ensures
        post.join_wf(),
{
    reveal(Machine::join_wf);
    assert forall|j: int|
        0 <= j < post.n() implies ((#[trigger] post.threads.threads@[j]).state matches
    ThreadState::BlockedOnJoin(t) ==> t.0 < post.n()) by {
        match post.threads.threads@[j].state {
            ThreadState::BlockedOnJoin(t) => {
                assert(pre.threads.threads@[j].state == ThreadState::BlockedOnJoin(t));
            },
            _ => {},
        }
    }
    assert forall|j: int, k: int|
        0 <= j < post.n() && 0 <= k < post.n() && (#[trigger] post.threads.threads@[j]).state
            == ThreadState::BlockedOnJoin(ThreadId(k as u32)) implies (
    #[trigger] post.threads.threads@[k]).join_status == ThreadJoinStatus::Joined by {
        assert(pre.threads.threads@[j].state == ThreadState::BlockedOnJoin(ThreadId(k as u32)));
        assert(pre.threads.threads@[k].join_status == ThreadJoinStatus::Joined);
    }
}

/// The blocked-thread accounting is preserved when threads, callbacks,
/// per-thread totals and all pre-existing condvar records are preserved
/// (the condvar table may have grown).
pub proof fn lemma_blocked_wf_preserved<F>(pre: Machine<F>, post: Machine<F>)
    requires
        pre.blocked_wf(),
        post.n() == pre.n(),
        forall|j: int|
            0 <= j < pre.n() ==> (#[trigger] post.threads.threads@[j]).state
                == pre.threads.threads@[j].state,
        post.threads.timeout_callbacks@ == pre.threads.timeout_callbacks@,
        forall|t: ThreadId| #[trigger] post.sy().total_waits(t) == pre.sy().total_waits(t),
        post.sy().condvars@.len() >= pre.sy().condvars@.len(),
        forall|j: int|
            0 <= j < pre.sy().condvars@.len() ==> #[trigger] post.sy().condvars@[j]
                == pre.sy().condvars@[j],
    ensures
        post.blocked_wf(),
{
    reveal(Machine::blocked_wf);
    assert forall|t: ThreadId|
        #[trigger] post.sy().total_waits(t) > 0 implies t.0 < post.n() && post.threads.threads@[
        t.0 as int
    ].state == ThreadState::BlockedOnSync && post.sy().total_waits(t) == 1 by {
        assert(pre.sy().total_waits(t) > 0);
    }
    assert forall|j: int|
        0 <= j < post.n() && (#[trigger] post.threads.threads@[j]).state
            == ThreadState::BlockedOnSync implies post.sy().total_waits(ThreadId(j as u32)) == 1
        || (post.sy().total_waits(ThreadId(j as u32)) == 0 && post.sleeping(j)) by {
        assert(pre.threads.threads@[j].state == ThreadState::BlockedOnSync);
    }
    assert forall|j: int|
        0 <= j < post.n() implies ((#[trigger] post.threads.timeout_callbacks@[j]) matches Some(
        info,
    ) ==> (info.callback matches TimeoutCallback::CondTimeout { condvar, mutex } ==> {
        &&& post.sy().valid_condvar(condvar)
        &&& exists|p: int|
            0 <= p < post.sy().condvar(condvar).waiters@.len() && post.sy().condvar(
                condvar,
            ).waiters@[p] == (CondvarWaiter { thread: ThreadId(j as u32), mutex })
    })) by {
        match post.threads.timeout_callbacks@[j] {
            Some(info) => match info.callback {
                TimeoutCallback::CondTimeout { condvar, mutex: _ } => {
                    assert(pre.sy().valid_condvar(condvar));
                    assert(post.sy().condvar(condvar) == pre.sy().condvar(condvar));
                },
                _ => {},
            },
            None => {},
        }
    }
}

/// All condvar records stay well formed when they are preserved, the thread
/// count is preserved, and every pre-existing mutex record is preserved
/// (the mutex table may have grown).
pub proof fn lemma_condvars_wf_preserved<F>(pre: Machine<F>, post: Machine<F>)
    requires
        pre.condvars_wf(),
        post.n() == pre.n(),
        post.sy().condvars@ == pre.sy().condvars@,
        post.sy().mutexes@.len() >= pre.sy().mutexes@.len(),
        forall|j: int|
            0 <= j < pre.sy().mutexes@.len() ==> #[trigger] post.sy().mutexes@[j]
                == pre.sy().mutexes@[j],
    ensures
        post.condvars_wf(),
{
    assert forall|i: int|
        0 <= i < post.sy().condvars@.len() implies condvar_rec_wf(
        #[trigger] post.sy().condvars@[i],
        post.n(),
        post.sy(),
    ) by {
        assert(condvar_rec_wf(pre.sy().condvars@[i], pre.n(), pre.sy()));
        let c = post.sy().condvars@[i];
        assert forall|p: int| 0 <= p < c.waiters@.len() implies {
            &&& (#[trigger] c.waiters@[p]).thread.0 < post.n()
            &&& post.sy().valid_mutex(c.waiters@[p].mutex)
            &&& post.sy().mutex(c.waiters@[p].mutex).owner != Some(c.waiters@[p].thread)
        } by {
            assert(c.waiters@[p].thread.0 < pre.n());
            assert(pre.sy().valid_mutex(c.waiters@[p].mutex));
            assert(post.sy().mutex(c.waiters@[p].mutex) == pre.sy().mutex(c.waiters@[p].mutex));
        }
    }
}





impl<F> Machine<F> {
    /// Decide the next scheduling action (see
    /// [`ThreadManager::schedule`] for the policy and the exact cases),
    /// preserving the machine invariant.
    pub fn schedule(&mut self) -> (r: Result<crate::thread::SchedulingAction, MachineStop>)
        requires
            old(self).inv(),
        ensures
            final(self).inv(),
            final(self).same_config(*old(self)),
            final(self).sy().unchanged_from(old(self).sy()),
            final(self).threads.timeout_callbacks@ == old(self).threads.timeout_callbacks@,
            old(self).threads.spec_terminating() ==> {
                &&& r == Ok::<crate::thread::SchedulingAction, MachineStop>(
                    crate::thread::SchedulingAction::ExecuteDtors,
                )
                &&& final(self).threads.threads@ == old(self).threads.after_termination()
            },
            !old(self).threads.spec_terminating() && old(self).threads.spec_main_terminated()
                ==> {
                &&& final(self).threads.unchanged_from(old(self).threads)
                &&& old(self).threads.spec_all_terminated() ==> r == Ok::<
                    crate::thread::SchedulingAction,
                    MachineStop,
                >(crate::thread::SchedulingAction::Stop)
                &&& !old(self).threads.spec_all_terminated() ==> r == Err::<
                    crate::thread::SchedulingAction,
                    MachineStop,
                >(MachineStop::Unsupported)
            },
            !old(self).threads.spec_terminating() && !old(self).threads.spec_main_terminated()
                && !old(self).threads.spec_must_pick() ==> final(self).threads.unchanged_from(
                old(self).threads,
            ) && r == Ok::<crate::thread::SchedulingAction, MachineStop>(
                crate::thread::SchedulingAction::ExecuteStep,
            ),
            !old(self).threads.spec_terminating() && !old(self).threads.spec_main_terminated()
                && old(self).threads.spec_must_pick() ==> {
                &&& final(self).threads.threads@ == old(self).threads.threads@
                &&& final(self).threads.yield_active_thread == false
                &&& (exists|j: int|
                    crate::thread::runnable_candidate(
                        old(self).threads.threads@,
                        old(self).threads.yield_active_thread,
                        old(self).threads.active_thread,
                        j,
                    )) ==> r == Ok::<crate::thread::SchedulingAction, MachineStop>(
                    crate::thread::SchedulingAction::ExecuteStep,
                ) && crate::thread::runnable_candidate(
                    old(self).threads.threads@,
                    old(self).threads.yield_active_thread,
                    old(self).threads.active_thread,
                    final(self).threads.active_thread.0 as int,
                )
                &&& !(exists|j: int|
                    crate::thread::runnable_candidate(
                        old(self).threads.threads@,
                        old(self).threads.yield_active_thread,
                        old(self).threads.active_thread,
                        j,
                    )) ==> {
                    &&& final(self).threads.active_thread == old(self).threads.active_thread
                    &&& (old(self).threads.state_of(old(self).threads.active_thread)
                        == ThreadState::Enabled ==> r == Ok::<
                        crate::thread::SchedulingAction,
                        MachineStop,
                    >(crate::thread::SchedulingAction::ExecuteStep))
                    &&& (old(self).threads.state_of(old(self).threads.active_thread)
                        != ThreadState::Enabled ==> {
                        &&& old(self).threads.spec_any_callback() ==> r == Ok::<
                            crate::thread::SchedulingAction,
                            MachineStop,
                        >(crate::thread::SchedulingAction::ExecuteTimeoutCallback)
                        &&& !old(self).threads.spec_any_callback() ==> r == Err::<
                            crate::thread::SchedulingAction,
                            MachineStop,
                        >(MachineStop::Deadlock)
                    })
                }
            },
    {
        let ghost pre = *self;
        let r = self.threads.schedule();
        proof {
            lemma_inv_after_schedule(pre, *self);
        }
        r
    }
}

/// The machine invariant is preserved by one scheduling decision: the only
/// thread-state changes it can make are marking the just-finished active
/// thread terminated and enabling the threads that were blocked joining it.
proof fn lemma_inv_after_schedule<F>(pre: Machine<F>, post: Machine<F>)
    requires
        pre.inv(),
        post.pointer_bytes == pre.pointer_bytes,
        post.threads.timeout_callbacks@ == pre.threads.timeout_callbacks@,
        post.threads.thread_local_alloc_ids@ == pre.threads.thread_local_alloc_ids@,
        post.sy().unchanged_from(pre.sy()),
        post.threads.valid_thread(post.threads.active_thread),
        post.n() == pre.n(),
        pre.threads.spec_terminating() ==> post.threads.threads@
            == pre.threads.after_termination(),
        !pre.threads.spec_terminating() ==> post.threads.threads@ == pre.threads.threads@,
    ensures
        post.inv(),
{
    assert forall|t: ThreadId| #[trigger] post.sy().total_waits(t) == pre.sy().total_waits(t) by {}
    lemma_condvars_wf_preserved(pre, post);
    if pre.threads.spec_terminating() {
        assert forall|j: int|
            0 <= j < pre.n() implies (#[trigger] post.threads.threads@[j]).join_status
            == pre.threads.threads@[j].join_status && post.threads.threads@[j].thread_name
            == pre.threads.threads@[j].thread_name by {}
        assert forall|j: int|
            0 <= j < pre.n() && (#[trigger] post.threads.threads@[j]).state
                != pre.threads.threads@[j].state implies pre.threads.threads@[j].state
            != ThreadState::BlockedOnSync && post.threads.threads@[j].state
            != ThreadState::BlockedOnSync by {}
        assert(post.join_wf()) by {
            reveal(Machine::join_wf);
            assert forall|j: int|
                0 <= j < post.n() implies ((#[trigger] post.threads.threads@[j]).state matches
            ThreadState::BlockedOnJoin(t) ==> t.0 < post.n()) by {
                match post.threads.threads@[j].state {
                    ThreadState::BlockedOnJoin(t) => {
                        assert(pre.threads.threads@[j].state == ThreadState::BlockedOnJoin(t));
                    },
                    _ => {},
                }
            }
            assert forall|j: int, k: int|
                0 <= j < post.n() && 0 <= k < post.n() && (#[trigger] post.threads.threads@[j]).state
                    == ThreadState::BlockedOnJoin(ThreadId(k as u32)) implies (
            #[trigger] post.threads.threads@[k]).join_status == ThreadJoinStatus::Joined by {
                assert(pre.threads.threads@[j].state == ThreadState::BlockedOnJoin(
                    ThreadId(k as u32),
                ));
                assert(pre.threads.threads@[k].join_status == ThreadJoinStatus::Joined);
            }
        }
        assert(post.blocked_wf()) by {
            reveal(Machine::blocked_wf);
            assert forall|t: ThreadId|
                #[trigger] post.sy().total_waits(t) > 0 implies t.0 < post.n()
                && post.threads.threads@[t.0 as int].state == ThreadState::BlockedOnSync
                && post.sy().total_waits(t) == 1 by {
                assert(pre.sy().total_waits(t) > 0);
                assert(pre.threads.threads@[t.0 as int].state == ThreadState::BlockedOnSync);
            }
            assert forall|j: int|
                0 <= j < post.n() && (#[trigger] post.threads.threads@[j]).state
                    == ThreadState::BlockedOnSync implies post.sy().total_waits(ThreadId(j as u32))
                == 1 || (post.sy().total_waits(ThreadId(j as u32)) == 0 && post.sleeping(j)) by {
                assert(pre.threads.threads@[j].state == ThreadState::BlockedOnSync);
            }
            assert forall|j: int|
                0 <= j < post.n() && (#[trigger] post.threads.timeout_callbacks@[j]) is Some implies post.threads.threads@[j].state
                == ThreadState::BlockedOnSync by {
                assert(pre.threads.threads@[j].state == ThreadState::BlockedOnSync);
            }
            assert(post.threads.timeout_callbacks@ =~= pre.threads.timeout_callbacks@.update(
                0,
                pre.threads.timeout_callbacks@[0],
            ));
            lemma_condtimeout_entries_preserved(
                pre,
                post,
                ThreadId(0),
                pre.threads.timeout_callbacks@[0],
            );
        }
    } else {
        lemma_join_wf_preserved(pre, post);
        lemma_blocked_wf_preserved(pre, post);
    }
}

/// The invariant carries over to a machine whose observable state is the
/// same (the opaque clauses speak only of the views that are equal).
pub proof fn lemma_inv_unchanged<F>(pre: Machine<F>, post: Machine<F>)
    requires
        pre.inv(),
        post.threads.unchanged_from(pre.threads),
        post.pointer_bytes == pre.pointer_bytes,
    ensures
        post.inv(),
{
    assert forall|t: ThreadId| #[trigger] post.sy().total_waits(t) == pre.sy().total_waits(t) by {}
    lemma_join_wf_preserved(pre, post);
    lemma_condvars_wf_preserved(pre, post);
    lemma_blocked_wf_preserved(pre, post);
}

/// Condvar well-formedness is preserved when no mutex changes its owner.
pub proof fn lemma_condvars_wf_same_owners<F>(pre: Machine<F>, post: Machine<F>)
    requires
        pre.condvars_wf(),
        post.n() == pre.n(),
        post.sy().condvars@ == pre.sy().condvars@,
        post.sy().mutexes@.len() == pre.sy().mutexes@.len(),
        forall|i: int|
            0 <= i < pre.sy().mutexes@.len() ==> (#[trigger] post.sy().mutexes@[i]).owner
                == pre.sy().mutexes@[i].owner,
    ensures
        post.condvars_wf(),
{
    assert forall|i: int|
        0 <= i < post.sy().condvars@.len() implies condvar_rec_wf(
        #[trigger] post.sy().condvars@[i],
        post.n(),
        post.sy(),
    ) by {
        assert(condvar_rec_wf(pre.sy().condvars@[i], pre.n(), pre.sy()));
        let c = post.sy().condvars@[i];
        assert forall|p: int| 0 <= p < c.waiters@.len() implies {
            &&& (#[trigger] c.waiters@[p]).thread.0 < post.n()
            &&& post.sy().valid_mutex(c.waiters@[p].mutex)
            &&& post.sy().mutex(c.waiters@[p].mutex).owner != Some(c.waiters@[p].thread)
        } by {
            assert(pre.sy().valid_mutex(c.waiters@[p].mutex));
            assert(post.sy().mutex(c.waiters@[p].mutex).owner == pre.sy().mutex(
                c.waiters@[p].mutex,
            ).owner);
        }
    }
}

/// Condvar well-formedness is preserved when one mutex changes its owner,
/// provided the new owner (if any) waits on no condvar.
pub proof fn lemma_condvars_wf_new_owner<F>(
    pre: Machine<F>,
    post: Machine<F>,
    id: crate::sync::MutexId,
)
    requires
        pre.condvars_wf(),
        post.n() == pre.n(),
        post.sy().condvars@ == pre.sy().condvars@,
        post.sy().mutexes@.len() == pre.sy().mutexes@.len(),
        pre.sy().valid_mutex(id),
        forall|i: int|
            0 <= i < pre.sy().mutexes@.len() && i != id.idx() ==> (#[trigger] post.sy().mutexes@[i]).owner
                == pre.sy().mutexes@[i].owner,
        post.sy().mutex(id).owner matches Some(x) ==> crate::sync::condvars_waits(
            pre.sy().condvars@,
            x,
        ) == 0,
    ensures
        post.condvars_wf(),
{
    assert forall|i: int|
        0 <= i < post.sy().condvars@.len() implies condvar_rec_wf(
        #[trigger] post.sy().condvars@[i],
        post.n(),
        post.sy(),
    ) by {
        assert(condvar_rec_wf(pre.sy().condvars@[i], pre.n(), pre.sy()));
        let c = post.sy().condvars@[i];
        assert forall|p: int| 0 <= p < c.waiters@.len() implies {
            &&& (#[trigger] c.waiters@[p]).thread.0 < post.n()
            &&& post.sy().valid_mutex(c.waiters@[p].mutex)
            &&& post.sy().mutex(c.waiters@[p].mutex).owner != Some(c.waiters@[p].thread)
        } by {
            assert(pre.sy().valid_mutex(c.waiters@[p].mutex));
            if c.waiters@[p].mutex == id {
                match post.sy().mutex(id).owner {
                    Some(x) => {
                        if c.waiters@[p].thread == x {
                            crate::sync::lemma_count_waiters_positive(c.waiters@, x, p);
                            crate::sync::lemma_condvars_waits_bound(pre.sy().condvars@, i, x);
                        }
                    },
                    None => {},
                }
            } else {
                assert(post.sy().mutex(c.waiters@[p].mutex).owner == pre.sy().mutex(
                    c.waiters@[p].mutex,
                ).owner);
            }
        }
    }
}

/// Join bookkeeping is preserved when join statuses are unchanged and no
/// thread newly enters a blocked-on-join state.
pub proof fn lemma_join_wf_no_new_joins<F>(pre: Machine<F>, post: Machine<F>)
    requires
        pre.join_wf(),
        post.n() == pre.n(),
        forall|j: int|
            0 <= j < pre.n() ==> (#[trigger] post.threads.threads@[j]).join_status
                == pre.threads.threads@[j].join_status,
        forall|j: int|
            0 <= j < pre.n() ==> ((#[trigger] post.threads.threads@[j]).state matches
            ThreadState::BlockedOnJoin(t) ==> post.threads.threads@[j].state
                == pre.threads.threads@[j].state),
    ensures
        post.join_wf(),
{
    reveal(Machine::join_wf);
    assert forall|j: int|
        0 <= j < post.n() implies ((#[trigger] post.threads.threads@[j]).state matches
    ThreadState::BlockedOnJoin(t) ==> t.0 < post.n()) by {
        match post.threads.threads@[j].state {
            ThreadState::BlockedOnJoin(t) => {
                assert(post.threads.threads@[j].state == pre.threads.threads@[j].state);
            },
            _ => {},
        }
    }
    assert forall|j: int, k: int|
        0 <= j < post.n() && 0 <= k < post.n() && (#[trigger] post.threads.threads@[j]).state
            == ThreadState::BlockedOnJoin(ThreadId(k as u32)) implies (
    #[trigger] post.threads.threads@[k]).join_status == ThreadJoinStatus::Joined by {
        assert(pre.threads.threads@[j].state == ThreadState::BlockedOnJoin(ThreadId(k as u32)));
        assert(pre.threads.threads@[k].join_status == ThreadJoinStatus::Joined);
    }
}

/// A thread that is not blocked on sync stands in no wait queue and has no
/// pending timeout callback.
pub proof fn lemma_not_blocked_no_waits<F>(m: Machine<F>, t: ThreadId)
    requires
        m.blocked_wf(),
        m.threads.callbacks_parallel(),
        t.0 < m.n(),
        m.threads.threads@[t.0 as int].state != ThreadState::BlockedOnSync,
    ensures
        m.sy().total_waits(t) == 0,
        m.threads.timeout_callbacks@[t.0 as int] is None,
{
    reveal(Machine::blocked_wf);
    if m.sy().total_waits(t) > 0 {
    }
    if m.threads.timeout_callbacks@[t.0 as int] is Some {
    }
}

/// A thread standing in some mutex wait queue is blocked on sync, stands in
/// exactly that one queue over all primitives, and has no pending timeout.
pub proof fn lemma_thread_in_mutex_queue<F>(m: Machine<F>, id: crate::sync::MutexId, h: ThreadId)
    requires
        m.blocked_wf(),
        m.threads.callbacks_parallel(),
        m.sy().valid_mutex(id),
        count_tid(m.sy().mutex(id).queue@, h) >= 1,
    ensures
        h.0 < m.n(),
        m.threads.threads@[h.0 as int].state == ThreadState::BlockedOnSync,
        m.sy().total_waits(h) == 1,
        mutex_waits(m.sy().mutex(id), h) == 1,
        crate::sync::mutexes_waits(m.sy().mutexes@, h) == 1,
        crate::sync::rwlocks_waits(m.sy().rwlocks@, h) == 0,
        crate::sync::condvars_waits(m.sy().condvars@, h) == 0,
        m.threads.timeout_callbacks@[h.0 as int] is None,
{
    reveal(Machine::blocked_wf);
    crate::sync::lemma_mutexes_waits_bound(m.sy().mutexes@, id.idx(), h);
    assert(m.sy().total_waits(h) >= 1);
    assert(m.sy().total_waits(h) == 1);
    match m.threads.timeout_callbacks@[h.0 as int] {
        Some(info) => match info.callback {
            TimeoutCallback::WakeSleep => {
                assert(false);
            },
            TimeoutCallback::CondTimeout { condvar, mutex: _ } => {
                let p = choose|p: int|
                    0 <= p < m.sy().condvar(condvar).waiters@.len() && m.sy().condvar(
                        condvar,
                    ).waiters@[p].thread == h;
                crate::sync::lemma_count_waiters_positive(m.sy().condvar(condvar).waiters@, h, p);
                crate::sync::lemma_condvars_waits_bound(m.sy().condvars@, condvar.idx(), h);
                assert(false);
            },
        },
        None => {},
    }
}

/// A thread standing in some rwlock wait queue is blocked on sync, stands
/// in exactly that one queue, and has no pending timeout.
pub proof fn lemma_thread_in_rwlock_queue<F>(m: Machine<F>, id: crate::sync::RwLockId, h: ThreadId)
    requires
        m.blocked_wf(),
        m.threads.callbacks_parallel(),
        m.sy().valid_rwlock(id),
        rwlock_waits(m.sy().rwlock(id), h) >= 1,
    ensures
        h.0 < m.n(),
        m.threads.threads@[h.0 as int].state == ThreadState::BlockedOnSync,
        m.sy().total_waits(h) == 1,
        rwlock_waits(m.sy().rwlock(id), h) == 1,
        crate::sync::rwlocks_waits(m.sy().rwlocks@, h) == 1,
        crate::sync::mutexes_waits(m.sy().mutexes@, h) == 0,
        crate::sync::condvars_waits(m.sy().condvars@, h) == 0,
        m.threads.timeout_callbacks@[h.0 as int] is None,
{
    reveal(Machine::blocked_wf);
    crate::sync::lemma_rwlocks_waits_bound(m.sy().rwlocks@, id.idx(), h);
    assert(m.sy().total_waits(h) >= 1);
    assert(m.sy().total_waits(h) == 1);
    match m.threads.timeout_callbacks@[h.0 as int] {
        Some(info) => match info.callback {
            TimeoutCallback::WakeSleep => {
                assert(false);
            },
            TimeoutCallback::CondTimeout { condvar, mutex: _ } => {
                let p = choose|p: int|
                    0 <= p < m.sy().condvar(condvar).waiters@.len() && m.sy().condvar(
                        condvar,
                    ).waiters@[p].thread == h;
                crate::sync::lemma_count_waiters_positive(m.sy().condvar(condvar).waiters@, h, p);
                crate::sync::lemma_condvars_waits_bound(m.sy().condvars@, condvar.idx(), h);
                assert(false);
            },
        },
        None => {},
    }
}

/// A thread standing in some condvar waiter list is blocked on sync, waits
/// exactly there, and any pending timeout of it is a timed-wait timeout.
pub proof fn lemma_thread_in_condvar<F>(m: Machine<F>, id: crate::sync::CondvarId, h: ThreadId)
    requires
        m.blocked_wf(),
        m.threads.callbacks_parallel(),
        m.sy().valid_condvar(id),
        condvar_waits(m.sy().condvar(id), h) >= 1,
    ensures
        h.0 < m.n(),
        m.threads.threads@[h.0 as int].state == ThreadState::BlockedOnSync,
        m.sy().total_waits(h) == 1,
        condvar_waits(m.sy().condvar(id), h) == 1,
        crate::sync::condvars_waits(m.sy().condvars@, h) == 1,
        crate::sync::mutexes_waits(m.sy().mutexes@, h) == 0,
        crate::sync::rwlocks_waits(m.sy().rwlocks@, h) == 0,
        m.threads.timeout_callbacks@[h.0 as int] matches Some(info) ==> info.callback matches
            TimeoutCallback::CondTimeout { condvar, mutex },
{
    reveal(Machine::blocked_wf);
    crate::sync::lemma_condvars_waits_bound(m.sy().condvars@, id.idx(), h);
    assert(m.sy().total_waits(h) >= 1);
    assert(m.sy().total_waits(h) == 1);
    match m.threads.timeout_callbacks@[h.0 as int] {
        Some(info) => match info.callback {
            TimeoutCallback::WakeSleep => {
                assert(false);
            },
            TimeoutCallback::CondTimeout { condvar: _, mutex: _ } => {},
        },
        None => {},
    }
}

/// The blocked-thread accounting after an enabled thread `a` blocks and
/// acquires exactly one wait-queue entry, with condvars untouched.
pub proof fn lemma_blocked_wf_after_block<F>(pre: Machine<F>, post: Machine<F>, a: ThreadId)
    requires
        pre.blocked_wf(),
        pre.threads.callbacks_parallel(),
        pre.n() <= u32::MAX,
        a.0 < pre.n(),
        pre.threads.threads@[a.0 as int].state == ThreadState::Enabled,
        post.n() == pre.n(),
        post.threads.threads@ == pre.threads.threads@.update(
            a.0 as int,
            (Thread { state: ThreadState::BlockedOnSync, ..pre.threads.threads@[a.0 as int] }),
        ),
        post.threads.timeout_callbacks@ == pre.threads.timeout_callbacks@,
        forall|t: ThreadId| t != a ==> #[trigger] post.sy().total_waits(t) == pre.sy().total_waits(
            t,
        ),
        post.sy().total_waits(a) == 1,
        post.sy().condvars@ == pre.sy().condvars@,
    ensures
        post.blocked_wf(),
{
    reveal(Machine::blocked_wf);
    assert(pre.sy().total_waits(a) == 0 || pre.sy().total_waits(a) > 0);
    assert forall|t: ThreadId|
        #[trigger] post.sy().total_waits(t) > 0 implies t.0 < post.n() && post.threads.threads@[
        t.0 as int
    ].state == ThreadState::BlockedOnSync && post.sy().total_waits(t) == 1 by {
        if t != a {
            assert(pre.sy().total_waits(t) > 0);
            assert(t.0 != a.0);
        }
    }
    assert forall|j: int|
        0 <= j < post.n() && (#[trigger] post.threads.threads@[j]).state
            == ThreadState::BlockedOnSync implies post.sy().total_waits(ThreadId(j as u32)) == 1
        || (post.sy().total_waits(ThreadId(j as u32)) == 0 && post.sleeping(j)) by {
        if j != a.0 {
            assert(pre.threads.threads@[j].state == ThreadState::BlockedOnSync);
            assert(ThreadId(j as u32) != a);
        }
    }
    assert forall|j: int|
        0 <= j < post.n() && (#[trigger] post.threads.timeout_callbacks@[j]) is Some implies post.threads.threads@[j].state
        == ThreadState::BlockedOnSync by {}
    assert forall|j: int|
        0 <= j < post.n() implies ((#[trigger] post.threads.timeout_callbacks@[j]) matches Some(
        info,
    ) ==> (info.callback is WakeSleep ==> post.sy().total_waits(ThreadId(j as u32)) == 0)) by {
        match post.threads.timeout_callbacks@[j] {
            Some(info) => {
                if j == a.0 {
                    assert(pre.threads.threads@[j].state == ThreadState::BlockedOnSync);
                    assert(false);
                } else {
                    assert(ThreadId(j as u32) != a);
                }
            },
            None => {},
        }
    }
    assert forall|j: int|
        0 <= j < post.n() implies ((#[trigger] post.threads.timeout_callbacks@[j]) matches Some(
        info,
    ) ==> (info.callback matches TimeoutCallback::CondTimeout { condvar, mutex } ==> {
        &&& post.sy().valid_condvar(condvar)
        &&& exists|p: int|
            0 <= p < post.sy().condvar(condvar).waiters@.len() && post.sy().condvar(
                condvar,
            ).waiters@[p] == (CondvarWaiter { thread: ThreadId(j as u32), mutex })
    })) by {
        match post.threads.timeout_callbacks@[j] {
            Some(info) => match info.callback {
                TimeoutCallback::CondTimeout { condvar, mutex: _ } => {
                    assert(pre.sy().valid_condvar(condvar));
                    assert(post.sy().condvar(condvar) == pre.sy().condvar(condvar));
                },
                _ => {},
            },
            None => {},
        }
    }
}

/// The blocked-thread accounting after a blocked thread `h` loses its only
/// wait-queue entry and is woken, with condvars untouched and `h` having no
/// pending timeout.
pub proof fn lemma_blocked_wf_after_wake<F>(pre: Machine<F>, post: Machine<F>, h: ThreadId)
    requires
        pre.blocked_wf(),
        pre.threads.callbacks_parallel(),
        pre.n() <= u32::MAX,
        h.0 < pre.n(),
        post.n() == pre.n(),
        post.threads.threads@ == pre.threads.threads@.update(
            h.0 as int,
            (Thread { state: ThreadState::Enabled, ..pre.threads.threads@[h.0 as int] }),
        ),
        post.threads.timeout_callbacks@ == pre.threads.timeout_callbacks@,
        pre.threads.timeout_callbacks@[h.0 as int] is None,
        forall|t: ThreadId| t != h ==> #[trigger] post.sy().total_waits(t) == pre.sy().total_waits(
            t,
        ),
        post.sy().total_waits(h) == 0,
        post.sy().condvars@ == pre.sy().condvars@,
    ensures
        post.blocked_wf(),
{
    reveal(Machine::blocked_wf);
    assert forall|t: ThreadId|
        #[trigger] post.sy().total_waits(t) > 0 implies t.0 < post.n() && post.threads.threads@[
        t.0 as int
    ].state == ThreadState::BlockedOnSync && post.sy().total_waits(t) == 1 by {
        assert(t != h);
        assert(pre.sy().total_waits(t) > 0);
        assert(t.0 != h.0);
    }
    assert forall|j: int|
        0 <= j < post.n() && (#[trigger] post.threads.threads@[j]).state
            == ThreadState::BlockedOnSync implies post.sy().total_waits(ThreadId(j as u32)) == 1
        || (post.sy().total_waits(ThreadId(j as u32)) == 0 && post.sleeping(j)) by {
        assert(j != h.0);
        assert(pre.threads.threads@[j].state == ThreadState::BlockedOnSync);
        assert(ThreadId(j as u32) != h);
    }
    assert forall|j: int|
        0 <= j < post.n() && (#[trigger] post.threads.timeout_callbacks@[j]) is Some implies post.threads.threads@[j].state
        == ThreadState::BlockedOnSync by {
        if j == h.0 {
            assert(false);
        }
    }
    assert forall|j: int|
        0 <= j < post.n() implies ((#[trigger] post.threads.timeout_callbacks@[j]) matches Some(
        info,
    ) ==> (info.callback is WakeSleep ==> post.sy().total_waits(ThreadId(j as u32)) == 0)) by {
        match post.threads.timeout_callbacks@[j] {
            Some(info) => {
                if j == h.0 {
                    assert(false);
                } else {
                    assert(ThreadId(j as u32) != h);
                }
            },
            None => {},
        }
    }
    assert forall|j: int|
        0 <= j < post.n() implies ((#[trigger] post.threads.timeout_callbacks@[j]) matches Some(
        info,
    ) ==> (info.callback matches TimeoutCallback::CondTimeout { condvar, mutex } ==> {
        &&& post.sy().valid_condvar(condvar)
        &&& exists|p: int|
            0 <= p < post.sy().condvar(condvar).waiters@.len() && post.sy().condvar(
                condvar,
            ).waiters@[p] == (CondvarWaiter { thread: ThreadId(j as u32), mutex })
    })) by {
        match post.threads.timeout_callbacks@[j] {
            Some(info) => match info.callback {
                TimeoutCallback::CondTimeout { condvar, mutex: _ } => {
                    assert(pre.sy().valid_condvar(condvar));
                    assert(post.sy().condvar(condvar) == pre.sy().condvar(condvar));
                },
                _ => {},
            },
            None => {},
        }
    }
}

/// The machine invariant after a timed-wait timeout is registered for a
/// thread that waits on the named condvar to reacquire the named mutex.
pub proof fn lemma_inv_after_register_condtimeout<F>(
    pre: Machine<F>,
    post: Machine<F>,
    a: ThreadId,
    info: crate::thread::TimeoutCallbackInfo,
    c: crate::sync::CondvarId,
    mu: crate::sync::MutexId,
)
    requires
        pre.inv(),
        a.0 < pre.n(),
        pre.threads.threads@[a.0 as int].state == ThreadState::BlockedOnSync,
        pre.threads.timeout_callbacks@[a.0 as int] is None,
        info.callback == (TimeoutCallback::CondTimeout { condvar: c, mutex: mu }),
        pre.sy().valid_condvar(c),
        exists|p: int|
            0 <= p < pre.sy().condvar(c).waiters@.len() && pre.sy().condvar(c).waiters@[p] == (
            CondvarWaiter { thread: a, mutex: mu }),
        post.threads.threads@ == pre.threads.threads@,
        post.threads.timeout_callbacks@ == pre.threads.timeout_callbacks@.update(
            a.0 as int,
            Some(info),
        ),
        post.threads.active_thread == pre.threads.active_thread,
        post.threads.yield_active_thread == pre.threads.yield_active_thread,
        post.threads.thread_local_alloc_ids@ == pre.threads.thread_local_alloc_ids@,
        post.sy().mutexes@ == pre.sy().mutexes@,
        post.sy().rwlocks@ == pre.sy().rwlocks@,
        post.sy().condvars@ == pre.sy().condvars@,
        post.pointer_bytes == pre.pointer_bytes,
    ensures
        post.inv(),
{
    reveal(Machine::blocked_wf);
    assert forall|t: ThreadId| #[trigger] post.sy().total_waits(t) == pre.sy().total_waits(t) by {}
    lemma_join_wf_preserved(pre, post);
    lemma_condvars_wf_preserved(pre, post);
    let p = choose|p: int|
        0 <= p < pre.sy().condvar(c).waiters@.len() && pre.sy().condvar(c).waiters@[p] == (
        CondvarWaiter { thread: a, mutex: mu });
    crate::sync::lemma_count_waiters_positive(pre.sy().condvar(c).waiters@, a, p);
    crate::sync::lemma_condvars_waits_bound(pre.sy().condvars@, c.idx(), a);
    assert(pre.sy().total_waits(a) >= 1);
    lemma_condtimeout_entries_preserved(pre, post, a, Some(info));
}

/// The timed-wait clause of the blocked-thread accounting carries over when
/// no condvar changed and only thread `a`'s callback slot was rewritten (to
/// `newcb`, which — if it is a timed wait — names an existing entry).
pub proof fn lemma_condtimeout_entries_preserved<F>(
    pre: Machine<F>,
    post: Machine<F>,
    a: ThreadId,
    newcb: Option<crate::thread::TimeoutCallbackInfo>,
)
    requires
        pre.blocked_wf(),
        pre.threads.callbacks_parallel(),
        pre.n() <= u32::MAX,
        a.0 < pre.n(),
        post.n() == pre.n(),
        post.threads.timeout_callbacks@ == pre.threads.timeout_callbacks@.update(
            a.0 as int,
            newcb,
        ),
        post.sy().condvars@ == pre.sy().condvars@,
        newcb matches Some(info) ==> (info.callback matches TimeoutCallback::CondTimeout {
            condvar,
            mutex,
        } ==> {
            &&& pre.sy().valid_condvar(condvar)
            &&& exists|p: int|
                0 <= p < pre.sy().condvar(condvar).waiters@.len() && pre.sy().condvar(
                    condvar,
                ).waiters@[p] == (CondvarWaiter { thread: a, mutex })
        }),
    ensures
        forall|j: int|
            0 <= j < post.n() ==> ((#[trigger] post.threads.timeout_callbacks@[j]) matches Some(
                info2,
            ) ==> (info2.callback matches TimeoutCallback::CondTimeout { condvar, mutex } ==> {
                &&& post.sy().valid_condvar(condvar)
                &&& exists|p: int|
                    0 <= p < post.sy().condvar(condvar).waiters@.len() && post.sy().condvar(
                        condvar,
                    ).waiters@[p] == (CondvarWaiter { thread: ThreadId(j as u32), mutex })
            })),
{
    reveal(Machine::blocked_wf);
    assert forall|j: int|
        0 <= j < post.n() implies ((#[trigger] post.threads.timeout_callbacks@[j]) matches Some(
        info2,
    ) ==> (info2.callback matches TimeoutCallback::CondTimeout { condvar, mutex } ==> {
        &&& post.sy().valid_condvar(condvar)
        &&& exists|p: int|
            0 <= p < post.sy().condvar(condvar).waiters@.len() && post.sy().condvar(
                condvar,
            ).waiters@[p] == (CondvarWaiter { thread: ThreadId(j as u32), mutex })
    })) by {
        match post.threads.timeout_callbacks@[j] {
            Some(info2) => match info2.callback {
                TimeoutCallback::CondTimeout { condvar, mutex } => {
                    let w = CondvarWaiter { thread: ThreadId(j as u32), mutex };
                    if j == a.0 {
                        assert(ThreadId(j as u32) == a);
                        assert(exists|p: int|
                            0 <= p < pre.sy().condvar(condvar).waiters@.len()
                                && pre.sy().condvar(condvar).waiters@[p] == (CondvarWaiter {
                                thread: a,
                                mutex,
                            }));
                        let p0 = choose|p: int|
                            0 <= p < pre.sy().condvar(condvar).waiters@.len()
                                && pre.sy().condvar(condvar).waiters@[p] == (CondvarWaiter {
                                thread: a,
                                mutex,
                            });
                        assert(pre.sy().condvar(condvar).waiters@[p0] == w);
                        assert(post.sy().condvar(condvar).waiters@ == pre.sy().condvar(
                            condvar,
                        ).waiters@);
                        assert(post.sy().condvar(condvar).waiters@[p0] == w);
                    } else {
                        assert(pre.threads.timeout_callbacks@[j] is Some);
                        assert(pre.threads.timeout_callbacks@[j] == post.threads.timeout_callbacks@[j]);
                        assert(exists|p: int|
                            0 <= p < pre.sy().condvar(condvar).waiters@.len()
                                && pre.sy().condvar(condvar).waiters@[p] == w);
                        let p0 = choose|p: int|
                            0 <= p < pre.sy().condvar(condvar).waiters@.len()
                                && pre.sy().condvar(condvar).waiters@[p] == w;
                        assert(post.sy().condvar(condvar).waiters@ == pre.sy().condvar(
                            condvar,
                        ).waiters@);
                        assert(post.sy().condvar(condvar).waiters@[p0] == w);
                    }
                },
                _ => {},
            },
            None => {},
        }
    }
}

/// The machine invariant after the active thread blocks to sleep and
/// registers its wake-up timeout (no wait-queue entry is involved).
pub proof fn lemma_inv_after_sleep<F>(
    pre: Machine<F>,
    post: Machine<F>,
    a: ThreadId,
    info: crate::thread::TimeoutCallbackInfo,
)
    requires
        pre.inv(),
        a == pre.threads.active_thread,
        pre.threads.thread(a).state == ThreadState::Enabled,
        info.callback is WakeSleep,
        post.threads.threads@ == pre.threads.threads@.update(
            a.0 as int,
            (Thread { state: ThreadState::BlockedOnSync, ..pre.threads.thread(a) }),
        ),
        post.threads.timeout_callbacks@ == pre.threads.timeout_callbacks@.update(
            a.0 as int,
            Some(info),
        ),
        post.threads.active_thread == pre.threads.active_thread,
        post.threads.yield_active_thread == pre.threads.yield_active_thread,
        post.threads.thread_local_alloc_ids@ == pre.threads.thread_local_alloc_ids@,
        post.sy().mutexes@ == pre.sy().mutexes@,
        post.sy().rwlocks@ == pre.sy().rwlocks@,
        post.sy().condvars@ == pre.sy().condvars@,
        post.pointer_bytes == pre.pointer_bytes,
    ensures
        post.inv(),
{
    reveal(Machine::blocked_wf);
    lemma_not_blocked_no_waits(pre, a);
    assert forall|t: ThreadId| #[trigger] post.sy().total_waits(t) == pre.sy().total_waits(t) by {}
    lemma_join_wf_no_new_joins(pre, post);
    lemma_condtimeout_entries_preserved(pre, post, a, Some(info));
}

/// The machine invariant after a sleeping thread's wake-up timeout fires:
/// the callback is consumed and the thread enabled again.
pub proof fn lemma_inv_after_sleep_wake<F>(pre: Machine<F>, post: Machine<F>, t: ThreadId)
    requires
        pre.inv(),
        t.0 < pre.n(),
        pre.threads.timeout_callbacks@[t.0 as int] matches Some(info) && info.callback
            is WakeSleep,
        post.threads.threads@ == pre.threads.threads@.update(
            t.0 as int,
            (Thread { state: ThreadState::Enabled, ..pre.threads.threads@[t.0 as int] }),
        ),
        post.threads.timeout_callbacks@ == pre.threads.timeout_callbacks@.update(
            t.0 as int,
            Option::<crate::thread::TimeoutCallbackInfo>::None,
        ),
        post.threads.active_thread == pre.threads.active_thread,
        post.threads.yield_active_thread == pre.threads.yield_active_thread,
        post.threads.thread_local_alloc_ids@ == pre.threads.thread_local_alloc_ids@,
        post.sy().mutexes@ == pre.sy().mutexes@,
        post.sy().rwlocks@ == pre.sy().rwlocks@,
        post.sy().condvars@ == pre.sy().condvars@,
        post.pointer_bytes == pre.pointer_bytes,
    ensures
        post.inv(),
{
    reveal(Machine::blocked_wf);
    assert forall|t2: ThreadId| #[trigger] post.sy().total_waits(t2) == pre.sy().total_waits(
        t2,
    ) by {}
    lemma_join_wf_no_new_joins(pre, post);
    assert(pre.sy().total_waits(t) == 0);
    lemma_condtimeout_entries_preserved(pre, post, t, None);
}

/// Lazily allocating a mutex (appending an unowned record with an empty
/// queue) preserves the machine invariant.
pub proof fn lemma_inv_after_mutex_create<F>(pre: Machine<F>, post: Machine<F>)
    requires
        pre.inv(),
        post.threads.same_but_sync(pre.threads),
        post.pointer_bytes == pre.pointer_bytes,
        post.sy().rwlocks@ == pre.sy().rwlocks@,
        post.sy().condvars@ == pre.sy().condvars@,
        post.sy().mutexes@.len() == pre.sy().mutexes@.len() + 1,
        forall|j: int|
            0 <= j < pre.sy().mutexes@.len() ==> #[trigger] post.sy().mutexes@[j]
                == pre.sy().mutexes@[j],
        post.sy().mutexes@.last().owner is None,
        post.sy().mutexes@.last().lock_count == 0,
        post.sy().mutexes@.last().queue@.len() == 0,
    ensures
        post.inv(),
{
    assert(post.sy().mutexes@.drop_last() =~= pre.sy().mutexes@);
    assert forall|t: ThreadId| #[trigger] post.sy().total_waits(t) == pre.sy().total_waits(t) by {
        crate::sync::lemma_total_waits_create(pre.sy(), post.sy(), t);
    }
    assert forall|i: int|
        0 <= i < post.sy().mutexes@.len() implies mutex_rec_wf(#[trigger] post.sy().mutexes@[i])
        && mutex_rec_bounded(post.sy().mutexes@[i], post.n()) by {
        if i < pre.sy().mutexes@.len() {
            assert(mutex_rec_wf(pre.sy().mutexes@[i]));
            assert(mutex_rec_bounded(pre.sy().mutexes@[i], pre.n()));
        }
    }
    lemma_join_wf_preserved(pre, post);
    lemma_condvars_wf_preserved(pre, post);
    lemma_blocked_wf_preserved(pre, post);
}

/// Lazily allocating an rwlock (appending an unowned record with empty
/// queues) preserves the machine invariant.
pub proof fn lemma_inv_after_rwlock_create<F>(pre: Machine<F>, post: Machine<F>)
    requires
        pre.inv(),
        post.threads.same_but_sync(pre.threads),
        post.pointer_bytes == pre.pointer_bytes,
        post.sy().mutexes@ == pre.sy().mutexes@,
        post.sy().condvars@ == pre.sy().condvars@,
        post.sy().rwlocks@.len() == pre.sy().rwlocks@.len() + 1,
        forall|j: int|
            0 <= j < pre.sy().rwlocks@.len() ==> #[trigger] post.sy().rwlocks@[j]
                == pre.sy().rwlocks@[j],
        post.sy().rwlocks@.last().writer is None,
        post.sy().rwlocks@.last().readers@.len() == 0,
        post.sy().rwlocks@.last().writer_queue@.len() == 0,
        post.sy().rwlocks@.last().reader_queue@.len() == 0,
    ensures
        post.inv(),
{
    assert(post.sy().rwlocks@.drop_last() =~= pre.sy().rwlocks@);
    assert forall|t: ThreadId| #[trigger] post.sy().total_waits(t) == pre.sy().total_waits(t) by {
        crate::sync::lemma_total_waits_create(pre.sy(), post.sy(), t);
    }
    assert forall|i: int|
        0 <= i < post.sy().rwlocks@.len() implies rwlock_rec_wf(#[trigger] post.sy().rwlocks@[i])
        && rwlock_rec_bounded(post.sy().rwlocks@[i], post.n()) by {
        if i < pre.sy().rwlocks@.len() {
            assert(rwlock_rec_wf(pre.sy().rwlocks@[i]));
            assert(rwlock_rec_bounded(pre.sy().rwlocks@[i], pre.n()));
        }
    }
    lemma_join_wf_preserved(pre, post);
    lemma_condvars_wf_preserved(pre, post);
    lemma_blocked_wf_preserved(pre, post);
}

/// Lazily allocating a condvar (appending a record with no waiters)
/// preserves the machine invariant.
pub proof fn lemma_inv_after_cond_create<F>(pre: Machine<F>, post: Machine<F>)
    requires
        pre.inv(),
        post.threads.same_but_sync(pre.threads),
        post.pointer_bytes == pre.pointer_bytes,
        post.sy().mutexes@ == pre.sy().mutexes@,
        post.sy().rwlocks@ == pre.sy().rwlocks@,
        post.sy().condvars@.len() == pre.sy().condvars@.len() + 1,
        forall|j: int|
            0 <= j < pre.sy().condvars@.len() ==> #[trigger] post.sy().condvars@[j]
                == pre.sy().condvars@[j],
        post.sy().condvars@.last().waiters@.len() == 0,
    ensures
        post.inv(),
{
    assert(post.sy().condvars@.drop_last() =~= pre.sy().condvars@);
    assert forall|t: ThreadId| #[trigger] post.sy().total_waits(t) == pre.sy().total_waits(t) by {
        crate::sync::lemma_total_waits_create(pre.sy(), post.sy(), t);
    }
    assert forall|i: int|
        0 <= i < post.sy().condvars@.len() implies condvar_rec_wf(
        #[trigger] post.sy().condvars@[i],
        post.n(),
        post.sy(),
    ) by {
        if i < pre.sy().condvars@.len() {
            assert(condvar_rec_wf(pre.sy().condvars@[i], pre.n(), pre.sy()));
            let c = post.sy().condvars@[i];
            assert forall|p: int| 0 <= p < c.waiters@.len() implies {
                &&& (#[trigger] c.waiters@[p]).thread.0 < post.n()
                &&& post.sy().valid_mutex(c.waiters@[p].mutex)
                &&& post.sy().mutex(c.waiters@[p].mutex).owner != Some(c.waiters@[p].thread)
            } by {
                assert(c.waiters@[p].thread.0 < pre.n());
                assert(pre.sy().valid_mutex(c.waiters@[p].mutex));
            }
        }
    }
    lemma_join_wf_preserved(pre, post);
    lemma_blocked_wf_preserved(pre, post);
}

} // verus!

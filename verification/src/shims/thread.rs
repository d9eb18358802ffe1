//! Shims for guest thread lifecycle calls — `pthread_create`,
//! `pthread_join`, `pthread_detach`, `pthread_self`, `prctl`, `sched_yield`
//! and `nanosleep` — and the execution of ready timeout callbacks.

use vstd::prelude::*;
use crate::machine::{
    Machine, lemma_blocked_wf_preserved, lemma_condvars_wf_preserved, lemma_inv_unchanged,
    lemma_join_wf_preserved, lemma_not_blocked_no_waits, lemma_inv_after_sleep,
    lemma_inv_after_sleep_wake,
};
use crate::posix::{MachineStop, ETIMEDOUT, PR_GET_NAME, PR_SET_NAME};
use crate::shims::sync::reacquire_cond_mutex;
use crate::shims::time::Duration;
use crate::thread::{
    Thread, ThreadId, ThreadJoinStatus, ThreadState, Time, TimeoutCallback, TimeoutCallbackInfo,
};

verus! {

/// The machine invariant after thread-table changes that touch no state,
/// no join status and no callback: names and stacks may differ.
proof fn lemma_inv_after_cosmetic<F>(pre: Machine<F>, post: Machine<F>)
    requires
        pre.inv(),
        post.n() == pre.n(),
        forall|j: int|
            0 <= j < pre.n() ==> (#[trigger] post.threads.threads@[j]).state
                == pre.threads.threads@[j].state,
        forall|j: int|
            0 <= j < pre.n() ==> (#[trigger] post.threads.threads@[j]).join_status
                == pre.threads.threads@[j].join_status,
        forall|j: int|
            0 <= j < pre.n() ==> ((#[trigger] post.threads.threads@[j]).thread_name matches Some(
                nm,
            ) ==> nm@.len() <= 15),
        post.threads.active_thread == pre.threads.active_thread,
        post.threads.timeout_callbacks@ == pre.threads.timeout_callbacks@,
        post.sy().mutexes@ == pre.sy().mutexes@,
        post.sy().rwlocks@ == pre.sy().rwlocks@,
        post.sy().condvars@ == pre.sy().condvars@,
        post.pointer_bytes == pre.pointer_bytes,
    ensures
        post.inv(),
{
    assert forall|t: ThreadId| #[trigger] post.sy().total_waits(t) == pre.sy().total_waits(t) by {}
    lemma_condvars_wf_preserved(pre, post);
    lemma_blocked_wf_preserved(pre, post);
    crate::machine::lemma_join_wf_preserved(pre, post);
}

/// Create a new guest thread and push its initial interpreter frame (built
/// by the host from the start routine and its argument) onto its stack.
/// Returns 0 and the fresh thread id, which the host writes back to the
/// guest.
pub fn pthread_create<F>(m: &mut Machine<F>, initial_frame: F) -> (r: (i32, ThreadId))
    requires
        old(m).inv(),
        old(m).threads.threads@.len() < u32::MAX,
    ensures
        final(m).inv(),
        final(m).same_config(*old(m)),
        r.0 == 0,
        r.1.0 == old(m).threads.threads@.len(),
        final(m).threads.threads@.len() == old(m).threads.threads@.len() + 1,
        forall|j: int|
            0 <= j < old(m).threads.threads@.len() ==> #[trigger] final(m).threads.threads@[j]
                == old(m).threads.threads@[j],
        final(m).threads.thread(r.1).state == ThreadState::Enabled,
        final(m).threads.thread(r.1).join_status == ThreadJoinStatus::Joinable,
        final(m).threads.thread(r.1).thread_name is None,
        final(m).threads.thread(r.1).stack@.len() == 1,
        final(m).threads.active_thread == old(m).threads.active_thread,
        final(m).threads.yield_active_thread == old(m).threads.yield_active_thread,
        final(m).threads.timeout_callbacks@ == old(m).threads.timeout_callbacks@.push(
            Option::<TimeoutCallbackInfo>::None,
        ),
        final(m).threads.thread_local_alloc_ids@ == old(m).threads.thread_local_alloc_ids@,
        final(m).sy().unchanged_from(old(m).sy()),
        final(m).threads.callbacks_parallel(),
{
    let new_thread_id = m.threads.create_thread();
    // Switch to the new thread to push its first stack frame, then switch
    // back.
    let old_thread_id = m.threads.set_active_thread_id(new_thread_id);
    m.threads.push_active_thread_frame(initial_frame);
    m.threads.set_active_thread_id(old_thread_id);
    proof {
        lemma_inv_after_create_thread(*old(m), *m, new_thread_id);
    }
    (0, new_thread_id)
}

/// The machine invariant after a fresh (enabled, joinable, callback-free)
/// thread is appended to the table.
proof fn lemma_inv_after_create_thread<F>(pre: Machine<F>, post: Machine<F>, t: ThreadId)
    requires
        pre.inv(),
        pre.n() < u32::MAX,
        t.0 == pre.n(),
        post.n() == pre.n() + 1,
        forall|j: int|
            0 <= j < pre.n() ==> #[trigger] post.threads.threads@[j] == pre.threads.threads@[j],
        post.threads.thread(t).state == ThreadState::Enabled,
        post.threads.thread(t).join_status == ThreadJoinStatus::Joinable,
        post.threads.thread(t).thread_name is None,
        post.threads.active_thread == pre.threads.active_thread,
        post.threads.timeout_callbacks@ == pre.threads.timeout_callbacks@.push(
            Option::<TimeoutCallbackInfo>::None,
        ),
        post.sy().mutexes@ == pre.sy().mutexes@,
        post.sy().rwlocks@ == pre.sy().rwlocks@,
        post.sy().condvars@ == pre.sy().condvars@,
        post.pointer_bytes == pre.pointer_bytes,
    ensures
        post.inv(),
{
    assert forall|t2: ThreadId| #[trigger] post.sy().total_waits(t2) == pre.sy().total_waits(
        t2,
    ) by {}
    assert(post.join_wf()) by {
        reveal(Machine::join_wf);
        assert forall|j: int|
            0 <= j < post.n() implies ((#[trigger] post.threads.threads@[j]).state matches
        ThreadState::BlockedOnJoin(t2) ==> t2.0 < post.n()) by {
            match post.threads.threads@[j].state {
                ThreadState::BlockedOnJoin(t2) => {
                    assert(j < pre.n());
                    assert(pre.threads.threads@[j].state == ThreadState::BlockedOnJoin(t2));
                },
                _ => {},
            }
        }
        assert forall|j: int, k: int|
            0 <= j < post.n() && 0 <= k < post.n() && (#[trigger] post.threads.threads@[j]).state
                == ThreadState::BlockedOnJoin(ThreadId(k as u32)) implies (
        #[trigger] post.threads.threads@[k]).join_status == ThreadJoinStatus::Joined by {
            assert(j < pre.n());
            assert(pre.threads.threads@[j].state == ThreadState::BlockedOnJoin(
                ThreadId(k as u32),
            ));
            assert(k < pre.n());
            assert(pre.threads.threads@[k].join_status == ThreadJoinStatus::Joined);
        }
    }
    reveal(Machine::blocked_wf);
    assert forall|i: int|
        0 <= i < post.sy().mutexes@.len() implies crate::machine::mutex_rec_wf(
        #[trigger] post.sy().mutexes@[i],
    ) && crate::machine::mutex_rec_bounded(post.sy().mutexes@[i], post.n()) by {
        assert(crate::machine::mutex_rec_wf(pre.sy().mutexes@[i]));
        assert(crate::machine::mutex_rec_bounded(pre.sy().mutexes@[i], pre.n()));
        assert forall|p: int|
            0 <= p < post.sy().mutexes@[i].queue@.len() implies (#[trigger] post.sy().mutexes@[i].queue@[p]).0
            < post.n() by {
            assert(pre.sy().mutexes@[i].queue@[p].0 < pre.n());
        }
    }
    assert forall|i: int|
        0 <= i < post.sy().rwlocks@.len() implies crate::machine::rwlock_rec_wf(
        #[trigger] post.sy().rwlocks@[i],
    ) && crate::machine::rwlock_rec_bounded(post.sy().rwlocks@[i], post.n()) by {
        assert(crate::machine::rwlock_rec_wf(pre.sy().rwlocks@[i]));
        assert(crate::machine::rwlock_rec_bounded(pre.sy().rwlocks@[i], pre.n()));
        assert forall|p: int|
            0 <= p < post.sy().rwlocks@[i].writer_queue@.len() implies (#[trigger] post.sy().rwlocks@[i].writer_queue@[p]).0
            < post.n() by {
            assert(pre.sy().rwlocks@[i].writer_queue@[p].0 < pre.n());
        }
        assert forall|p: int|
            0 <= p < post.sy().rwlocks@[i].reader_queue@.len() implies (#[trigger] post.sy().rwlocks@[i].reader_queue@[p]).0
            < post.n() by {
            assert(pre.sy().rwlocks@[i].reader_queue@[p].0 < pre.n());
        }
    }
    assert forall|i: int|
        0 <= i < post.sy().condvars@.len() implies crate::machine::condvar_rec_wf(
        #[trigger] post.sy().condvars@[i],
        post.n(),
        post.sy(),
    ) by {
        assert(crate::machine::condvar_rec_wf(pre.sy().condvars@[i], pre.n(), pre.sy()));
        let c = post.sy().condvars@[i];
        assert forall|p: int| 0 <= p < c.waiters@.len() implies {
            &&& (#[trigger] c.waiters@[p]).thread.0 < post.n()
            &&& post.sy().valid_mutex(c.waiters@[p].mutex)
            &&& post.sy().mutex(c.waiters@[p].mutex).owner != Some(c.waiters@[p].thread)
        } by {
            assert(c.waiters@[p].thread.0 < pre.n());
            assert(pre.sy().valid_mutex(c.waiters@[p].mutex));
        }
    }
    assert forall|t2: ThreadId|
        #[trigger] post.sy().total_waits(t2) > 0 implies t2.0 < post.n() && post.threads.threads@[
        t2.0 as int
    ].state == ThreadState::BlockedOnSync && post.sy().total_waits(t2) == 1 by {
        assert(pre.sy().total_waits(t2) > 0);
        assert(t2.0 < pre.n());
    }
    assert forall|j: int|
        0 <= j < post.n() && (#[trigger] post.threads.threads@[j]).state
            == ThreadState::BlockedOnSync implies post.sy().total_waits(ThreadId(j as u32)) == 1
        || (post.sy().total_waits(ThreadId(j as u32)) == 0 && post.sleeping(j)) by {
        assert(j < pre.n());
    }
    assert forall|j: int|
        0 <= j < post.n() implies ((#[trigger] post.threads.timeout_callbacks@[j]) matches Some(
        info,
    ) ==> (info.callback matches TimeoutCallback::CondTimeout { condvar, mutex } ==> {
        &&& post.sy().valid_condvar(condvar)
        &&& exists|p: int|
            0 <= p < post.sy().condvar(condvar).waiters@.len() && post.sy().condvar(
                condvar,
            ).waiters@[p] == (crate::sync::CondvarWaiter { thread: ThreadId(j as u32), mutex })
    })) by {
        match post.threads.timeout_callbacks@[j] {
            Some(info) => match info.callback {
                TimeoutCallback::CondTimeout { condvar, mutex } => {
                    assert(j < pre.n());
                    assert(pre.threads.timeout_callbacks@[j] is Some);
                    let w = crate::sync::CondvarWaiter { thread: ThreadId(j as u32), mutex };
                    let p0 = choose|p: int|
                        0 <= p < pre.sy().condvar(condvar).waiters@.len()
                            && #[trigger] pre.sy().condvar(condvar).waiters@[p] == w;
                    assert(post.sy().condvar(condvar).waiters@[p0] == w);
                },
                _ => {},
            },
            None => {},
        }
    }
}

/// Join a thread: only a null return-value destination is supported. The
/// target becomes joined at once; if it still runs, the active thread
/// blocks until it terminates.
pub fn pthread_join<F>(m: &mut Machine<F>, thread_id: u64, retval_is_null: bool) -> (r: Result<
    i32,
    MachineStop,
>)
    requires
        old(m).inv(),
        old(m).threads.thread(old(m).threads.active_thread).state == ThreadState::Enabled,
        thread_id < old(m).threads.threads@.len(),
    ensures
        final(m).inv(),
        final(m).same_config(*old(m)),
        !retval_is_null ==> r == Err::<i32, MachineStop>(MachineStop::Unsupported) && final(m).unchanged_from(*old(m)),
        retval_is_null ==> {
            let target = ThreadId(thread_id as u32);
            let a = old(m).threads.active_thread;
            &&& (old(m).threads.thread(target).join_status != ThreadJoinStatus::Joinable || target
                == a) ==> r == Err::<i32, MachineStop>(MachineStop::UndefinedBehavior) && final(m).unchanged_from(*old(m))
            &&& (old(m).threads.thread(target).join_status == ThreadJoinStatus::Joinable && target
                != a) ==> {
                &&& r == Ok::<i32, MachineStop>(0)
                &&& final(m).threads.thread(target).join_status == ThreadJoinStatus::Joined
                &&& (old(m).threads.thread(target).state != ThreadState::Terminated ==> final(m).threads.thread(a).state == ThreadState::BlockedOnJoin(target))
                &&& (old(m).threads.thread(target).state == ThreadState::Terminated ==> final(m).threads.thread(a).state == old(m).threads.thread(a).state)
                &&& final(m).sy().unchanged_from(old(m).sy())
            }
        },
{
    if !retval_is_null {
        // Reading the joined thread's return value is not supported.
        return Err(MachineStop::Unsupported);
    }
    let target = ThreadId((thread_id as u32));
    let ghost pre = *m;
    proof {
        if pre.threads.thread(target).join_status == ThreadJoinStatus::Joinable {
            assert forall|j: int|
                0 <= j < pre.threads.threads@.len() implies (#[trigger] pre.threads.threads@[j]).state
                != ThreadState::BlockedOnJoin(target) by {
                reveal(Machine::join_wf);
                if pre.threads.threads@[j].state == ThreadState::BlockedOnJoin(target) {
                    assert(pre.threads.threads@[j].state == ThreadState::BlockedOnJoin(
                        ThreadId(target.0 as u32),
                    ));
                    assert(pre.threads.threads@[target.0 as int].join_status
                        == ThreadJoinStatus::Joined);
                }
            }
        }
    }
    match m.threads.join_thread(target) {
        Ok(()) => {
            proof {
                lemma_inv_after_join(pre, *m, target);
            }
            Ok(0)
        },
        Err(e) => {
            proof {
                lemma_inv_unchanged(pre, *m);
            }
            Err(e)
        },
    }
}

/// The machine invariant after the active thread joins `target`: the
/// target's status becomes joined, and the active thread may have entered
/// the blocked-on-join state.
proof fn lemma_inv_after_join<F>(pre: Machine<F>, post: Machine<F>, target: ThreadId)
    requires
        pre.inv(),
        target.0 < pre.n(),
        target != pre.threads.active_thread,
        pre.threads.thread(pre.threads.active_thread).state == ThreadState::Enabled,
        pre.threads.thread(target).join_status == ThreadJoinStatus::Joinable,
        pre.threads.thread(target).state == ThreadState::Terminated ==> post.threads.threads@
            == pre.threads.threads@.update(
            target.0 as int,
            (Thread { join_status: ThreadJoinStatus::Joined, ..pre.threads.thread(target) }),
        ),
        pre.threads.thread(target).state != ThreadState::Terminated ==> post.threads.threads@
            == pre.threads.threads@.update(
            target.0 as int,
            (Thread { join_status: ThreadJoinStatus::Joined, ..pre.threads.thread(target) }),
        ).update(
            pre.threads.active_thread.0 as int,
            (Thread {
                state: ThreadState::BlockedOnJoin(target),
                ..pre.threads.thread(pre.threads.active_thread)
            }),
        ),
        post.threads.active_thread == pre.threads.active_thread,
        post.threads.timeout_callbacks@ == pre.threads.timeout_callbacks@,
        post.sy().mutexes@ == pre.sy().mutexes@,
        post.sy().rwlocks@ == pre.sy().rwlocks@,
        post.sy().condvars@ == pre.sy().condvars@,
        post.pointer_bytes == pre.pointer_bytes,
    ensures
        post.inv(),
{
    let a = pre.threads.active_thread;
    lemma_not_blocked_no_waits(pre, a);
    assert forall|t2: ThreadId| #[trigger] post.sy().total_waits(t2) == pre.sy().total_waits(
        t2,
    ) by {}
    lemma_condvars_wf_preserved(pre, post);
    assert(post.join_wf()) by {
        reveal(Machine::join_wf);
        assert forall|j: int|
            0 <= j < post.n() implies ((#[trigger] post.threads.threads@[j]).state matches
        ThreadState::BlockedOnJoin(t) ==> t.0 < post.n()) by {
            match post.threads.threads@[j].state {
                ThreadState::BlockedOnJoin(t) => {
                    if !(j == a.0 && pre.threads.thread(target).state != ThreadState::Terminated) {
                        assert(pre.threads.threads@[j].state == ThreadState::BlockedOnJoin(t));
                    }
                },
                _ => {},
            }
        }
        assert forall|j: int, k: int|
            0 <= j < post.n() && 0 <= k < post.n() && (#[trigger] post.threads.threads@[j]).state
                == ThreadState::BlockedOnJoin(ThreadId(k as u32)) implies (
        #[trigger] post.threads.threads@[k]).join_status == ThreadJoinStatus::Joined by {
            if j == a.0 && pre.threads.thread(target).state != ThreadState::Terminated {
                assert(ThreadId(k as u32) == target);
                assert(k == target.0);
            } else {
                assert(pre.threads.threads@[j].state == ThreadState::BlockedOnJoin(
                    ThreadId(k as u32),
                ));
                assert(pre.threads.threads@[k].join_status == ThreadJoinStatus::Joined);
                assert(k != target.0);
            }
        }
    }
    assert(post.blocked_wf()) by {
        reveal(Machine::blocked_wf);
        assert forall|j: int|
            0 <= j < post.n() && (#[trigger] post.threads.timeout_callbacks@[j]) is Some implies post.threads.threads@[j].state
            == ThreadState::BlockedOnSync by {
            assert(pre.threads.threads@[j].state == ThreadState::BlockedOnSync);
            assert(j != a.0);
            assert(j != target.0 || pre.threads.thread(target).state
                == ThreadState::BlockedOnSync);
        }
        assert forall|t2: ThreadId|
            #[trigger] post.sy().total_waits(t2) > 0 implies t2.0 < post.n()
            && post.threads.threads@[t2.0 as int].state == ThreadState::BlockedOnSync
            && post.sy().total_waits(t2) == 1 by {
            assert(pre.sy().total_waits(t2) > 0);
            assert(t2 != a);
            assert(t2.0 != a.0);
            if t2.0 == target.0 {
                assert(pre.threads.thread(target).state == ThreadState::BlockedOnSync);
            }
        }
        assert forall|j: int|
            0 <= j < post.n() && (#[trigger] post.threads.threads@[j]).state
                == ThreadState::BlockedOnSync implies post.sy().total_waits(ThreadId(j as u32))
            == 1 || (post.sy().total_waits(ThreadId(j as u32)) == 0 && post.sleeping(j)) by {
            assert(pre.threads.threads@[j].state == ThreadState::BlockedOnSync);
        }
        assert forall|j: int|
            0 <= j < post.n() implies ((#[trigger] post.threads.timeout_callbacks@[j]) matches
        Some(info) ==> (info.callback is WakeSleep ==> post.sy().total_waits(ThreadId(j as u32))
            == 0)) by {
            match post.threads.timeout_callbacks@[j] {
                Some(info) => {
                    assert(pre.sy().total_waits(ThreadId(j as u32)) == post.sy().total_waits(
                        ThreadId(j as u32),
                    ));
                },
                None => {},
            }
        }
        assert(post.threads.timeout_callbacks@ =~= pre.threads.timeout_callbacks@.update(
            a.0 as int,
            pre.threads.timeout_callbacks@[a.0 as int],
        ));
        crate::machine::lemma_condtimeout_entries_preserved(
            pre,
            post,
            a,
            pre.threads.timeout_callbacks@[a.0 as int],
        );
    }
}

/// Detach a thread: it can no longer be joined and cleans up after itself.
/// Detaching an already detached or joined thread is an invalid operation.
pub fn pthread_detach<F>(m: &mut Machine<F>, thread_id: u64) -> (r: Result<i32, MachineStop>)
    requires
        old(m).inv(),
        thread_id < old(m).threads.threads@.len(),
    ensures
        final(m).inv(),
        final(m).same_config(*old(m)),
        ({
            let target = ThreadId(thread_id as u32);
            &&& (old(m).threads.thread(target).join_status != ThreadJoinStatus::Joinable ==> r
                == Err::<i32, MachineStop>(MachineStop::UndefinedBehavior) && final(m).unchanged_from(*old(m)))
            &&& (old(m).threads.thread(target).join_status == ThreadJoinStatus::Joinable ==> {
                &&& r == Ok::<i32, MachineStop>(0)
                &&& final(m).threads.thread(target).join_status == ThreadJoinStatus::Detached
                &&& final(m).sy().unchanged_from(old(m).sy())
            })
        }),
{
    let target = ThreadId(thread_id as u32);
    let ghost pre = *m;
    match m.threads.detach_thread(target) {
        Ok(()) => {
            proof {
                assert forall|t2: ThreadId|
                    #[trigger] (*m).sy().total_waits(t2) == pre.sy().total_waits(t2) by {}
                lemma_condvars_wf_preserved(pre, *m);
                lemma_blocked_wf_preserved(pre, *m);
                assert((*m).join_wf()) by {
                    reveal(Machine::join_wf);
                    assert forall|j: int|
                        0 <= j < (*m).n() implies ((#[trigger] (*m).threads.threads@[j]).state
                    matches ThreadState::BlockedOnJoin(t) ==> t.0 < (*m).n()) by {
                        match (*m).threads.threads@[j].state {
                            ThreadState::BlockedOnJoin(t) => {
                                assert(pre.threads.threads@[j].state
                                    == ThreadState::BlockedOnJoin(t));
                            },
                            _ => {},
                        }
                    }
                    assert forall|j: int, k: int|
                        0 <= j < (*m).n() && 0 <= k < (*m).n() && (#[trigger] (*m).threads.threads@[j]).state
                            == ThreadState::BlockedOnJoin(ThreadId(k as u32)) implies (
                    #[trigger] (*m).threads.threads@[k]).join_status == ThreadJoinStatus::Joined by {
                        assert(pre.threads.threads@[j].state == ThreadState::BlockedOnJoin(
                            ThreadId(k as u32),
                        ));
                        assert(pre.threads.threads@[k].join_status == ThreadJoinStatus::Joined);
                        assert(k != target.0);
                    }
                }
            }
            Ok(0)
        },
        Err(e) => {
            proof {
                lemma_inv_unchanged(pre, *m);
            }
            Err(e)
        },
    }
}

/// `pthread_self`: the id of the active thread, for the host to hand to
/// the guest.
pub fn pthread_self<F>(m: &Machine<F>) -> (r: ThreadId)
    ensures
        r == m.threads.active_thread,
{
    m.threads.get_active_thread_id()
}

/// `sched_yield`: ask the scheduler to move to another enabled thread at
/// the next scheduling point.
pub fn sched_yield<F>(m: &mut Machine<F>) -> (r: Result<i32, MachineStop>)
    requires
        old(m).inv(),
    ensures
        final(m).inv(),
        final(m).same_config(*old(m)),
        r == Ok::<i32, MachineStop>(0),
        final(m).threads.yield_active_thread == true,
        final(m).threads.threads@ == old(m).threads.threads@,
        final(m).threads.active_thread == old(m).threads.active_thread,
        final(m).threads.timeout_callbacks@ == old(m).threads.timeout_callbacks@,
        final(m).threads.thread_local_alloc_ids@ == old(m).threads.thread_local_alloc_ids@,
        final(m).sy().unchanged_from(old(m).sy()),
{
    let ghost pre = *m;
    m.threads.yield_active_thread();
    proof {
        reveal(Machine::blocked_wf);
        reveal(Machine::join_wf);
        assert forall|t2: ThreadId| #[trigger] (*m).sy().total_waits(t2) == pre.sy().total_waits(
            t2,
        ) by {}
        lemma_condvars_wf_preserved(pre, *m);
    }
    Ok(0)
}

/// `prctl`: set (truncated to 15 bytes) or get (NUL-terminated, at most 16
/// bytes, `<unnamed>` if unset) the active thread's name. The host reads
/// the C string for a set and writes the returned bytes for a get. Other
/// options are unsupported.
pub fn prctl<F>(m: &mut Machine<F>, option: i32, name_in: Vec<u8>) -> (r: Result<
    (i32, Option<Vec<u8>>),
    MachineStop,
>)
    requires
        old(m).inv(),
    ensures
        final(m).inv(),
        final(m).same_config(*old(m)),
        option == PR_SET_NAME ==> {
            &&& r matches Ok((z, out)) && z == 0 && out is None
            &&& final(m).threads.thread(old(m).threads.active_thread).thread_name matches Some(nm)
                && nm@ == name_in@.take(
                if name_in@.len() < 15 {
                    name_in@.len() as int
                } else {
                    15
                },
            )
        },
        option == PR_GET_NAME ==> {
            &&& r matches Ok((z, out)) && z == 0 && out is Some
            &&& (r matches Ok((z, out)) ==> (out matches Some(bytes) ==> {
                &&& bytes@.len() <= 16
                &&& bytes@.last() == 0
                &&& (old(m).threads.thread(old(m).threads.active_thread).thread_name matches Some(
                    nm,
                ) ==> bytes@ == nm@.push(0u8))
                &&& (old(m).threads.thread(old(m).threads.active_thread).thread_name is None
                    ==> bytes@ == spec_unnamed_name().push(0u8))
            }))
            &&& final(m).unchanged_from(*old(m))
        },
        option != PR_SET_NAME && option != PR_GET_NAME ==> r == Err::<
            (i32, Option<Vec<u8>>),
            MachineStop,
        >(MachineStop::Unsupported) && final(m).unchanged_from(*old(m)),
{
    let ghost pre = *m;
    if option == PR_SET_NAME {
        let mut name = name_in;
        // The name may be at most 16 bytes including the NUL; the host
        // hands it over without the NUL, so keep 15 bytes.
        name.truncate(15);
        m.threads.set_thread_name(name);
        proof {
            lemma_inv_after_cosmetic(pre, *m);
        }
        Ok((0, None))
    } else if option == PR_GET_NAME {
        let mut name: Vec<u8> = match m.threads.get_thread_name() {
            Some(n) => clone_bytes(n),
            None => unnamed_bytes(),
        };
        name.push(0u8);
        Ok((0, Some(name)))
    } else {
        Err(MachineStop::Unsupported)
    }
}

/// Copy a byte string.
fn clone_bytes(v: &Vec<u8>) -> (r: Vec<u8>)
    ensures
        r@ == v@,
{
    let mut r: Vec<u8> = Vec::new();
    let n = v.len();
    let mut i: usize = 0;
    while i < n
        invariant
            i <= n,
            n == v@.len(),
            r@ == v@.take(i as int),
        decreases n - i,
    {
        r.push(v[i]);
        proof {
            assert(r@ =~= v@.take(i + 1));
        }
        i = i + 1;
    }
    proof {
        assert(v@.take(n as int) =~= v@);
    }
    r
}

/// The placeholder name of a thread that was never named: `<unnamed>`.
pub open spec fn spec_unnamed_name() -> Seq<u8> {
    seq![60u8, 117u8, 110u8, 110u8, 97u8, 109u8, 101u8, 100u8, 62u8]
}

/// The placeholder name of a thread that was never named.
fn unnamed_bytes() -> (r: Vec<u8>)
    ensures
        r@ == spec_unnamed_name(),
{
    let mut r: Vec<u8> = Vec::new();
    r.push(60u8);  // '<'
    r.push(117u8);  // 'u'
    r.push(110u8);  // 'n'
    r.push(110u8);  // 'n'
    r.push(97u8);  // 'a'
    r.push(109u8);  // 'm'
    r.push(101u8);  // 'e'
    r.push(100u8);  // 'd'
    r.push(62u8);  // '>'
    proof {
        assert(r@ =~= spec_unnamed_name());
    }
    r
}

/// Decode a guest `timespec` into a duration; more than a billion
/// nanoseconds is undefined behaviour.
pub fn posix_timespec_to_duration(seconds: u64, nanoseconds: u64) -> (r: Result<
    Duration,
    MachineStop,
>)
    ensures
        nanoseconds > 999999999 ==> r == Err::<Duration, MachineStop>(
            MachineStop::UndefinedBehavior,
        ),
        nanoseconds <= 999999999 ==> r == Ok::<Duration, MachineStop>(
            (Duration { secs: seconds, nanos: nanoseconds as u32 }),
        ),
{
    if nanoseconds > 999999999 {
        return Err(MachineStop::UndefinedBehavior);
    }
    Ok(Duration { secs: seconds, nanos: nanoseconds as u32 })
}

/// `nanosleep`: block the active thread and register a monotonic wake-up
/// timeout at now plus the requested duration. The scheduler delivers the
/// wake-up; the host never sleeps here.
pub fn nanosleep<F>(
    m: &mut Machine<F>,
    req_seconds: u64,
    req_nanoseconds: u64,
    now_monotonic: u128,
) -> (r: Result<i32, MachineStop>)
    requires
        old(m).inv(),
        old(m).threads.thread(old(m).threads.active_thread).state == ThreadState::Enabled,
        now_monotonic + req_seconds * 1000000000 + req_nanoseconds <= u128::MAX,
    ensures
        final(m).inv(),
        final(m).same_config(*old(m)),
        req_nanoseconds > 999999999 ==> r == Err::<i32, MachineStop>(
            MachineStop::UndefinedBehavior,
        ) && final(m).unchanged_from(*old(m)),
        req_nanoseconds <= 999999999 ==> {
            let a = old(m).threads.active_thread;
            &&& r == Ok::<i32, MachineStop>(0)
            &&& final(m).threads.threads@ == old(m).threads.threads@.update(
                a.0 as int,
                (Thread { state: ThreadState::BlockedOnSync, ..old(m).threads.thread(a) }),
            )
            &&& final(m).threads.thread(a).state == ThreadState::BlockedOnSync
            &&& final(m).threads.callback_of(a) == Some(
                (TimeoutCallbackInfo {
                    call_time: Time::Monotonic(
                        (now_monotonic + req_seconds * 1000000000 + req_nanoseconds) as u128,
                    ),
                    callback: TimeoutCallback::WakeSleep,
                }),
            )
            &&& final(m).threads.timeout_callbacks@ == old(m).threads.timeout_callbacks@.update(
                a.0 as int,
                final(m).threads.callback_of(a),
            )
            &&& final(m).threads.active_thread == old(m).threads.active_thread
            &&& final(m).threads.yield_active_thread == old(m).threads.yield_active_thread
            &&& final(m).threads.thread_local_alloc_ids@ == old(m).threads.thread_local_alloc_ids@
            &&& final(m).sy().unchanged_from(old(m).sy())
        },
{
    let active_thread = m.threads.get_active_thread_id();
    let duration = match posix_timespec_to_duration(req_seconds, req_nanoseconds) {
        Ok(d) => d,
        Err(e) => {
            return Err(e);
        },
    };
    let timeout: u128 = now_monotonic + duration.secs as u128 * 1000000000
        + duration.nanos as u128;
    let ghost pre = *m;
    proof {
        lemma_not_blocked_no_waits(pre, active_thread);
    }
    m.threads.block_thread(active_thread);
    m.threads.register_timeout_callback(
        active_thread,
        Time::Monotonic(timeout),
        TimeoutCallback::WakeSleep,
    );
    proof {
        lemma_inv_after_sleep(
            pre,
            *m,
            active_thread,
            (TimeoutCallbackInfo {
                call_time: Time::Monotonic(timeout),
                callback: TimeoutCallback::WakeSleep,
            }),
        );
    }
    Ok(0)
}

/// Execute the first ready timeout callback on the callback's own thread
/// (the active thread is switched there and back). A wake-up from
/// `nanosleep` just enables its thread. A timed-out wait reacquires the
/// wait's mutex, leaves the condvar, and reports `(thread, ETIMEDOUT)` for
/// the host to write into that thread's timed-wait return slot.
/// Thread `j`'s pending timeout callback is due on its clock.
pub open spec fn ready_at<F>(
    tm: crate::thread::ThreadManager<F>,
    j: int,
    now_monotonic: u128,
    now_real: u128,
) -> bool {
    &&& 0 <= j < tm.timeout_callbacks@.len()
    &&& tm.timeout_callbacks@[j] matches Some(info) && info.call_time.spec_passed(
        now_monotonic,
        now_real,
    )
}

pub fn run_timeout_callback<F>(m: &mut Machine<F>, now_monotonic: u128, now_real: u128) -> (r:
    Option<(ThreadId, i32)>)
    requires
        old(m).inv(),
        exists|j: int| #[trigger] ready_at(old(m).threads, j, now_monotonic, now_real),
    ensures
        final(m).inv(),
        final(m).same_config(*old(m)),
        final(m).threads.active_thread == old(m).threads.active_thread,
        final(m).threads.yield_active_thread == old(m).threads.yield_active_thread,
        final(m).threads.thread_local_alloc_ids@ == old(m).threads.thread_local_alloc_ids@,
        final(m).sy().rwlocks@ == old(m).sy().rwlocks@,
        r matches Some((t, e)) ==> e == ETIMEDOUT && old(m).threads.valid_thread(t) && (old(m).threads.callback_of(t) matches Some(info) && info.callback is CondTimeout),
        forall|j: int|
            #[trigger] ready_at(old(m).threads, j, now_monotonic, now_real) && (forall|k: int|
                0 <= k < j ==> !ready_at(old(m).threads, k, now_monotonic, now_real)) ==> {
                let t = ThreadId(j as u32);
                &&& final(m).threads.timeout_callbacks@ == old(
                    m,
                ).threads.timeout_callbacks@.update(j, Option::<TimeoutCallbackInfo>::None)
                &&& (old(m).threads.timeout_callbacks@[j] matches Some(info) ==> {
                    &&& (info.callback is WakeSleep ==> {
                        &&& r is None
                        &&& final(m).threads.threads@ == old(m).threads.threads@.update(
                            j,
                            (Thread {
                                state: ThreadState::Enabled,
                                ..old(m).threads.threads@[j]
                            }),
                        )
                        &&& final(m).sy().unchanged_from(old(m).sy())
                    })
                    &&& (info.callback matches TimeoutCallback::CondTimeout { condvar, mutex }
                        ==> {
                        &&& r == Some((t, ETIMEDOUT))
                        &&& final(m).sy().mutexes@.len() == old(m).sy().mutexes@.len()
                        &&& forall|i: int|
                            0 <= i < old(m).sy().mutexes@.len() && i != mutex.idx()
                                ==> #[trigger] final(m).sy().mutexes@[i] == old(m).sy().mutexes@[i]
                        &&& final(m).sy().condvars@.len() == old(m).sy().condvars@.len()
                        &&& forall|i: int|
                            0 <= i < old(m).sy().condvars@.len() && i != condvar.idx()
                                ==> #[trigger] final(m).sy().condvars@[i] == old(
                                m,
                            ).sy().condvars@[i]
                        &&& exists|kk: int|
                            {
                                &&& 0 <= kk < old(m).sy().condvar(condvar).waiters@.len()
                                &&& old(m).sy().condvar(condvar).waiters@[kk] == (
                                crate::sync::CondvarWaiter { thread: t, mutex })
                                &&& final(m).sy().condvar(condvar).waiters@ == old(m).sy().condvar(
                                    condvar,
                                ).waiters@.remove(kk)
                            }
                        &&& (old(m).sy().mutex(mutex).owner is Some ==> {
                            &&& final(m).threads.threads@ == old(m).threads.threads@
                            &&& final(m).sy().mutex(mutex).owner == old(m).sy().mutex(mutex).owner
                            &&& final(m).sy().mutex(mutex).lock_count == old(m).sy().mutex(
                                mutex,
                            ).lock_count
                            &&& final(m).sy().mutex(mutex).queue@ == old(m).sy().mutex(
                                mutex,
                            ).queue@.push(t)
                        })
                        &&& (old(m).sy().mutex(mutex).owner is None ==> {
                            &&& final(m).threads.threads@ == old(m).threads.threads@.update(
                                j,
                                (Thread {
                                    state: ThreadState::Enabled,
                                    ..old(m).threads.threads@[j]
                                }),
                            )
                            &&& final(m).sy().mutex(mutex).owner == Some(t)
                            &&& final(m).sy().mutex(mutex).lock_count == 1
                            &&& final(m).sy().mutex(mutex).queue@ == old(m).sy().mutex(
                                mutex,
                            ).queue@
                        })
                    })
                })
            },
{
    let ghost pre = *m;
    let (thread, callback) = match m.threads.get_ready_callback(now_monotonic, now_real) {
        Some(tc) => tc,
        None => unreached(),
    };
    let old_thread = m.threads.set_active_thread_id(thread);
    let result: Option<(ThreadId, i32)> = match callback {
        TimeoutCallback::WakeSleep => {
            proof {
                reveal(Machine::blocked_wf);
            }
            m.threads.unblock_thread(thread);
            None
        },
        TimeoutCallback::CondTimeout { condvar, mutex } => {
            let ghost w = crate::sync::CondvarWaiter { thread, mutex };
            proof {
                reveal(Machine::blocked_wf);
                assert(crate::machine::condvar_rec_wf(
                    pre.sy().condvars@[condvar.idx()],
                    pre.n(),
                    pre.sy(),
                ));
                let p0 = choose|p: int|
                    0 <= p < pre.sy().condvar(condvar).waiters@.len() && pre.sy().condvar(
                        condvar,
                    ).waiters@[p] == w;
                assert(pre.sy().condvar(condvar).waiters@[p0] == w);
                assert(pre.sy().valid_mutex(w.mutex));
                assert(crate::machine::mutex_rec_wf(pre.sy().mutexes@[mutex.idx()]));
            }
            reacquire_cond_mutex(m, thread, mutex);
            m.threads.sync.condvar_remove_waiter(condvar, thread);
            Some((thread, ETIMEDOUT))
        },
    };
    m.threads.set_active_thread_id(old_thread);
    proof {
        match callback {
            TimeoutCallback::WakeSleep => {
                lemma_inv_after_sleep_wake(pre, *m, thread);
            },
            TimeoutCallback::CondTimeout { condvar, mutex } => {
                reveal(Machine::blocked_wf);
                let w = crate::sync::CondvarWaiter { thread, mutex };
                let q = choose|p: int|
                    0 <= p < pre.sy().condvar(condvar).waiters@.len() && pre.sy().condvar(
                        condvar,
                    ).waiters@[p] == w;
                crate::sync::lemma_count_waiters_positive(
                    pre.sy().condvar(condvar).waiters@,
                    thread,
                    q,
                );
                crate::machine::lemma_thread_in_condvar(pre, condvar, thread);
                let k = choose|k: int|
                    {
                        &&& 0 <= k < pre.sy().condvar(condvar).waiters@.len()
                        &&& pre.sy().condvar(condvar).waiters@[k].thread == thread
                        &&& forall|j: int|
                            0 <= j < k ==> pre.sy().condvar(condvar).waiters@[j].thread != thread
                        &&& (*m).sy().condvar(condvar).waiters@ == pre.sy().condvar(
                            condvar,
                        ).waiters@.remove(k)
                    };
                if k != q {
                    crate::sync::lemma_count_waiters_two_positions(
                        pre.sy().condvar(condvar).waiters@,
                        thread,
                        k,
                        q,
                    );
                }
                assert(pre.sy().condvar(condvar).waiters@[k] == w);
                crate::shims::sync::lemma_inv_after_condvar_wake(
                    pre,
                    *m,
                    condvar,
                    thread,
                    mutex,
                    k,
                );
                assert(exists|kk: int|
                    {
                        &&& 0 <= kk < pre.sy().condvar(condvar).waiters@.len()
                        &&& pre.sy().condvar(condvar).waiters@[kk] == (crate::sync::CondvarWaiter {
                            thread,
                            mutex,
                        })
                        &&& (*m).sy().condvar(condvar).waiters@ == pre.sy().condvar(
                            condvar,
                        ).waiters@.remove(kk)
                    });
            },
        }
        assert forall|j: int|
            #[trigger] ready_at(pre.threads, j, now_monotonic, now_real) && (forall|k2: int|
                0 <= k2 < j ==> !ready_at(pre.threads, k2, now_monotonic, now_real)) implies j
            == thread.0 as int by {
            assert(ready_at(pre.threads, thread.0 as int, now_monotonic, now_real));
            if j < thread.0 as int {
                assert(!ready_at(pre.threads, j, now_monotonic, now_real));
            }
            if (thread.0 as int) < j {
                assert(!ready_at(pre.threads, thread.0 as int, now_monotonic, now_real));
            }
        }
    }
    result
}

} // verus!

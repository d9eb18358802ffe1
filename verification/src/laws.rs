//! The laws of the scheduler and its synchronization primitives, stated
//! over the machine invariant and the views that the operations' contracts
//! use.
//!
//! [`crate::machine::Machine::inv`] holds of the fresh machine and is
//! required and ensured by every shim operation, so everything proved here
//! of an invariant-satisfying machine holds in every reachable state.
//! Two laws about single operations live directly in their contracts: a
//! signal on a condvar with no waiters is a no-op that returns 0
//! (`pthread_cond_signal`), and a broadcast always returns 0, so two
//! broadcasts in a row both do (`pthread_cond_broadcast`).

use vstd::prelude::*;
use crate::machine::Machine;
use crate::sync::{Mutex, MutexId, RwLockId, count_tid};
use crate::thread::{ThreadId, ThreadJoinStatus, ThreadState};

verus! {

/// A mutex is unowned exactly when its lock count is zero, in every
/// reachable state.
pub proof fn law_mutex_owner_iff_unlocked<F>(m: Machine<F>, id: MutexId)
    requires
        m.inv(),
        m.sy().valid_mutex(id),
    ensures
        m.sy().mutex(id).owner is None <==> m.sy().mutex(id).lock_count == 0,
{
    assert(crate::machine::mutex_rec_wf(m.sy().mutexes@[id.idx()]));
}

/// A thread blocked on a synchronization primitive stands in exactly one
/// wait queue over all primitives together — unless it is sleeping, in
/// which case it stands in none and a wake-up timeout is pending for it.
pub proof fn law_blocked_in_one_wait_queue<F>(m: Machine<F>, t: ThreadId)
    requires
        m.inv(),
        t.0 < m.n(),
        m.threads.thread(t).state == ThreadState::BlockedOnSync,
    ensures
        m.sy().total_waits(t) == 1 || (m.sy().total_waits(t) == 0 && m.sleeping(t.0 as int)),
{
    reveal(Machine::blocked_wf);
}

/// A wait-queue entry belongs to a blocked thread, and is that thread's
/// only entry.
pub proof fn law_wait_queue_entries_are_blocked<F>(m: Machine<F>, t: ThreadId)
    requires
        m.inv(),
        m.sy().total_waits(t) > 0,
    ensures
        t.0 < m.n(),
        m.threads.thread(t).state == ThreadState::BlockedOnSync,
        m.sy().total_waits(t) == 1,
{
    reveal(Machine::blocked_wf);
}

/// An rwlock's writer and its readers are mutually exclusive, in every
/// reachable state.
pub proof fn law_rwlock_writer_excludes_readers<F>(m: Machine<F>, id: RwLockId)
    requires
        m.inv(),
        m.sy().valid_rwlock(id),
    ensures
        m.sy().rwlock(id).writer is Some ==> m.sy().rwlock(id).readers@.len() == 0,
        m.sy().rwlock(id).readers@.len() > 0 ==> m.sy().rwlock(id).writer is None,
{
    assert(crate::machine::rwlock_rec_wf(m.sy().rwlocks@[id.idx()]));
}

/// While a thread is still joinable, nobody is blocked joining it — so at
/// most one thread ever waits to join any given thread: whoever joins
/// first marks the target joined at once.
pub proof fn law_join_uniqueness<F>(m: Machine<F>, j: int, target: ThreadId)
    requires
        m.inv(),
        0 <= j < m.n(),
        target.0 < m.n(),
        m.threads.thread(target).join_status == ThreadJoinStatus::Joinable,
    ensures
        m.threads.threads@[j].state != ThreadState::BlockedOnJoin(target),
{
    reveal(Machine::join_wf);
    if m.threads.threads@[j].state == ThreadState::BlockedOnJoin(target) {
        assert(m.threads.threads@[j].state == ThreadState::BlockedOnJoin(
            ThreadId(target.0 as u32),
        ));
        assert(m.threads.threads@[target.0 as int].join_status == ThreadJoinStatus::Joined);
    }
}

/// Each thread has at most one registered timeout callback: the callback
/// table has exactly one slot per thread, and a thread's pending timeout
/// is exactly its own slot — a second registration is impossible
/// (`register_timeout_callback` requires the slot to be empty).
pub proof fn law_one_timeout_per_thread<F>(m: Machine<F>, t: ThreadId)
    requires
        m.inv(),
        t.0 < m.n(),
    ensures
        m.threads.timeout_callbacks@.len() == m.threads.threads@.len(),
        m.threads.callback_of(t) == m.threads.timeout_callbacks@[t.0 as int],
{
}

/// The sequence of threads woken by repeatedly dequeuing a FIFO wait queue
/// (each dequeue pops the head, as every `*_dequeue` and `condvar_signal`
/// contract states).
pub open spec fn wake_order(q: Seq<ThreadId>) -> Seq<ThreadId>
    decreases q.len(),
{
    if q.len() == 0 {
        Seq::empty()
    } else {
        seq![q[0]] + wake_order(q.remove(0))
    }
}

/// Wake order equals enqueue order for every wait queue: draining a queue
/// head-first yields exactly the queue's contents, in the order in which
/// `*_enqueue` appended them.
pub proof fn law_wake_order_is_enqueue_order(q: Seq<ThreadId>)
    ensures
        wake_order(q) == q,
    decreases q.len(),
{
    if q.len() > 0 {
        law_wake_order_is_enqueue_order(q.remove(0));
        assert(wake_order(q) =~= q);
    }
}

/// One lock of an unowned, waiter-free mutex followed by one unlock is a
/// no-op on the mutex's observable state. `locked` is the record after the
/// lock and `unlocked` the record after the unlock, each as the contracts
/// of `pthread_mutex_lock` and `pthread_mutex_unlock` describe them; this
/// holds for NORMAL and ERRORCHECK mutexes (and for the outermost
/// lock/unlock pair of a RECURSIVE one), so N such pairs in a row by one
/// thread leave the mutex exactly as it was.
pub proof fn law_lock_unlock_roundtrip(pre: Mutex, locked: Mutex, unlocked: Mutex, t: ThreadId)
    requires
        pre.owner is None,
        pre.lock_count == 0,
        pre.queue@.len() == 0,
        locked.owner == Some(t),
        locked.lock_count == pre.lock_count + 1,
        locked.queue@ == pre.queue@,
        unlocked.lock_count == locked.lock_count - 1,
        unlocked.owner == (if locked.lock_count == 1 {
            Option::<ThreadId>::None
        } else {
            locked.owner
        }),
        unlocked.queue@ == locked.queue@,
    ensures
        unlocked.owner == pre.owner,
        unlocked.lock_count == pre.lock_count,
        unlocked.queue@ == pre.queue@,
{
}

/// The record of a mutex after `k` further recursive acquisitions by its
/// (new) owner `t`, as the RECURSIVE branch of `pthread_mutex_lock`
/// describes each of them.
pub open spec fn acquire_n(m: Mutex, t: ThreadId, k: nat) -> Mutex
    decreases k,
{
    if k == 0 {
        m
    } else {
        Mutex {
            owner: Some(t),
            lock_count: ((acquire_n(m, t, (k - 1) as nat).lock_count + 1) as usize),
            queue: m.queue,
        }
    }
}

/// The record of a mutex after `k` releases, as `pthread_mutex_unlock`
/// describes each of them (no waiter is queued, so no handoff happens).
pub open spec fn release_n(m: Mutex, k: nat) -> Mutex
    decreases k,
{
    if k == 0 {
        m
    } else {
        Mutex {
            owner: (if release_n(m, (k - 1) as nat).lock_count == 1 {
                Option::<ThreadId>::None
            } else {
                release_n(m, (k - 1) as nat).owner
            }),
            lock_count: ((release_n(m, (k - 1) as nat).lock_count - 1) as usize),
            queue: m.queue,
        }
    }
}

/// A RECURSIVE mutex with balanced lock/unlock returns to the unlocked
/// state it started from (and, living at the same table index, keeps its
/// id): `k` acquisitions by `t` followed by `k` releases restore the
/// record exactly.
pub proof fn law_recursive_mutex_balance(m: Mutex, t: ThreadId, k: nat)
    requires
        m.owner is None,
        m.lock_count == 0,
        m.queue@.len() == 0,
        k <= usize::MAX,
    ensures
        release_n(acquire_n(m, t, k), k).owner is None,
        release_n(acquire_n(m, t, k), k).lock_count == 0,
        release_n(acquire_n(m, t, k), k).queue@ == m.queue@,
{
    lemma_acquire_n_count(m, t, k);
    lemma_release_balances(acquire_n(m, t, k), k);
}

/// After `k` acquisitions of an unowned mutex the count is exactly `k`
/// (and `t` owns it for positive `k`).
proof fn lemma_acquire_n_count(m: Mutex, t: ThreadId, k: nat)
    requires
        m.owner is None,
        m.lock_count == 0,
        k <= usize::MAX,
    ensures
        acquire_n(m, t, k).lock_count == k,
        k > 0 ==> acquire_n(m, t, k).owner == Some(t),
        k == 0 ==> acquire_n(m, t, k).owner is None,
        acquire_n(m, t, k).queue == m.queue,
    decreases k,
{
    if k > 0 {
        lemma_acquire_n_count(m, t, (k - 1) as nat);
    }
}

/// Releasing as many times as the count leaves the mutex unowned with a
/// zero count.
proof fn lemma_release_balances(m: Mutex, k: nat)
    requires
        m.lock_count == k,
        k > 0 ==> m.owner is Some,
        k == 0 ==> m.owner is None,
    ensures
        release_n(m, k).owner is None,
        release_n(m, k).lock_count == 0,
        release_n(m, k).queue == m.queue,
    decreases k,
{
    if k > 0 {
        lemma_release_count(m, (k - 1) as nat);
    }
}

/// After `j < count` releases the count has dropped by `j` and the owner
/// is still there.
proof fn lemma_release_count(m: Mutex, j: nat)
    requires
        j < m.lock_count,
        m.owner is Some,
    ensures
        release_n(m, j).lock_count == m.lock_count - j,
        release_n(m, j).owner == m.owner,
        release_n(m, j).queue == m.queue,
    decreases j,
{
    if j > 0 {
        lemma_release_count(m, (j - 1) as nat);
    }
}

} // verus!

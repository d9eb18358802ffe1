//! The synchronization state: every live mutex, read-write lock and
//! condition variable, keyed by opaque ids.
//!
//! Ids are dense 32-bit indices; 0 is reserved to mean "unassigned" in guest
//! memory, so `*_create` hands out ids starting at 1. All operations here are
//! synchronous and never suspend the caller: they only mutate queues and
//! ownership. Blocking and waking of threads is the shim layer's business.
//!
//! Waiter queues are strictly FIFO (`*_enqueue` appends, `*_dequeue` pops the
//! head), which is what makes wake order equal enqueue order.

use vstd::prelude::*;
use crate::thread::ThreadId;

verus! {

/// Identifier of a mutex; the record lives at index `id - 1`.
#[derive(Clone, Copy, Debug, PartialEq, Eq, Structural)]
pub struct MutexId(pub u32);

/// Identifier of a read-write lock; the record lives at index `id - 1`.
#[derive(Clone, Copy, Debug, PartialEq, Eq, Structural)]
pub struct RwLockId(pub u32);

/// Identifier of a condition variable; the record lives at index `id - 1`.
#[derive(Clone, Copy, Debug, PartialEq, Eq, Structural)]
pub struct CondvarId(pub u32);

impl MutexId {
    /// Index of this id's record in the mutex table.
    pub open spec fn idx(self) -> int {
        self.0 - 1
    }

    pub fn to_u32(self) -> (r: u32)
        ensures
            r == self.0,
    {
        self.0
    }
}

impl RwLockId {
    /// Index of this id's record in the rwlock table.
    pub open spec fn idx(self) -> int {
        self.0 - 1
    }

    pub fn to_u32(self) -> (r: u32)
        ensures
            r == self.0,
    {
        self.0
    }
}

impl CondvarId {
    /// Index of this id's record in the condvar table.
    pub open spec fn idx(self) -> int {
        self.0 - 1
    }

    pub fn to_u32(self) -> (r: u32)
        ensures
            r == self.0,
    {
        self.0
    }
}

/// The record of one mutex.
pub struct Mutex {
    /// The thread holding the mutex, if any.
    pub owner: Option<ThreadId>,
    /// Nesting depth of the owner's lock (supports recursive locking).
    pub lock_count: usize,
    /// Threads blocked waiting to acquire the mutex, in FIFO order.
    pub queue: Vec<ThreadId>,
}

/// The record of one read-write lock.
pub struct RwLock {
    /// The thread holding exclusive (write) access, if any.
    pub writer: Option<ThreadId>,
    /// Threads holding shared (read) access; a thread that nests its read
    /// locks appears once per nesting level.
    pub readers: Vec<ThreadId>,
    /// Threads blocked waiting for write access, in FIFO order.
    pub writer_queue: Vec<ThreadId>,
    /// Threads blocked waiting for read access, in FIFO order.
    pub reader_queue: Vec<ThreadId>,
}

/// One waiter of a condition variable: the blocked thread and the mutex it
/// must reacquire when woken.
#[derive(Clone, Copy, Debug, PartialEq, Eq, Structural)]
pub struct CondvarWaiter {
    pub thread: ThreadId,
    pub mutex: MutexId,
}

/// The record of one condition variable.
pub struct Condvar {
    /// Blocked waiters in FIFO order.
    pub waiters: Vec<CondvarWaiter>,
}

/// How many times `t` occurs in a queue of thread ids.
pub open spec fn count_tid(q: Seq<ThreadId>, t: ThreadId) -> nat
    decreases q.len(),
{
    if q.len() == 0 {
        0
    } else {
        count_tid(q.drop_last(), t) + if q.last() == t {
            1nat
        } else {
            0nat
        }
    }
}

/// How many entries of a condvar waiter list are for thread `t`.
pub open spec fn count_waiters(q: Seq<CondvarWaiter>, t: ThreadId) -> nat
    decreases q.len(),
{
    if q.len() == 0 {
        0
    } else {
        count_waiters(q.drop_last(), t) + if q.last().thread == t {
            1nat
        } else {
            0nat
        }
    }
}

/// How many wait-queue entries of one mutex are for thread `t`.
pub open spec fn mutex_waits(m: Mutex, t: ThreadId) -> nat {
    count_tid(m.queue@, t)
}

/// How many wait-queue entries of one rwlock are for thread `t`. The
/// `readers` multiset holds lock owners, not waiters, so it is not counted.
pub open spec fn rwlock_waits(l: RwLock, t: ThreadId) -> nat {
    count_tid(l.writer_queue@, t) + count_tid(l.reader_queue@, t)
}

/// How many waiter entries of one condvar are for thread `t`.
pub open spec fn condvar_waits(c: Condvar, t: ThreadId) -> nat {
    count_waiters(c.waiters@, t)
}

/// Total wait-queue entries for `t` over a table of mutexes.
pub open spec fn mutexes_waits(s: Seq<Mutex>, t: ThreadId) -> nat
    decreases s.len(),
{
    if s.len() == 0 {
        0
    } else {
        mutexes_waits(s.drop_last(), t) + mutex_waits(s.last(), t)
    }
}

/// Total wait-queue entries for `t` over a table of rwlocks.
pub open spec fn rwlocks_waits(s: Seq<RwLock>, t: ThreadId) -> nat
    decreases s.len(),
{
    if s.len() == 0 {
        0
    } else {
        rwlocks_waits(s.drop_last(), t) + rwlock_waits(s.last(), t)
    }
}

/// Total waiter entries for `t` over a table of condvars.
pub open spec fn condvars_waits(s: Seq<Condvar>, t: ThreadId) -> nat
    decreases s.len(),
{
    if s.len() == 0 {
        0
    } else {
        condvars_waits(s.drop_last(), t) + condvar_waits(s.last(), t)
    }
}

/// The set of live synchronization primitives.
pub struct SynchronizationState {
    pub mutexes: Vec<Mutex>,
    pub rwlocks: Vec<RwLock>,
    pub condvars: Vec<Condvar>,
}

impl SynchronizationState {
    pub open spec fn valid_mutex(self, id: MutexId) -> bool {
        1 <= id.0 && id.idx() < self.mutexes@.len()
    }

    pub open spec fn valid_rwlock(self, id: RwLockId) -> bool {
        1 <= id.0 && id.idx() < self.rwlocks@.len()
    }

    pub open spec fn valid_condvar(self, id: CondvarId) -> bool {
        1 <= id.0 && id.idx() < self.condvars@.len()
    }

    pub open spec fn mutex(self, id: MutexId) -> Mutex {
        self.mutexes@[id.idx()]
    }

    pub open spec fn rwlock(self, id: RwLockId) -> RwLock {
        self.rwlocks@[id.idx()]
    }

    pub open spec fn condvar(self, id: CondvarId) -> Condvar {
        self.condvars@[id.idx()]
    }

    /// Over how many wait queues of all primitives together is thread `t`
    /// spread (counting one entry per queue occurrence)?
    pub open spec fn total_waits(self, t: ThreadId) -> nat {
        mutexes_waits(self.mutexes@, t) + rwlocks_waits(self.rwlocks@, t) + condvars_waits(
            self.condvars@,
            t,
        )
    }

    /// The three tables have the same contents in `self` and `pre`.
    pub open spec fn unchanged_from(self, pre: Self) -> bool {
        &&& self.mutexes@ == pre.mutexes@
        &&& self.rwlocks@ == pre.rwlocks@
        &&& self.condvars@ == pre.condvars@
    }

    /// Only the mutex record of `id` may differ from `pre`.
    pub open spec fn only_mutex_changed(self, pre: Self, id: MutexId) -> bool {
        &&& self.mutexes@.len() == pre.mutexes@.len()
        &&& forall|j: int|
            0 <= j < pre.mutexes@.len() && j != id.idx() ==> #[trigger] self.mutexes@[j]
                == pre.mutexes@[j]
        &&& self.rwlocks@ == pre.rwlocks@
        &&& self.condvars@ == pre.condvars@
    }

    /// Only the rwlock record of `id` may differ from `pre`.
    pub open spec fn only_rwlock_changed(self, pre: Self, id: RwLockId) -> bool {
        &&& self.rwlocks@.len() == pre.rwlocks@.len()
        &&& forall|j: int|
            0 <= j < pre.rwlocks@.len() && j != id.idx() ==> #[trigger] self.rwlocks@[j]
                == pre.rwlocks@[j]
        &&& self.mutexes@ == pre.mutexes@
        &&& self.condvars@ == pre.condvars@
    }

    /// Only the condvar record of `id` may differ from `pre`.
    pub open spec fn only_condvar_changed(self, pre: Self, id: CondvarId) -> bool {
        &&& self.condvars@.len() == pre.condvars@.len()
        &&& forall|j: int|
            0 <= j < pre.condvars@.len() && j != id.idx() ==> #[trigger] self.condvars@[j]
                == pre.condvars@[j]
        &&& self.mutexes@ == pre.mutexes@
        &&& self.rwlocks@ == pre.rwlocks@
    }

    pub fn new() -> (r: SynchronizationState)
        ensures
            r.mutexes@.len() == 0,
            r.rwlocks@.len() == 0,
            r.condvars@.len() == 0,
    {
        SynchronizationState { mutexes: Vec::new(), rwlocks: Vec::new(), condvars: Vec::new() }
    }

    fn mutex_mut(&mut self, id: MutexId) -> (m: &mut Mutex)
        requires
            old(self).valid_mutex(id),
        ensures
            *m == old(self).mutex(id),
            final(self).mutexes@ == old(self).mutexes@.update(id.idx(), *final(m)),
            final(self).rwlocks@ == old(self).rwlocks@,
            final(self).condvars@ == old(self).condvars@,
    {
        let i = (id.0 - 1) as usize;
        &mut self.mutexes[i]
    }

    fn rwlock_mut(&mut self, id: RwLockId) -> (l: &mut RwLock)
        requires
            old(self).valid_rwlock(id),
        ensures
            *l == old(self).rwlock(id),
            final(self).rwlocks@ == old(self).rwlocks@.update(id.idx(), *final(l)),
            final(self).mutexes@ == old(self).mutexes@,
            final(self).condvars@ == old(self).condvars@,
    {
        let i = (id.0 - 1) as usize;
        &mut self.rwlocks[i]
    }

    fn condvar_mut(&mut self, id: CondvarId) -> (c: &mut Condvar)
        requires
            old(self).valid_condvar(id),
        ensures
            *c == old(self).condvar(id),
            final(self).condvars@ == old(self).condvars@.update(id.idx(), *final(c)),
            final(self).mutexes@ == old(self).mutexes@,
            final(self).rwlocks@ == old(self).rwlocks@,
    {
        let i = (id.0 - 1) as usize;
        &mut self.condvars[i]
    }

    /// Allocate a fresh, unlocked mutex and return its id (ids start at 1).
    pub fn mutex_create(&mut self) -> (id: MutexId)
        requires
            old(self).mutexes@.len() < u32::MAX,
        ensures
            id.0 == old(self).mutexes@.len() + 1,
            final(self).valid_mutex(id),
            final(self).mutexes@.len() == old(self).mutexes@.len() + 1,
            forall|j: int|
                0 <= j < old(self).mutexes@.len() ==> #[trigger] final(self).mutexes@[j] == old(self).mutexes@[j],
            final(self).mutex(id).owner is None,
            final(self).mutex(id).lock_count == 0,
            final(self).mutex(id).queue@.len() == 0,
            final(self).rwlocks@ == old(self).rwlocks@,
            final(self).condvars@ == old(self).condvars@,
    {
        let id = MutexId((self.mutexes.len() + 1) as u32);
        self.mutexes.push(Mutex { owner: None, lock_count: 0, queue: Vec::new() });
        id
    }

    pub fn mutex_is_locked(&self, id: MutexId) -> (r: bool)
        requires
            self.valid_mutex(id),
        ensures
            r == (self.mutex(id).owner is Some),
    {
        let i = (id.0 - 1) as usize;
        self.mutexes[i].owner.is_some()
    }

    /// The thread currently holding the mutex; only meaningful while locked.
    pub fn mutex_get_owner(&self, id: MutexId) -> (r: ThreadId)
        requires
            self.valid_mutex(id),
            self.mutex(id).owner is Some,
        ensures
            self.mutex(id).owner == Some(r),
    {
        let i = (id.0 - 1) as usize;
        match self.mutexes[i].owner {
            Some(t) => t,
            None => unreached(),
        }
    }

    /// Acquire the mutex for `thread`: lock it if unlocked, or deepen the
    /// nesting if `thread` already owns it. Must not be called while another
    /// thread owns the mutex.
    pub fn mutex_lock(&mut self, id: MutexId, thread: ThreadId)
        requires
            old(self).valid_mutex(id),
            old(self).mutex(id).owner is None || old(self).mutex(id).owner == Some(thread),
            old(self).mutex(id).lock_count < usize::MAX,
        ensures
            final(self).only_mutex_changed(*old(self), id),
            final(self).mutex(id).owner == Some(thread),
            final(self).mutex(id).lock_count == old(self).mutex(id).lock_count + 1,
            final(self).mutex(id).queue@ == old(self).mutex(id).queue@,
    {
        let m = self.mutex_mut(id);
        m.owner = Some(thread);
        m.lock_count = m.lock_count + 1;
    }

    /// Release one nesting level. Returns the owner and the remaining count,
    /// or `None` (and no change) if the mutex was not locked at all.
    pub fn mutex_unlock(&mut self, id: MutexId) -> (r: Option<(ThreadId, usize)>)
        requires
            old(self).valid_mutex(id),
            old(self).mutex(id).owner is Some ==> old(self).mutex(id).lock_count >= 1,
        ensures
            final(self).only_mutex_changed(*old(self), id),
            old(self).mutex(id).owner is None ==> r is None && final(self).unchanged_from(
                *old(self),
            ),
            old(self).mutex(id).owner matches Some(o) ==> {
                &&& r == Some((o, (old(self).mutex(id).lock_count - 1) as usize))
                &&& final(self).mutex(id).lock_count == old(self).mutex(id).lock_count - 1
                &&& final(self).mutex(id).owner == (if old(self).mutex(id).lock_count == 1 {
                    Option::<ThreadId>::None
                } else {
                    Some(o)
                })
                &&& final(self).mutex(id).queue@ == old(self).mutex(id).queue@
            },
    {
        let i_rec = (id.0 - 1) as usize;
        match self.mutexes[i_rec].owner {
            None => None,
            Some(o) => {
                let m = self.mutex_mut(id);
                let new_count = m.lock_count - 1;
                m.lock_count = new_count;
                if new_count == 0 {
                    m.owner = None;
                }
                Some((o, new_count))
            },
        }
    }

    /// Append `thread` to the mutex's FIFO wait queue.
    pub fn mutex_enqueue(&mut self, id: MutexId, thread: ThreadId)
        requires
            old(self).valid_mutex(id),
        ensures
            final(self).only_mutex_changed(*old(self), id),
            final(self).mutex(id).queue@ == old(self).mutex(id).queue@.push(thread),
            final(self).mutex(id).owner == old(self).mutex(id).owner,
            final(self).mutex(id).lock_count == old(self).mutex(id).lock_count,
    {
        let m = self.mutex_mut(id);
        m.queue.push(thread);
    }

    /// Pop the head of the mutex's FIFO wait queue, if any.
    pub fn mutex_dequeue(&mut self, id: MutexId) -> (r: Option<ThreadId>)
        requires
            old(self).valid_mutex(id),
        ensures
            final(self).only_mutex_changed(*old(self), id),
            old(self).mutex(id).queue@.len() == 0 ==> r is None && final(self).unchanged_from(
                *old(self),
            ),
            old(self).mutex(id).queue@.len() > 0 ==> {
                &&& r == Some(old(self).mutex(id).queue@[0])
                &&& final(self).mutex(id).queue@ == old(self).mutex(id).queue@.remove(0)
                &&& final(self).mutex(id).owner == old(self).mutex(id).owner
                &&& final(self).mutex(id).lock_count == old(self).mutex(id).lock_count
            },
    {
        let i_rec = (id.0 - 1) as usize;
        if self.mutexes[i_rec].queue.len() > 0 {
            let m = self.mutex_mut(id);
            Some(m.queue.remove(0))
        } else {
            None
        }
    }

    /// Allocate a fresh, unlocked rwlock and return its id (ids start at 1).
    pub fn rwlock_create(&mut self) -> (id: RwLockId)
        requires
            old(self).rwlocks@.len() < u32::MAX,
        ensures
            id.0 == old(self).rwlocks@.len() + 1,
            final(self).valid_rwlock(id),
            final(self).rwlocks@.len() == old(self).rwlocks@.len() + 1,
            forall|j: int|
                0 <= j < old(self).rwlocks@.len() ==> #[trigger] final(self).rwlocks@[j] == old(self).rwlocks@[j],
            final(self).rwlock(id).writer is None,
            final(self).rwlock(id).readers@.len() == 0,
            final(self).rwlock(id).writer_queue@.len() == 0,
            final(self).rwlock(id).reader_queue@.len() == 0,
            final(self).mutexes@ == old(self).mutexes@,
            final(self).condvars@ == old(self).condvars@,
    {
        let id = RwLockId((self.rwlocks.len() + 1) as u32);
        self.rwlocks.push(
            RwLock {
                writer: None,
                readers: Vec::new(),
                writer_queue: Vec::new(),
                reader_queue: Vec::new(),
            },
        );
        id
    }

    /// Locked in either mode: a writer holds it or at least one reader does.
    pub fn rwlock_is_locked(&self, id: RwLockId) -> (r: bool)
        requires
            self.valid_rwlock(id),
        ensures
            r == (self.rwlock(id).writer is Some || self.rwlock(id).readers@.len() > 0),
    {
        let i = (id.0 - 1) as usize;
        self.rwlocks[i].writer.is_some() || self.rwlocks[i].readers.len() > 0
    }

    pub fn rwlock_is_write_locked(&self, id: RwLockId) -> (r: bool)
        requires
            self.valid_rwlock(id),
        ensures
            r == (self.rwlock(id).writer is Some),
    {
        let i = (id.0 - 1) as usize;
        self.rwlocks[i].writer.is_some()
    }

    /// Grant (one nesting level of) read access to `thread`.
    pub fn rwlock_reader_add(&mut self, id: RwLockId, thread: ThreadId)
        requires
            old(self).valid_rwlock(id),
        ensures
            final(self).only_rwlock_changed(*old(self), id),
            final(self).rwlock(id).readers@ == old(self).rwlock(id).readers@.push(thread),
            final(self).rwlock(id).writer == old(self).rwlock(id).writer,
            final(self).rwlock(id).writer_queue@ == old(self).rwlock(id).writer_queue@,
            final(self).rwlock(id).reader_queue@ == old(self).rwlock(id).reader_queue@,
    {
        let l = self.rwlock_mut(id);
        l.readers.push(thread);
    }

    /// Drop one nesting level of `thread`'s read access; returns whether
    /// `thread` held any.
    pub fn rwlock_reader_remove(&mut self, id: RwLockId, thread: ThreadId) -> (r: bool)
        requires
            old(self).valid_rwlock(id),
        ensures
            final(self).only_rwlock_changed(*old(self), id),
            r == old(self).rwlock(id).readers@.contains(thread),
            !r ==> final(self).unchanged_from(*old(self)),
            r ==> exists|k: int|
                {
                    &&& 0 <= k < old(self).rwlock(id).readers@.len()
                    &&& old(self).rwlock(id).readers@[k] == thread
                    &&& final(self).rwlock(id).readers@ == old(self).rwlock(id).readers@.remove(k)
                },
            final(self).rwlock(id).writer == old(self).rwlock(id).writer,
            final(self).rwlock(id).writer_queue@ == old(self).rwlock(id).writer_queue@,
            final(self).rwlock(id).reader_queue@ == old(self).rwlock(id).reader_queue@,
    {
        let i_rec = (id.0 - 1) as usize;
        let found = find_tid(&self.rwlocks[i_rec].readers, thread);
        match found {
            Some(k) => {
                proof {
                    assert(old(self).rwlock(id).readers@[k as int] == thread);
                }
                let l = self.rwlock_mut(id);
                l.readers.remove(k);
                true
            },
            None => {
                proof {
                    assert(!old(self).rwlock(id).readers@.contains(thread));
                }
                false
            },
        }
    }

    /// Grant write access to `thread`; the rwlock must be unlocked.
    pub fn rwlock_writer_set(&mut self, id: RwLockId, thread: ThreadId)
        requires
            old(self).valid_rwlock(id),
            old(self).rwlock(id).writer is None,
            old(self).rwlock(id).readers@.len() == 0,
        ensures
            final(self).only_rwlock_changed(*old(self), id),
            final(self).rwlock(id).writer == Some(thread),
            final(self).rwlock(id).readers@ == old(self).rwlock(id).readers@,
            final(self).rwlock(id).writer_queue@ == old(self).rwlock(id).writer_queue@,
            final(self).rwlock(id).reader_queue@ == old(self).rwlock(id).reader_queue@,
    {
        let l = self.rwlock_mut(id);
        l.writer = Some(thread);
    }

    /// Clear the writer and return who it was (`None` if not write-locked).
    pub fn rwlock_writer_remove(&mut self, id: RwLockId) -> (r: Option<ThreadId>)
        requires
            old(self).valid_rwlock(id),
        ensures
            final(self).only_rwlock_changed(*old(self), id),
            r == old(self).rwlock(id).writer,
            final(self).rwlock(id).writer is None,
            final(self).rwlock(id).readers@ == old(self).rwlock(id).readers@,
            final(self).rwlock(id).writer_queue@ == old(self).rwlock(id).writer_queue@,
            final(self).rwlock(id).reader_queue@ == old(self).rwlock(id).reader_queue@,
    {
        let l = self.rwlock_mut(id);
        let r = l.writer;
        l.writer = None;
        r
    }

    /// Append `thread` to the FIFO queue of would-be readers.
    pub fn rwlock_enqueue_reader(&mut self, id: RwLockId, thread: ThreadId)
        requires
            old(self).valid_rwlock(id),
        ensures
            final(self).only_rwlock_changed(*old(self), id),
            final(self).rwlock(id).reader_queue@ == old(self).rwlock(id).reader_queue@.push(thread),
            final(self).rwlock(id).writer == old(self).rwlock(id).writer,
            final(self).rwlock(id).readers@ == old(self).rwlock(id).readers@,
            final(self).rwlock(id).writer_queue@ == old(self).rwlock(id).writer_queue@,
    {
        let l = self.rwlock_mut(id);
        l.reader_queue.push(thread);
    }

    /// Append `thread` to the FIFO queue of would-be writers.
    pub fn rwlock_enqueue_writer(&mut self, id: RwLockId, thread: ThreadId)
        requires
            old(self).valid_rwlock(id),
        ensures
            final(self).only_rwlock_changed(*old(self), id),
            final(self).rwlock(id).writer_queue@ == old(self).rwlock(id).writer_queue@.push(thread),
            final(self).rwlock(id).writer == old(self).rwlock(id).writer,
            final(self).rwlock(id).readers@ == old(self).rwlock(id).readers@,
            final(self).rwlock(id).reader_queue@ == old(self).rwlock(id).reader_queue@,
    {
        let l = self.rwlock_mut(id);
        l.writer_queue.push(thread);
    }

    /// Pop the head of the reader queue, if any.
    pub fn rwlock_dequeue_reader(&mut self, id: RwLockId) -> (r: Option<ThreadId>)
        requires
            old(self).valid_rwlock(id),
        ensures
            final(self).only_rwlock_changed(*old(self), id),
            old(self).rwlock(id).reader_queue@.len() == 0 ==> r is None && final(self).unchanged_from(*old(self)),
            old(self).rwlock(id).reader_queue@.len() > 0 ==> {
                &&& r == Some(old(self).rwlock(id).reader_queue@[0])
                &&& final(self).rwlock(id).reader_queue@ == old(self).rwlock(
                    id,
                ).reader_queue@.remove(0)
                &&& final(self).rwlock(id).writer == old(self).rwlock(id).writer
                &&& final(self).rwlock(id).readers@ == old(self).rwlock(id).readers@
                &&& final(self).rwlock(id).writer_queue@ == old(self).rwlock(id).writer_queue@
            },
    {
        let i_rec = (id.0 - 1) as usize;
        if self.rwlocks[i_rec].reader_queue.len() > 0 {
            let l = self.rwlock_mut(id);
            Some(l.reader_queue.remove(0))
        } else {
            None
        }
    }

    /// Does any thread wait in the reader queue?
    pub fn rwlock_has_queued_reader(&self, id: RwLockId) -> (r: bool)
        requires
            self.valid_rwlock(id),
        ensures
            r == (self.rwlock(id).reader_queue@.len() > 0),
    {
        let i = (id.0 - 1) as usize;
        self.rwlocks[i].reader_queue.len() > 0
    }

    /// How many threads wait in the reader queue?
    pub fn rwlock_reader_queue_len(&self, id: RwLockId) -> (r: usize)
        requires
            self.valid_rwlock(id),
        ensures
            r == self.rwlock(id).reader_queue@.len(),
    {
        let i = (id.0 - 1) as usize;
        self.rwlocks[i].reader_queue.len()
    }

    /// Pop the head of the writer queue, if any.
    pub fn rwlock_dequeue_writer(&mut self, id: RwLockId) -> (r: Option<ThreadId>)
        requires
            old(self).valid_rwlock(id),
        ensures
            final(self).only_rwlock_changed(*old(self), id),
            old(self).rwlock(id).writer_queue@.len() == 0 ==> r is None && final(self).unchanged_from(*old(self)),
            old(self).rwlock(id).writer_queue@.len() > 0 ==> {
                &&& r == Some(old(self).rwlock(id).writer_queue@[0])
                &&& final(self).rwlock(id).writer_queue@ == old(self).rwlock(
                    id,
                ).writer_queue@.remove(0)
                &&& final(self).rwlock(id).writer == old(self).rwlock(id).writer
                &&& final(self).rwlock(id).readers@ == old(self).rwlock(id).readers@
                &&& final(self).rwlock(id).reader_queue@ == old(self).rwlock(id).reader_queue@
            },
    {
        let i_rec = (id.0 - 1) as usize;
        if self.rwlocks[i_rec].writer_queue.len() > 0 {
            let l = self.rwlock_mut(id);
            Some(l.writer_queue.remove(0))
        } else {
            None
        }
    }

    /// Allocate a fresh condvar and return its id (ids start at 1).
    pub fn condvar_create(&mut self) -> (id: CondvarId)
        requires
            old(self).condvars@.len() < u32::MAX,
        ensures
            id.0 == old(self).condvars@.len() + 1,
            final(self).valid_condvar(id),
            final(self).condvars@.len() == old(self).condvars@.len() + 1,
            forall|j: int|
                0 <= j < old(self).condvars@.len() ==> #[trigger] final(self).condvars@[j] == old(self).condvars@[j],
            final(self).condvar(id).waiters@.len() == 0,
            final(self).mutexes@ == old(self).mutexes@,
            final(self).rwlocks@ == old(self).rwlocks@,
    {
        let id = CondvarId((self.condvars.len() + 1) as u32);
        self.condvars.push(Condvar { waiters: Vec::new() });
        id
    }

    /// Append `(thread, mutex)` to the condvar's FIFO waiter list.
    pub fn condvar_wait(&mut self, id: CondvarId, thread: ThreadId, mutex: MutexId)
        requires
            old(self).valid_condvar(id),
        ensures
            final(self).only_condvar_changed(*old(self), id),
            final(self).condvar(id).waiters@ == old(self).condvar(id).waiters@.push(
                (CondvarWaiter { thread, mutex }),
            ),
    {
        let c = self.condvar_mut(id);
        c.waiters.push(CondvarWaiter { thread, mutex });
    }

    /// Pop the first waiter (FIFO), if any.
    pub fn condvar_signal(&mut self, id: CondvarId) -> (r: Option<(ThreadId, MutexId)>)
        requires
            old(self).valid_condvar(id),
        ensures
            final(self).only_condvar_changed(*old(self), id),
            old(self).condvar(id).waiters@.len() == 0 ==> r is None && final(self).unchanged_from(
                *old(self),
            ),
            old(self).condvar(id).waiters@.len() > 0 ==> {
                &&& r == Some(
                    (
                        old(self).condvar(id).waiters@[0].thread,
                        old(self).condvar(id).waiters@[0].mutex,
                    ),
                )
                &&& final(self).condvar(id).waiters@ == old(self).condvar(id).waiters@.remove(0)
            },
    {
        let i_rec = (id.0 - 1) as usize;
        if self.condvars[i_rec].waiters.len() > 0 {
            let c = self.condvar_mut(id);
            let w = c.waiters.remove(0);
            Some((w.thread, w.mutex))
        } else {
            None
        }
    }

    /// Does any thread wait on this condvar?
    pub fn condvar_is_awaited(&self, id: CondvarId) -> (r: bool)
        requires
            self.valid_condvar(id),
        ensures
            r == (self.condvar(id).waiters@.len() > 0),
    {
        let i = (id.0 - 1) as usize;
        self.condvars[i].waiters.len() > 0
    }

    /// Remove `thread`'s first waiter entry, keeping the order of the rest;
    /// a no-op if `thread` does not wait here. Used by timeout callbacks.
    pub fn condvar_remove_waiter(&mut self, id: CondvarId, thread: ThreadId)
        requires
            old(self).valid_condvar(id),
        ensures
            final(self).only_condvar_changed(*old(self), id),
            count_waiters(old(self).condvar(id).waiters@, thread) == 0 ==> final(self).unchanged_from(*old(self)),
            count_waiters(old(self).condvar(id).waiters@, thread) > 0 ==> exists|k: int|
                {
                    &&& 0 <= k < old(self).condvar(id).waiters@.len()
                    &&& old(self).condvar(id).waiters@[k].thread == thread
                    &&& forall|j: int|
                        0 <= j < k ==> old(self).condvar(id).waiters@[j].thread != thread
                    &&& final(self).condvar(id).waiters@ == old(self).condvar(id).waiters@.remove(
                        k,
                    )
                },
    {
        let i_rec = (id.0 - 1) as usize;
        let found = find_waiter(&self.condvars[i_rec].waiters, thread);
        match found {
            Some(k) => {
                proof {
                    lemma_count_waiters_positive(old(self).condvar(id).waiters@, thread, k as int);
                }
                let c = self.condvar_mut(id);
                c.waiters.remove(k);
            },
            None => {
                proof {
                    lemma_count_waiters_zero(old(self).condvar(id).waiters@, thread);
                }
            },
        }
    }
}

/// Compare two thread ids.
pub fn thread_eq(a: ThreadId, b: ThreadId) -> (r: bool)
    ensures
        r == (a == b),
{
    a.0 == b.0
}

/// Index of the first occurrence of `t` in `q`, if any.
fn find_tid(q: &Vec<ThreadId>, t: ThreadId) -> (r: Option<usize>)
    ensures
        match r {
            Some(i) => {
                &&& i < q@.len()
                &&& q@[i as int] == t
                &&& forall|j: int| 0 <= j < i ==> q@[j] != t
            },
            None => forall|j: int| 0 <= j < q@.len() ==> q@[j] != t,
        },
{
    let n = q.len();
    let mut i: usize = 0;
    while i < n
        invariant
            n == q@.len(),
            i <= n,
            forall|j: int| 0 <= j < i ==> q@[j] != t,
        decreases n - i,
    {
        if thread_eq(q[i], t) {
            return Some(i);
        }
        i = i + 1;
    }
    None
}

/// Index of the first waiter entry of thread `t` in `q`, if any.
fn find_waiter(q: &Vec<CondvarWaiter>, t: ThreadId) -> (r: Option<usize>)
    ensures
        match r {
            Some(i) => {
                &&& i < q@.len()
                &&& q@[i as int].thread == t
                &&& forall|j: int| 0 <= j < i ==> q@[j].thread != t
            },
            None => forall|j: int| 0 <= j < q@.len() ==> q@[j].thread != t,
        },
{
    let n = q.len();
    let mut i: usize = 0;
    while i < n
        invariant
            n == q@.len(),
            i <= n,
            forall|j: int| 0 <= j < i ==> q@[j].thread != t,
        decreases n - i,
    {
        if thread_eq(q[i].thread, t) {
            return Some(i);
        }
        i = i + 1;
    }
    None
}

/// Appending to a queue adds one occurrence of the appended thread.
pub proof fn lemma_count_tid_push(q: Seq<ThreadId>, x: ThreadId, t: ThreadId)
    ensures
        count_tid(q.push(x), t) == count_tid(q, t) + if x == t {
            1nat
        } else {
            0nat
        },
{
    assert(q.push(x).drop_last() =~= q);
}

/// Removing the entry at `i` removes exactly that entry's occurrence.
pub proof fn lemma_count_tid_remove(q: Seq<ThreadId>, i: int, t: ThreadId)
    requires
        0 <= i < q.len(),
    ensures
        count_tid(q.remove(i), t) + (if q[i] == t {
            1nat
        } else {
            0nat
        }) == count_tid(q, t),
    decreases q.len(),
{
    if i == q.len() - 1 {
        assert(q.remove(i) =~= q.drop_last());
    } else {
        assert(q.remove(i).drop_last() =~= q.drop_last().remove(i));
        lemma_count_tid_remove(q.drop_last(), i, t);
        assert(q.remove(i).last() == q.last());
    }
}

/// A queue entry at `i` for `t` means `t`'s count in the queue is positive.
pub proof fn lemma_count_tid_positive(q: Seq<ThreadId>, t: ThreadId, i: int)
    requires
        0 <= i < q.len(),
        q[i] == t,
    ensures
        count_tid(q, t) > 0,
    decreases q.len(),
{
    if i == q.len() - 1 {
    } else {
        lemma_count_tid_positive(q.drop_last(), t, i);
    }
}

/// A zero count means `t` stands nowhere in the queue.
pub proof fn lemma_count_tid_zero(q: Seq<ThreadId>, t: ThreadId)
    requires
        count_tid(q, t) == 0,
    ensures
        forall|j: int| 0 <= j < q.len() ==> q[j] != t,
{
    assert forall|j: int| 0 <= j < q.len() implies q[j] != t by {
        if q[j] == t {
            lemma_count_tid_positive(q, t, j);
        }
    }
}

/// Appending a waiter adds one occurrence of its thread.
pub proof fn lemma_count_waiters_push(q: Seq<CondvarWaiter>, x: CondvarWaiter, t: ThreadId)
    ensures
        count_waiters(q.push(x), t) == count_waiters(q, t) + if x.thread == t {
            1nat
        } else {
            0nat
        },
{
    assert(q.push(x).drop_last() =~= q);
}

/// Removing the waiter at `i` removes exactly that entry's occurrence.
pub proof fn lemma_count_waiters_remove(q: Seq<CondvarWaiter>, i: int, t: ThreadId)
    requires
        0 <= i < q.len(),
    ensures
        count_waiters(q.remove(i), t) + (if q[i].thread == t {
            1nat
        } else {
            0nat
        }) == count_waiters(q, t),
    decreases q.len(),
{
    if i == q.len() - 1 {
        assert(q.remove(i) =~= q.drop_last());
    } else {
        assert(q.remove(i).drop_last() =~= q.drop_last().remove(i));
        lemma_count_waiters_remove(q.drop_last(), i, t);
        assert(q.remove(i).last() == q.last());
    }
}

/// Replacing table entry `i` changes the total by that entry's difference.
pub proof fn lemma_mutexes_waits_update(s: Seq<Mutex>, i: int, m: Mutex, t: ThreadId)
    requires
        0 <= i < s.len(),
    ensures
        mutexes_waits(s.update(i, m), t) + mutex_waits(s[i], t) == mutexes_waits(s, t)
            + mutex_waits(m, t),
    decreases s.len(),
{
    let s2 = s.update(i, m);
    if i == s.len() - 1 {
        assert(s2.drop_last() =~= s.drop_last());
    } else {
        assert(s2.drop_last() =~= s.drop_last().update(i, m));
        lemma_mutexes_waits_update(s.drop_last(), i, m, t);
        assert(s2.last() == s.last());
    }
}


/// One table entry's count never exceeds the total.
pub proof fn lemma_mutexes_waits_bound(s: Seq<Mutex>, i: int, t: ThreadId)
    requires
        0 <= i < s.len(),
    ensures
        mutex_waits(s[i], t) <= mutexes_waits(s, t),
    decreases s.len(),
{
    if i == s.len() - 1 {
    } else {
        lemma_mutexes_waits_bound(s.drop_last(), i, t);
    }
}

/// Replacing table entry `i` changes the total by that entry's difference.
pub proof fn lemma_rwlocks_waits_update(s: Seq<RwLock>, i: int, l: RwLock, t: ThreadId)
    requires
        0 <= i < s.len(),
    ensures
        rwlocks_waits(s.update(i, l), t) + rwlock_waits(s[i], t) == rwlocks_waits(s, t)
            + rwlock_waits(l, t),
    decreases s.len(),
{
    let s2 = s.update(i, l);
    if i == s.len() - 1 {
        assert(s2.drop_last() =~= s.drop_last());
    } else {
        assert(s2.drop_last() =~= s.drop_last().update(i, l));
        lemma_rwlocks_waits_update(s.drop_last(), i, l, t);
        assert(s2.last() == s.last());
    }
}


/// One table entry's count never exceeds the total.
pub proof fn lemma_rwlocks_waits_bound(s: Seq<RwLock>, i: int, t: ThreadId)
    requires
        0 <= i < s.len(),
    ensures
        rwlock_waits(s[i], t) <= rwlocks_waits(s, t),
    decreases s.len(),
{
    if i == s.len() - 1 {
    } else {
        lemma_rwlocks_waits_bound(s.drop_last(), i, t);
    }
}

/// Replacing table entry `i` changes the total by that entry's difference.
pub proof fn lemma_condvars_waits_update(s: Seq<Condvar>, i: int, c: Condvar, t: ThreadId)
    requires
        0 <= i < s.len(),
    ensures
        condvars_waits(s.update(i, c), t) + condvar_waits(s[i], t) == condvars_waits(s, t)
            + condvar_waits(c, t),
    decreases s.len(),
{
    let s2 = s.update(i, c);
    if i == s.len() - 1 {
        assert(s2.drop_last() =~= s.drop_last());
    } else {
        assert(s2.drop_last() =~= s.drop_last().update(i, c));
        lemma_condvars_waits_update(s.drop_last(), i, c, t);
        assert(s2.last() == s.last());
    }
}


/// One table entry's count never exceeds the total.
pub proof fn lemma_condvars_waits_bound(s: Seq<Condvar>, i: int, t: ThreadId)
    requires
        0 <= i < s.len(),
    ensures
        condvar_waits(s[i], t) <= condvars_waits(s, t),
    decreases s.len(),
{
    if i == s.len() - 1 {
    } else {
        lemma_condvars_waits_bound(s.drop_last(), i, t);
    }
}

/// When only one mutex record changed, the totals differ exactly by that
/// record's difference.
pub proof fn lemma_total_waits_mutex_changed(
    pre: SynchronizationState,
    post: SynchronizationState,
    id: MutexId,
    t: ThreadId,
)
    requires
        pre.valid_mutex(id),
        post.only_mutex_changed(pre, id),
    ensures
        post.total_waits(t) + mutex_waits(pre.mutex(id), t) == pre.total_waits(t) + mutex_waits(
            post.mutex(id),
            t,
        ),
{
    assert(post.mutexes@ =~= pre.mutexes@.update(id.idx(), post.mutexes@[id.idx()]));
    lemma_mutexes_waits_update(pre.mutexes@, id.idx(), post.mutex(id), t);
}

/// When only one rwlock record changed, the totals differ exactly by that
/// record's difference.
pub proof fn lemma_total_waits_rwlock_changed(
    pre: SynchronizationState,
    post: SynchronizationState,
    id: RwLockId,
    t: ThreadId,
)
    requires
        pre.valid_rwlock(id),
        post.only_rwlock_changed(pre, id),
    ensures
        post.total_waits(t) + rwlock_waits(pre.rwlock(id), t) == pre.total_waits(t) + rwlock_waits(
            post.rwlock(id),
            t,
        ),
{
    assert(post.rwlocks@ =~= pre.rwlocks@.update(id.idx(), post.rwlocks@[id.idx()]));
    lemma_rwlocks_waits_update(pre.rwlocks@, id.idx(), post.rwlock(id), t);
}

/// When only one condvar record changed, the totals differ exactly by that
/// record's difference.
pub proof fn lemma_total_waits_condvar_changed(
    pre: SynchronizationState,
    post: SynchronizationState,
    id: CondvarId,
    t: ThreadId,
)
    requires
        pre.valid_condvar(id),
        post.only_condvar_changed(pre, id),
    ensures
        post.total_waits(t) + condvar_waits(pre.condvar(id), t) == pre.total_waits(t)
            + condvar_waits(post.condvar(id), t),
{
    assert(post.condvars@ =~= pre.condvars@.update(id.idx(), post.condvars@[id.idx()]));
    lemma_condvars_waits_update(pre.condvars@, id.idx(), post.condvar(id), t);
}

/// Appending a primitive with empty queues leaves every total unchanged.
pub proof fn lemma_total_waits_create(
    pre: SynchronizationState,
    post: SynchronizationState,
    t: ThreadId,
)
    requires
        post.mutexes@ == pre.mutexes@ || (post.mutexes@.len() == pre.mutexes@.len() + 1
            && post.mutexes@.drop_last() == pre.mutexes@ && post.mutexes@.last().queue@.len() == 0),
        post.rwlocks@ == pre.rwlocks@ || (post.rwlocks@.len() == pre.rwlocks@.len() + 1
            && post.rwlocks@.drop_last() == pre.rwlocks@ && post.rwlocks@.last().writer_queue@.len()
            == 0 && post.rwlocks@.last().reader_queue@.len() == 0),
        post.condvars@ == pre.condvars@ || (post.condvars@.len() == pre.condvars@.len() + 1
            && post.condvars@.drop_last() == pre.condvars@ && post.condvars@.last().waiters@.len()
            == 0),
    ensures
        post.total_waits(t) == pre.total_waits(t),
{
    if post.mutexes@ != pre.mutexes@ {
        assert(mutexes_waits(post.mutexes@, t) == mutexes_waits(pre.mutexes@, t) + mutex_waits(
            post.mutexes@.last(),
            t,
        ));
    }
    if post.rwlocks@ != pre.rwlocks@ {
        assert(rwlocks_waits(post.rwlocks@, t) == rwlocks_waits(pre.rwlocks@, t) + rwlock_waits(
            post.rwlocks@.last(),
            t,
        ));
    }
    if post.condvars@ != pre.condvars@ {
        assert(condvars_waits(post.condvars@, t) == condvars_waits(pre.condvars@, t)
            + condvar_waits(post.condvars@.last(), t));
    }
}

/// Two distinct waiter positions for the same thread mean its count is at
/// least two.
pub proof fn lemma_count_waiters_two_positions(
    q: Seq<CondvarWaiter>,
    t: ThreadId,
    p1: int,
    p2: int,
)
    requires
        0 <= p1 < q.len(),
        0 <= p2 < q.len(),
        p1 != p2,
        q[p1].thread == t,
        q[p2].thread == t,
    ensures
        count_waiters(q, t) >= 2,
    decreases q.len(),
{
    if p1 == q.len() - 1 {
        lemma_count_waiters_positive(q.drop_last(), t, p2);
    } else if p2 == q.len() - 1 {
        lemma_count_waiters_positive(q.drop_last(), t, p1);
    } else {
        lemma_count_waiters_two_positions(q.drop_last(), t, p1, p2);
    }
}

/// Two distinct table entries together never exceed the total.
pub proof fn lemma_condvars_waits_two_bound(s: Seq<Condvar>, i: int, j: int, t: ThreadId)
    requires
        0 <= i < s.len(),
        0 <= j < s.len(),
        i != j,
    ensures
        condvar_waits(s[i], t) + condvar_waits(s[j], t) <= condvars_waits(s, t),
    decreases s.len(),
{
    if i == s.len() - 1 {
        lemma_condvars_waits_bound(s.drop_last(), j, t);
    } else if j == s.len() - 1 {
        lemma_condvars_waits_bound(s.drop_last(), i, t);
    } else {
        lemma_condvars_waits_two_bound(s.drop_last(), i, j, t);
    }
}

/// A queue entry at `i` for `t` means `t`'s count in the queue is positive.
pub proof fn lemma_count_waiters_positive(q: Seq<CondvarWaiter>, t: ThreadId, i: int)
    requires
        0 <= i < q.len(),
        q[i].thread == t,
    ensures
        count_waiters(q, t) > 0,
    decreases q.len(),
{
    if i == q.len() - 1 {
    } else {
        lemma_count_waiters_positive(q.drop_last(), t, i);
    }
}

/// No entry for `t` means `t`'s count in the queue is zero.
pub proof fn lemma_count_waiters_zero(q: Seq<CondvarWaiter>, t: ThreadId)
    requires
        forall|j: int| 0 <= j < q.len() ==> q[j].thread != t,
    ensures
        count_waiters(q, t) == 0,
    decreases q.len(),
{
    if q.len() > 0 {
        lemma_count_waiters_zero(q.drop_last(), t);
    }
}

} // verus!

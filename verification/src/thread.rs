//! Guest threads: their identifiers, states, stacks and names; the timeout
//! callback table; and the scheduler.
//!
//! The host interpreter executes one step of one guest thread at a time. The
//! [`ThreadManager`] records which thread is active, what every thread's
//! state is, and which one-shot timeout callbacks are pending. Its
//! [`ThreadManager::schedule`] method decides what the host does next.
//!
//! The manager is generic over the type `F` of one interpreter call frame:
//! the scheduler only ever asks whether a stack is empty, so frames pass
//! through it opaquely.

use vstd::prelude::*;
use vstd::bytes::{spec_u32_to_le_bytes, u32_to_le_bytes};
use crate::sync::{SynchronizationState, CondvarId, MutexId};
use crate::posix::MachineStop;

verus! {

/// What the host interpreter must do next.
#[derive(Clone, Copy, Debug, PartialEq, Eq, Structural)]
pub enum SchedulingAction {
    /// Execute one step of the active thread.
    ExecuteStep,
    /// Execute a ready timeout callback (sleeping first if none is ready).
    ExecuteTimeoutCallback,
    /// Execute destructors of the just-terminated active thread.
    ExecuteDtors,
    /// Stop the program.
    Stop,
}

/// A thread identifier: a dense index into the thread table. The main
/// thread is thread 0; when it terminates, the whole application terminates.
#[derive(Clone, Copy, Debug, PartialEq, Eq, Structural)]
pub struct ThreadId(pub u32);

impl ThreadId {
    pub fn to_u32(self) -> (r: u32)
        ensures
            r == self.0,
    {
        self.0
    }

    /// The id of the thread stored at table index `idx`.
    pub fn new(idx: usize) -> (r: ThreadId)
        requires
            idx <= u32::MAX,
        ensures
            r.0 == idx,
    {
        ThreadId(idx as u32)
    }

    /// The table index of this thread.
    pub fn index(self) -> (r: usize)
        ensures
            r == self.0,
    {
        self.0 as usize
    }

    /// The id as the four little-endian bytes a 32-bit guest field holds.
    pub fn to_u32_scalar(&self) -> (r: Vec<u8>)
        ensures
            r@ == spec_u32_to_le_bytes(self.0),
            r@.len() == 4,
    {
        u32_to_le_bytes(self.0)
    }
}

/// The state of a thread.
#[derive(Clone, Copy, Debug, PartialEq, Eq, Structural)]
pub enum ThreadState {
    /// The thread is enabled and can be executed.
    Enabled,
    /// The thread tried to join the specified thread and is blocked until
    /// that thread terminates.
    BlockedOnJoin(ThreadId),
    /// The thread is blocked on some synchronization primitive; the
    /// primitive's wait queue (or a sleep timeout) tracks it.
    BlockedOnSync,
    /// The thread has terminated its execution (terminated threads are never
    /// deleted, so ids stay stable).
    Terminated,
}

/// The join status of a thread.
#[derive(Clone, Copy, Debug, PartialEq, Eq, Structural)]
pub enum ThreadJoinStatus {
    /// The thread can be joined.
    Joinable,
    /// The thread's join handle was destroyed; no other thread can join it.
    Detached,
    /// The thread was already joined by some thread and cannot be joined
    /// again.
    Joined,
}

/// A guest thread. `F` is the host interpreter's call-frame type.
pub struct Thread<F> {
    pub state: ThreadState,
    /// Name of the thread, at most 15 bytes (a NUL is appended on read-out).
    pub thread_name: Option<Vec<u8>>,
    /// The virtual call stack.
    pub stack: Vec<F>,
    /// The join status.
    pub join_status: ThreadJoinStatus,
}

impl<F> Thread<F> {
    /// Check if the thread is done executing (no more stack frames). If yes,
    /// change the state to terminated and return `true`.
    pub fn check_terminated(&mut self) -> (r: bool)
        ensures
            r == (old(self).state == ThreadState::Enabled && old(self).stack@.len() == 0),
            r ==> *final(self) == (Thread { state: ThreadState::Terminated, ..*old(self) }),
            !r ==> *final(self) == *old(self),
    {
        if matches!(self.state, ThreadState::Enabled) {
            if self.stack.len() == 0 {
                self.state = ThreadState::Terminated;
                return true;
            }
        }
        false
    }
}

impl<F> Default for Thread<F> {
    /// A fresh thread: enabled, joinable, unnamed, with an empty stack.
    fn default() -> (r: Self)
        ensures
            r.state == ThreadState::Enabled,
            r.thread_name is None,
            r.stack@.len() == 0,
            r.join_status == ThreadJoinStatus::Joinable,
    {
        Thread {
            state: ThreadState::Enabled,
            thread_name: None,
            stack: Vec::new(),
            join_status: ThreadJoinStatus::Joinable,
        }
    }
}

/// An absolute instant, tagged with the clock it was read from. Monotonic
/// instants are nanoseconds since the host's time anchor; real-time instants
/// are nanoseconds since the UNIX epoch.
#[derive(Clone, Copy, Debug, PartialEq, Eq, Structural)]
pub enum Time {
    Monotonic(u128),
    RealTime(u128),
}

impl Time {
    /// Has this instant passed, given the current reading of each clock?
    pub open spec fn spec_passed(self, now_monotonic: u128, now_real: u128) -> bool {
        match self {
            Time::Monotonic(t) => now_monotonic >= t,
            Time::RealTime(t) => now_real >= t,
        }
    }

    /// Nanoseconds from now until this instant (zero if it has passed).
    pub open spec fn spec_wait_nanos(self, now_monotonic: u128, now_real: u128) -> int {
        match self {
            Time::Monotonic(t) => if now_monotonic >= t {
                0
            } else {
                t - now_monotonic
            },
            Time::RealTime(t) => if now_real >= t {
                0
            } else {
                t - now_real
            },
        }
    }

    /// Has this instant passed, given the current reading of each clock?
    pub fn passed(self, now_monotonic: u128, now_real: u128) -> (r: bool)
        ensures
            r == self.spec_passed(now_monotonic, now_real),
    {
        match self {
            Time::Monotonic(t) => now_monotonic >= t,
            Time::RealTime(t) => now_real >= t,
        }
    }

    /// Nanoseconds from now until this instant (zero if it has passed).
    pub fn wait_nanos(self, now_monotonic: u128, now_real: u128) -> (r: u128)
        ensures
            r == self.spec_wait_nanos(now_monotonic, now_real),
    {
        match self {
            Time::Monotonic(t) => if now_monotonic >= t {
                0
            } else {
                t - now_monotonic
            },
            Time::RealTime(t) => if now_real >= t {
                0
            } else {
                t - now_real
            },
        }
    }
}

/// What a pending timeout does when it fires. Timeout callbacks are one-shot
/// and capture only ids, never handles.
#[derive(Clone, Copy, Debug, PartialEq, Eq, Structural)]
pub enum TimeoutCallback {
    /// Wake the sleeping thread the callback is registered for (`nanosleep`).
    WakeSleep,
    /// The thread's timed wait on `condvar` ran out: reacquire `mutex`,
    /// leave the condvar's waiter list, and report ETIMEDOUT
    /// (`pthread_cond_timedwait`).
    CondTimeout { condvar: CondvarId, mutex: MutexId },
}

/// A pending timeout: the callback must not be called before `call_time`.
#[derive(Clone, Copy, Debug, PartialEq, Eq, Structural)]
pub struct TimeoutCallbackInfo {
    /// The callback should be called no earlier than this time.
    pub call_time: Time,
    /// What to do then.
    pub callback: TimeoutCallback,
}

/// One thread-specific allocation of a thread-local static: the pair
/// `(def_id, thread)` is mapped to `alloc_id`. The ids are the host
/// interpreter's; the core only stores and looks them up.
#[derive(Clone, Copy, Debug, PartialEq, Eq, Structural)]
pub struct ThreadLocalAlloc {
    pub def_id: u64,
    pub thread: ThreadId,
    pub alloc_id: u64,
}

/// The set of guest threads, the synchronization state, and the pending
/// timeout callbacks.
pub struct ThreadManager<F> {
    /// Identifier of the currently active thread.
    pub active_thread: ThreadId,
    /// Threads used in the program, terminated ones included; a `ThreadId`
    /// indexes this table.
    pub threads: Vec<Thread<F>>,
    /// The live synchronization primitives (they refer to threads by id, and
    /// threads are tracked by their wait queues: no ownership edge crosses).
    pub sync: SynchronizationState,
    /// Thread-specific allocation ids of thread-local statics.
    pub thread_local_alloc_ids: Vec<ThreadLocalAlloc>,
    /// A one-shot flag: the active thread asked to be preempted.
    pub yield_active_thread: bool,
    /// The pending timeout callback of each thread, indexed like `threads`
    /// (so a thread can never have two pending callbacks).
    pub timeout_callbacks: Vec<Option<TimeoutCallbackInfo>>,
}

impl<F> ThreadManager<F> {
    pub open spec fn n_threads(self) -> nat {
        self.threads@.len()
    }

    pub open spec fn valid_thread(self, t: ThreadId) -> bool {
        t.0 < self.threads@.len()
    }

    pub open spec fn thread(self, t: ThreadId) -> Thread<F> {
        self.threads@[t.0 as int]
    }

    pub open spec fn state_of(self, t: ThreadId) -> ThreadState {
        self.thread(t).state
    }

    pub open spec fn callback_of(self, t: ThreadId) -> Option<TimeoutCallbackInfo> {
        self.timeout_callbacks@[t.0 as int]
    }

    /// The callback table has one slot per thread.
    pub open spec fn callbacks_parallel(self) -> bool {
        self.timeout_callbacks@.len() == self.threads@.len()
    }

    /// Nothing observable differs from `pre`.
    pub open spec fn unchanged_from(self, pre: Self) -> bool {
        &&& self.threads@ == pre.threads@
        &&& self.active_thread == pre.active_thread
        &&& self.sync.unchanged_from(pre.sync)
        &&& self.yield_active_thread == pre.yield_active_thread
        &&& self.timeout_callbacks@ == pre.timeout_callbacks@
        &&& self.thread_local_alloc_ids@ == pre.thread_local_alloc_ids@
    }

    /// All fields except the thread table equal those of `pre`.
    pub open spec fn same_but_threads(self, pre: Self) -> bool {
        &&& self.active_thread == pre.active_thread
        &&& self.sync == pre.sync
        &&& self.yield_active_thread == pre.yield_active_thread
        &&& self.timeout_callbacks@ == pre.timeout_callbacks@
        &&& self.thread_local_alloc_ids@ == pre.thread_local_alloc_ids@
    }

    /// All fields except the synchronization state equal those of `pre`.
    pub open spec fn same_but_sync(self, pre: Self) -> bool {
        &&& self.threads@ == pre.threads@
        &&& self.active_thread == pre.active_thread
        &&& self.yield_active_thread == pre.yield_active_thread
        &&& self.timeout_callbacks@ == pre.timeout_callbacks@
        &&& self.thread_local_alloc_ids@ == pre.thread_local_alloc_ids@
    }

    /// All fields except the callback table equal those of `pre`.
    pub open spec fn same_but_callbacks(self, pre: Self) -> bool {
        &&& self.threads@ == pre.threads@
        &&& self.active_thread == pre.active_thread
        &&& self.sync == pre.sync
        &&& self.yield_active_thread == pre.yield_active_thread
        &&& self.thread_local_alloc_ids@ == pre.thread_local_alloc_ids@
    }

    fn thread_mut(&mut self, t: ThreadId) -> (th: &mut Thread<F>)
        requires
            old(self).valid_thread(t),
        ensures
            *th == old(self).thread(t),
            final(self).threads@ == old(self).threads@.update(t.0 as int, *final(th)),
            final(self).same_but_threads(*old(self)),
    {
        let i = t.0 as usize;
        &mut self.threads[i]
    }

    /// Create a new thread (enabled, joinable, empty stack) and return its id.
    pub fn create_thread(&mut self) -> (r: ThreadId)
        requires
            old(self).threads@.len() < u32::MAX,
            old(self).callbacks_parallel(),
        ensures
            r.0 == old(self).threads@.len(),
            final(self).valid_thread(r),
            final(self).threads@.len() == old(self).threads@.len() + 1,
            forall|j: int|
                0 <= j < old(self).threads@.len() ==> final(self).threads@[j] == #[trigger] old(self).threads@[j],
            final(self).thread(r).state == ThreadState::Enabled,
            final(self).thread(r).join_status == ThreadJoinStatus::Joinable,
            final(self).thread(r).thread_name is None,
            final(self).thread(r).stack@.len() == 0,
            final(self).timeout_callbacks@ == old(self).timeout_callbacks@.push(
                Option::<TimeoutCallbackInfo>::None,
            ),
            final(self).callbacks_parallel(),
            final(self).active_thread == old(self).active_thread,
            final(self).sync == old(self).sync,
            final(self).yield_active_thread == old(self).yield_active_thread,
            final(self).thread_local_alloc_ids@ == old(self).thread_local_alloc_ids@,
    {
        let new_thread_id = ThreadId::new(self.threads.len());
        self.threads.push(Thread::default());
        self.timeout_callbacks.push(None);
        new_thread_id
    }

    /// Set the active thread and return the id of the previously active one.
    pub fn set_active_thread_id(&mut self, id: ThreadId) -> (r: ThreadId)
        requires
            old(self).valid_thread(id),
        ensures
            r == old(self).active_thread,
            final(self).active_thread == id,
            final(self).threads@ == old(self).threads@,
            final(self).sync == old(self).sync,
            final(self).yield_active_thread == old(self).yield_active_thread,
            final(self).timeout_callbacks@ == old(self).timeout_callbacks@,
            final(self).thread_local_alloc_ids@ == old(self).thread_local_alloc_ids@,
    {
        let active_thread_id = self.active_thread;
        self.active_thread = id;
        active_thread_id
    }

    /// Get the id of the currently active thread.
    pub fn get_active_thread_id(&self) -> (r: ThreadId)
        ensures
            r == self.active_thread,
    {
        self.active_thread
    }

    /// Get the total number of threads ever spawned by this program.
    pub fn get_total_thread_count(&self) -> (r: usize)
        ensures
            r == self.threads@.len(),
    {
        self.threads.len()
    }

    /// Has the given thread terminated?
    pub fn has_terminated(&self, thread_id: ThreadId) -> (r: bool)
        requires
            self.valid_thread(thread_id),
        ensures
            r == (self.thread(thread_id).state == ThreadState::Terminated),
    {
        let i = thread_id.0 as usize;
        matches!(self.threads[i].state, ThreadState::Terminated)
    }

    /// Enable a terminated thread again (used only while the interpreter
    /// runs the destructors of a just-terminated thread).
    pub fn enable_thread(&mut self, thread_id: ThreadId)
        requires
            old(self).valid_thread(thread_id),
            old(self).thread(thread_id).state == ThreadState::Terminated,
        ensures
            final(self).threads@ == old(self).threads@.update(
                thread_id.0 as int,
                (Thread { state: ThreadState::Enabled, ..old(self).thread(thread_id) }),
            ),
            final(self).same_but_threads(*old(self)),
    {
        let th = self.thread_mut(thread_id);
        th.state = ThreadState::Enabled;
    }

    /// Put the thread into the blocked-on-sync state.
    pub fn block_thread(&mut self, thread: ThreadId)
        requires
            old(self).valid_thread(thread),
            old(self).thread(thread).state == ThreadState::Enabled,
        ensures
            final(self).threads@ == old(self).threads@.update(
                thread.0 as int,
                (Thread { state: ThreadState::BlockedOnSync, ..old(self).thread(thread) }),
            ),
            final(self).same_but_threads(*old(self)),
    {
        let th = self.thread_mut(thread);
        th.state = ThreadState::BlockedOnSync;
    }

    /// Put the blocked thread back into the enabled state.
    pub fn unblock_thread(&mut self, thread: ThreadId)
        requires
            old(self).valid_thread(thread),
            old(self).thread(thread).state == ThreadState::BlockedOnSync,
        ensures
            final(self).threads@ == old(self).threads@.update(
                thread.0 as int,
                (Thread { state: ThreadState::Enabled, ..old(self).thread(thread) }),
            ),
            final(self).same_but_threads(*old(self)),
    {
        let th = self.thread_mut(thread);
        th.state = ThreadState::Enabled;
    }

    /// Ask the scheduler to move to another enabled thread at the next step.
    pub fn yield_active_thread(&mut self)
        ensures
            final(self).yield_active_thread == true,
            final(self).threads@ == old(self).threads@,
            final(self).active_thread == old(self).active_thread,
            final(self).sync == old(self).sync,
            final(self).timeout_callbacks@ == old(self).timeout_callbacks@,
            final(self).thread_local_alloc_ids@ == old(self).thread_local_alloc_ids@,
    {
        self.yield_active_thread = true;
    }

    /// Mark the thread as detached: no other thread will try to join it, and
    /// it is responsible for cleaning up. Detaching a thread that was already
    /// detached or joined is an invalid operation.
    pub fn detach_thread(&mut self, id: ThreadId) -> (r: Result<(), MachineStop>)
        requires
            old(self).valid_thread(id),
        ensures
            old(self).thread(id).join_status != ThreadJoinStatus::Joinable ==> r == Err::<
                (),
                MachineStop,
            >(MachineStop::UndefinedBehavior) && final(self).unchanged_from(*old(self)),
            old(self).thread(id).join_status == ThreadJoinStatus::Joinable ==> r == Ok::<
                (),
                MachineStop,
            >(()) && final(self).threads@ == old(self).threads@.update(
                id.0 as int,
                (Thread { join_status: ThreadJoinStatus::Detached, ..old(self).thread(id) }),
            ),
            final(self).same_but_threads(*old(self)),
    {
        let i = id.0 as usize;
        if !matches!(self.threads[i].join_status, ThreadJoinStatus::Joinable) {
            return Err(MachineStop::UndefinedBehavior);
        }
        let th = self.thread_mut(id);
        th.join_status = ThreadJoinStatus::Detached;
        Ok(())
    }

    /// Mark that the active thread wants to join the thread `joined`. Joining
    /// a thread that is not joinable, or joining oneself, is an invalid
    /// operation. The target becomes `Joined` at once (so nobody else can
    /// join it); if it has not terminated yet, the active thread blocks on it.
    ///
    /// No other thread may already be blocked joining a still-joinable
    /// target; the join-uniqueness invariant supplies that at every call.
    pub fn join_thread(&mut self, joined: ThreadId) -> (r: Result<(), MachineStop>)
        requires
            old(self).valid_thread(joined),
            old(self).valid_thread(old(self).active_thread),
            old(self).thread(joined).join_status == ThreadJoinStatus::Joinable ==> forall|j: int|
                0 <= j < old(self).threads@.len() ==> (#[trigger] old(self).threads@[j]).state
                    != ThreadState::BlockedOnJoin(joined),
        ensures
            final(self).same_but_threads(*old(self)),
            (old(self).thread(joined).join_status != ThreadJoinStatus::Joinable || joined == old(self).active_thread) ==> r == Err::<(), MachineStop>(MachineStop::UndefinedBehavior)
                && final(self).unchanged_from(*old(self)),
            (old(self).thread(joined).join_status == ThreadJoinStatus::Joinable && joined != old(self).active_thread) ==> {
                &&& r == Ok::<(), MachineStop>(())
                &&& old(self).thread(joined).state == ThreadState::Terminated ==> final(self).threads@ == old(self).threads@.update(
                    joined.0 as int,
                    (Thread { join_status: ThreadJoinStatus::Joined, ..old(self).thread(joined) }),
                )
                &&& old(self).thread(joined).state != ThreadState::Terminated ==> final(self).threads@ == old(self).threads@.update(
                    joined.0 as int,
                    (Thread { join_status: ThreadJoinStatus::Joined, ..old(self).thread(joined) }),
                ).update(
                    old(self).active_thread.0 as int,
                    (Thread {
                        state: ThreadState::BlockedOnJoin(joined),
                        ..old(self).thread(old(self).active_thread)
                    }),
                )
            },
    {
        let i = joined.0 as usize;
        if !matches!(self.threads[i].join_status, ThreadJoinStatus::Joinable) {
            return Err(MachineStop::UndefinedBehavior);
        }
        if thread_id_eq(joined, self.active_thread) {
            return Err(MachineStop::UndefinedBehavior);
        }
        let th = self.thread_mut(joined);
        th.join_status = ThreadJoinStatus::Joined;
        let terminated = matches!(self.threads[i].state, ThreadState::Terminated);
        if !terminated {
            // The joined thread is still running: wait for it.
            let active = self.active_thread;
            let ath = self.thread_mut(active);
            ath.state = ThreadState::BlockedOnJoin(joined);
        }
        Ok(())
    }

    /// Set the name of the active thread (at most 15 bytes; the caller
    /// truncates, as `prctl` does).
    pub fn set_thread_name(&mut self, new_thread_name: Vec<u8>)
        requires
            old(self).valid_thread(old(self).active_thread),
            new_thread_name@.len() <= 15,
        ensures
            final(self).threads@ == old(self).threads@.update(
                old(self).active_thread.0 as int,
                (Thread {
                    thread_name: Some(new_thread_name),
                    ..old(self).thread(old(self).active_thread)
                }),
            ),
            final(self).same_but_threads(*old(self)),
    {
        let active = self.active_thread;
        let th = self.thread_mut(active);
        th.thread_name = Some(new_thread_name);
    }

    /// Get the name of the active thread, if it has one.
    pub fn get_thread_name(&self) -> (r: Option<&Vec<u8>>)
        requires
            self.valid_thread(self.active_thread),
        ensures
            match self.thread(self.active_thread).thread_name {
                Some(name) => r matches Some(n) && n@ == name@,
                None => r is None,
            },
    {
        let i = self.active_thread.0 as usize;
        match &self.threads[i].thread_name {
            Some(name) => Some(name),
            None => None,
        }
    }

    /// Borrow the stack of the active thread.
    pub fn active_thread_stack(&self) -> (r: &Vec<F>)
        requires
            self.valid_thread(self.active_thread),
        ensures
            r@ == self.thread(self.active_thread).stack@,
    {
        let i = self.active_thread.0 as usize;
        &self.threads[i].stack
    }

    /// Push one interpreter frame onto the active thread's stack.
    pub fn push_active_thread_frame(&mut self, frame: F)
        requires
            old(self).valid_thread(old(self).active_thread),
        ensures
            final(self).same_but_threads(*old(self)),
            final(self).threads@.len() == old(self).threads@.len(),
            forall|j: int|
                0 <= j < old(self).threads@.len() && j != old(self).active_thread.0 ==> final(self).threads@[j] == #[trigger] old(self).threads@[j],
            final(self).thread(old(self).active_thread).stack@ == old(self).thread(
                old(self).active_thread,
            ).stack@.push(frame),
            final(self).thread(old(self).active_thread).state == old(self).thread(
                old(self).active_thread,
            ).state,
            final(self).thread(old(self).active_thread).join_status == old(self).thread(
                old(self).active_thread,
            ).join_status,
            final(self).thread(old(self).active_thread).thread_name == old(self).thread(
                old(self).active_thread,
            ).thread_name,
    {
        let active = self.active_thread;
        let th = self.thread_mut(active);
        th.stack.push(frame);
    }

    /// Pop one interpreter frame from the active thread's stack.
    pub fn pop_active_thread_frame(&mut self) -> (r: Option<F>)
        requires
            old(self).valid_thread(old(self).active_thread),
        ensures
            final(self).same_but_threads(*old(self)),
            final(self).threads@.len() == old(self).threads@.len(),
            forall|j: int|
                0 <= j < old(self).threads@.len() && j != old(self).active_thread.0 ==> final(self).threads@[j] == #[trigger] old(self).threads@[j],
            final(self).thread(old(self).active_thread).state == old(self).thread(
                old(self).active_thread,
            ).state,
            final(self).thread(old(self).active_thread).join_status == old(self).thread(
                old(self).active_thread,
            ).join_status,
            final(self).thread(old(self).active_thread).thread_name == old(self).thread(
                old(self).active_thread,
            ).thread_name,
            old(self).thread(old(self).active_thread).stack@.len() == 0 ==> r is None && final(self).thread(old(self).active_thread).stack@ == old(self).thread(
                old(self).active_thread,
            ).stack@,
            old(self).thread(old(self).active_thread).stack@.len() > 0 ==> {
                &&& r == Some(old(self).thread(old(self).active_thread).stack@.last())
                &&& final(self).thread(old(self).active_thread).stack@ == old(self).thread(
                    old(self).active_thread,
                ).stack@.drop_last()
            },
    {
        let active = self.active_thread;
        let th = self.thread_mut(active);
        th.stack.pop()
    }
}

impl<F> Default for ThreadManager<F> {
    /// A fresh manager: only the main thread (thread 0), enabled and active.
    /// The main thread is created detached: it can never be joined.
    fn default() -> (r: Self)
        ensures
            r.threads@.len() == 1,
            r.thread(ThreadId(0)).state == ThreadState::Enabled,
            r.thread(ThreadId(0)).join_status == ThreadJoinStatus::Detached,
            r.thread(ThreadId(0)).thread_name is None,
            r.thread(ThreadId(0)).stack@.len() == 0,
            r.active_thread == ThreadId(0),
            r.yield_active_thread == false,
            r.timeout_callbacks@.len() == 1,
            r.timeout_callbacks@[0] is None,
            r.sync.mutexes@.len() == 0,
            r.sync.rwlocks@.len() == 0,
            r.sync.condvars@.len() == 0,
            r.thread_local_alloc_ids@.len() == 0,
    {
        let mut threads: Vec<Thread<F>> = Vec::new();
        let mut main_thread: Thread<F> = Thread::default();
        main_thread.join_status = ThreadJoinStatus::Detached;
        threads.push(main_thread);
        let mut timeout_callbacks: Vec<Option<TimeoutCallbackInfo>> = Vec::new();
        timeout_callbacks.push(None);
        ThreadManager {
            active_thread: ThreadId(0),
            threads,
            sync: SynchronizationState::new(),
            thread_local_alloc_ids: Vec::new(),
            yield_active_thread: false,
            timeout_callbacks,
        }
    }
}

/// The first match of `(def_id, t)` in the thread-local allocation list.
pub open spec fn tl_lookup(s: Seq<ThreadLocalAlloc>, def_id: u64, t: ThreadId) -> Option<u64>
    decreases s.len(),
{
    if s.len() == 0 {
        None
    } else if s[0].def_id == def_id && s[0].thread == t {
        Some(s[0].alloc_id)
    } else {
        tl_lookup(s.drop_first(), def_id, t)
    }
}

/// If the first `j` entries do not match and entry `j` does, the lookup
/// returns entry `j`'s allocation id.
proof fn lemma_tl_lookup_found(s: Seq<ThreadLocalAlloc>, def_id: u64, t: ThreadId, j: int)
    requires
        0 <= j < s.len(),
        s[j].def_id == def_id && s[j].thread == t,
        forall|k: int| 0 <= k < j ==> !(s[k].def_id == def_id && s[k].thread == t),
    ensures
        tl_lookup(s, def_id, t) == Some(s[j].alloc_id),
    decreases j,
{
    if j > 0 {
        lemma_tl_lookup_found(s.drop_first(), def_id, t, j - 1);
    }
}

/// If no entry matches, the lookup returns nothing.
proof fn lemma_tl_lookup_missing(s: Seq<ThreadLocalAlloc>, def_id: u64, t: ThreadId)
    requires
        forall|k: int| 0 <= k < s.len() ==> !(s[k].def_id == def_id && s[k].thread == t),
    ensures
        tl_lookup(s, def_id, t) is None,
    decreases s.len(),
{
    if s.len() > 0 {
        lemma_tl_lookup_missing(s.drop_first(), def_id, t);
    }
}

impl<F> ThreadManager<F> {
    /// Look up the allocation of the given thread-local static for the
    /// active thread, if one was recorded.
    pub fn get_thread_local_alloc_id(&self, def_id: u64) -> (r: Option<u64>)
        ensures
            r == tl_lookup(self.thread_local_alloc_ids@, def_id, self.active_thread),
    {
        let n = self.thread_local_alloc_ids.len();
        let mut j: usize = 0;
        while j < n
            invariant
                j <= n,
                n == self.thread_local_alloc_ids@.len(),
                forall|k: int|
                    0 <= k < j ==> !((#[trigger] self.thread_local_alloc_ids@[k]).def_id == def_id
                        && self.thread_local_alloc_ids@[k].thread == self.active_thread),
            decreases n - j,
        {
            let e = self.thread_local_alloc_ids[j];
            if e.def_id == def_id && thread_id_eq(e.thread, self.active_thread) {
                proof {
                    lemma_tl_lookup_found(
                        self.thread_local_alloc_ids@,
                        def_id,
                        self.active_thread,
                        j as int,
                    );
                }
                return Some(e.alloc_id);
            }
            j = j + 1;
        }
        proof {
            lemma_tl_lookup_missing(self.thread_local_alloc_ids@, def_id, self.active_thread);
        }
        None
    }

    /// Record the allocation id of the given thread-local static for the
    /// active thread. A thread local must not be initialized twice for the
    /// same thread.
    pub fn set_thread_local_alloc_id(&mut self, def_id: u64, new_alloc_id: u64)
        requires
            tl_lookup(old(self).thread_local_alloc_ids@, def_id, old(self).active_thread) is None,
        ensures
            final(self).thread_local_alloc_ids@ == old(self).thread_local_alloc_ids@.push(
                (ThreadLocalAlloc {
                    def_id,
                    thread: old(self).active_thread,
                    alloc_id: new_alloc_id,
                }),
            ),
            final(self).threads@ == old(self).threads@,
            final(self).active_thread == old(self).active_thread,
            final(self).sync == old(self).sync,
            final(self).yield_active_thread == old(self).yield_active_thread,
            final(self).timeout_callbacks@ == old(self).timeout_callbacks@,
    {
        let thread = self.active_thread;
        self.thread_local_alloc_ids.push(
            ThreadLocalAlloc { def_id, thread, alloc_id: new_alloc_id },
        );
    }

    /// Register `callback` to run for `thread` once `call_time` passes. A
    /// thread has at most one pending callback, so none may be registered.
    pub fn register_timeout_callback(
        &mut self,
        thread: ThreadId,
        call_time: Time,
        callback: TimeoutCallback,
    )
        requires
            old(self).callbacks_parallel(),
            old(self).valid_thread(thread),
            old(self).callback_of(thread) is None,
        ensures
            final(self).timeout_callbacks@ == old(self).timeout_callbacks@.update(
                thread.0 as int,
                Some(TimeoutCallbackInfo { call_time, callback }),
            ),
            final(self).same_but_callbacks(*old(self)),
    {
        let i = thread.0 as usize;
        self.timeout_callbacks.set(i, Some(TimeoutCallbackInfo { call_time, callback }));
    }

    /// Drop `thread`'s pending callback, if it has one.
    pub fn unregister_timeout_callback_if_exists(&mut self, thread: ThreadId)
        requires
            old(self).callbacks_parallel(),
            old(self).valid_thread(thread),
        ensures
            final(self).timeout_callbacks@ == old(self).timeout_callbacks@.update(
                thread.0 as int,
                Option::<TimeoutCallbackInfo>::None,
            ),
            final(self).same_but_callbacks(*old(self)),
    {
        let i = thread.0 as usize;
        self.timeout_callbacks.set(i, None);
    }

    /// Take the first (in thread order) callback whose time has passed on
    /// its clock, given the current reading of both clocks.
    pub fn get_ready_callback(&mut self, now_monotonic: u128, now_real: u128) -> (r: Option<
        (ThreadId, TimeoutCallback),
    >)
        requires
            old(self).threads@.len() <= u32::MAX,
            old(self).callbacks_parallel(),
        ensures
            final(self).same_but_callbacks(*old(self)),
            r is None ==> final(self).timeout_callbacks@ == old(self).timeout_callbacks@ && forall|
                j: int,
            |
                0 <= j < old(self).timeout_callbacks@.len() ==> ((#[trigger] old(
                    self,
                ).timeout_callbacks@[j]) matches Some(info) ==> !info.call_time.spec_passed(
                    now_monotonic,
                    now_real,
                )),
            r matches Some((t, cb)) ==> {
                &&& old(self).valid_thread(t)
                &&& old(self).callback_of(t) matches Some(info) && cb == info.callback
                    && info.call_time.spec_passed(now_monotonic, now_real)
                &&& final(self).timeout_callbacks@ == old(self).timeout_callbacks@.update(
                    t.0 as int,
                    Option::<TimeoutCallbackInfo>::None,
                )
                &&& forall|j: int|
                    0 <= j < t.0 ==> ((#[trigger] old(self).timeout_callbacks@[j]) matches Some(
                        info2,
                    ) ==> !info2.call_time.spec_passed(now_monotonic, now_real))
            },
    {
        let n = self.timeout_callbacks.len();
        let mut j: usize = 0;
        while j < n
            invariant
                j <= n,
                n == self.timeout_callbacks@.len(),
                n == self.threads@.len(),
                n <= u32::MAX,
                self.timeout_callbacks@ == old(self).timeout_callbacks@,
                self.threads@ == old(self).threads@,
                self.active_thread == old(self).active_thread,
                self.sync == old(self).sync,
                self.yield_active_thread == old(self).yield_active_thread,
                self.thread_local_alloc_ids@ == old(self).thread_local_alloc_ids@,
                forall|k: int|
                    0 <= k < j ==> ((#[trigger] old(self).timeout_callbacks@[k]) matches Some(info)
                        ==> !info.call_time.spec_passed(now_monotonic, now_real)),
            decreases n - j,
        {
            match self.timeout_callbacks[j] {
                Some(info) => {
                    if info.call_time.passed(now_monotonic, now_real) {
                        self.timeout_callbacks.set(j, None);
                        return Some((ThreadId::new(j), info.callback));
                    }
                },
                None => {},
            }
            j = j + 1;
        }
        None
    }

    /// How long (in nanoseconds) until the earliest pending callback is due,
    /// by its own clock; zero if one is already due; nothing if no callback
    /// is pending.
    pub fn get_next_callback_wait_time(&self, now_monotonic: u128, now_real: u128) -> (r: Option<
        u128,
    >)
        ensures
            r is None <==> (forall|j: int|
                0 <= j < self.timeout_callbacks@.len() ==> (#[trigger] self.timeout_callbacks@[j])
                    is None),
            r matches Some(d) ==> {
                &&& exists|j: int|
                    0 <= j < self.timeout_callbacks@.len() && ((#[trigger] self.timeout_callbacks@[j])
                        matches Some(info) && info.call_time.spec_wait_nanos(
                        now_monotonic,
                        now_real,
                    ) == d)
                &&& forall|j: int|
                    0 <= j < self.timeout_callbacks@.len() ==> ((#[trigger] self.timeout_callbacks@[j])
                        matches Some(info) ==> info.call_time.spec_wait_nanos(
                        now_monotonic,
                        now_real,
                    ) >= d)
            },
    {
        let n = self.timeout_callbacks.len();
        let mut best: Option<u128> = None;
        let mut j: usize = 0;
        while j < n
            invariant
                j <= n,
                n == self.timeout_callbacks@.len(),
                best is None <==> (forall|k: int|
                    0 <= k < j ==> (#[trigger] self.timeout_callbacks@[k]) is None),
                best matches Some(d) ==> {
                    &&& exists|k: int|
                        0 <= k < j && ((#[trigger] self.timeout_callbacks@[k]) matches Some(info)
                            && info.call_time.spec_wait_nanos(now_monotonic, now_real) == d)
                    &&& forall|k: int|
                        0 <= k < j ==> ((#[trigger] self.timeout_callbacks@[k]) matches Some(info)
                            ==> info.call_time.spec_wait_nanos(now_monotonic, now_real) >= d)
                },
            decreases n - j,
        {
            match self.timeout_callbacks[j] {
                Some(info) => {
                    let w = info.call_time.wait_nanos(now_monotonic, now_real);
                    match best {
                        Some(d) => {
                            if w < d {
                                best = Some(w);
                            }
                        },
                        None => {
                            best = Some(w);
                        },
                    }
                },
                None => {},
            }
            j = j + 1;
        }
        best
    }
}

/// Thread `j` is a thread the scheduler's scan could pick: it is enabled,
/// and not the active thread if the active thread asked to yield.
pub open spec fn runnable_candidate<F>(
    s: Seq<Thread<F>>,
    yielded: bool,
    act: ThreadId,
    j: int,
) -> bool {
    &&& 0 <= j < s.len()
    &&& s[j].state == ThreadState::Enabled
    &&& (!yielded || j != act.0)
}

/// The lowest-index thread the scheduler's scan picks, if any.
fn first_runnable<F>(threads: &Vec<Thread<F>>, yielded: bool, act: ThreadId) -> (r: Option<usize>)
    ensures
        match r {
            Some(j) => runnable_candidate(threads@, yielded, act, j as int) && (forall|k: int|
                0 <= k < j ==> !runnable_candidate(threads@, yielded, act, k)),
            None => forall|k: int|
                0 <= k < threads@.len() ==> !runnable_candidate(threads@, yielded, act, k),
        },
{
    let n = threads.len();
    let mut j: usize = 0;
    while j < n
        invariant
            j <= n,
            n == threads@.len(),
            forall|k: int| 0 <= k < j ==> !runnable_candidate(threads@, yielded, act, k),
        decreases n - j,
    {
        let enabled = matches!(threads[j].state, ThreadState::Enabled);
        if enabled && (!yielded || j as u64 != act.0 as u64) {
            return Some(j);
        }
        j = j + 1;
    }
    None
}

/// Do all threads have the terminated state?
fn all_threads_terminated<F>(threads: &Vec<Thread<F>>) -> (r: bool)
    ensures
        r == (forall|j: int|
            0 <= j < threads@.len() ==> (#[trigger] threads@[j]).state == ThreadState::Terminated),
{
    let n = threads.len();
    let mut j: usize = 0;
    while j < n
        invariant
            j <= n,
            n == threads@.len(),
            forall|k: int|
                0 <= k < j ==> (#[trigger] threads@[k]).state == ThreadState::Terminated,
        decreases n - j,
    {
        if !matches!(threads[j].state, ThreadState::Terminated) {
            return false;
        }
        j = j + 1;
    }
    true
}

/// Is any timeout callback pending?
fn has_pending_callback(cbs: &Vec<Option<TimeoutCallbackInfo>>) -> (r: bool)
    ensures
        r == (exists|j: int| 0 <= j < cbs@.len() && (#[trigger] cbs@[j]) is Some),
{
    let n = cbs.len();
    let mut j: usize = 0;
    while j < n
        invariant
            j <= n,
            n == cbs@.len(),
            forall|k: int| 0 <= k < j ==> (#[trigger] cbs@[k]) is None,
        decreases n - j,
    {
        if cbs[j].is_some() {
            return true;
        }
        j = j + 1;
    }
    false
}

/// Compare two thread ids.
pub fn thread_id_eq(a: ThreadId, b: ThreadId) -> (r: bool)
    ensures
        r == (a == b),
{
    a.0 == b.0
}

impl<F> ThreadManager<F> {
    /// The active thread has just run out of stack frames while enabled: the
    /// next `schedule` will mark it terminated.
    pub open spec fn spec_terminating(self) -> bool {
        &&& self.thread(self.active_thread).state == ThreadState::Enabled
        &&& self.thread(self.active_thread).stack@.len() == 0
    }

    /// The thread table after the active thread terminates: it becomes
    /// `Terminated`, and every thread blocked joining it becomes `Enabled`.
    pub open spec fn after_termination(self) -> Seq<Thread<F>> {
        Seq::new(
            self.threads@.len(),
            |j: int|
                if j == self.active_thread.0 {
                    Thread { state: ThreadState::Terminated, ..self.threads@[j] }
                } else if self.threads@[j].state == ThreadState::BlockedOnJoin(
                    self.active_thread,
                ) {
                    Thread { state: ThreadState::Enabled, ..self.threads@[j] }
                } else {
                    self.threads@[j]
                },
        )
    }

    pub open spec fn spec_main_terminated(self) -> bool {
        self.threads@[0].state == ThreadState::Terminated
    }

    pub open spec fn spec_all_terminated(self) -> bool {
        forall|j: int|
            0 <= j < self.threads@.len() ==> (#[trigger] self.threads@[j]).state
                == ThreadState::Terminated
    }

    pub open spec fn spec_any_callback(self) -> bool {
        exists|j: int|
            0 <= j < self.timeout_callbacks@.len() && (#[trigger] self.timeout_callbacks@[j])
                is Some
    }

    /// The scheduler's scan will consider switching to another thread: the
    /// active thread is not enabled, or it asked to yield.
    pub open spec fn spec_must_pick(self) -> bool {
        !(self.thread(self.active_thread).state == ThreadState::Enabled
            && !self.yield_active_thread)
    }

    /// Decide which action the host takes next, and on which thread.
    ///
    /// The scheduling policy is the one commonly used in stateless model
    /// checkers: run the active thread as long as possible, and switch (to
    /// the lowest-id enabled thread) only when the active thread blocked,
    /// terminated, or explicitly yielded. When no thread is runnable but a
    /// timeout callback is pending, the host is told to run a timeout
    /// callback — it should first sleep for `get_next_callback_wait_time`,
    /// the only point where the host ever blocks in real time. When no
    /// thread is runnable and no timeout is pending, the guest program has
    /// deadlocked.
    pub fn schedule(&mut self) -> (r: Result<SchedulingAction, MachineStop>)
        requires
            old(self).threads@.len() >= 1,
            old(self).threads@.len() <= u32::MAX,
            old(self).valid_thread(old(self).active_thread),
        ensures
            old(self).spec_terminating() ==> {
                &&& r == Ok::<SchedulingAction, MachineStop>(SchedulingAction::ExecuteDtors)
                &&& final(self).threads@ == old(self).after_termination()
                &&& final(self).active_thread == old(self).active_thread
                &&& final(self).yield_active_thread == old(self).yield_active_thread
                &&& final(self).sync == old(self).sync
                &&& final(self).timeout_callbacks@ == old(self).timeout_callbacks@
                &&& final(self).thread_local_alloc_ids@ == old(self).thread_local_alloc_ids@
            },
            !old(self).spec_terminating() && old(self).spec_main_terminated() ==> {
                &&& final(self).unchanged_from(*old(self))
                &&& old(self).spec_all_terminated() ==> r == Ok::<SchedulingAction, MachineStop>(
                    SchedulingAction::Stop,
                )
                &&& !old(self).spec_all_terminated() ==> r == Err::<SchedulingAction, MachineStop>(
                    MachineStop::Unsupported,
                )
            },
            !old(self).spec_terminating() && !old(self).spec_main_terminated() && !old(
                self,
            ).spec_must_pick() ==> final(self).unchanged_from(*old(self)) && r == Ok::<
                SchedulingAction,
                MachineStop,
            >(SchedulingAction::ExecuteStep),
            !old(self).spec_terminating() && !old(self).spec_main_terminated() && old(
                self,
            ).spec_must_pick() ==> {
                &&& final(self).threads@ == old(self).threads@
                &&& final(self).sync == old(self).sync
                &&& final(self).timeout_callbacks@ == old(self).timeout_callbacks@
                &&& final(self).thread_local_alloc_ids@ == old(self).thread_local_alloc_ids@
                &&& final(self).yield_active_thread == false
                &&& (exists|j: int|
                    runnable_candidate(
                        old(self).threads@,
                        old(self).yield_active_thread,
                        old(self).active_thread,
                        j,
                    )) ==> {
                    &&& runnable_candidate(
                        old(self).threads@,
                        old(self).yield_active_thread,
                        old(self).active_thread,
                        final(self).active_thread.0 as int,
                    )
                    &&& forall|k: int|
                        0 <= k < final(self).active_thread.0 ==> !runnable_candidate(
                            old(self).threads@,
                            old(self).yield_active_thread,
                            old(self).active_thread,
                            k,
                        )
                    &&& r == Ok::<SchedulingAction, MachineStop>(SchedulingAction::ExecuteStep)
                }
                &&& !(exists|j: int|
                    runnable_candidate(
                        old(self).threads@,
                        old(self).yield_active_thread,
                        old(self).active_thread,
                        j,
                    )) ==> {
                    &&& final(self).active_thread == old(self).active_thread
                    &&& old(self).state_of(old(self).active_thread) == ThreadState::Enabled ==> r
                        == Ok::<SchedulingAction, MachineStop>(SchedulingAction::ExecuteStep)
                    &&& old(self).state_of(old(self).active_thread) != ThreadState::Enabled ==> {
                        &&& old(self).spec_any_callback() ==> r == Ok::<
                            SchedulingAction,
                            MachineStop,
                        >(SchedulingAction::ExecuteTimeoutCallback)
                        &&& !old(self).spec_any_callback() ==> r == Err::<
                            SchedulingAction,
                            MachineStop,
                        >(MachineStop::Deadlock)
                    }
                }
            },
    {
        let active = self.active_thread;
        // Did the active thread **just** terminate (pop its last frame)?
        let th = self.thread_mut(active);
        let terminated_now = th.check_terminated();
        if terminated_now {
            // Unblock every thread that was waiting to join it.
            let ghost mid = *self;
            let n = self.threads.len();
            let mut j: usize = 0;
            while j < n
                invariant
                    j <= n,
                    n == self.threads@.len(),
                    n == mid.threads@.len(),
                    n <= u32::MAX,
                    self.same_but_threads(mid),
                    forall|k: int| j <= k < n ==> self.threads@[k] == #[trigger] mid.threads@[k],
                    forall|k: int|
                        0 <= k < j ==> (#[trigger] self.threads@[k]) == (if mid.threads@[k].state
                            == ThreadState::BlockedOnJoin(mid.active_thread) {
                            Thread { state: ThreadState::Enabled, ..mid.threads@[k] }
                        } else {
                            mid.threads@[k]
                        }),
                    active == mid.active_thread,
                decreases n - j,
            {
                let blocked_on_active = match self.threads[j].state {
                    ThreadState::BlockedOnJoin(t) => t.0 == active.0,
                    _ => false,
                };
                if blocked_on_active {
                    let tj = ThreadId::new(j);
                    let thj = self.thread_mut(tj);
                    thj.state = ThreadState::Enabled;
                }
                j = j + 1;
            }
            proof {
                assert forall|k: int| 0 <= k < self.threads@.len() implies self.threads@[k] == old(
                    self,
                ).after_termination()[k] by {
                    assert(mid.threads@ == old(self).threads@.update(
                        active.0 as int,
                        (Thread {
                            state: ThreadState::Terminated,
                            ..old(self).thread(active)
                        }),
                    ));
                }
                assert(self.threads@ =~= old(self).after_termination());
            }
            return Ok(SchedulingAction::ExecuteDtors);
        }
        proof {
            assert(self.threads@ =~= old(self).threads@);
        }
        if matches!(self.threads[0].state, ThreadState::Terminated) {
            // The main thread terminated; the whole program stops — but only
            // once every other thread is done too.
            if !all_threads_terminated(&self.threads) {
                return Err(MachineStop::Unsupported);
            }
            return Ok(SchedulingAction::Stop);
        }
        let ai = active.0 as usize;
        if matches!(self.threads[ai].state, ThreadState::Enabled) && !self.yield_active_thread {
            // The currently active thread is still enabled: continue with it.
            return Ok(SchedulingAction::ExecuteStep);
        }
        // Pick a new thread: the first enabled one (skipping the active
        // thread if it yielded).
        let yielded = self.yield_active_thread;
        match first_runnable(&self.threads, yielded, active) {
            Some(j) => {
                self.active_thread = ThreadId::new(j);
            },
            None => {},
        }
        self.yield_active_thread = false;
        let ai2 = self.active_thread.0 as usize;
        if matches!(self.threads[ai2].state, ThreadState::Enabled) {
            return Ok(SchedulingAction::ExecuteStep);
        }
        if all_threads_terminated(&self.threads) {
            // The main thread is not terminated (checked above), so at least
            // one thread is not.
            proof {
                assert(self.threads@[0].state != ThreadState::Terminated);
            }
            unreached()
        } else if has_pending_callback(&self.timeout_callbacks) {
            // Every thread is blocked, but a pending timeout may unblock one:
            // the host sleeps until the nearest callback and runs it.
            Ok(SchedulingAction::ExecuteTimeoutCallback)
        } else {
            Err(MachineStop::Deadlock)
        }
    }
}

} // verus!

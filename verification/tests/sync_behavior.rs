//! Behaviour of the pthread mutex/rwlock/condvar shims on concrete machines.

use coopsched::guest::GuestRegion;
use coopsched::machine::Machine;
use coopsched::posix::{
    MachineStop, EBUSY, EDEADLK, EPERM, PTHREAD_MUTEX_ERRORCHECK, PTHREAD_MUTEX_RECURSIVE,
};
use coopsched::shims::sync::{
    pthread_cond_broadcast, pthread_cond_destroy, pthread_cond_init, pthread_cond_signal,
    pthread_cond_wait, pthread_mutex_destroy, pthread_mutex_init, pthread_mutex_lock,
    pthread_mutex_trylock, pthread_mutex_unlock, pthread_mutexattr_init, pthread_mutexattr_settype,
    pthread_rwlock_destroy, pthread_rwlock_rdlock, pthread_rwlock_tryrdlock, pthread_rwlock_unlock,
    pthread_rwlock_wrlock, PTHREAD_CONDATTR_T_MIN_SIZE, PTHREAD_COND_T_MIN_SIZE,
    PTHREAD_MUTEXATTR_T_MIN_SIZE, PTHREAD_MUTEX_T_MIN_SIZE, PTHREAD_RWLOCK_T_MIN_SIZE,
};
use coopsched::shims::thread::pthread_create;
use coopsched::sync::{MutexId, RwLockId};
use coopsched::thread::{ThreadId, ThreadState};

fn machine() -> Machine<u64> {
    Machine::new(8, true)
}

fn mutex_region() -> GuestRegion {
    GuestRegion::new_zeroed(PTHREAD_MUTEX_T_MIN_SIZE)
}

#[test]
fn normal_mutex_lock_unlock_is_noop() {
    let mut m = machine();
    let mut mu = mutex_region();
    assert_eq!(pthread_mutex_init(&mut m, &mut mu, None), Ok(0));
    for _ in 0..4 {
        assert_eq!(pthread_mutex_lock(&mut m, &mut mu), Ok(0));
        assert_eq!(pthread_mutex_unlock(&mut m, &mut mu), Ok(0));
    }
    let id = MutexId(mu.read_u32(4).unwrap());
    assert!(!m.threads.sync.mutex_is_locked(id));
}

#[test]
fn recursive_mutex_balanced_lock_unlock() {
    let mut m = machine();
    let mut attr = GuestRegion::new_zeroed(PTHREAD_MUTEXATTR_T_MIN_SIZE);
    assert_eq!(pthread_mutexattr_init(&mut attr), Ok(0));
    assert_eq!(pthread_mutexattr_settype(&mut attr, PTHREAD_MUTEX_RECURSIVE), Ok(0));
    let mut mu = mutex_region();
    assert_eq!(pthread_mutex_init(&mut m, &mut mu, Some(&attr)), Ok(0));
    assert_eq!(pthread_mutex_lock(&mut m, &mut mu), Ok(0));
    assert_eq!(pthread_mutex_lock(&mut m, &mut mu), Ok(0));
    let id = MutexId(mu.read_u32(4).unwrap());
    assert!(m.threads.sync.mutex_is_locked(id));
    assert_eq!(pthread_mutex_unlock(&mut m, &mut mu), Ok(0));
    assert!(m.threads.sync.mutex_is_locked(id));
    assert_eq!(pthread_mutex_unlock(&mut m, &mut mu), Ok(0));
    // The same id, unlocked, with an empty waiter queue.
    assert_eq!(mu.read_u32(4).unwrap(), id.0);
    assert!(!m.threads.sync.mutex_is_locked(id));
    assert_eq!(m.threads.sync.mutex_dequeue(id), None);
}

#[test]
fn errorcheck_mutex_reports_edeadlk_and_eperm() {
    let mut m = machine();
    let mut attr = GuestRegion::new_zeroed(PTHREAD_MUTEXATTR_T_MIN_SIZE);
    assert_eq!(pthread_mutexattr_init(&mut attr), Ok(0));
    assert_eq!(pthread_mutexattr_settype(&mut attr, PTHREAD_MUTEX_ERRORCHECK), Ok(0));
    let mut mu = mutex_region();
    assert_eq!(pthread_mutex_init(&mut m, &mut mu, Some(&attr)), Ok(0));
    assert_eq!(pthread_mutex_unlock(&mut m, &mut mu), Ok(EPERM));
    assert_eq!(pthread_mutex_lock(&mut m, &mut mu), Ok(0));
    assert_eq!(pthread_mutex_lock(&mut m, &mut mu), Ok(EDEADLK));
    assert_eq!(pthread_mutex_unlock(&mut m, &mut mu), Ok(0));
}

#[test]
fn normal_mutex_relock_is_deadlock() {
    let mut m = machine();
    let mut mu = mutex_region();
    assert_eq!(pthread_mutex_init(&mut m, &mut mu, None), Ok(0));
    assert_eq!(pthread_mutex_lock(&mut m, &mut mu), Ok(0));
    assert_eq!(pthread_mutex_lock(&mut m, &mut mu), Err(MachineStop::Deadlock));
}

#[test]
fn trylock_reports_ebusy_for_contended_mutex() {
    let mut m = machine();
    let (_z, t1) = pthread_create(&mut m, 7u64);
    let mut mu = mutex_region();
    assert_eq!(pthread_mutex_init(&mut m, &mut mu, None), Ok(0));
    assert_eq!(pthread_mutex_lock(&mut m, &mut mu), Ok(0));
    m.threads.set_active_thread_id(t1);
    assert_eq!(pthread_mutex_trylock(&mut m, &mut mu), Ok(EBUSY));
}

#[test]
fn unlock_hands_the_mutex_to_the_first_waiter() {
    let mut m = machine();
    let (_z, t1) = pthread_create(&mut m, 7u64);
    let mut mu = mutex_region();
    assert_eq!(pthread_mutex_init(&mut m, &mut mu, None), Ok(0));
    assert_eq!(pthread_mutex_lock(&mut m, &mut mu), Ok(0));
    m.threads.set_active_thread_id(t1);
    // Blocks and enters the queue.
    assert_eq!(pthread_mutex_lock(&mut m, &mut mu), Ok(0));
    assert_eq!(m.threads.threads[1].state, ThreadState::BlockedOnSync);
    m.threads.set_active_thread_id(ThreadId(0));
    assert_eq!(pthread_mutex_unlock(&mut m, &mut mu), Ok(0));
    let id = MutexId(mu.read_u32(4).unwrap());
    assert!(m.threads.sync.mutex_is_locked(id));
    assert_eq!(m.threads.sync.mutex_get_owner(id), t1);
    assert_eq!(m.threads.threads[1].state, ThreadState::Enabled);
}

#[test]
fn destroying_a_never_used_mutex_succeeds() {
    let mut m = machine();
    let mut mu = mutex_region();
    assert_eq!(pthread_mutex_destroy(&mut m, &mut mu), Ok(0));
    // The id field is undefined afterwards: a later read is guest UB.
    assert_eq!(mu.read_u32(4), Err(MachineStop::UndefinedBehavior));
}

#[test]
fn destroying_a_never_used_rwlock_and_condvar_succeeds() {
    let mut m = machine();
    let mut rw = GuestRegion::new_zeroed(PTHREAD_RWLOCK_T_MIN_SIZE);
    assert_eq!(pthread_rwlock_destroy(&mut m, &mut rw), Ok(0));
    let mut cv = GuestRegion::new_zeroed(PTHREAD_COND_T_MIN_SIZE);
    assert_eq!(pthread_cond_destroy(&mut m, &mut cv), Ok(0));
}

#[test]
fn destroying_a_locked_mutex_is_undefined_behaviour() {
    let mut m = machine();
    let mut mu = mutex_region();
    assert_eq!(pthread_mutex_init(&mut m, &mut mu, None), Ok(0));
    assert_eq!(pthread_mutex_lock(&mut m, &mut mu), Ok(0));
    assert_eq!(pthread_mutex_destroy(&mut m, &mut mu), Err(MachineStop::UndefinedBehavior));
}

#[test]
fn rwlock_readers_share_and_writers_exclude() {
    let mut m = machine();
    let (_z, t1) = pthread_create(&mut m, 7u64);
    let mut rw = GuestRegion::new_zeroed(PTHREAD_RWLOCK_T_MIN_SIZE);
    assert_eq!(pthread_rwlock_rdlock(&mut m, &mut rw), Ok(0));
    m.threads.set_active_thread_id(t1);
    assert_eq!(pthread_rwlock_tryrdlock(&mut m, &mut rw), Ok(0));
    let id = RwLockId(rw.read_u32(12).unwrap());
    assert!(m.threads.sync.rwlock_is_locked(id));
    assert!(!m.threads.sync.rwlock_is_write_locked(id));
    // Both readers leave; then a writer may take it.
    assert_eq!(pthread_rwlock_unlock(&mut m, &mut rw), Ok(0));
    m.threads.set_active_thread_id(ThreadId(0));
    assert_eq!(pthread_rwlock_unlock(&mut m, &mut rw), Ok(0));
    assert_eq!(pthread_rwlock_wrlock(&mut m, &mut rw), Ok(0));
    assert!(m.threads.sync.rwlock_is_write_locked(id));
}

#[test]
fn rwlock_unlock_prefers_queued_writers_then_drains_readers() {
    let mut m = machine();
    let (_z, t1) = pthread_create(&mut m, 7u64);
    let (_z2, t2) = pthread_create(&mut m, 8u64);
    let mut rw = GuestRegion::new_zeroed(PTHREAD_RWLOCK_T_MIN_SIZE);
    // Thread 0 write-locks; a writer and a reader queue up behind it.
    assert_eq!(pthread_rwlock_wrlock(&mut m, &mut rw), Ok(0));
    m.threads.set_active_thread_id(t1);
    assert_eq!(pthread_rwlock_wrlock(&mut m, &mut rw), Ok(0));
    m.threads.set_active_thread_id(t2);
    assert_eq!(pthread_rwlock_rdlock(&mut m, &mut rw), Ok(0));
    assert_eq!(m.threads.threads[1].state, ThreadState::BlockedOnSync);
    assert_eq!(m.threads.threads[2].state, ThreadState::BlockedOnSync);
    // The writer releasing prefers the queued writer over the reader.
    m.threads.set_active_thread_id(ThreadId(0));
    assert_eq!(pthread_rwlock_unlock(&mut m, &mut rw), Ok(0));
    let id = RwLockId(rw.read_u32(12).unwrap());
    assert!(m.threads.sync.rwlock_is_write_locked(id));
    assert_eq!(m.threads.threads[1].state, ThreadState::Enabled);
    assert_eq!(m.threads.threads[2].state, ThreadState::BlockedOnSync);
    // The next writer releasing drains the reader queue.
    m.threads.set_active_thread_id(t1);
    assert_eq!(pthread_rwlock_unlock(&mut m, &mut rw), Ok(0));
    assert!(m.threads.sync.rwlock_is_locked(id));
    assert!(!m.threads.sync.rwlock_is_write_locked(id));
    assert_eq!(m.threads.threads[2].state, ThreadState::Enabled);
}

#[test]
fn unlocking_an_unheld_rwlock_is_undefined_behaviour() {
    let mut m = machine();
    let mut rw = GuestRegion::new_zeroed(PTHREAD_RWLOCK_T_MIN_SIZE);
    assert_eq!(pthread_rwlock_unlock(&mut m, &mut rw), Err(MachineStop::UndefinedBehavior));
}

#[test]
fn signal_with_no_waiters_is_a_noop_returning_zero() {
    let mut m = machine();
    let mut cv = GuestRegion::new_zeroed(PTHREAD_COND_T_MIN_SIZE);
    assert_eq!(pthread_cond_init(&mut m, &mut cv, None), Ok(0));
    assert_eq!(pthread_cond_signal(&mut m, &mut cv), Ok(0));
    assert_eq!(pthread_cond_signal(&mut m, &mut cv), Ok(0));
}

#[test]
fn broadcast_twice_returns_zero_both_times() {
    let mut m = machine();
    let mut cv = GuestRegion::new_zeroed(PTHREAD_COND_T_MIN_SIZE);
    assert_eq!(pthread_cond_broadcast(&mut m, &mut cv), Ok(0));
    assert_eq!(pthread_cond_broadcast(&mut m, &mut cv), Ok(0));
}

#[test]
fn signalled_waiter_reacquires_the_mutex_on_handoff() {
    let mut m = machine();
    let (_z, t1) = pthread_create(&mut m, 7u64);
    let mut mu = mutex_region();
    let mut cv = GuestRegion::new_zeroed(PTHREAD_COND_T_MIN_SIZE);
    assert_eq!(pthread_mutex_init(&mut m, &mut mu, None), Ok(0));
    assert_eq!(pthread_cond_init(&mut m, &mut cv, None), Ok(0));
    // The waiter locks the mutex and waits: the mutex is released.
    m.threads.set_active_thread_id(t1);
    assert_eq!(pthread_mutex_lock(&mut m, &mut mu), Ok(0));
    assert_eq!(pthread_cond_wait(&mut m, &mut cv, &mut mu), Ok(0));
    let id = MutexId(mu.read_u32(4).unwrap());
    assert!(!m.threads.sync.mutex_is_locked(id));
    assert_eq!(m.threads.threads[1].state, ThreadState::BlockedOnSync);
    // The signaller holds the mutex while signalling, so the waiter moves
    // to the mutex queue; releasing the mutex then wakes it as the owner.
    m.threads.set_active_thread_id(ThreadId(0));
    assert_eq!(pthread_mutex_lock(&mut m, &mut mu), Ok(0));
    assert_eq!(pthread_cond_signal(&mut m, &mut cv), Ok(0));
    assert_eq!(m.threads.threads[1].state, ThreadState::BlockedOnSync);
    assert_eq!(pthread_mutex_unlock(&mut m, &mut mu), Ok(0));
    assert_eq!(m.threads.sync.mutex_get_owner(id), t1);
    assert_eq!(m.threads.threads[1].state, ThreadState::Enabled);
}

#[test]
fn waiting_on_a_mutex_owned_by_another_thread_is_undefined() {
    let mut m = machine();
    let (_z, t1) = pthread_create(&mut m, 7u64);
    let mut mu = mutex_region();
    let mut cv = GuestRegion::new_zeroed(PTHREAD_COND_T_MIN_SIZE);
    assert_eq!(pthread_mutex_init(&mut m, &mut mu, None), Ok(0));
    assert_eq!(pthread_cond_init(&mut m, &mut cv, None), Ok(0));
    assert_eq!(pthread_mutex_lock(&mut m, &mut mu), Ok(0));
    m.threads.set_active_thread_id(t1);
    assert_eq!(
        pthread_cond_wait(&mut m, &mut cv, &mut mu),
        Err(MachineStop::UndefinedBehavior)
    );
}

#[test]
fn setting_an_unknown_mutex_kind_is_einval() {
    let mut attr = GuestRegion::new_zeroed(PTHREAD_MUTEXATTR_T_MIN_SIZE);
    assert_eq!(pthread_mutexattr_init(&mut attr), Ok(0));
    assert_eq!(pthread_mutexattr_settype(&mut attr, 99), Ok(coopsched::posix::EINVAL));
    // The stored kind is untouched by the failed call.
    assert_eq!(
        coopsched::shims::sync::mutexattr_get_kind(&attr),
        Ok(coopsched::posix::PTHREAD_MUTEX_DEFAULT)
    );
}

#[test]
fn setting_an_unknown_condvar_clock_is_einval() {
    let mut attr = GuestRegion::new_zeroed(PTHREAD_CONDATTR_T_MIN_SIZE);
    assert_eq!(coopsched::shims::sync::pthread_condattr_init(&mut attr), Ok(0));
    assert_eq!(
        coopsched::shims::sync::pthread_condattr_setclock(&mut attr, 42),
        Ok(coopsched::posix::EINVAL)
    );
    assert_eq!(
        coopsched::shims::sync::pthread_condattr_getclock(&attr),
        Ok(coopsched::posix::CLOCK_REALTIME)
    );
}

#[test]
fn broadcast_wakes_waiters_into_their_mutexes_in_fifo_order() {
    let mut m = machine();
    let (_z, t1) = pthread_create(&mut m, 7u64);
    let (_z2, t2) = pthread_create(&mut m, 8u64);
    let mut mu = mutex_region();
    let mut cv = GuestRegion::new_zeroed(PTHREAD_COND_T_MIN_SIZE);
    assert_eq!(pthread_mutex_init(&mut m, &mut mu, None), Ok(0));
    assert_eq!(pthread_cond_init(&mut m, &mut cv, None), Ok(0));
    // Two waiters of the same (released) mutex, in order t1 then t2.
    m.threads.set_active_thread_id(t1);
    assert_eq!(pthread_mutex_lock(&mut m, &mut mu), Ok(0));
    assert_eq!(pthread_cond_wait(&mut m, &mut cv, &mut mu), Ok(0));
    m.threads.set_active_thread_id(t2);
    assert_eq!(pthread_mutex_lock(&mut m, &mut mu), Ok(0));
    assert_eq!(pthread_cond_wait(&mut m, &mut cv, &mut mu), Ok(0));
    m.threads.set_active_thread_id(ThreadId(0));
    assert_eq!(pthread_cond_broadcast(&mut m, &mut cv), Ok(0));
    // The mutex was unlocked: the first waiter takes it and wakes; the
    // second is queued on the mutex, still blocked.
    let id = MutexId(mu.read_u32(4).unwrap());
    assert_eq!(m.threads.sync.mutex_get_owner(id), t1);
    assert_eq!(m.threads.threads[1].state, ThreadState::Enabled);
    assert_eq!(m.threads.threads[2].state, ThreadState::BlockedOnSync);
    assert_eq!(m.threads.sync.mutex_dequeue(id), Some(t2));
}

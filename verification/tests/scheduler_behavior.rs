//! Behaviour of the scheduler, timeouts, thread lifecycle and clock shims.

use coopsched::guest::GuestRegion;
use coopsched::machine::Machine;
use coopsched::posix::{
    MachineStop, CLOCK_MONOTONIC, CLOCK_REALTIME, EINVAL, ETIMEDOUT, PR_GET_NAME, PR_SET_NAME,
};
use coopsched::shims::sync::{
    pthread_cond_init, pthread_cond_timedwait, pthread_condattr_init, pthread_condattr_setclock,
    pthread_mutex_init, pthread_mutex_lock, PTHREAD_CONDATTR_T_MIN_SIZE, PTHREAD_COND_T_MIN_SIZE,
    PTHREAD_MUTEX_T_MIN_SIZE,
};
use coopsched::shims::thread::{
    nanosleep, prctl, pthread_create, pthread_detach, pthread_join, pthread_self,
    run_timeout_callback, sched_yield,
};
use coopsched::shims::time::{clock_gettime, mach_absolute_time, system_time_to_duration, SystemTime};
use coopsched::sync::MutexId;
use coopsched::thread::{SchedulingAction, ThreadId, ThreadJoinStatus, ThreadState};

fn machine() -> Machine<u64> {
    Machine::new(8, true)
}

/// A machine whose main thread still has interpreter work to do.
fn running_machine() -> Machine<u64> {
    let mut m = machine();
    m.threads.push_active_thread_frame(1u64);
    m
}

#[test]
fn fresh_machine_steps_the_main_thread() {
    let mut m = running_machine();
    assert_eq!(m.schedule(), Ok(SchedulingAction::ExecuteStep));
    assert_eq!(pthread_self(&m), ThreadId(0));
}

#[test]
fn main_termination_runs_dtors_then_stops() {
    let mut m = machine();
    // The main thread has an empty stack: it just terminated.
    assert_eq!(m.schedule(), Ok(SchedulingAction::ExecuteDtors));
    assert_eq!(m.threads.threads[0].state, ThreadState::Terminated);
    assert_eq!(m.schedule(), Ok(SchedulingAction::Stop));
}

#[test]
fn main_exiting_before_other_threads_is_unsupported() {
    let mut m = machine();
    let (_z, _t1) = pthread_create(&mut m, 7u64);
    assert_eq!(m.schedule(), Ok(SchedulingAction::ExecuteDtors));
    assert_eq!(m.schedule(), Err(MachineStop::Unsupported));
}

#[test]
fn yield_moves_to_the_next_enabled_thread() {
    let mut m = running_machine();
    let (_z, t1) = pthread_create(&mut m, 7u64);
    assert_eq!(sched_yield(&mut m), Ok(0));
    assert_eq!(m.schedule(), Ok(SchedulingAction::ExecuteStep));
    assert_eq!(m.threads.get_active_thread_id(), t1);
    // Yielding with nobody else enabled keeps the active thread running.
    assert_eq!(sched_yield(&mut m), Ok(0));
    m.threads.set_active_thread_id(t1);
    assert_eq!(m.schedule(), Ok(SchedulingAction::ExecuteStep));
}

#[test]
fn join_blocks_until_the_target_terminates() {
    let mut m = running_machine();
    let (_z, t1) = pthread_create(&mut m, 7u64);
    assert_eq!(pthread_join(&mut m, 1, true), Ok(0));
    assert_eq!(m.threads.threads[0].state, ThreadState::BlockedOnJoin(t1));
    assert_eq!(m.threads.threads[1].join_status, ThreadJoinStatus::Joined);
    // Joining an already joined thread is an invalid operation.
    m.threads.set_active_thread_id(t1);
    assert_eq!(pthread_join(&mut m, 1, true), Err(MachineStop::UndefinedBehavior));
    // When the joined thread terminates, the scheduler unblocks the joiner.
    assert_eq!(m.schedule(), Ok(SchedulingAction::ExecuteStep));
    m.threads.pop_active_thread_frame();
    assert_eq!(m.schedule(), Ok(SchedulingAction::ExecuteDtors));
    assert_eq!(m.threads.threads[0].state, ThreadState::Enabled);
}

#[test]
fn join_with_result_destination_is_unsupported() {
    let mut m = running_machine();
    let (_z, _t1) = pthread_create(&mut m, 7u64);
    assert_eq!(pthread_join(&mut m, 1, false), Err(MachineStop::Unsupported));
}

#[test]
fn detach_works_once_and_only_on_joinable_threads() {
    let mut m = running_machine();
    let (_z, _t1) = pthread_create(&mut m, 7u64);
    assert_eq!(pthread_detach(&mut m, 1), Ok(0));
    assert_eq!(pthread_detach(&mut m, 1), Err(MachineStop::UndefinedBehavior));
    // The main thread is born detached.
    assert_eq!(pthread_detach(&mut m, 0), Err(MachineStop::UndefinedBehavior));
}

#[test]
fn deadlocked_machine_is_detected() {
    let mut m = running_machine();
    let (_z, t1) = pthread_create(&mut m, 7u64);
    let mut mu1 = GuestRegion::new_zeroed(PTHREAD_MUTEX_T_MIN_SIZE);
    let mut mu2 = GuestRegion::new_zeroed(PTHREAD_MUTEX_T_MIN_SIZE);
    assert_eq!(pthread_mutex_init(&mut m, &mut mu1, None), Ok(0));
    assert_eq!(pthread_mutex_init(&mut m, &mut mu2, None), Ok(0));
    // Each thread locks one mutex, then tries the other.
    assert_eq!(pthread_mutex_lock(&mut m, &mut mu1), Ok(0));
    m.threads.set_active_thread_id(t1);
    assert_eq!(pthread_mutex_lock(&mut m, &mut mu2), Ok(0));
    assert_eq!(pthread_mutex_lock(&mut m, &mut mu1), Ok(0));
    m.threads.set_active_thread_id(ThreadId(0));
    assert_eq!(pthread_mutex_lock(&mut m, &mut mu2), Ok(0));
    // No thread is runnable and no timeout is pending.
    assert_eq!(m.schedule(), Err(MachineStop::Deadlock));
}

#[test]
fn nanosleep_with_zero_request_wakes_on_the_next_tick() {
    let mut m = running_machine();
    let now: u128 = 5_000;
    assert_eq!(nanosleep(&mut m, 0, 0, now), Ok(0));
    assert_eq!(m.threads.threads[0].state, ThreadState::BlockedOnSync);
    // Everyone is blocked but a timeout is pending: run a callback, with
    // nothing to wait for.
    assert_eq!(m.schedule(), Ok(SchedulingAction::ExecuteTimeoutCallback));
    assert_eq!(m.threads.get_next_callback_wait_time(now, 0), Some(0));
    assert_eq!(run_timeout_callback(&mut m, now, 0), None);
    assert_eq!(m.threads.threads[0].state, ThreadState::Enabled);
    assert_eq!(m.schedule(), Ok(SchedulingAction::ExecuteStep));
}

#[test]
fn nanosleep_wait_time_matches_the_request() {
    let mut m = running_machine();
    let now: u128 = 1_000;
    assert_eq!(nanosleep(&mut m, 0, 100_000_000, now), Ok(0));
    // 100ms remain at registration time; the callback is not ready one
    // nanosecond early, and ready exactly on time.
    assert_eq!(m.threads.get_next_callback_wait_time(now, 0), Some(100_000_000));
    assert_eq!(
        m.threads.get_next_callback_wait_time(now + 99_999_999, 0),
        Some(1)
    );
    assert_eq!(m.threads.get_next_callback_wait_time(now + 100_000_000, 0), Some(0));
}

#[test]
fn timedwait_times_out_with_etimedout_and_reacquires_the_mutex() {
    let mut m = running_machine();
    let (_z, t1) = pthread_create(&mut m, 7u64);
    let mut attr = GuestRegion::new_zeroed(PTHREAD_CONDATTR_T_MIN_SIZE);
    assert_eq!(pthread_condattr_init(&mut attr), Ok(0));
    assert_eq!(pthread_condattr_setclock(&mut attr, CLOCK_MONOTONIC), Ok(0));
    let mut cv = GuestRegion::new_zeroed(PTHREAD_COND_T_MIN_SIZE);
    let mut mu = GuestRegion::new_zeroed(PTHREAD_MUTEX_T_MIN_SIZE);
    assert_eq!(pthread_cond_init(&mut m, &mut cv, Some(&attr)), Ok(0));
    assert_eq!(pthread_mutex_init(&mut m, &mut mu, None), Ok(0));
    m.threads.set_active_thread_id(t1);
    assert_eq!(pthread_mutex_lock(&mut m, &mut mu), Ok(0));
    // Wait with an absolute monotonic timeout of 50ms; the host writes the
    // returned 0 into the guest's slot for now.
    assert_eq!(pthread_cond_timedwait(&mut m, &mut cv, &mut mu, 0, 50_000_000), Ok(0));
    m.threads.set_active_thread_id(ThreadId(0));
    assert_eq!(m.threads.get_next_callback_wait_time(0, 0), Some(50_000_000));
    // 50ms later, with no signal, the timeout fires: the waiter holds the
    // mutex again and ETIMEDOUT is reported for its return slot.
    let fired = run_timeout_callback(&mut m, 50_000_000, 0);
    assert_eq!(fired, Some((t1, ETIMEDOUT)));
    let id = MutexId(mu.read_u32(4).unwrap());
    assert_eq!(m.threads.sync.mutex_get_owner(id), t1);
    assert_eq!(m.threads.threads[1].state, ThreadState::Enabled);
    assert!(!m.threads.sync.condvar_is_awaited(coopsched::sync::CondvarId(
        cv.read_u32(4).unwrap()
    )));
}

#[test]
fn prctl_truncates_the_name_to_fifteen_bytes() {
    let mut m = machine();
    let long: Vec<u8> = b"01234567890123456789".to_vec();
    assert_eq!(prctl(&mut m, PR_SET_NAME, long), Ok((0, None)));
    let stored = m.threads.threads[0].thread_name.clone().unwrap();
    assert_eq!(stored, b"012345678901234".to_vec());
    let (z, out) = prctl(&mut m, PR_GET_NAME, Vec::new()).unwrap();
    assert_eq!(z, 0);
    let bytes = out.unwrap();
    assert_eq!(bytes, b"012345678901234\0".to_vec());
}

#[test]
fn prctl_reports_unnamed_threads() {
    let mut m = machine();
    let (z, out) = prctl(&mut m, PR_GET_NAME, Vec::new()).unwrap();
    assert_eq!(z, 0);
    assert_eq!(out.unwrap(), b"<unnamed>\0".to_vec());
    assert_eq!(prctl(&mut m, 99, Vec::new()), Err(MachineStop::Unsupported));
}

#[test]
fn thread_local_allocations_are_per_thread() {
    let mut m = running_machine();
    let (_z, t1) = pthread_create(&mut m, 7u64);
    // The main thread records allocations for two statics.
    m.threads.set_thread_local_alloc_id(100, 1001);
    m.threads.set_thread_local_alloc_id(101, 1002);
    assert_eq!(m.threads.get_thread_local_alloc_id(100), Some(1001));
    // The spawned thread sees none of them and records its own.
    m.threads.set_active_thread_id(t1);
    assert_eq!(m.threads.get_thread_local_alloc_id(100), None);
    assert_eq!(m.threads.get_thread_local_alloc_id(101), None);
    m.threads.set_thread_local_alloc_id(101, 2002);
    assert_eq!(m.threads.get_thread_local_alloc_id(101), Some(2002));
    // The main thread's mapping is untouched.
    m.threads.set_active_thread_id(ThreadId(0));
    assert_eq!(m.threads.get_thread_local_alloc_id(100), Some(1001));
    assert_eq!(m.threads.get_thread_local_alloc_id(101), Some(1002));
}

#[test]
fn clock_gettime_splits_nanoseconds_by_clock() {
    let mut m = machine();
    let real: u128 = 3_000_000_123;
    let mono: u128 = 1_500_000_456;
    assert_eq!(clock_gettime(&mut m, CLOCK_REALTIME, real, mono), Ok((0, 3, 123)));
    assert_eq!(clock_gettime(&mut m, CLOCK_MONOTONIC, real, mono), Ok((0, 1, 500_000_456)));
    assert_eq!(clock_gettime(&mut m, 77, real, mono), Ok((-1, 0, 0)));
    assert_eq!(m.last_error, EINVAL);
    assert_eq!(mach_absolute_time(&m, mono), Ok(1_500_000_456));
}

#[test]
fn clock_reads_respect_isolation() {
    let mut m: Machine<u64> = Machine::new(8, false);
    assert_eq!(
        clock_gettime(&mut m, CLOCK_REALTIME, 0, 0),
        Err(MachineStop::Unsupported)
    );
    assert_eq!(mach_absolute_time(&m, 0), Err(MachineStop::Unsupported));
}

#[test]
fn system_time_conversion_rejects_times_before_the_epoch() {
    assert_eq!(
        system_time_to_duration(&SystemTime { nanos_since_epoch: -1 }),
        Err(MachineStop::Unsupported)
    );
    let d = system_time_to_duration(&SystemTime { nanos_since_epoch: 2_000_000_007 }).unwrap();
    assert_eq!((d.secs, d.nanos), (2, 7));
}

#[test]
fn timedwait_on_an_unknown_clock_is_unsupported() {
    let mut m = running_machine();
    let (_z, t1) = pthread_create(&mut m, 7u64);
    let mut cv = GuestRegion::new_zeroed(PTHREAD_COND_T_MIN_SIZE);
    let mut mu = GuestRegion::new_zeroed(PTHREAD_MUTEX_T_MIN_SIZE);
    assert_eq!(pthread_cond_init(&mut m, &mut cv, None), Ok(0));
    // Overwrite the stored clock with a value no clock has.
    coopsched::shims::sync::cond_set_clock_id(&mut cv, 9);
    assert_eq!(pthread_mutex_init(&mut m, &mut mu, None), Ok(0));
    m.threads.set_active_thread_id(t1);
    assert_eq!(pthread_mutex_lock(&mut m, &mut mu), Ok(0));
    assert_eq!(
        pthread_cond_timedwait(&mut m, &mut cv, &mut mu, 0, 50_000_000),
        Err(MachineStop::Unsupported)
    );
}

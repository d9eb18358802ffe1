//! The byte layout of the in-guest primitive headers.

use coopsched::guest::GuestRegion;
use coopsched::machine::Machine;
use coopsched::posix::{MachineStop, PTHREAD_MUTEX_RECURSIVE};
use coopsched::shims::sync::{
    cond_get_clock_id, cond_get_id, cond_set_id, mutex_get_id, mutex_get_kind, mutex_set_id,
    mutex_set_kind, mutexattr_get_kind, mutexattr_set_kind, rwlock_get_id, rwlock_set_id,
    PTHREAD_COND_T_MIN_SIZE, PTHREAD_MUTEXATTR_T_MIN_SIZE, PTHREAD_MUTEX_T_MIN_SIZE,
    PTHREAD_RWLOCK_T_MIN_SIZE,
};
use coopsched::thread::ThreadId;

#[test]
fn mutex_id_field_round_trips_little_endian() {
    let mut mu = GuestRegion::new_zeroed(PTHREAD_MUTEX_T_MIN_SIZE);
    mutex_set_id(&mut mu, 0x01020304);
    assert_eq!(mutex_get_id(&mu), Ok(0x01020304));
    // Little-endian: the least significant byte sits at offset 4.
    assert_eq!(mu.cells[4], Some(0x04));
    assert_eq!(mu.cells[5], Some(0x03));
    assert_eq!(mu.cells[6], Some(0x02));
    assert_eq!(mu.cells[7], Some(0x01));
    // The reserved signature bytes at offsets 0-3 are untouched.
    assert_eq!(mu.cells[0], Some(0));
}

#[test]
fn mutex_kind_offset_depends_on_pointer_size() {
    let m64: Machine<u64> = Machine::new(8, true);
    let m32: Machine<u64> = Machine::new(4, true);
    let mut mu = GuestRegion::new_zeroed(PTHREAD_MUTEX_T_MIN_SIZE);
    mutex_set_kind(&m64, &mut mu, PTHREAD_MUTEX_RECURSIVE);
    assert_eq!(mutex_get_kind(&m64, &mu), Ok(PTHREAD_MUTEX_RECURSIVE));
    assert_eq!(mu.cells[16], Some(1));
    mutex_set_kind(&m32, &mut mu, PTHREAD_MUTEX_RECURSIVE);
    assert_eq!(mu.cells[12], Some(1));
}

#[test]
fn reading_undefined_fields_is_undefined_behaviour() {
    let attr = GuestRegion::new_undef(PTHREAD_MUTEXATTR_T_MIN_SIZE);
    assert_eq!(mutexattr_get_kind(&attr), Err(MachineStop::UndefinedBehavior));
    let cv = GuestRegion::new_undef(PTHREAD_COND_T_MIN_SIZE);
    assert_eq!(cond_get_id(&cv), Err(MachineStop::UndefinedBehavior));
    assert_eq!(cond_get_clock_id(&cv), Err(MachineStop::UndefinedBehavior));
}

#[test]
fn attr_and_rwlock_and_cond_fields_round_trip() {
    let mut attr = GuestRegion::new_zeroed(PTHREAD_MUTEXATTR_T_MIN_SIZE);
    mutexattr_set_kind(&mut attr, -7);
    assert_eq!(mutexattr_get_kind(&attr), Ok(-7));
    let mut rw = GuestRegion::new_zeroed(PTHREAD_RWLOCK_T_MIN_SIZE);
    rwlock_set_id(&mut rw, 42);
    assert_eq!(rwlock_get_id(&rw), Ok(42));
    let mut cv = GuestRegion::new_zeroed(PTHREAD_COND_T_MIN_SIZE);
    cond_set_id(&mut cv, 9);
    assert_eq!(cond_get_id(&cv), Ok(9));
}

#[test]
fn thread_id_scalar_is_four_little_endian_bytes() {
    let t = ThreadId(0x0a0b0c0d);
    assert_eq!(t.to_u32_scalar(), vec![0x0d, 0x0c, 0x0b, 0x0a]);
    assert_eq!(t.to_u32(), 0x0a0b0c0d);
}

//! Shims for `pthread_mutex_*`, `pthread_rwlock_*`, `pthread_cond_*` and
//! their attribute objects.
//!
//! Every primitive's in-guest representation reserves dedicated byte
//! offsets for an internal id (and kind-specific fields); the layouts leave
//! room for the platform's static initializer macros:
//!
//! - `pthread_mutexattr_t` (>= 4 bytes): kind `i32` at offset 0;
//! - `pthread_mutex_t` (>= 24 bytes): bytes 0-3 reserved, id `u32` at
//!   offset 4, kind `i32` at offset 16 (64-bit targets) or 12 (32-bit);
//! - `pthread_rwlock_t` (>= 32 bytes): bytes 0-3 reserved, id `u32` at
//!   offset 12;
//! - `pthread_condattr_t` (>= 4 bytes): clock id `i32` at offset 0;
//! - `pthread_cond_t` (>= 12 bytes): id `u32` at offset 4, clock id `i32`
//!   at offset 8.
//!
//! A stored id of zero means "unassigned": the first operation that touches
//! the object allocates a record lazily and writes the fresh id back. Any
//! nonzero stored id must be one that the corresponding `*_create`
//! previously returned — that is the contract of the guest-memory layout.

use vstd::prelude::*;
use crate::guest::GuestRegion;
use crate::machine::{
    Machine, lemma_blocked_wf_preserved, lemma_condvars_wf_new_owner,
    lemma_condvars_wf_same_owners, lemma_join_wf_preserved, lemma_join_wf_no_new_joins,
    lemma_not_blocked_no_waits, lemma_thread_in_mutex_queue, lemma_thread_in_rwlock_queue,
    lemma_thread_in_condvar, mutex_rec_wf, mutex_rec_bounded, rwlock_rec_wf, rwlock_rec_bounded,
    condvar_rec_wf,
};
use crate::posix::{
    MachineStop, PTHREAD_MUTEX_NORMAL, PTHREAD_MUTEX_ERRORCHECK, PTHREAD_MUTEX_RECURSIVE,
    PTHREAD_MUTEX_DEFAULT, EBUSY, EDEADLK, EINVAL, EPERM,
};
use crate::sync::{
    MutexId, RwLockId, CondvarId, count_tid, lemma_count_tid_push, lemma_count_tid_remove,
    lemma_total_waits_mutex_changed,
};
use crate::thread::{ThreadId, ThreadState, thread_id_eq};

verus! {

pub const PTHREAD_MUTEXATTR_T_MIN_SIZE: usize = 4;

pub const PTHREAD_MUTEX_T_MIN_SIZE: usize = 24;

pub const PTHREAD_RWLOCK_T_MIN_SIZE: usize = 32;

pub const PTHREAD_CONDATTR_T_MIN_SIZE: usize = 4;

pub const PTHREAD_COND_T_MIN_SIZE: usize = 12;

/// Byte offset of the id field of a `pthread_mutex_t`.
pub open spec fn spec_mutex_id_off() -> int {
    4
}

/// Byte offset of the kind field of a `pthread_mutex_t` on this target.
pub open spec fn spec_mutex_kind_off<F>(m: Machine<F>) -> int {
    if m.pointer_bytes == 8 {
        16
    } else {
        12
    }
}

/// Byte offset of the id field of a `pthread_rwlock_t`.
pub open spec fn spec_rwlock_id_off() -> int {
    12
}

/// Byte offset of the id field of a `pthread_cond_t`.
pub open spec fn spec_cond_id_off() -> int {
    4
}

/// Byte offset of the clock field of a `pthread_cond_t`.
pub open spec fn spec_cond_clock_off() -> int {
    8
}

/// The layout contract of a mutex object: if its id field holds a nonzero
/// value, that id was previously returned by `mutex_create`.
pub open spec fn mutex_id_field_ok<F>(m: Machine<F>, r: GuestRegion) -> bool {
    r.word_defined(spec_mutex_id_off()) && r.word_u32(spec_mutex_id_off()) != 0
        ==> m.sy().valid_mutex(MutexId(r.word_u32(spec_mutex_id_off())))
}

/// The layout contract of an rwlock object.
pub open spec fn rwlock_id_field_ok<F>(m: Machine<F>, r: GuestRegion) -> bool {
    r.word_defined(spec_rwlock_id_off()) && r.word_u32(spec_rwlock_id_off()) != 0
        ==> m.sy().valid_rwlock(RwLockId(r.word_u32(spec_rwlock_id_off())))
}

/// The layout contract of a condvar object.
pub open spec fn cond_id_field_ok<F>(m: Machine<F>, r: GuestRegion) -> bool {
    r.word_defined(spec_cond_id_off()) && r.word_u32(spec_cond_id_off()) != 0
        ==> m.sy().valid_condvar(CondvarId(r.word_u32(spec_cond_id_off())))
}

/// Read the kind field of a `pthread_mutexattr_t`.
pub fn mutexattr_get_kind(attr_op: &GuestRegion) -> (r: Result<i32, MachineStop>)
    requires
        attr_op.len() >= PTHREAD_MUTEXATTR_T_MIN_SIZE,
    ensures
        attr_op.word_defined(0) ==> r == Ok::<i32, MachineStop>(attr_op.word_i32(0)),
        !attr_op.word_defined(0) ==> r == Err::<i32, MachineStop>(
            MachineStop::UndefinedBehavior,
        ),
{
    attr_op.read_i32(0)
}

/// Write the kind field of a `pthread_mutexattr_t`.
pub fn mutexattr_set_kind(attr_op: &mut GuestRegion, kind: i32)
    requires
        old(attr_op).len() >= PTHREAD_MUTEXATTR_T_MIN_SIZE,
    ensures
        final(attr_op).len() == old(attr_op).len(),
        final(attr_op).word_defined(0),
        final(attr_op).word_i32(0) == kind,
        final(attr_op).same_outside_word(*old(attr_op), 0),
{
    attr_op.write_i32(0, kind)
}

/// Read the kind field of a `pthread_mutex_t` (offset depends on the
/// target's pointer size).
pub fn mutex_get_kind<F>(m: &Machine<F>, mutex_op: &GuestRegion) -> (r: Result<i32, MachineStop>)
    requires
        m.pointer_bytes == 4 || m.pointer_bytes == 8,
        mutex_op.len() >= PTHREAD_MUTEX_T_MIN_SIZE,
    ensures
        mutex_op.word_defined(spec_mutex_kind_off(*m)) ==> r == Ok::<i32, MachineStop>(
            mutex_op.word_i32(spec_mutex_kind_off(*m)),
        ),
        !mutex_op.word_defined(spec_mutex_kind_off(*m)) ==> r == Err::<i32, MachineStop>(
            MachineStop::UndefinedBehavior,
        ),
{
    let offset: usize = if m.pointer_bytes == 8 {
        16
    } else {
        12
    };
    mutex_op.read_i32(offset)
}

/// Write the kind field of a `pthread_mutex_t`.
pub fn mutex_set_kind<F>(m: &Machine<F>, mutex_op: &mut GuestRegion, kind: i32)
    requires
        m.pointer_bytes == 4 || m.pointer_bytes == 8,
        old(mutex_op).len() >= PTHREAD_MUTEX_T_MIN_SIZE,
    ensures
        final(mutex_op).len() == old(mutex_op).len(),
        final(mutex_op).word_defined(spec_mutex_kind_off(*m)),
        final(mutex_op).word_i32(spec_mutex_kind_off(*m)) == kind,
        final(mutex_op).same_outside_word(*old(mutex_op), spec_mutex_kind_off(*m)),
{
    let offset: usize = if m.pointer_bytes == 8 {
        16
    } else {
        12
    };
    mutex_op.write_i32(offset, kind)
}

/// Read the id field of a `pthread_mutex_t`.
pub fn mutex_get_id(mutex_op: &GuestRegion) -> (r: Result<u32, MachineStop>)
    requires
        mutex_op.len() >= PTHREAD_MUTEX_T_MIN_SIZE,
    ensures
        mutex_op.word_defined(4) ==> r == Ok::<u32, MachineStop>(mutex_op.word_u32(4)),
        !mutex_op.word_defined(4) ==> r == Err::<u32, MachineStop>(
            MachineStop::UndefinedBehavior,
        ),
{
    mutex_op.read_u32(4)
}

/// Write the id field of a `pthread_mutex_t`.
pub fn mutex_set_id(mutex_op: &mut GuestRegion, id: u32)
    requires
        old(mutex_op).len() >= PTHREAD_MUTEX_T_MIN_SIZE,
    ensures
        final(mutex_op).len() == old(mutex_op).len(),
        final(mutex_op).word_defined(4),
        final(mutex_op).word_u32(4) == id,
        final(mutex_op).same_outside_word(*old(mutex_op), 4),
{
    mutex_op.write_u32(4, id)
}

/// Read the id field of a `pthread_rwlock_t`.
pub fn rwlock_get_id(rwlock_op: &GuestRegion) -> (r: Result<u32, MachineStop>)
    requires
        rwlock_op.len() >= PTHREAD_RWLOCK_T_MIN_SIZE,
    ensures
        rwlock_op.word_defined(12) ==> r == Ok::<u32, MachineStop>(rwlock_op.word_u32(12)),
        !rwlock_op.word_defined(12) ==> r == Err::<u32, MachineStop>(
            MachineStop::UndefinedBehavior,
        ),
{
    rwlock_op.read_u32(12)
}

/// Write the id field of a `pthread_rwlock_t`.
pub fn rwlock_set_id(rwlock_op: &mut GuestRegion, id: u32)
    requires
        old(rwlock_op).len() >= PTHREAD_RWLOCK_T_MIN_SIZE,
    ensures
        final(rwlock_op).len() == old(rwlock_op).len(),
        final(rwlock_op).word_defined(12),
        final(rwlock_op).word_u32(12) == id,
        final(rwlock_op).same_outside_word(*old(rwlock_op), 12),
{
    rwlock_op.write_u32(12, id)
}

/// Read the clock field of a `pthread_condattr_t`.
pub fn condattr_get_clock_id(attr_op: &GuestRegion) -> (r: Result<i32, MachineStop>)
    requires
        attr_op.len() >= PTHREAD_CONDATTR_T_MIN_SIZE,
    ensures
        attr_op.word_defined(0) ==> r == Ok::<i32, MachineStop>(attr_op.word_i32(0)),
        !attr_op.word_defined(0) ==> r == Err::<i32, MachineStop>(
            MachineStop::UndefinedBehavior,
        ),
{
    attr_op.read_i32(0)
}

/// Write the clock field of a `pthread_condattr_t`.
pub fn condattr_set_clock_id(attr_op: &mut GuestRegion, clock_id: i32)
    requires
        old(attr_op).len() >= PTHREAD_CONDATTR_T_MIN_SIZE,
    ensures
        final(attr_op).len() == old(attr_op).len(),
        final(attr_op).word_defined(0),
        final(attr_op).word_i32(0) == clock_id,
        final(attr_op).same_outside_word(*old(attr_op), 0),
{
    attr_op.write_i32(0, clock_id)
}

/// Read the id field of a `pthread_cond_t`.
pub fn cond_get_id(cond_op: &GuestRegion) -> (r: Result<u32, MachineStop>)
    requires
        cond_op.len() >= PTHREAD_COND_T_MIN_SIZE,
    ensures
        cond_op.word_defined(4) ==> r == Ok::<u32, MachineStop>(cond_op.word_u32(4)),
        !cond_op.word_defined(4) ==> r == Err::<u32, MachineStop>(
            MachineStop::UndefinedBehavior,
        ),
{
    cond_op.read_u32(4)
}

/// Write the id field of a `pthread_cond_t`.
pub fn cond_set_id(cond_op: &mut GuestRegion, id: u32)
    requires
        old(cond_op).len() >= PTHREAD_COND_T_MIN_SIZE,
    ensures
        final(cond_op).len() == old(cond_op).len(),
        final(cond_op).word_defined(4),
        final(cond_op).word_u32(4) == id,
        final(cond_op).same_outside_word(*old(cond_op), 4),
{
    cond_op.write_u32(4, id)
}

/// Read the clock field of a `pthread_cond_t`.
pub fn cond_get_clock_id(cond_op: &GuestRegion) -> (r: Result<i32, MachineStop>)
    requires
        cond_op.len() >= PTHREAD_COND_T_MIN_SIZE,
    ensures
        cond_op.word_defined(8) ==> r == Ok::<i32, MachineStop>(cond_op.word_i32(8)),
        !cond_op.word_defined(8) ==> r == Err::<i32, MachineStop>(
            MachineStop::UndefinedBehavior,
        ),
{
    cond_op.read_i32(8)
}

/// Write the clock field of a `pthread_cond_t`.
pub fn cond_set_clock_id(cond_op: &mut GuestRegion, clock_id: i32)
    requires
        old(cond_op).len() >= PTHREAD_COND_T_MIN_SIZE,
    ensures
        final(cond_op).len() == old(cond_op).len(),
        final(cond_op).word_defined(8),
        final(cond_op).word_i32(8) == clock_id,
        final(cond_op).same_outside_word(*old(cond_op), 8),
{
    cond_op.write_i32(8, clock_id)
}

/// Read the mutex object's stored id; a zero id means the object was never
/// used yet, so a fresh mutex record is allocated and its id written back.
pub fn mutex_get_or_create_id<F>(m: &mut Machine<F>, mutex_op: &mut GuestRegion) -> (r: Result<
    MutexId,
    MachineStop,
>)
    requires
        old(m).inv(),
        old(m).sy().mutexes@.len() < u32::MAX,
        old(mutex_op).len() >= PTHREAD_MUTEX_T_MIN_SIZE,
        mutex_id_field_ok(*old(m), *old(mutex_op)),
    ensures
        final(m).inv(),
        final(m).same_config(*old(m)),
        final(m).threads.same_but_sync(old(m).threads),
        final(m).sy().rwlocks@ == old(m).sy().rwlocks@,
        final(m).sy().condvars@ == old(m).sy().condvars@,
        final(mutex_op).len() == old(mutex_op).len(),
        !old(mutex_op).word_defined(4) ==> r == Err::<MutexId, MachineStop>(
            MachineStop::UndefinedBehavior,
        ) && final(m).unchanged_from(*old(m)) && *final(mutex_op) == *old(mutex_op),
        old(mutex_op).word_defined(4) && old(mutex_op).word_u32(4) != 0 ==> r == Ok::<
            MutexId,
            MachineStop,
        >(MutexId(old(mutex_op).word_u32(4))) && final(m).unchanged_from(*old(m)) && *final(mutex_op) == *old(mutex_op),
        old(mutex_op).word_defined(4) && old(mutex_op).word_u32(4) == 0 ==> {
            &&& r == Ok::<MutexId, MachineStop>(MutexId((old(m).sy().mutexes@.len() + 1) as u32))
            &&& final(m).sy().mutexes@.len() == old(m).sy().mutexes@.len() + 1
            &&& forall|j: int|
                0 <= j < old(m).sy().mutexes@.len() ==> #[trigger] final(m).sy().mutexes@[j] == old(m).sy().mutexes@[j]
            &&& final(m).sy().mutexes@.last().owner is None
            &&& final(m).sy().mutexes@.last().lock_count == 0
            &&& final(m).sy().mutexes@.last().queue@.len() == 0
            &&& final(mutex_op).word_defined(4)
            &&& final(mutex_op).word_u32(4) == old(m).sy().mutexes@.len() + 1
            &&& final(mutex_op).same_outside_word(*old(mutex_op), 4)
        },
        r matches Ok(id) ==> final(m).sy().valid_mutex(id) && final(mutex_op).word_defined(4)
            && final(mutex_op).word_u32(4) == id.0 && id.0 != 0,
{
    let ghost pre = *m;
    let id = match mutex_get_id(mutex_op) {
        Ok(v) => v,
        Err(e) => {
            return Err(e);
        },
    };
    if id == 0 {
        // 0 is the default value and not a valid id: allocate a fresh mutex.
        let new_id = m.threads.sync.mutex_create();
        mutex_set_id(mutex_op, new_id.to_u32());
        proof {
            crate::machine::lemma_inv_after_mutex_create(pre, *m);
        }
        Ok(new_id)
    } else {
        Ok(MutexId(id))
    }
}

/// Read the rwlock object's stored id, allocating a fresh rwlock record for
/// a zero id and writing the id back.
pub fn rwlock_get_or_create_id<F>(m: &mut Machine<F>, rwlock_op: &mut GuestRegion) -> (r: Result<
    RwLockId,
    MachineStop,
>)
    requires
        old(m).inv(),
        old(m).sy().rwlocks@.len() < u32::MAX,
        old(rwlock_op).len() >= PTHREAD_RWLOCK_T_MIN_SIZE,
        rwlock_id_field_ok(*old(m), *old(rwlock_op)),
    ensures
        final(m).inv(),
        final(m).same_config(*old(m)),
        final(m).threads.same_but_sync(old(m).threads),
        final(m).sy().mutexes@ == old(m).sy().mutexes@,
        final(m).sy().condvars@ == old(m).sy().condvars@,
        final(rwlock_op).len() == old(rwlock_op).len(),
        !old(rwlock_op).word_defined(12) ==> r == Err::<RwLockId, MachineStop>(
            MachineStop::UndefinedBehavior,
        ) && final(m).unchanged_from(*old(m)) && *final(rwlock_op) == *old(rwlock_op),
        old(rwlock_op).word_defined(12) && old(rwlock_op).word_u32(12) != 0 ==> r == Ok::<
            RwLockId,
            MachineStop,
        >(RwLockId(old(rwlock_op).word_u32(12))) && final(m).unchanged_from(*old(m)) && *final(rwlock_op) == *old(rwlock_op),
        old(rwlock_op).word_defined(12) && old(rwlock_op).word_u32(12) == 0 ==> {
            &&& r == Ok::<RwLockId, MachineStop>(RwLockId((old(m).sy().rwlocks@.len() + 1) as u32))
            &&& final(m).sy().rwlocks@.len() == old(m).sy().rwlocks@.len() + 1
            &&& forall|j: int|
                0 <= j < old(m).sy().rwlocks@.len() ==> #[trigger] final(m).sy().rwlocks@[j] == old(m).sy().rwlocks@[j]
            &&& final(m).sy().rwlocks@.last().writer is None
            &&& final(m).sy().rwlocks@.last().readers@.len() == 0
            &&& final(m).sy().rwlocks@.last().writer_queue@.len() == 0
            &&& final(m).sy().rwlocks@.last().reader_queue@.len() == 0
            &&& final(rwlock_op).word_defined(12)
            &&& final(rwlock_op).word_u32(12) == old(m).sy().rwlocks@.len() + 1
            &&& final(rwlock_op).same_outside_word(*old(rwlock_op), 12)
        },
        r matches Ok(id) ==> final(m).sy().valid_rwlock(id) && final(rwlock_op).word_defined(12)
            && final(rwlock_op).word_u32(12) == id.0 && id.0 != 0,
{
    let ghost pre = *m;
    let id = match rwlock_get_id(rwlock_op) {
        Ok(v) => v,
        Err(e) => {
            return Err(e);
        },
    };
    if id == 0 {
        // 0 is the default value and not a valid id: allocate a fresh rwlock.
        let new_id = m.threads.sync.rwlock_create();
        rwlock_set_id(rwlock_op, new_id.to_u32());
        proof {
            crate::machine::lemma_inv_after_rwlock_create(pre, *m);
        }
        Ok(new_id)
    } else {
        Ok(RwLockId(id))
    }
}

/// Read the condvar object's stored id, allocating a fresh condvar record
/// for a zero id and writing the id back.
pub fn cond_get_or_create_id<F>(m: &mut Machine<F>, cond_op: &mut GuestRegion) -> (r: Result<
    CondvarId,
    MachineStop,
>)
    requires
        old(m).inv(),
        old(m).sy().condvars@.len() < u32::MAX,
        old(cond_op).len() >= PTHREAD_COND_T_MIN_SIZE,
        cond_id_field_ok(*old(m), *old(cond_op)),
    ensures
        final(m).inv(),
        final(m).same_config(*old(m)),
        final(m).threads.same_but_sync(old(m).threads),
        final(m).sy().mutexes@ == old(m).sy().mutexes@,
        final(m).sy().rwlocks@ == old(m).sy().rwlocks@,
        final(cond_op).len() == old(cond_op).len(),
        !old(cond_op).word_defined(4) ==> r == Err::<CondvarId, MachineStop>(
            MachineStop::UndefinedBehavior,
        ) && final(m).unchanged_from(*old(m)) && *final(cond_op) == *old(cond_op),
        old(cond_op).word_defined(4) && old(cond_op).word_u32(4) != 0 ==> r == Ok::<
            CondvarId,
            MachineStop,
        >(CondvarId(old(cond_op).word_u32(4))) && final(m).unchanged_from(*old(m)) && *final(cond_op) == *old(cond_op),
        old(cond_op).word_defined(4) && old(cond_op).word_u32(4) == 0 ==> {
            &&& r == Ok::<CondvarId, MachineStop>(CondvarId((old(m).sy().condvars@.len() + 1) as u32))
            &&& final(m).sy().condvars@.len() == old(m).sy().condvars@.len() + 1
            &&& forall|j: int|
                0 <= j < old(m).sy().condvars@.len() ==> #[trigger] final(m).sy().condvars@[j]
                    == old(m).sy().condvars@[j]
            &&& final(m).sy().condvars@.last().waiters@.len() == 0
            &&& final(cond_op).word_defined(4)
            &&& final(cond_op).word_u32(4) == old(m).sy().condvars@.len() + 1
            &&& final(cond_op).same_outside_word(*old(cond_op), 4)
        },
        r matches Ok(id) ==> final(m).sy().valid_condvar(id) && final(cond_op).word_defined(4)
            && final(cond_op).word_u32(4) == id.0 && id.0 != 0,
{
    let ghost pre = *m;
    let id = match cond_get_id(cond_op) {
        Ok(v) => v,
        Err(e) => {
            return Err(e);
        },
    };
    if id == 0 {
        // 0 is the default value and not a valid id: allocate a fresh condvar.
        let new_id = m.threads.sync.condvar_create();
        cond_set_id(cond_op, new_id.to_u32());
        proof {
            crate::machine::lemma_inv_after_cond_create(pre, *m);
        }
        Ok(new_id)
    } else {
        Ok(CondvarId(id))
    }
}

/// The mutex record the operation will act on: the stored one, or a fresh
/// one if the id field still holds zero.
pub open spec fn mutex_op_id<F>(m: Machine<F>, r: GuestRegion) -> MutexId {
    if r.word_u32(4) != 0 {
        MutexId(r.word_u32(4))
    } else {
        MutexId((m.sy().mutexes@.len() + 1) as u32)
    }
}

/// The owner of the mutex the operation acts on (a fresh mutex has none).
pub open spec fn mutex_op_owner<F>(m: Machine<F>, r: GuestRegion) -> Option<ThreadId> {
    if r.word_u32(4) != 0 {
        m.sy().mutex(MutexId(r.word_u32(4))).owner
    } else {
        None
    }
}

/// The lock count of the mutex the operation acts on.
pub open spec fn mutex_op_count<F>(m: Machine<F>, r: GuestRegion) -> nat {
    if r.word_u32(4) != 0 {
        m.sy().mutex(MutexId(r.word_u32(4))).lock_count as nat
    } else {
        0
    }
}

/// The wait queue of the mutex the operation acts on.
pub open spec fn mutex_op_queue<F>(m: Machine<F>, r: GuestRegion) -> Seq<ThreadId> {
    if r.word_u32(4) != 0 {
        m.sy().mutex(MutexId(r.word_u32(4))).queue@
    } else {
        Seq::empty()
    }
}

/// The kind stored for the mutex is one of the three supported ones.
pub open spec fn known_mutex_kind(kind: i32) -> bool {
    kind == PTHREAD_MUTEX_NORMAL || kind == PTHREAD_MUTEX_ERRORCHECK || kind
        == PTHREAD_MUTEX_RECURSIVE
}

/// Initialize a `pthread_mutexattr_t` with the default mutex kind.
pub fn pthread_mutexattr_init(attr_op: &mut GuestRegion) -> (r: Result<i32, MachineStop>)
    requires
        old(attr_op).len() >= PTHREAD_MUTEXATTR_T_MIN_SIZE,
    ensures
        r == Ok::<i32, MachineStop>(0),
        final(attr_op).len() == old(attr_op).len(),
        final(attr_op).word_defined(0),
        final(attr_op).word_i32(0) == PTHREAD_MUTEX_DEFAULT,
        final(attr_op).same_outside_word(*old(attr_op), 0),
{
    mutexattr_set_kind(attr_op, PTHREAD_MUTEX_DEFAULT);
    Ok(0)
}

/// Set the kind of a `pthread_mutexattr_t`; an unknown kind is EINVAL.
pub fn pthread_mutexattr_settype(attr_op: &mut GuestRegion, kind: i32) -> (r: Result<
    i32,
    MachineStop,
>)
    requires
        old(attr_op).len() >= PTHREAD_MUTEXATTR_T_MIN_SIZE,
    ensures
        final(attr_op).len() == old(attr_op).len(),
        known_mutex_kind(kind) ==> {
            &&& r == Ok::<i32, MachineStop>(0)
            &&& final(attr_op).word_defined(0)
            &&& final(attr_op).word_i32(0) == kind
            &&& final(attr_op).same_outside_word(*old(attr_op), 0)
        },
        !known_mutex_kind(kind) ==> r == Ok::<i32, MachineStop>(EINVAL) && *final(attr_op) == *old(attr_op),
{
    if kind == PTHREAD_MUTEX_NORMAL || kind == PTHREAD_MUTEX_ERRORCHECK || kind
        == PTHREAD_MUTEX_RECURSIVE {
        mutexattr_set_kind(attr_op, kind);
        Ok(0)
    } else {
        Ok(EINVAL)
    }
}

/// Destroy a `pthread_mutexattr_t`: its kind field becomes undefined.
pub fn pthread_mutexattr_destroy(attr_op: &mut GuestRegion) -> (r: Result<i32, MachineStop>)
    requires
        old(attr_op).len() >= PTHREAD_MUTEXATTR_T_MIN_SIZE,
    ensures
        r == Ok::<i32, MachineStop>(0),
        final(attr_op).len() == old(attr_op).len(),
        !final(attr_op).word_defined(0),
        final(attr_op).same_outside_word(*old(attr_op), 0),
{
    attr_op.write_undef_word(0);
    Ok(0)
}

/// Initialize a `pthread_mutex_t`: allocate its id and store its kind,
/// taken from the attribute object (or the default for a null attribute).
pub fn pthread_mutex_init<F>(
    m: &mut Machine<F>,
    mutex_op: &mut GuestRegion,
    attr_op: Option<&GuestRegion>,
) -> (r: Result<i32, MachineStop>)
    requires
        old(m).inv(),
        old(m).sy().mutexes@.len() < u32::MAX,
        old(mutex_op).len() >= PTHREAD_MUTEX_T_MIN_SIZE,
        mutex_id_field_ok(*old(m), *old(mutex_op)),
        attr_op matches Some(a) ==> a.len() >= PTHREAD_MUTEXATTR_T_MIN_SIZE,
    ensures
        final(m).inv(),
        final(m).same_config(*old(m)),
        final(m).threads.same_but_sync(old(m).threads),
        final(mutex_op).len() == old(mutex_op).len(),
        (attr_op matches Some(a) && !a.word_defined(0)) ==> r == Err::<i32, MachineStop>(
            MachineStop::UndefinedBehavior,
        ) && final(m).unchanged_from(*old(m)) && *final(mutex_op) == *old(mutex_op),
        (attr_op is None || (attr_op matches Some(a) && a.word_defined(0))) ==> {
            &&& !old(mutex_op).word_defined(4) ==> r == Err::<i32, MachineStop>(
                MachineStop::UndefinedBehavior,
            ) && final(m).unchanged_from(*old(m)) && *final(mutex_op) == *old(mutex_op)
            &&& old(mutex_op).word_defined(4) ==> {
                let id = mutex_op_id(*old(m), *old(mutex_op));
                &&& r == Ok::<i32, MachineStop>(0)
                &&& final(mutex_op).word_defined(spec_mutex_kind_off(*old(m)))
                &&& final(mutex_op).word_i32(spec_mutex_kind_off(*old(m))) == (match attr_op {
                    Some(a) => a.word_i32(0),
                    None => PTHREAD_MUTEX_DEFAULT,
                })
                &&& final(mutex_op).word_defined(4)
                &&& final(mutex_op).word_u32(4) == id.0
                &&& forall|k: int|
                    0 <= k < old(mutex_op).len() && !(4 <= k < 8) && !(spec_mutex_kind_off(*old(m))
                        <= k < spec_mutex_kind_off(*old(m)) + 4) ==> final(mutex_op).cells@[k]
                        == #[trigger] old(mutex_op).cells@[k]
                &&& final(m).sy().valid_mutex(id)
                &&& (old(mutex_op).word_u32(4) != 0 ==> final(m).unchanged_from(*old(m)))
                &&& (old(mutex_op).word_u32(4) == 0 ==> {
                    &&& final(m).sy().mutex(id).owner is None
                    &&& final(m).sy().mutex(id).lock_count == 0
                    &&& final(m).sy().mutex(id).queue@.len() == 0
                    &&& final(m).sy().mutexes@.len() == old(m).sy().mutexes@.len() + 1
                    &&& forall|j: int|
                        0 <= j < old(m).sy().mutexes@.len() ==> #[trigger] final(m).sy().mutexes@[j]
                            == old(m).sy().mutexes@[j]
                    &&& final(m).sy().rwlocks@ == old(m).sy().rwlocks@
                    &&& final(m).sy().condvars@ == old(m).sy().condvars@
                })
            }
        },
{
    let kind = match attr_op {
        None => PTHREAD_MUTEX_DEFAULT,
        Some(a) => match mutexattr_get_kind(a) {
            Ok(k) => k,
            Err(e) => {
                return Err(e);
            },
        },
    };
    let ghost before_create = *mutex_op;
    match mutex_get_or_create_id(m, mutex_op) {
        Ok(_id) => {},
        Err(e) => {
            return Err(e);
        },
    }
    let ghost after_create = *mutex_op;
    mutex_set_kind(m, mutex_op, kind);
    proof {
        crate::guest::lemma_word_preserved(
            after_create,
            *mutex_op,
            spec_mutex_kind_off(*m),
            4,
        );
    }
    Ok(0)
}

/// Lock a mutex for the active thread. If another thread owns it, the
/// active thread blocks in the mutex's FIFO queue. Reacquiring one's own
/// NORMAL mutex is a deadlock; ERRORCHECK reports EDEADLK; RECURSIVE
/// deepens the lock; any other kind is undefined behaviour.
pub fn pthread_mutex_lock<F>(m: &mut Machine<F>, mutex_op: &mut GuestRegion) -> (r: Result<
    i32,
    MachineStop,
>)
    requires
        old(m).inv(),
        old(m).threads.thread(old(m).threads.active_thread).state == ThreadState::Enabled,
        old(m).sy().mutexes@.len() < u32::MAX,
        old(mutex_op).len() >= PTHREAD_MUTEX_T_MIN_SIZE,
        mutex_id_field_ok(*old(m), *old(mutex_op)),
        mutex_op_count(*old(m), *old(mutex_op)) < usize::MAX,
    ensures
        final(m).inv(),
        final(m).same_config(*old(m)),
        final(mutex_op).len() == old(mutex_op).len(),
        !old(mutex_op).word_defined(spec_mutex_kind_off(*old(m))) ==> r == Err::<i32, MachineStop>(
            MachineStop::UndefinedBehavior,
        ) && final(m).unchanged_from(*old(m)) && *final(mutex_op) == *old(mutex_op),
        old(mutex_op).word_defined(spec_mutex_kind_off(*old(m))) && !old(mutex_op).word_defined(4)
            ==> r == Err::<i32, MachineStop>(MachineStop::UndefinedBehavior) && final(m).unchanged_from(*old(m)) && *final(mutex_op) == *old(mutex_op),
        old(mutex_op).word_defined(spec_mutex_kind_off(*old(m))) && old(mutex_op).word_defined(4)
            && old(mutex_op).word_u32(4) != 0 ==> *final(mutex_op) == *old(mutex_op),
        old(mutex_op).word_defined(spec_mutex_kind_off(*old(m))) && old(mutex_op).word_defined(4)
            && old(mutex_op).word_u32(4) == 0 ==> {
            &&& final(mutex_op).word_defined(4)
            &&& final(mutex_op).word_u32(4) == mutex_op_id(*old(m), *old(mutex_op)).0
            &&& final(mutex_op).same_outside_word(*old(mutex_op), 4)
        },
        old(mutex_op).word_defined(spec_mutex_kind_off(*old(m))) && old(mutex_op).word_defined(4)
            ==> {
            let kind = old(mutex_op).word_i32(spec_mutex_kind_off(*old(m)));
            let id = mutex_op_id(*old(m), *old(mutex_op));
            let a = old(m).threads.active_thread;
            &&& (mutex_op_owner(*old(m), *old(mutex_op)) is None ==> {
                &&& r == Ok::<i32, MachineStop>(0)
                &&& final(m).threads.same_but_sync(old(m).threads)
                &&& final(m).sy().valid_mutex(id)
                &&& final(m).sy().mutex(id).owner == Some(a)
                &&& final(m).sy().mutex(id).lock_count == mutex_op_count(*old(m), *old(mutex_op))
                    + 1
                &&& final(m).sy().mutex(id).queue@ == mutex_op_queue(*old(m), *old(mutex_op))
                &&& final(m).sy().rwlocks@ == old(m).sy().rwlocks@
                &&& final(m).sy().condvars@ == old(m).sy().condvars@
                &&& final(m).sy().mutexes@.len() == old(m).sy().mutexes@.len() + (
                if old(mutex_op).word_u32(4) == 0 {
                    1int
                } else {
                    0int
                })
                &&& forall|j: int|
                    0 <= j < old(m).sy().mutexes@.len() && j != id.idx()
                        ==> #[trigger] final(m).sy().mutexes@[j] == old(m).sy().mutexes@[j]
            })
            &&& (mutex_op_owner(*old(m), *old(mutex_op)) matches Some(o) ==> o != a ==> {
                &&& r == Ok::<i32, MachineStop>(0)
                &&& *final(mutex_op) == *old(mutex_op)
                &&& final(m).sy().mutex(id).owner == Some(o)
                &&& final(m).sy().mutex(id).lock_count == mutex_op_count(*old(m), *old(mutex_op))
                &&& final(m).sy().mutex(id).queue@ == mutex_op_queue(*old(m), *old(mutex_op)).push(
                    a,
                )
                &&& final(m).threads.threads@ == old(m).threads.threads@.update(
                    a.0 as int,
                    (crate::thread::Thread {
                        state: ThreadState::BlockedOnSync,
                        ..old(m).threads.thread(a)
                    }),
                )
                &&& final(m).threads.thread(a).state == ThreadState::BlockedOnSync
                &&& final(m).threads.timeout_callbacks@ == old(m).threads.timeout_callbacks@
                &&& final(m).threads.active_thread == old(m).threads.active_thread
                &&& final(m).threads.yield_active_thread == old(m).threads.yield_active_thread
                &&& final(m).threads.thread_local_alloc_ids@ == old(
                    m,
                ).threads.thread_local_alloc_ids@
                &&& final(m).sy().only_mutex_changed(old(m).sy(), id)
            })
            &&& (mutex_op_owner(*old(m), *old(mutex_op)) == Some(a) ==> {
                &&& *final(mutex_op) == *old(mutex_op)
                &&& (kind == PTHREAD_MUTEX_NORMAL ==> r == Err::<i32, MachineStop>(
                    MachineStop::Deadlock,
                ) && final(m).unchanged_from(*old(m)))
                &&& (kind == PTHREAD_MUTEX_ERRORCHECK ==> r == Ok::<i32, MachineStop>(EDEADLK)
                    && final(m).unchanged_from(*old(m)))
                &&& (kind == PTHREAD_MUTEX_RECURSIVE ==> {
                    &&& r == Ok::<i32, MachineStop>(0)
                    &&& final(m).threads.same_but_sync(old(m).threads)
                    &&& final(m).sy().only_mutex_changed(old(m).sy(), id)
                    &&& final(m).sy().mutex(id).owner == Some(a)
                    &&& final(m).sy().mutex(id).lock_count == mutex_op_count(
                        *old(m),
                        *old(mutex_op),
                    ) + 1
                    &&& final(m).sy().mutex(id).queue@ == mutex_op_queue(*old(m), *old(mutex_op))
                })
                &&& (!known_mutex_kind(kind) ==> r == Err::<i32, MachineStop>(
                    MachineStop::UndefinedBehavior,
                ) && final(m).unchanged_from(*old(m)))
            })
        },
{
    let kind = match mutex_get_kind(m, mutex_op) {
        Ok(k) => k,
        Err(e) => {
            return Err(e);
        },
    };
    let id = match mutex_get_or_create_id(m, mutex_op) {
        Ok(i) => i,
        Err(e) => {
            return Err(e);
        },
    };
    let active_thread = m.threads.get_active_thread_id();
    let ghost mid = *m;
    if m.threads.sync.mutex_is_locked(id) {
        let owner_thread = m.threads.sync.mutex_get_owner(id);
        if !thread_id_eq(owner_thread, active_thread) {
            // Block the active thread.
            proof {
                lemma_not_blocked_no_waits(mid, active_thread);
            }
            m.threads.block_thread(active_thread);
            m.threads.sync.mutex_enqueue(id, active_thread);
            proof {
                lemma_inv_after_block_on_mutex(mid, *m, id, active_thread);
            }
            Ok(0)
        } else {
            // Trying to acquire the same mutex again.
            if kind == PTHREAD_MUTEX_NORMAL {
                Err(MachineStop::Deadlock)
            } else if kind == PTHREAD_MUTEX_ERRORCHECK {
                Ok(EDEADLK)
            } else if kind == PTHREAD_MUTEX_RECURSIVE {
                m.threads.sync.mutex_lock(id, active_thread);
                proof {
                    lemma_inv_after_acquire(mid, *m, id, active_thread);
                }
                Ok(0)
            } else {
                Err(MachineStop::UndefinedBehavior)
            }
        }
    } else {
        // The mutex is unlocked: lock it.
        m.threads.sync.mutex_lock(id, active_thread);
        proof {
            lemma_inv_after_acquire(mid, *m, id, active_thread);
        }
        Ok(0)
    }
}

/// Try to lock a mutex for the active thread: as `pthread_mutex_lock`, but
/// every case that would block — and a NORMAL or ERRORCHECK reacquire —
/// reports EBUSY instead.
pub fn pthread_mutex_trylock<F>(m: &mut Machine<F>, mutex_op: &mut GuestRegion) -> (r: Result<
    i32,
    MachineStop,
>)
    requires
        old(m).inv(),
        old(m).threads.thread(old(m).threads.active_thread).state == ThreadState::Enabled,
        old(m).sy().mutexes@.len() < u32::MAX,
        old(mutex_op).len() >= PTHREAD_MUTEX_T_MIN_SIZE,
        mutex_id_field_ok(*old(m), *old(mutex_op)),
        mutex_op_count(*old(m), *old(mutex_op)) < usize::MAX,
    ensures
        final(m).inv(),
        final(m).same_config(*old(m)),
        final(m).threads.same_but_sync(old(m).threads),
        final(mutex_op).len() == old(mutex_op).len(),
        !old(mutex_op).word_defined(spec_mutex_kind_off(*old(m))) ==> r == Err::<i32, MachineStop>(
            MachineStop::UndefinedBehavior,
        ) && final(m).unchanged_from(*old(m)) && *final(mutex_op) == *old(mutex_op),
        old(mutex_op).word_defined(spec_mutex_kind_off(*old(m))) && !old(mutex_op).word_defined(4)
            ==> r == Err::<i32, MachineStop>(MachineStop::UndefinedBehavior) && final(m).unchanged_from(*old(m)) && *final(mutex_op) == *old(mutex_op),
        old(mutex_op).word_defined(spec_mutex_kind_off(*old(m))) && old(mutex_op).word_defined(4)
            && old(mutex_op).word_u32(4) != 0 ==> *final(mutex_op) == *old(mutex_op),
        old(mutex_op).word_defined(spec_mutex_kind_off(*old(m))) && old(mutex_op).word_defined(4)
            && old(mutex_op).word_u32(4) == 0 ==> {
            &&& final(mutex_op).word_defined(4)
            &&& final(mutex_op).word_u32(4) == mutex_op_id(*old(m), *old(mutex_op)).0
            &&& final(mutex_op).same_outside_word(*old(mutex_op), 4)
        },
        old(mutex_op).word_defined(spec_mutex_kind_off(*old(m))) && old(mutex_op).word_defined(4)
            ==> {
            let kind = old(mutex_op).word_i32(spec_mutex_kind_off(*old(m)));
            let id = mutex_op_id(*old(m), *old(mutex_op));
            let a = old(m).threads.active_thread;
            &&& (mutex_op_owner(*old(m), *old(mutex_op)) is None ==> {
                &&& r == Ok::<i32, MachineStop>(0)
                &&& final(m).sy().valid_mutex(id)
                &&& final(m).sy().mutex(id).owner == Some(a)
                &&& final(m).sy().mutex(id).lock_count == mutex_op_count(*old(m), *old(mutex_op))
                    + 1
                &&& final(m).sy().mutex(id).queue@ == mutex_op_queue(*old(m), *old(mutex_op))
                &&& final(m).sy().rwlocks@ == old(m).sy().rwlocks@
                &&& final(m).sy().condvars@ == old(m).sy().condvars@
                &&& final(m).sy().mutexes@.len() == old(m).sy().mutexes@.len() + (
                if old(mutex_op).word_u32(4) == 0 {
                    1int
                } else {
                    0int
                })
                &&& forall|j: int|
                    0 <= j < old(m).sy().mutexes@.len() && j != id.idx()
                        ==> #[trigger] final(m).sy().mutexes@[j] == old(m).sy().mutexes@[j]
            })
            &&& (mutex_op_owner(*old(m), *old(mutex_op)) matches Some(o) ==> o != a ==> r == Ok::<
                i32,
                MachineStop,
            >(EBUSY) && final(m).unchanged_from(*old(m)) && *final(mutex_op) == *old(mutex_op))
            &&& (mutex_op_owner(*old(m), *old(mutex_op)) == Some(a) ==> {
                &&& *final(mutex_op) == *old(mutex_op)
                &&& (kind == PTHREAD_MUTEX_NORMAL || kind == PTHREAD_MUTEX_ERRORCHECK ==> r
                    == Ok::<i32, MachineStop>(EBUSY) && final(m).unchanged_from(*old(m)))
                &&& (kind == PTHREAD_MUTEX_RECURSIVE ==> {
                    &&& r == Ok::<i32, MachineStop>(0)
                    &&& final(m).sy().only_mutex_changed(old(m).sy(), id)
                    &&& final(m).sy().mutex(id).owner == Some(a)
                    &&& final(m).sy().mutex(id).lock_count == mutex_op_count(
                        *old(m),
                        *old(mutex_op),
                    ) + 1
                    &&& final(m).sy().mutex(id).queue@ == mutex_op_queue(*old(m), *old(mutex_op))
                })
                &&& (!known_mutex_kind(kind) ==> r == Err::<i32, MachineStop>(
                    MachineStop::UndefinedBehavior,
                ) && final(m).unchanged_from(*old(m)))
            })
        },
{
    let kind = match mutex_get_kind(m, mutex_op) {
        Ok(k) => k,
        Err(e) => {
            return Err(e);
        },
    };
    let id = match mutex_get_or_create_id(m, mutex_op) {
        Ok(i) => i,
        Err(e) => {
            return Err(e);
        },
    };
    let active_thread = m.threads.get_active_thread_id();
    let ghost mid = *m;
    if m.threads.sync.mutex_is_locked(id) {
        let owner_thread = m.threads.sync.mutex_get_owner(id);
        if !thread_id_eq(owner_thread, active_thread) {
            Ok(EBUSY)
        } else {
            if kind == PTHREAD_MUTEX_NORMAL || kind == PTHREAD_MUTEX_ERRORCHECK {
                Ok(EBUSY)
            } else if kind == PTHREAD_MUTEX_RECURSIVE {
                m.threads.sync.mutex_lock(id, active_thread);
                proof {
                    lemma_inv_after_acquire(mid, *m, id, active_thread);
                }
                Ok(0)
            } else {
                Err(MachineStop::UndefinedBehavior)
            }
        }
    } else {
        // The mutex is unlocked: lock it.
        m.threads.sync.mutex_lock(id, active_thread);
        proof {
            lemma_inv_after_acquire(mid, *m, id, active_thread);
        }
        Ok(0)
    }
}

/// Unlock a mutex held by the active thread: drop one nesting level; when
/// the count reaches zero, hand the mutex to the first queued waiter (in
/// the same scheduler-visible step) and wake it. Unlocking a mutex owned by
/// another thread is undefined behaviour; unlocking an unlocked NORMAL
/// mutex is undefined behaviour, while ERRORCHECK and RECURSIVE report
/// EPERM.
pub fn pthread_mutex_unlock<F>(m: &mut Machine<F>, mutex_op: &mut GuestRegion) -> (r: Result<
    i32,
    MachineStop,
>)
    requires
        old(m).inv(),
        old(m).sy().mutexes@.len() < u32::MAX,
        old(mutex_op).len() >= PTHREAD_MUTEX_T_MIN_SIZE,
        mutex_id_field_ok(*old(m), *old(mutex_op)),
    ensures
        final(m).inv(),
        final(m).same_config(*old(m)),
        final(mutex_op).len() == old(mutex_op).len(),
        !old(mutex_op).word_defined(spec_mutex_kind_off(*old(m))) ==> r == Err::<i32, MachineStop>(
            MachineStop::UndefinedBehavior,
        ) && final(m).unchanged_from(*old(m)) && *final(mutex_op) == *old(mutex_op),
        old(mutex_op).word_defined(spec_mutex_kind_off(*old(m))) && !old(mutex_op).word_defined(4)
            ==> r == Err::<i32, MachineStop>(MachineStop::UndefinedBehavior) && final(m).unchanged_from(*old(m)) && *final(mutex_op) == *old(mutex_op),
        old(mutex_op).word_defined(spec_mutex_kind_off(*old(m))) && old(mutex_op).word_defined(4)
            && old(mutex_op).word_u32(4) != 0 ==> *final(mutex_op) == *old(mutex_op),
        old(mutex_op).word_defined(spec_mutex_kind_off(*old(m))) && old(mutex_op).word_defined(4)
            && old(mutex_op).word_u32(4) == 0 ==> {
            &&& final(mutex_op).word_defined(4)
            &&& final(mutex_op).word_u32(4) == mutex_op_id(*old(m), *old(mutex_op)).0
            &&& final(mutex_op).same_outside_word(*old(mutex_op), 4)
        },
        old(mutex_op).word_defined(spec_mutex_kind_off(*old(m))) && old(mutex_op).word_defined(4)
            ==> {
            let kind = old(mutex_op).word_i32(spec_mutex_kind_off(*old(m)));
            let id = mutex_op_id(*old(m), *old(mutex_op));
            let a = old(m).threads.active_thread;
            &&& (mutex_op_owner(*old(m), *old(mutex_op)) is None ==> {
                &&& (kind == PTHREAD_MUTEX_ERRORCHECK || kind == PTHREAD_MUTEX_RECURSIVE ==> r
                    == Ok::<i32, MachineStop>(EPERM))
                &&& (!(kind == PTHREAD_MUTEX_ERRORCHECK || kind == PTHREAD_MUTEX_RECURSIVE) ==> r
                    == Err::<i32, MachineStop>(MachineStop::UndefinedBehavior))
                &&& final(m).threads.same_but_sync(old(m).threads)
                &&& final(m).sy().valid_mutex(id)
                &&& final(m).sy().mutex(id).owner is None
                &&& final(m).sy().mutex(id).lock_count == 0
                &&& final(m).sy().mutex(id).queue@ == mutex_op_queue(*old(m), *old(mutex_op))
                &&& final(m).sy().rwlocks@ == old(m).sy().rwlocks@
                &&& final(m).sy().condvars@ == old(m).sy().condvars@
                &&& final(m).sy().mutexes@.len() == old(m).sy().mutexes@.len() + (
                if old(mutex_op).word_u32(4) == 0 {
                    1int
                } else {
                    0int
                })
                &&& forall|j: int|
                    0 <= j < old(m).sy().mutexes@.len() && j != id.idx()
                        ==> #[trigger] final(m).sy().mutexes@[j] == old(m).sy().mutexes@[j]
            })
            &&& (mutex_op_owner(*old(m), *old(mutex_op)) matches Some(o) ==> o != a ==> {
                &&& r == Err::<i32, MachineStop>(MachineStop::UndefinedBehavior)
                &&& final(m).threads.same_but_sync(old(m).threads)
                &&& final(m).sy().only_mutex_changed(old(m).sy(), id)
                &&& final(m).sy().mutex(id).lock_count == mutex_op_count(*old(m), *old(mutex_op))
                    - 1
                &&& final(m).sy().mutex(id).queue@ == mutex_op_queue(*old(m), *old(mutex_op))
            })
            &&& (mutex_op_owner(*old(m), *old(mutex_op)) == Some(a) ==> {
                &&& r == Ok::<i32, MachineStop>(0)
                &&& (mutex_op_count(*old(m), *old(mutex_op)) > 1 ==> {
                    &&& final(m).threads.same_but_sync(old(m).threads)
                    &&& final(m).sy().only_mutex_changed(old(m).sy(), id)
                    &&& final(m).sy().mutex(id).owner == Some(a)
                    &&& final(m).sy().mutex(id).lock_count == mutex_op_count(
                        *old(m),
                        *old(mutex_op),
                    ) - 1
                    &&& final(m).sy().mutex(id).queue@ == mutex_op_queue(*old(m), *old(mutex_op))
                })
                &&& (mutex_op_count(*old(m), *old(mutex_op)) == 1 && mutex_op_queue(
                    *old(m),
                    *old(mutex_op),
                ).len() == 0 ==> {
                    &&& final(m).threads.same_but_sync(old(m).threads)
                    &&& final(m).sy().only_mutex_changed(old(m).sy(), id)
                    &&& final(m).sy().mutex(id).owner is None
                    &&& final(m).sy().mutex(id).lock_count == 0
                    &&& final(m).sy().mutex(id).queue@ == mutex_op_queue(*old(m), *old(mutex_op))
                })
                &&& (mutex_op_count(*old(m), *old(mutex_op)) == 1 && mutex_op_queue(
                    *old(m),
                    *old(mutex_op),
                ).len() > 0 ==> {
                    &&& final(m).sy().only_mutex_changed(old(m).sy(), id)
                    &&& final(m).sy().mutex(id).owner == Some(
                        mutex_op_queue(*old(m), *old(mutex_op))[0],
                    )
                    &&& final(m).sy().mutex(id).lock_count == 1
                    &&& final(m).sy().mutex(id).queue@ == mutex_op_queue(
                        *old(m),
                        *old(mutex_op),
                    ).remove(0)
                    &&& final(m).threads.threads@ == old(m).threads.threads@.update(
                        mutex_op_queue(*old(m), *old(mutex_op))[0].0 as int,
                        (crate::thread::Thread {
                            state: ThreadState::Enabled,
                            ..old(m).threads.thread(mutex_op_queue(*old(m), *old(mutex_op))[0])
                        }),
                    )
                    &&& final(m).threads.thread(
                        mutex_op_queue(*old(m), *old(mutex_op))[0],
                    ).state == ThreadState::Enabled
                    &&& final(m).threads.timeout_callbacks@ == old(m).threads.timeout_callbacks@
                    &&& final(m).threads.active_thread == old(m).threads.active_thread
                    &&& final(m).threads.yield_active_thread == old(m).threads.yield_active_thread
                    &&& final(m).threads.thread_local_alloc_ids@ == old(
                        m,
                    ).threads.thread_local_alloc_ids@
                })
            })
        },
{
    let kind = match mutex_get_kind(m, mutex_op) {
        Ok(k) => k,
        Err(e) => {
            return Err(e);
        },
    };
    let id = match mutex_get_or_create_id(m, mutex_op) {
        Ok(i) => i,
        Err(e) => {
            return Err(e);
        },
    };
    let active_thread = m.threads.get_active_thread_id();
    let ghost mid = *m;
    proof {
        assert(mutex_rec_wf(mid.sy().mutexes@[id.idx()]));
    }
    match m.threads.sync.mutex_unlock(id) {
        Some((owner_thread, new_count)) => {
            if !thread_id_eq(owner_thread, active_thread) {
                proof {
                    lemma_inv_after_unlock_dec(mid, *m, id);
                }
                return Err(MachineStop::UndefinedBehavior);
            }
            if new_count == 0 {
                // The mutex is now unlocked; transfer it to a waiter if any.
                match m.threads.sync.mutex_dequeue(id) {
                    Some(waiter) => {
                        let ghost mid2 = *m;
                        proof {
                            crate::sync::lemma_count_tid_positive(
                                mid.sy().mutex(id).queue@,
                                waiter,
                                0,
                            );
                            lemma_thread_in_mutex_queue(mid, id, waiter);
                        }
                        m.threads.sync.mutex_lock(id, waiter);
                        m.threads.unblock_thread(waiter);
                        proof {
                            lemma_inv_after_handoff(mid, *m, id, waiter);
                        }
                        Ok(0)
                    },
                    None => {
                        proof {
                            lemma_inv_after_unlock_dec(mid, *m, id);
                        }
                        Ok(0)
                    },
                }
            } else {
                proof {
                    lemma_inv_after_unlock_dec(mid, *m, id);
                }
                Ok(0)
            }
        },
        None => {
            proof {
                crate::machine::lemma_inv_unchanged(mid, *m);
            }
            if kind == PTHREAD_MUTEX_NORMAL {
                Err(MachineStop::UndefinedBehavior)
            } else if kind == PTHREAD_MUTEX_ERRORCHECK || kind == PTHREAD_MUTEX_RECURSIVE {
                Ok(EPERM)
            } else {
                Err(MachineStop::UndefinedBehavior)
            }
        },
    }
}

/// Destroy a mutex: undefined behaviour if it is currently locked;
/// otherwise its guest fields become undefined. An object whose id is still
/// zero is first allocated (and is then trivially unlocked), so destroying
/// a never-used mutex succeeds.
pub fn pthread_mutex_destroy<F>(m: &mut Machine<F>, mutex_op: &mut GuestRegion) -> (r: Result<
    i32,
    MachineStop,
>)
    requires
        old(m).inv(),
        old(m).sy().mutexes@.len() < u32::MAX,
        old(mutex_op).len() >= PTHREAD_MUTEX_T_MIN_SIZE,
        mutex_id_field_ok(*old(m), *old(mutex_op)),
    ensures
        final(m).inv(),
        final(m).same_config(*old(m)),
        final(m).threads.same_but_sync(old(m).threads),
        final(mutex_op).len() == old(mutex_op).len(),
        !old(mutex_op).word_defined(4) ==> r == Err::<i32, MachineStop>(
            MachineStop::UndefinedBehavior,
        ) && final(m).unchanged_from(*old(m)) && *final(mutex_op) == *old(mutex_op),
        old(mutex_op).word_defined(4) ==> {
            &&& (mutex_op_owner(*old(m), *old(mutex_op)) is Some ==> r == Err::<i32, MachineStop>(
                MachineStop::UndefinedBehavior,
            ) && final(m).unchanged_from(*old(m)) && *final(mutex_op) == *old(mutex_op))
            &&& (mutex_op_owner(*old(m), *old(mutex_op)) is None ==> {
                &&& r == Ok::<i32, MachineStop>(0)
                &&& !final(mutex_op).word_defined(4)
                &&& !final(mutex_op).word_defined(spec_mutex_kind_off(*old(m)))
            })
        },
{
    let id = match mutex_get_or_create_id(m, mutex_op) {
        Ok(i) => i,
        Err(e) => {
            return Err(e);
        },
    };
    if m.threads.sync.mutex_is_locked(id) {
        return Err(MachineStop::UndefinedBehavior);
    }
    let ghost after_create = *mutex_op;
    mutex_set_kind_undef(m, mutex_op);
    let ghost after_kind = *mutex_op;
    mutex_op.write_undef_word(4);
    proof {
        crate::guest::lemma_word_preserved(
            after_kind,
            *mutex_op,
            4,
            spec_mutex_kind_off(*old(m)),
        );
    }
    Ok(0)
}

/// Mark the kind field of a `pthread_mutex_t` undefined (used by destroy).
fn mutex_set_kind_undef<F>(m: &Machine<F>, mutex_op: &mut GuestRegion)
    requires
        m.pointer_bytes == 4 || m.pointer_bytes == 8,
        old(mutex_op).len() >= PTHREAD_MUTEX_T_MIN_SIZE,
    ensures
        final(mutex_op).len() == old(mutex_op).len(),
        !final(mutex_op).word_defined(spec_mutex_kind_off(*m)),
        final(mutex_op).same_outside_word(*old(mutex_op), spec_mutex_kind_off(*m)),
{
    let offset: usize = if m.pointer_bytes == 8 {
        16
    } else {
        12
    };
    mutex_op.write_undef_word(offset)
}

/// The machine invariant after one mutex dropped a nesting level (with its
/// queue untouched and nobody woken).
proof fn lemma_inv_after_unlock_dec<F>(pre: Machine<F>, post: Machine<F>, id: MutexId)
    requires
        pre.inv(),
        pre.sy().valid_mutex(id),
        pre.sy().mutex(id).owner is Some,
        pre.sy().mutex(id).lock_count >= 1,
        post.threads.same_but_sync(pre.threads),
        post.pointer_bytes == pre.pointer_bytes,
        post.sy().only_mutex_changed(pre.sy(), id),
        post.sy().mutex(id).lock_count == pre.sy().mutex(id).lock_count - 1,
        post.sy().mutex(id).owner == (if pre.sy().mutex(id).lock_count == 1 {
            Option::<ThreadId>::None
        } else {
            pre.sy().mutex(id).owner
        }),
        post.sy().mutex(id).queue@ == pre.sy().mutex(id).queue@,
    ensures
        post.inv(),
{
    assert forall|t: ThreadId| #[trigger] post.sy().total_waits(t) == pre.sy().total_waits(t) by {
        lemma_total_waits_mutex_changed(pre.sy(), post.sy(), id, t);
    }
    assert forall|i: int|
        0 <= i < post.sy().mutexes@.len() implies mutex_rec_wf(#[trigger] post.sy().mutexes@[i])
        && mutex_rec_bounded(post.sy().mutexes@[i], post.n()) by {
        assert(mutex_rec_wf(pre.sy().mutexes@[i]));
        assert(mutex_rec_bounded(pre.sy().mutexes@[i], pre.n()));
    }
    if pre.sy().mutex(id).lock_count == 1 {
        lemma_condvars_wf_new_owner(pre, post, id);
    } else {
        lemma_condvars_wf_same_owners(pre, post);
    }
    lemma_join_wf_preserved(pre, post);
    lemma_blocked_wf_preserved(pre, post);
}

/// The machine invariant after a fully released mutex is handed to the
/// first queued waiter, which is woken in the same step.
proof fn lemma_inv_after_handoff<F>(pre: Machine<F>, post: Machine<F>, id: MutexId, h: ThreadId)
    requires
        pre.inv(),
        pre.sy().valid_mutex(id),
        pre.sy().mutex(id).queue@.len() > 0,
        h == pre.sy().mutex(id).queue@[0],
        post.pointer_bytes == pre.pointer_bytes,
        post.threads.threads@ == pre.threads.threads@.update(
            h.0 as int,
            (crate::thread::Thread { state: ThreadState::Enabled, ..pre.threads.thread(h) }),
        ),
        post.threads.active_thread == pre.threads.active_thread,
        post.threads.yield_active_thread == pre.threads.yield_active_thread,
        post.threads.timeout_callbacks@ == pre.threads.timeout_callbacks@,
        post.threads.thread_local_alloc_ids@ == pre.threads.thread_local_alloc_ids@,
        post.sy().only_mutex_changed(pre.sy(), id),
        post.sy().mutex(id).owner == Some(h),
        post.sy().mutex(id).lock_count == 1,
        post.sy().mutex(id).queue@ == pre.sy().mutex(id).queue@.remove(0),
    ensures
        post.inv(),
{
    reveal(Machine::blocked_wf);
    crate::sync::lemma_count_tid_positive(pre.sy().mutex(id).queue@, h, 0);
    lemma_thread_in_mutex_queue(pre, id, h);
    assert forall|t: ThreadId|
        t != h implies #[trigger] post.sy().total_waits(t) == pre.sy().total_waits(t) by {
        lemma_count_tid_remove(pre.sy().mutex(id).queue@, 0, t);
        lemma_total_waits_mutex_changed(pre.sy(), post.sy(), id, t);
    }
    assert(post.sy().total_waits(h) == 0) by {
        lemma_count_tid_remove(pre.sy().mutex(id).queue@, 0, h);
        lemma_total_waits_mutex_changed(pre.sy(), post.sy(), id, h);
    }
    assert forall|i: int|
        0 <= i < post.sy().mutexes@.len() implies mutex_rec_wf(#[trigger] post.sy().mutexes@[i])
        && mutex_rec_bounded(post.sy().mutexes@[i], post.n()) by {
        assert(mutex_rec_wf(pre.sy().mutexes@[i]));
        assert(mutex_rec_bounded(pre.sy().mutexes@[i], pre.n()));
        if i == id.idx() {
            lemma_count_tid_remove(pre.sy().mutex(id).queue@, 0, h);
            assert forall|p: int|
                0 <= p < post.sy().mutexes@[i].queue@.len() implies (#[trigger] post.sy().mutexes@[i].queue@[p]).0
                < post.n() by {
                assert(post.sy().mutexes@[i].queue@[p] == pre.sy().mutex(id).queue@[p + 1]);
                assert(pre.sy().mutexes@[id.idx()].queue@[p + 1].0 < pre.n());
            }
        }
    }
    lemma_condvars_wf_new_owner(pre, post, id);
    lemma_join_wf_no_new_joins(pre, post);
    assert forall|t: ThreadId|
        #[trigger] post.sy().total_waits(t) > 0 implies t.0 < post.n() && post.threads.threads@[
        t.0 as int
    ].state == ThreadState::BlockedOnSync && post.sy().total_waits(t) == 1 by {
        assert(t != h);
        assert(pre.sy().total_waits(t) > 0);
        assert(t.0 != h.0);
    }
    assert forall|j: int|
        0 <= j < post.n() && (#[trigger] post.threads.threads@[j]).state
            == ThreadState::BlockedOnSync implies post.sy().total_waits(ThreadId(j as u32)) == 1
        || (post.sy().total_waits(ThreadId(j as u32)) == 0 && post.sleeping(j)) by {
        assert(j != h.0);
        assert(pre.threads.threads@[j].state == ThreadState::BlockedOnSync);
        assert(ThreadId(j as u32) != h);
    }
    assert forall|j: int|
        0 <= j < post.n() && (#[trigger] post.threads.timeout_callbacks@[j]) is Some implies post.threads.threads@[j].state
        == ThreadState::BlockedOnSync by {
        if j == h.0 {
            assert(false);
        }
    }
    assert forall|j: int|
        0 <= j < post.n() implies ((#[trigger] post.threads.timeout_callbacks@[j]) matches Some(
        info,
    ) ==> (info.callback is WakeSleep ==> post.sy().total_waits(ThreadId(j as u32)) == 0)) by {
        match post.threads.timeout_callbacks@[j] {
            Some(info) => {
                if j == h.0 {
                    assert(false);
                } else {
                    assert(ThreadId(j as u32) != h);
                }
            },
            None => {},
        }
    }
    assert forall|j: int|
        0 <= j < post.n() implies ((#[trigger] post.threads.timeout_callbacks@[j]) matches Some(
        info,
    ) ==> (info.callback matches crate::thread::TimeoutCallback::CondTimeout { condvar, mutex }
        ==> {
        &&& post.sy().valid_condvar(condvar)
        &&& exists|p: int|
            0 <= p < post.sy().condvar(condvar).waiters@.len() && post.sy().condvar(
                condvar,
            ).waiters@[p] == (crate::sync::CondvarWaiter { thread: ThreadId(j as u32), mutex })
    })) by {
        match post.threads.timeout_callbacks@[j] {
            Some(info) => match info.callback {
                crate::thread::TimeoutCallback::CondTimeout { condvar, mutex: _ } => {
                    assert(pre.sy().valid_condvar(condvar));
                    assert(post.sy().condvar(condvar) == pre.sy().condvar(condvar));
                },
                _ => {},
            },
            None => {},
        }
    }
}

/// The rwlock record the operation will act on: the stored one, or a fresh
/// one if the id field still holds zero.
pub open spec fn rwlock_op_id<F>(m: Machine<F>, r: GuestRegion) -> RwLockId {
    if r.word_u32(12) != 0 {
        RwLockId(r.word_u32(12))
    } else {
        RwLockId((m.sy().rwlocks@.len() + 1) as u32)
    }
}

/// The writer of the rwlock the operation acts on (a fresh one has none).
pub open spec fn rwlock_op_writer<F>(m: Machine<F>, r: GuestRegion) -> Option<ThreadId> {
    if r.word_u32(12) != 0 {
        m.sy().rwlock(RwLockId(r.word_u32(12))).writer
    } else {
        None
    }
}

/// The readers of the rwlock the operation acts on.
pub open spec fn rwlock_op_readers<F>(m: Machine<F>, r: GuestRegion) -> Seq<ThreadId> {
    if r.word_u32(12) != 0 {
        m.sy().rwlock(RwLockId(r.word_u32(12))).readers@
    } else {
        Seq::empty()
    }
}

/// The writer queue of the rwlock the operation acts on.
pub open spec fn rwlock_op_wq<F>(m: Machine<F>, r: GuestRegion) -> Seq<ThreadId> {
    if r.word_u32(12) != 0 {
        m.sy().rwlock(RwLockId(r.word_u32(12))).writer_queue@
    } else {
        Seq::empty()
    }
}

/// The reader queue of the rwlock the operation acts on.
pub open spec fn rwlock_op_rq<F>(m: Machine<F>, r: GuestRegion) -> Seq<ThreadId> {
    if r.word_u32(12) != 0 {
        m.sy().rwlock(RwLockId(r.word_u32(12))).reader_queue@
    } else {
        Seq::empty()
    }
}

/// The rwlock the operation acts on is locked in some mode.
pub open spec fn rwlock_op_locked<F>(m: Machine<F>, r: GuestRegion) -> bool {
    rwlock_op_writer(m, r) is Some || rwlock_op_readers(m, r).len() > 0
}

/// The machine invariant after a change to one rwlock record that touches
/// neither of its wait queues (granting or dropping read or write access).
proof fn lemma_inv_after_rwlock_quiet<F>(pre: Machine<F>, post: Machine<F>, id: RwLockId)
    requires
        pre.inv(),
        pre.sy().valid_rwlock(id),
        post.threads.same_but_sync(pre.threads),
        post.pointer_bytes == pre.pointer_bytes,
        post.sy().only_rwlock_changed(pre.sy(), id),
        post.sy().rwlock(id).writer_queue@ == pre.sy().rwlock(id).writer_queue@,
        post.sy().rwlock(id).reader_queue@ == pre.sy().rwlock(id).reader_queue@,
        crate::machine::rwlock_rec_wf(post.sy().rwlock(id)),
    ensures
        post.inv(),
{
    assert forall|t: ThreadId| #[trigger] post.sy().total_waits(t) == pre.sy().total_waits(t) by {
        crate::sync::lemma_total_waits_rwlock_changed(pre.sy(), post.sy(), id, t);
    }
    assert forall|i: int|
        0 <= i < post.sy().rwlocks@.len() implies rwlock_rec_wf(#[trigger] post.sy().rwlocks@[i])
        && rwlock_rec_bounded(post.sy().rwlocks@[i], post.n()) by {
        assert(rwlock_rec_wf(pre.sy().rwlocks@[i]));
        assert(rwlock_rec_bounded(pre.sy().rwlocks@[i], pre.n()));
    }
    lemma_condvars_wf_same_owners(pre, post);
    lemma_join_wf_preserved(pre, post);
    lemma_blocked_wf_preserved(pre, post);
}

/// The machine invariant after the active (enabled) thread blocks on an
/// rwlock and enters its writer queue (`to_writer_queue`) or reader queue.
proof fn lemma_inv_after_block_on_rwlock<F>(
    pre: Machine<F>,
    post: Machine<F>,
    id: RwLockId,
    a: ThreadId,
    to_writer_queue: bool,
)
    requires
        pre.inv(),
        a == pre.threads.active_thread,
        pre.threads.thread(a).state == ThreadState::Enabled,
        pre.sy().valid_rwlock(id),
        post.pointer_bytes == pre.pointer_bytes,
        post.threads.threads@ == pre.threads.threads@.update(
            a.0 as int,
            (crate::thread::Thread {
                state: ThreadState::BlockedOnSync,
                ..pre.threads.thread(a)
            }),
        ),
        post.threads.active_thread == pre.threads.active_thread,
        post.threads.yield_active_thread == pre.threads.yield_active_thread,
        post.threads.timeout_callbacks@ == pre.threads.timeout_callbacks@,
        post.threads.thread_local_alloc_ids@ == pre.threads.thread_local_alloc_ids@,
        post.sy().only_rwlock_changed(pre.sy(), id),
        post.sy().rwlock(id).writer == pre.sy().rwlock(id).writer,
        post.sy().rwlock(id).readers@ == pre.sy().rwlock(id).readers@,
        to_writer_queue ==> post.sy().rwlock(id).writer_queue@ == pre.sy().rwlock(
            id,
        ).writer_queue@.push(a) && post.sy().rwlock(id).reader_queue@ == pre.sy().rwlock(
            id,
        ).reader_queue@,
        !to_writer_queue ==> post.sy().rwlock(id).reader_queue@ == pre.sy().rwlock(
            id,
        ).reader_queue@.push(a) && post.sy().rwlock(id).writer_queue@ == pre.sy().rwlock(
            id,
        ).writer_queue@,
    ensures
        post.inv(),
{
    lemma_not_blocked_no_waits(pre, a);
    assert forall|t: ThreadId|
        t != a implies #[trigger] post.sy().total_waits(t) == pre.sy().total_waits(t) by {
        lemma_count_tid_push(pre.sy().rwlock(id).writer_queue@, a, t);
        lemma_count_tid_push(pre.sy().rwlock(id).reader_queue@, a, t);
        crate::sync::lemma_total_waits_rwlock_changed(pre.sy(), post.sy(), id, t);
    }
    assert(post.sy().total_waits(a) == 1) by {
        lemma_count_tid_push(pre.sy().rwlock(id).writer_queue@, a, a);
        lemma_count_tid_push(pre.sy().rwlock(id).reader_queue@, a, a);
        crate::sync::lemma_total_waits_rwlock_changed(pre.sy(), post.sy(), id, a);
    }
    assert forall|i: int|
        0 <= i < post.sy().rwlocks@.len() implies rwlock_rec_wf(#[trigger] post.sy().rwlocks@[i])
        && rwlock_rec_bounded(post.sy().rwlocks@[i], post.n()) by {
        assert(rwlock_rec_wf(pre.sy().rwlocks@[i]));
        assert(rwlock_rec_bounded(pre.sy().rwlocks@[i], pre.n()));
        if i == id.idx() {
            assert forall|p: int|
                0 <= p < post.sy().rwlocks@[i].writer_queue@.len() implies (#[trigger] post.sy().rwlocks@[i].writer_queue@[p]).0
                < post.n() by {
                if p < pre.sy().rwlock(id).writer_queue@.len() {
                    assert(pre.sy().rwlocks@[i].writer_queue@[p].0 < pre.n());
                }
            }
            assert forall|p: int|
                0 <= p < post.sy().rwlocks@[i].reader_queue@.len() implies (#[trigger] post.sy().rwlocks@[i].reader_queue@[p]).0
                < post.n() by {
                if p < pre.sy().rwlock(id).reader_queue@.len() {
                    assert(pre.sy().rwlocks@[i].reader_queue@[p].0 < pre.n());
                }
            }
        }
    }
    lemma_condvars_wf_same_owners(pre, post);
    lemma_join_wf_no_new_joins(pre, post);
    crate::machine::lemma_blocked_wf_after_block(pre, post, a);
}

/// The machine invariant after a released rwlock is handed to the first
/// queued writer, which is woken in the same step.
proof fn lemma_inv_after_wake_writer<F>(pre: Machine<F>, post: Machine<F>, id: RwLockId, h: ThreadId)
    requires
        pre.inv(),
        pre.sy().valid_rwlock(id),
        pre.sy().rwlock(id).writer is None,
        pre.sy().rwlock(id).readers@.len() == 0,
        pre.sy().rwlock(id).writer_queue@.len() > 0,
        h == pre.sy().rwlock(id).writer_queue@[0],
        post.pointer_bytes == pre.pointer_bytes,
        post.threads.threads@ == pre.threads.threads@.update(
            h.0 as int,
            (crate::thread::Thread { state: ThreadState::Enabled, ..pre.threads.thread(h) }),
        ),
        post.threads.active_thread == pre.threads.active_thread,
        post.threads.yield_active_thread == pre.threads.yield_active_thread,
        post.threads.timeout_callbacks@ == pre.threads.timeout_callbacks@,
        post.threads.thread_local_alloc_ids@ == pre.threads.thread_local_alloc_ids@,
        post.sy().only_rwlock_changed(pre.sy(), id),
        post.sy().rwlock(id).writer == Some(h),
        post.sy().rwlock(id).readers@ == pre.sy().rwlock(id).readers@,
        post.sy().rwlock(id).writer_queue@ == pre.sy().rwlock(id).writer_queue@.remove(0),
        post.sy().rwlock(id).reader_queue@ == pre.sy().rwlock(id).reader_queue@,
    ensures
        post.inv(),
{
    crate::sync::lemma_count_tid_positive(pre.sy().rwlock(id).writer_queue@, h, 0);
    lemma_thread_in_rwlock_queue(pre, id, h);
    assert forall|t: ThreadId|
        t != h implies #[trigger] post.sy().total_waits(t) == pre.sy().total_waits(t) by {
        lemma_count_tid_remove(pre.sy().rwlock(id).writer_queue@, 0, t);
        crate::sync::lemma_total_waits_rwlock_changed(pre.sy(), post.sy(), id, t);
    }
    assert(post.sy().total_waits(h) == 0) by {
        lemma_count_tid_remove(pre.sy().rwlock(id).writer_queue@, 0, h);
        crate::sync::lemma_total_waits_rwlock_changed(pre.sy(), post.sy(), id, h);
    }
    assert forall|i: int|
        0 <= i < post.sy().rwlocks@.len() implies rwlock_rec_wf(#[trigger] post.sy().rwlocks@[i])
        && rwlock_rec_bounded(post.sy().rwlocks@[i], post.n()) by {
        assert(rwlock_rec_wf(pre.sy().rwlocks@[i]));
        assert(rwlock_rec_bounded(pre.sy().rwlocks@[i], pre.n()));
        if i == id.idx() {
            assert forall|p: int|
                0 <= p < post.sy().rwlocks@[i].writer_queue@.len() implies (#[trigger] post.sy().rwlocks@[i].writer_queue@[p]).0
                < post.n() by {
                assert(post.sy().rwlocks@[i].writer_queue@[p] == pre.sy().rwlock(
                    id,
                ).writer_queue@[p + 1]);
                assert(pre.sy().rwlocks@[id.idx()].writer_queue@[p + 1].0 < pre.n());
            }
        }
    }
    lemma_condvars_wf_same_owners(pre, post);
    lemma_join_wf_no_new_joins(pre, post);
    crate::machine::lemma_blocked_wf_after_wake(pre, post, h);
}

/// The machine invariant after the first queued reader of an
/// unlocked-or-read-locked rwlock is granted read access and woken.
proof fn lemma_inv_after_wake_reader<F>(pre: Machine<F>, post: Machine<F>, id: RwLockId, h: ThreadId)
    requires
        pre.inv(),
        pre.sy().valid_rwlock(id),
        pre.sy().rwlock(id).writer is None,
        pre.sy().rwlock(id).reader_queue@.len() > 0,
        h == pre.sy().rwlock(id).reader_queue@[0],
        post.pointer_bytes == pre.pointer_bytes,
        post.threads.threads@ == pre.threads.threads@.update(
            h.0 as int,
            (crate::thread::Thread { state: ThreadState::Enabled, ..pre.threads.thread(h) }),
        ),
        post.threads.active_thread == pre.threads.active_thread,
        post.threads.yield_active_thread == pre.threads.yield_active_thread,
        post.threads.timeout_callbacks@ == pre.threads.timeout_callbacks@,
        post.threads.thread_local_alloc_ids@ == pre.threads.thread_local_alloc_ids@,
        post.sy().only_rwlock_changed(pre.sy(), id),
        post.sy().rwlock(id).writer is None,
        post.sy().rwlock(id).readers@ == pre.sy().rwlock(id).readers@.push(h),
        post.sy().rwlock(id).writer_queue@ == pre.sy().rwlock(id).writer_queue@,
        post.sy().rwlock(id).reader_queue@ == pre.sy().rwlock(id).reader_queue@.remove(0),
    ensures
        post.inv(),
{
    crate::sync::lemma_count_tid_positive(pre.sy().rwlock(id).reader_queue@, h, 0);
    lemma_thread_in_rwlock_queue(pre, id, h);
    assert forall|t: ThreadId|
        t != h implies #[trigger] post.sy().total_waits(t) == pre.sy().total_waits(t) by {
        lemma_count_tid_remove(pre.sy().rwlock(id).reader_queue@, 0, t);
        crate::sync::lemma_total_waits_rwlock_changed(pre.sy(), post.sy(), id, t);
    }
    assert(post.sy().total_waits(h) == 0) by {
        lemma_count_tid_remove(pre.sy().rwlock(id).reader_queue@, 0, h);
        crate::sync::lemma_total_waits_rwlock_changed(pre.sy(), post.sy(), id, h);
    }
    assert forall|i: int|
        0 <= i < post.sy().rwlocks@.len() implies rwlock_rec_wf(#[trigger] post.sy().rwlocks@[i])
        && rwlock_rec_bounded(post.sy().rwlocks@[i], post.n()) by {
        assert(rwlock_rec_wf(pre.sy().rwlocks@[i]));
        assert(rwlock_rec_bounded(pre.sy().rwlocks@[i], pre.n()));
        if i == id.idx() {
            assert forall|p: int|
                0 <= p < post.sy().rwlocks@[i].reader_queue@.len() implies (#[trigger] post.sy().rwlocks@[i].reader_queue@[p]).0
                < post.n() by {
                assert(post.sy().rwlocks@[i].reader_queue@[p] == pre.sy().rwlock(
                    id,
                ).reader_queue@[p + 1]);
                assert(pre.sy().rwlocks@[id.idx()].reader_queue@[p + 1].0 < pre.n());
            }
        }
    }
    lemma_condvars_wf_same_owners(pre, post);
    lemma_join_wf_no_new_joins(pre, post);
    crate::machine::lemma_blocked_wf_after_wake(pre, post, h);
}

/// Take a read lock: block in the reader queue while a writer holds the
/// lock, else become one more reader.
pub fn pthread_rwlock_rdlock<F>(m: &mut Machine<F>, rwlock_op: &mut GuestRegion) -> (r: Result<
    i32,
    MachineStop,
>)
    requires
        old(m).inv(),
        old(m).threads.thread(old(m).threads.active_thread).state == ThreadState::Enabled,
        old(m).sy().rwlocks@.len() < u32::MAX,
        old(rwlock_op).len() >= PTHREAD_RWLOCK_T_MIN_SIZE,
        rwlock_id_field_ok(*old(m), *old(rwlock_op)),
    ensures
        final(m).inv(),
        final(m).same_config(*old(m)),
        final(rwlock_op).len() == old(rwlock_op).len(),
        !old(rwlock_op).word_defined(12) ==> r == Err::<i32, MachineStop>(
            MachineStop::UndefinedBehavior,
        ) && final(m).unchanged_from(*old(m)) && *final(rwlock_op) == *old(rwlock_op),
        old(rwlock_op).word_defined(12) && old(rwlock_op).word_u32(12) != 0 ==> *final(rwlock_op)
            == *old(rwlock_op),
        old(rwlock_op).word_defined(12) && old(rwlock_op).word_u32(12) == 0 ==> {
            &&& final(rwlock_op).word_defined(12)
            &&& final(rwlock_op).word_u32(12) == rwlock_op_id(*old(m), *old(rwlock_op)).0
            &&& final(rwlock_op).same_outside_word(*old(rwlock_op), 12)
        },
        old(rwlock_op).word_defined(12) ==> {
            let id = rwlock_op_id(*old(m), *old(rwlock_op));
            let a = old(m).threads.active_thread;
            &&& r == Ok::<i32, MachineStop>(0)
            &&& (rwlock_op_writer(*old(m), *old(rwlock_op)) is Some ==> {
                &&& final(m).sy().rwlock(id).reader_queue@ == rwlock_op_rq(
                    *old(m),
                    *old(rwlock_op),
                ).push(a)
                &&& final(m).sy().rwlock(id).readers@ == rwlock_op_readers(
                    *old(m),
                    *old(rwlock_op),
                )
                &&& final(m).sy().rwlock(id).writer == rwlock_op_writer(*old(m), *old(rwlock_op))
                &&& final(m).threads.threads@ == old(m).threads.threads@.update(
                    a.0 as int,
                    (crate::thread::Thread {
                        state: ThreadState::BlockedOnSync,
                        ..old(m).threads.thread(a)
                    }),
                )
                &&& final(m).threads.thread(a).state == ThreadState::BlockedOnSync
                &&& final(m).threads.timeout_callbacks@ == old(m).threads.timeout_callbacks@
                &&& final(m).threads.active_thread == old(m).threads.active_thread
                &&& final(m).threads.yield_active_thread == old(m).threads.yield_active_thread
                &&& final(m).threads.thread_local_alloc_ids@ == old(
                    m,
                ).threads.thread_local_alloc_ids@
            })
            &&& (rwlock_op_writer(*old(m), *old(rwlock_op)) is None ==> {
                &&& final(m).sy().rwlock(id).readers@ == rwlock_op_readers(
                    *old(m),
                    *old(rwlock_op),
                ).push(a)
                &&& final(m).sy().rwlock(id).writer is None
                &&& final(m).sy().rwlock(id).reader_queue@ == rwlock_op_rq(
                    *old(m),
                    *old(rwlock_op),
                )
                &&& final(m).threads.same_but_sync(old(m).threads)
            })
            &&& final(m).sy().rwlock(id).writer_queue@ == rwlock_op_wq(*old(m), *old(rwlock_op))
            &&& final(m).sy().valid_rwlock(id)
            &&& final(m).sy().mutexes@ == old(m).sy().mutexes@
            &&& final(m).sy().condvars@ == old(m).sy().condvars@
            &&& final(m).sy().rwlocks@.len() == old(m).sy().rwlocks@.len() + (
            if old(rwlock_op).word_u32(12) == 0 {
                1int
            } else {
                0int
            })
            &&& forall|j: int|
                0 <= j < old(m).sy().rwlocks@.len() && j != id.idx()
                    ==> #[trigger] final(m).sy().rwlocks@[j] == old(m).sy().rwlocks@[j]
        },
{
    let id = match rwlock_get_or_create_id(m, rwlock_op) {
        Ok(i) => i,
        Err(e) => {
            return Err(e);
        },
    };
    let active_thread = m.threads.get_active_thread_id();
    let ghost mid = *m;
    if m.threads.sync.rwlock_is_write_locked(id) {
        m.threads.sync.rwlock_enqueue_reader(id, active_thread);
        m.threads.block_thread(active_thread);
        proof {
            lemma_inv_after_block_on_rwlock(mid, *m, id, active_thread, false);
        }
        Ok(0)
    } else {
        m.threads.sync.rwlock_reader_add(id, active_thread);
        proof {
            lemma_inv_after_rwlock_quiet(mid, *m, id);
        }
        Ok(0)
    }
}

/// Try to take a read lock: EBUSY while a writer holds the lock.
pub fn pthread_rwlock_tryrdlock<F>(m: &mut Machine<F>, rwlock_op: &mut GuestRegion) -> (r: Result<
    i32,
    MachineStop,
>)
    requires
        old(m).inv(),
        old(m).threads.thread(old(m).threads.active_thread).state == ThreadState::Enabled,
        old(m).sy().rwlocks@.len() < u32::MAX,
        old(rwlock_op).len() >= PTHREAD_RWLOCK_T_MIN_SIZE,
        rwlock_id_field_ok(*old(m), *old(rwlock_op)),
    ensures
        final(m).inv(),
        final(m).same_config(*old(m)),
        final(m).threads.same_but_sync(old(m).threads),
        final(rwlock_op).len() == old(rwlock_op).len(),
        !old(rwlock_op).word_defined(12) ==> r == Err::<i32, MachineStop>(
            MachineStop::UndefinedBehavior,
        ) && final(m).unchanged_from(*old(m)) && *final(rwlock_op) == *old(rwlock_op),
        old(rwlock_op).word_defined(12) && old(rwlock_op).word_u32(12) != 0 ==> *final(rwlock_op)
            == *old(rwlock_op),
        old(rwlock_op).word_defined(12) && old(rwlock_op).word_u32(12) == 0 ==> {
            &&& final(rwlock_op).word_defined(12)
            &&& final(rwlock_op).word_u32(12) == rwlock_op_id(*old(m), *old(rwlock_op)).0
            &&& final(rwlock_op).same_outside_word(*old(rwlock_op), 12)
        },
        old(rwlock_op).word_defined(12) ==> {
            let id = rwlock_op_id(*old(m), *old(rwlock_op));
            let a = old(m).threads.active_thread;
            &&& final(m).sy().mutexes@ == old(m).sy().mutexes@
            &&& final(m).sy().condvars@ == old(m).sy().condvars@
            &&& final(m).sy().rwlocks@.len() == old(m).sy().rwlocks@.len() + (
            if old(rwlock_op).word_u32(12) == 0 {
                1int
            } else {
                0int
            })
            &&& forall|j: int|
                0 <= j < old(m).sy().rwlocks@.len() && j != id.idx()
                    ==> #[trigger] final(m).sy().rwlocks@[j] == old(m).sy().rwlocks@[j]
            &&& (old(rwlock_op).word_u32(12) != 0 && rwlock_op_writer(*old(m), *old(rwlock_op))
                is Some ==> r == Ok::<i32, MachineStop>(EBUSY) && final(m).unchanged_from(
                *old(m),
            ))
            &&& (rwlock_op_writer(*old(m), *old(rwlock_op)) is None ==> {
                &&& r == Ok::<i32, MachineStop>(0)
                &&& final(m).sy().rwlock(id).readers@ == rwlock_op_readers(
                    *old(m),
                    *old(rwlock_op),
                ).push(a)
                &&& final(m).sy().rwlock(id).writer is None
                &&& final(m).sy().rwlock(id).writer_queue@ == rwlock_op_wq(
                    *old(m),
                    *old(rwlock_op),
                )
                &&& final(m).sy().rwlock(id).reader_queue@ == rwlock_op_rq(
                    *old(m),
                    *old(rwlock_op),
                )
            })
        },
{
    let id = match rwlock_get_or_create_id(m, rwlock_op) {
        Ok(i) => i,
        Err(e) => {
            return Err(e);
        },
    };
    let active_thread = m.threads.get_active_thread_id();
    let ghost mid = *m;
    if m.threads.sync.rwlock_is_write_locked(id) {
        Ok(EBUSY)
    } else {
        m.threads.sync.rwlock_reader_add(id, active_thread);
        proof {
            lemma_inv_after_rwlock_quiet(mid, *m, id);
        }
        Ok(0)
    }
}

/// Take the write lock: block in the writer queue while any reader or
/// writer holds the lock, else become the writer.
pub fn pthread_rwlock_wrlock<F>(m: &mut Machine<F>, rwlock_op: &mut GuestRegion) -> (r: Result<
    i32,
    MachineStop,
>)
    requires
        old(m).inv(),
        old(m).threads.thread(old(m).threads.active_thread).state == ThreadState::Enabled,
        old(m).sy().rwlocks@.len() < u32::MAX,
        old(rwlock_op).len() >= PTHREAD_RWLOCK_T_MIN_SIZE,
        rwlock_id_field_ok(*old(m), *old(rwlock_op)),
    ensures
        final(m).inv(),
        final(m).same_config(*old(m)),
        final(rwlock_op).len() == old(rwlock_op).len(),
        !old(rwlock_op).word_defined(12) ==> r == Err::<i32, MachineStop>(
            MachineStop::UndefinedBehavior,
        ) && final(m).unchanged_from(*old(m)) && *final(rwlock_op) == *old(rwlock_op),
        old(rwlock_op).word_defined(12) && old(rwlock_op).word_u32(12) != 0 ==> *final(rwlock_op)
            == *old(rwlock_op),
        old(rwlock_op).word_defined(12) && old(rwlock_op).word_u32(12) == 0 ==> {
            &&& final(rwlock_op).word_defined(12)
            &&& final(rwlock_op).word_u32(12) == rwlock_op_id(*old(m), *old(rwlock_op)).0
            &&& final(rwlock_op).same_outside_word(*old(rwlock_op), 12)
        },
        old(rwlock_op).word_defined(12) ==> {
            let id = rwlock_op_id(*old(m), *old(rwlock_op));
            let a = old(m).threads.active_thread;
            &&& r == Ok::<i32, MachineStop>(0)
            &&& (rwlock_op_locked(*old(m), *old(rwlock_op)) ==> {
                &&& final(m).sy().rwlock(id).writer_queue@ == rwlock_op_wq(
                    *old(m),
                    *old(rwlock_op),
                ).push(a)
                &&& final(m).sy().rwlock(id).writer == rwlock_op_writer(*old(m), *old(rwlock_op))
                &&& final(m).sy().rwlock(id).readers@ == rwlock_op_readers(
                    *old(m),
                    *old(rwlock_op),
                )
                &&& final(m).sy().rwlock(id).reader_queue@ == rwlock_op_rq(
                    *old(m),
                    *old(rwlock_op),
                )
                &&& final(m).threads.threads@ == old(m).threads.threads@.update(
                    a.0 as int,
                    (crate::thread::Thread {
                        state: ThreadState::BlockedOnSync,
                        ..old(m).threads.thread(a)
                    }),
                )
                &&& final(m).threads.thread(a).state == ThreadState::BlockedOnSync
                &&& final(m).threads.timeout_callbacks@ == old(m).threads.timeout_callbacks@
                &&& final(m).threads.active_thread == old(m).threads.active_thread
                &&& final(m).threads.yield_active_thread == old(m).threads.yield_active_thread
                &&& final(m).threads.thread_local_alloc_ids@ == old(
                    m,
                ).threads.thread_local_alloc_ids@
            })
            &&& (!rwlock_op_locked(*old(m), *old(rwlock_op)) ==> {
                &&& final(m).sy().rwlock(id).writer == Some(a)
                &&& final(m).sy().rwlock(id).readers@.len() == 0
                &&& final(m).sy().rwlock(id).writer_queue@ == rwlock_op_wq(
                    *old(m),
                    *old(rwlock_op),
                )
                &&& final(m).sy().rwlock(id).reader_queue@ == rwlock_op_rq(
                    *old(m),
                    *old(rwlock_op),
                )
                &&& final(m).threads.same_but_sync(old(m).threads)
            })
            &&& final(m).sy().valid_rwlock(id)
            &&& final(m).sy().mutexes@ == old(m).sy().mutexes@
            &&& final(m).sy().condvars@ == old(m).sy().condvars@
            &&& final(m).sy().rwlocks@.len() == old(m).sy().rwlocks@.len() + (
            if old(rwlock_op).word_u32(12) == 0 {
                1int
            } else {
                0int
            })
            &&& forall|j: int|
                0 <= j < old(m).sy().rwlocks@.len() && j != id.idx()
                    ==> #[trigger] final(m).sy().rwlocks@[j] == old(m).sy().rwlocks@[j]
        },
{
    let id = match rwlock_get_or_create_id(m, rwlock_op) {
        Ok(i) => i,
        Err(e) => {
            return Err(e);
        },
    };
    let active_thread = m.threads.get_active_thread_id();
    let ghost mid = *m;
    if m.threads.sync.rwlock_is_locked(id) {
        m.threads.block_thread(active_thread);
        m.threads.sync.rwlock_enqueue_writer(id, active_thread);
        proof {
            lemma_inv_after_block_on_rwlock(mid, *m, id, active_thread, true);
        }
        Ok(0)
    } else {
        m.threads.sync.rwlock_writer_set(id, active_thread);
        proof {
            lemma_inv_after_rwlock_quiet(mid, *m, id);
        }
        Ok(0)
    }
}

/// Try to take the write lock: EBUSY while anybody holds the lock.
pub fn pthread_rwlock_trywrlock<F>(m: &mut Machine<F>, rwlock_op: &mut GuestRegion) -> (r: Result<
    i32,
    MachineStop,
>)
    requires
        old(m).inv(),
        old(m).threads.thread(old(m).threads.active_thread).state == ThreadState::Enabled,
        old(m).sy().rwlocks@.len() < u32::MAX,
        old(rwlock_op).len() >= PTHREAD_RWLOCK_T_MIN_SIZE,
        rwlock_id_field_ok(*old(m), *old(rwlock_op)),
    ensures
        final(m).inv(),
        final(m).same_config(*old(m)),
        final(m).threads.same_but_sync(old(m).threads),
        final(rwlock_op).len() == old(rwlock_op).len(),
        !old(rwlock_op).word_defined(12) ==> r == Err::<i32, MachineStop>(
            MachineStop::UndefinedBehavior,
        ) && final(m).unchanged_from(*old(m)) && *final(rwlock_op) == *old(rwlock_op),
        old(rwlock_op).word_defined(12) && old(rwlock_op).word_u32(12) != 0 ==> *final(rwlock_op)
            == *old(rwlock_op),
        old(rwlock_op).word_defined(12) && old(rwlock_op).word_u32(12) == 0 ==> {
            &&& final(rwlock_op).word_defined(12)
            &&& final(rwlock_op).word_u32(12) == rwlock_op_id(*old(m), *old(rwlock_op)).0
            &&& final(rwlock_op).same_outside_word(*old(rwlock_op), 12)
        },
        old(rwlock_op).word_defined(12) ==> {
            let id = rwlock_op_id(*old(m), *old(rwlock_op));
            let a = old(m).threads.active_thread;
            &&& final(m).sy().mutexes@ == old(m).sy().mutexes@
            &&& final(m).sy().condvars@ == old(m).sy().condvars@
            &&& final(m).sy().rwlocks@.len() == old(m).sy().rwlocks@.len() + (
            if old(rwlock_op).word_u32(12) == 0 {
                1int
            } else {
                0int
            })
            &&& forall|j: int|
                0 <= j < old(m).sy().rwlocks@.len() && j != id.idx()
                    ==> #[trigger] final(m).sy().rwlocks@[j] == old(m).sy().rwlocks@[j]
            &&& (old(rwlock_op).word_u32(12) != 0 && rwlock_op_locked(*old(m), *old(rwlock_op))
                ==> r == Ok::<i32, MachineStop>(EBUSY) && final(m).unchanged_from(*old(m)))
            &&& (!rwlock_op_locked(*old(m), *old(rwlock_op)) ==> {
                &&& r == Ok::<i32, MachineStop>(0)
                &&& final(m).sy().rwlock(id).writer == Some(a)
                &&& final(m).sy().rwlock(id).readers@.len() == 0
                &&& final(m).sy().rwlock(id).writer_queue@ == rwlock_op_wq(
                    *old(m),
                    *old(rwlock_op),
                )
                &&& final(m).sy().rwlock(id).reader_queue@ == rwlock_op_rq(
                    *old(m),
                    *old(rwlock_op),
                )
            })
        },
{
    let id = match rwlock_get_or_create_id(m, rwlock_op) {
        Ok(i) => i,
        Err(e) => {
            return Err(e);
        },
    };
    let active_thread = m.threads.get_active_thread_id();
    let ghost mid = *m;
    if m.threads.sync.rwlock_is_locked(id) {
        Ok(EBUSY)
    } else {
        m.threads.sync.rwlock_writer_set(id, active_thread);
        proof {
            lemma_inv_after_rwlock_quiet(mid, *m, id);
        }
        Ok(0)
    }
}

/// Release the active thread's hold on an rwlock. A reader drops one
/// nesting level; when the last reader leaves, the first queued writer (if
/// any) takes over and is woken. The writer releasing prefers queued
/// writers; with none queued, the whole reader queue is admitted and woken.
/// Unlocking an rwlock the active thread does not hold is undefined
/// behaviour.
pub fn pthread_rwlock_unlock<F>(m: &mut Machine<F>, rwlock_op: &mut GuestRegion) -> (r: Result<
    i32,
    MachineStop,
>)
    requires
        old(m).inv(),
        old(m).threads.thread(old(m).threads.active_thread).state == ThreadState::Enabled,
        old(m).sy().rwlocks@.len() < u32::MAX,
        old(rwlock_op).len() >= PTHREAD_RWLOCK_T_MIN_SIZE,
        rwlock_id_field_ok(*old(m), *old(rwlock_op)),
    ensures
        final(m).inv(),
        final(m).same_config(*old(m)),
        final(rwlock_op).len() == old(rwlock_op).len(),
        !old(rwlock_op).word_defined(12) ==> r == Err::<i32, MachineStop>(
            MachineStop::UndefinedBehavior,
        ) && final(m).unchanged_from(*old(m)) && *final(rwlock_op) == *old(rwlock_op),
        old(rwlock_op).word_defined(12) && old(rwlock_op).word_u32(12) != 0 ==> *final(rwlock_op)
            == *old(rwlock_op),
        old(rwlock_op).word_defined(12) && old(rwlock_op).word_u32(12) == 0 ==> {
            &&& final(rwlock_op).word_defined(12)
            &&& final(rwlock_op).word_u32(12) == rwlock_op_id(*old(m), *old(rwlock_op)).0
            &&& final(rwlock_op).same_outside_word(*old(rwlock_op), 12)
        },
        old(rwlock_op).word_defined(12) ==> {
            let id = rwlock_op_id(*old(m), *old(rwlock_op));
            let a = old(m).threads.active_thread;
            &&& final(m).threads.timeout_callbacks@ == old(m).threads.timeout_callbacks@
            &&& final(m).threads.active_thread == old(m).threads.active_thread
            &&& final(m).threads.yield_active_thread == old(m).threads.yield_active_thread
            &&& final(m).threads.thread_local_alloc_ids@ == old(m).threads.thread_local_alloc_ids@
            &&& final(m).threads.threads@.len() == old(m).threads.threads@.len()
            &&& final(m).sy().mutexes@ == old(m).sy().mutexes@
            &&& final(m).sy().condvars@ == old(m).sy().condvars@
            &&& final(m).sy().rwlocks@.len() == old(m).sy().rwlocks@.len() + (
            if old(rwlock_op).word_u32(12) == 0 {
                1int
            } else {
                0int
            })
            &&& forall|j: int|
                0 <= j < old(m).sy().rwlocks@.len() && j != id.idx()
                    ==> #[trigger] final(m).sy().rwlocks@[j] == old(m).sy().rwlocks@[j]
            &&& (rwlock_op_readers(*old(m), *old(rwlock_op)).contains(a) ==> {
                &&& r == Ok::<i32, MachineStop>(0)
                &&& final(m).sy().rwlock(id).readers@.len() == rwlock_op_readers(
                    *old(m),
                    *old(rwlock_op),
                ).len() - 1
                &&& (final(m).sy().rwlock(id).readers@.len() == 0 && rwlock_op_wq(
                    *old(m),
                    *old(rwlock_op),
                ).len() > 0 ==> {
                    &&& final(m).sy().rwlock(id).writer == Some(
                        rwlock_op_wq(*old(m), *old(rwlock_op))[0],
                    )
                    &&& final(m).sy().rwlock(id).writer_queue@ == rwlock_op_wq(
                        *old(m),
                        *old(rwlock_op),
                    ).remove(0)
                    &&& final(m).threads.threads@ == old(m).threads.threads@.update(
                        rwlock_op_wq(*old(m), *old(rwlock_op))[0].0 as int,
                        (crate::thread::Thread {
                            state: ThreadState::Enabled,
                            ..old(m).threads.thread(rwlock_op_wq(*old(m), *old(rwlock_op))[0])
                        }),
                    )
                    &&& final(m).threads.thread(
                        rwlock_op_wq(*old(m), *old(rwlock_op))[0],
                    ).state == ThreadState::Enabled
                })
                &&& (!(final(m).sy().rwlock(id).readers@.len() == 0 && rwlock_op_wq(
                    *old(m),
                    *old(rwlock_op),
                ).len() > 0) ==> final(m).sy().rwlock(id).writer is None && final(m).sy().rwlock(id).writer_queue@ == rwlock_op_wq(*old(m), *old(rwlock_op))
                    && final(m).threads.same_but_sync(old(m).threads))
            })
            &&& (!rwlock_op_readers(*old(m), *old(rwlock_op)).contains(a) ==> {
                &&& (rwlock_op_writer(*old(m), *old(rwlock_op)) == Some(a) ==> {
                    &&& r == Ok::<i32, MachineStop>(0)
                    &&& (rwlock_op_wq(*old(m), *old(rwlock_op)).len() > 0 ==> {
                        &&& final(m).sy().rwlock(id).writer == Some(
                            rwlock_op_wq(*old(m), *old(rwlock_op))[0],
                        )
                        &&& final(m).sy().rwlock(id).writer_queue@ == rwlock_op_wq(
                            *old(m),
                            *old(rwlock_op),
                        ).remove(0)
                        &&& final(m).sy().rwlock(id).readers@ == rwlock_op_readers(
                            *old(m),
                            *old(rwlock_op),
                        )
                        &&& final(m).sy().rwlock(id).reader_queue@ == rwlock_op_rq(
                            *old(m),
                            *old(rwlock_op),
                        )
                        &&& final(m).threads.threads@ == old(m).threads.threads@.update(
                            rwlock_op_wq(*old(m), *old(rwlock_op))[0].0 as int,
                            (crate::thread::Thread {
                                state: ThreadState::Enabled,
                                ..old(m).threads.thread(rwlock_op_wq(*old(m), *old(rwlock_op))[0])
                            }),
                        )
                        &&& final(m).threads.thread(
                            rwlock_op_wq(*old(m), *old(rwlock_op))[0],
                        ).state == ThreadState::Enabled
                    })
                    &&& (rwlock_op_wq(*old(m), *old(rwlock_op)).len() == 0 ==> {
                        &&& final(m).sy().rwlock(id).writer is None
                        &&& final(m).sy().rwlock(id).readers@ == rwlock_op_rq(
                            *old(m),
                            *old(rwlock_op),
                        )
                        &&& final(m).sy().rwlock(id).reader_queue@.len() == 0
                        &&& forall|p: int|
                            0 <= p < rwlock_op_rq(*old(m), *old(rwlock_op)).len() ==> final(m).threads.thread(
                                #[trigger] rwlock_op_rq(*old(m), *old(rwlock_op))[p],
                            ).state == ThreadState::Enabled
                        &&& forall|j: int|
                            0 <= j < old(m).threads.threads@.len() && (forall|p: int|
                                0 <= p < rwlock_op_rq(*old(m), *old(rwlock_op)).len()
                                    ==> (#[trigger] rwlock_op_rq(*old(m), *old(rwlock_op))[p]).0
                                    != j) ==> #[trigger] final(m).threads.threads@[j] == old(
                                m,
                            ).threads.threads@[j]
                    })
                })
                &&& (rwlock_op_writer(*old(m), *old(rwlock_op)) != Some(a) ==> {
                    &&& r == Err::<i32, MachineStop>(MachineStop::UndefinedBehavior)
                    &&& final(m).threads.same_but_sync(old(m).threads)
                    &&& final(m).sy().rwlock(id).writer is None
                    &&& final(m).sy().rwlock(id).readers@ == rwlock_op_readers(
                        *old(m),
                        *old(rwlock_op),
                    )
                    &&& final(m).sy().rwlock(id).writer_queue@ == rwlock_op_wq(
                        *old(m),
                        *old(rwlock_op),
                    )
                    &&& final(m).sy().rwlock(id).reader_queue@ == rwlock_op_rq(
                        *old(m),
                        *old(rwlock_op),
                    )
                })
            })
        },
{
    let id = match rwlock_get_or_create_id(m, rwlock_op) {
        Ok(i) => i,
        Err(e) => {
            return Err(e);
        },
    };
    let active_thread = m.threads.get_active_thread_id();
    let ghost mid = *m;
    if m.threads.sync.rwlock_reader_remove(id, active_thread) {
        // The thread was a reader.
        proof {
            lemma_inv_after_rwlock_quiet(mid, *m, id);
        }
        if !m.threads.sync.rwlock_is_locked(id) {
            // No more readers hold the lock: give it to a writer if any.
            let ghost mid2 = *m;
            match m.threads.sync.rwlock_dequeue_writer(id) {
                Some(writer) => {
                    proof {
                        crate::sync::lemma_count_tid_positive(
                            mid2.sy().rwlock(id).writer_queue@,
                            writer,
                            0,
                        );
                        lemma_thread_in_rwlock_queue(mid2, id, writer);
                    }
                    m.threads.unblock_thread(writer);
                    m.threads.sync.rwlock_writer_set(id, writer);
                    proof {
                        lemma_inv_after_wake_writer(mid2, *m, id, writer);
                    }
                },
                None => {
                    proof {
                        crate::machine::lemma_inv_unchanged(mid2, *m);
                    }
                },
            }
        }
        Ok(0)
    } else {
        let prior = m.threads.sync.rwlock_writer_remove(id);
        let was_writer = match prior {
            Some(w) => thread_id_eq(w, active_thread),
            None => false,
        };
        proof {
            lemma_inv_after_rwlock_quiet(mid, *m, id);
        }
        if !was_writer {
            return Err(MachineStop::UndefinedBehavior);
        }
        // The thread was the writer: prefer queued writers over readers.
        let ghost mid2 = *m;
        match m.threads.sync.rwlock_dequeue_writer(id) {
            Some(writer) => {
                proof {
                    crate::sync::lemma_count_tid_positive(
                        mid2.sy().rwlock(id).writer_queue@,
                        writer,
                        0,
                    );
                    lemma_thread_in_rwlock_queue(mid2, id, writer);
                }
                m.threads.unblock_thread(writer);
                m.threads.sync.rwlock_writer_set(id, writer);
                proof {
                    lemma_inv_after_wake_writer(mid2, *m, id, writer);
                }
            },
            None => {
                // Give the lock to all queued readers, in queue order.
                proof {
                    crate::machine::lemma_inv_unchanged(mid2, *m);
                }
                let ghost drain_start = *m;
                let ghost rq0 = drain_start.sy().rwlock(id).reader_queue@;
                let rq_n = m.threads.sync.rwlock_reader_queue_len(id);
                let mut k: usize = 0;
                while m.threads.sync.rwlock_has_queued_reader(id)
                    invariant
                        drain_start.inv(),
                        drain_start.sy().valid_rwlock(id),
                        rq0 == drain_start.sy().rwlock(id).reader_queue@,
                        rq0.len() == rq_n,
                        m.inv(),
                        m.sy().valid_rwlock(id),
                        m.same_config(drain_start),
                        m.threads.active_thread == drain_start.threads.active_thread,
                        m.threads.yield_active_thread == drain_start.threads.yield_active_thread,
                        m.threads.timeout_callbacks@ == drain_start.threads.timeout_callbacks@,
                        m.threads.thread_local_alloc_ids@
                            == drain_start.threads.thread_local_alloc_ids@,
                        m.sy().only_rwlock_changed(drain_start.sy(), id),
                        m.sy().rwlock(id).writer is None,
                        m.sy().rwlock(id).writer_queue@ == drain_start.sy().rwlock(
                            id,
                        ).writer_queue@,
                        k <= rq0.len(),
                        m.sy().rwlock(id).reader_queue@ == rq0.subrange(k as int, rq0.len() as int),
                        m.sy().rwlock(id).readers@ == drain_start.sy().rwlock(id).readers@
                            + rq0.subrange(0, k as int),
                        m.n() == drain_start.n(),
                        forall|p: int|
                            0 <= p < k ==> m.threads.threads@[(#[trigger] rq0[p]).0 as int] == (
                            crate::thread::Thread {
                                state: ThreadState::Enabled,
                                ..drain_start.threads.threads@[rq0[p].0 as int]
                            }),
                        forall|j: int|
                            0 <= j < drain_start.n() && (forall|p: int|
                                0 <= p < k ==> (#[trigger] rq0[p]).0 != j) ==> #[trigger] m.threads.threads@[j]
                                == drain_start.threads.threads@[j],
                    decreases m.sy().rwlock(id).reader_queue@.len(),
                {
                    let ghost iter_pre = *m;
                    let reader = match m.threads.sync.rwlock_dequeue_reader(id) {
                        Some(t) => t,
                        None => unreached(),
                    };
                    proof {
                        crate::sync::lemma_count_tid_positive(
                            iter_pre.sy().rwlock(id).reader_queue@,
                            reader,
                            0,
                        );
                        lemma_thread_in_rwlock_queue(iter_pre, id, reader);
                    }
                    m.threads.unblock_thread(reader);
                    m.threads.sync.rwlock_reader_add(id, reader);
                    proof {
                        lemma_inv_after_wake_reader(iter_pre, *m, id, reader);
                        assert(rq0[k as int] == reader);
                        assert(m.sy().rwlock(id).reader_queue@ =~= rq0.subrange(
                            k + 1,
                            rq0.len() as int,
                        ));
                        assert(m.sy().rwlock(id).readers@ =~= drain_start.sy().rwlock(id).readers@
                            + rq0.subrange(0, k + 1));
                        assert forall|p: int| 0 <= p < k implies (#[trigger] rq0[p]).0
                            != reader.0 by {
                            if rq0[p].0 == reader.0 {
                                assert(iter_pre.threads.threads@[rq0[p].0 as int].state
                                    == ThreadState::Enabled);
                            }
                        }
                        assert(iter_pre.threads.threads@[reader.0 as int]
                            == drain_start.threads.threads@[reader.0 as int]);
                        assert(m.threads.threads@[reader.0 as int] == (crate::thread::Thread {
                            state: ThreadState::Enabled,
                            ..iter_pre.threads.threads@[reader.0 as int]
                        }));
                        assert(m.threads.threads@[reader.0 as int] == (crate::thread::Thread {
                            state: ThreadState::Enabled,
                            ..drain_start.threads.threads@[reader.0 as int]
                        }));
                        assert forall|p: int|
                            0 <= p < k + 1 implies m.threads.threads@[(#[trigger] rq0[p]).0 as int]
                            == (crate::thread::Thread {
                            state: ThreadState::Enabled,
                            ..drain_start.threads.threads@[rq0[p].0 as int]
                        }) by {
                            assert(rwlock_rec_bounded(
                                drain_start.sy().rwlocks@[id.idx()],
                                drain_start.n(),
                            ));
                            assert(rq0[p].0 < drain_start.n());
                            if p < k {
                                assert(rq0[p].0 != reader.0);
                                assert(iter_pre.threads.threads@[rq0[p].0 as int] == (
                                crate::thread::Thread {
                                    state: ThreadState::Enabled,
                                    ..drain_start.threads.threads@[rq0[p].0 as int]
                                }));
                            }
                        }
                        assert forall|j: int|
                            0 <= j < drain_start.n() && (forall|p: int|
                                0 <= p < k + 1 ==> (#[trigger] rq0[p]).0 != j) implies #[trigger] m.threads.threads@[j]
                            == drain_start.threads.threads@[j] by {
                            assert(rq0[k as int].0 != j);
                            assert(iter_pre.threads.threads@[j]
                                == drain_start.threads.threads@[j]);
                        }
                    }
                    k = k + 1;
                }
                proof {
                    assert(m.sy().rwlock(id).reader_queue@.len() == 0);
                    assert(k == rq0.len());
                    assert(m.sy().rwlock(id).readers@ =~= rq0) by {
                        assert(drain_start.sy().rwlock(id).readers@.len() == 0);
                        assert(rq0.subrange(0, rq0.len() as int) =~= rq0);
                    }
                }
            },
        }
        Ok(0)
    }
}

/// Destroy an rwlock: undefined behaviour if it is locked in any mode;
/// otherwise its id field becomes undefined. A never-used object is first
/// allocated (unlocked), so destroying it succeeds.
pub fn pthread_rwlock_destroy<F>(m: &mut Machine<F>, rwlock_op: &mut GuestRegion) -> (r: Result<
    i32,
    MachineStop,
>)
    requires
        old(m).inv(),
        old(m).sy().rwlocks@.len() < u32::MAX,
        old(rwlock_op).len() >= PTHREAD_RWLOCK_T_MIN_SIZE,
        rwlock_id_field_ok(*old(m), *old(rwlock_op)),
    ensures
        final(m).inv(),
        final(m).same_config(*old(m)),
        final(m).threads.same_but_sync(old(m).threads),
        final(rwlock_op).len() == old(rwlock_op).len(),
        !old(rwlock_op).word_defined(12) ==> r == Err::<i32, MachineStop>(
            MachineStop::UndefinedBehavior,
        ) && final(m).unchanged_from(*old(m)) && *final(rwlock_op) == *old(rwlock_op),
        old(rwlock_op).word_defined(12) ==> {
            &&& (rwlock_op_locked(*old(m), *old(rwlock_op)) ==> r == Err::<i32, MachineStop>(
                MachineStop::UndefinedBehavior,
            ) && final(m).unchanged_from(*old(m)) && *final(rwlock_op) == *old(rwlock_op))
            &&& (!rwlock_op_locked(*old(m), *old(rwlock_op)) ==> {
                &&& r == Ok::<i32, MachineStop>(0)
                &&& !final(rwlock_op).word_defined(12)
            })
        },
{
    let id = match rwlock_get_or_create_id(m, rwlock_op) {
        Ok(i) => i,
        Err(e) => {
            return Err(e);
        },
    };
    if m.threads.sync.rwlock_is_locked(id) {
        return Err(MachineStop::UndefinedBehavior);
    }
    rwlock_op.write_undef_word(12);
    Ok(0)
}

/// The machine invariant after the active (enabled) thread acquires a
/// mutex it may take (unowned, or already its own): only the owner and the
/// count changed.
proof fn lemma_inv_after_acquire<F>(pre: Machine<F>, post: Machine<F>, id: MutexId, a: ThreadId)
    requires
        pre.inv(),
        a == pre.threads.active_thread,
        pre.threads.thread(a).state == ThreadState::Enabled,
        pre.sy().valid_mutex(id),
        pre.sy().mutex(id).owner is None || pre.sy().mutex(id).owner == Some(a),
        post.threads.same_but_sync(pre.threads),
        post.pointer_bytes == pre.pointer_bytes,
        post.sy().only_mutex_changed(pre.sy(), id),
        post.sy().mutex(id).owner == Some(a),
        post.sy().mutex(id).lock_count == pre.sy().mutex(id).lock_count + 1,
        post.sy().mutex(id).queue@ == pre.sy().mutex(id).queue@,
    ensures
        post.inv(),
{
    lemma_not_blocked_no_waits(pre, a);
    assert forall|t: ThreadId| #[trigger] post.sy().total_waits(t) == pre.sy().total_waits(t) by {
        lemma_total_waits_mutex_changed(pre.sy(), post.sy(), id, t);
    }
    assert forall|i: int|
        0 <= i < post.sy().mutexes@.len() implies mutex_rec_wf(#[trigger] post.sy().mutexes@[i])
        && mutex_rec_bounded(post.sy().mutexes@[i], post.n()) by {
        assert(mutex_rec_wf(pre.sy().mutexes@[i]));
        assert(mutex_rec_bounded(pre.sy().mutexes@[i], pre.n()));
        if i == id.idx() {
            crate::sync::lemma_mutexes_waits_bound(pre.sy().mutexes@, id.idx(), a);
            assert(count_tid(post.sy().mutexes@[i].queue@, a) == 0);
        }
    }
    lemma_condvars_wf_new_owner(pre, post, id);
    lemma_join_wf_preserved(pre, post);
    lemma_blocked_wf_preserved(pre, post);
}

/// The machine invariant after the active (enabled) thread blocks on a
/// mutex owned by another thread and enters its queue.
proof fn lemma_inv_after_block_on_mutex<F>(
    pre: Machine<F>,
    post: Machine<F>,
    id: MutexId,
    a: ThreadId,
)
    requires
        pre.inv(),
        a == pre.threads.active_thread,
        pre.threads.thread(a).state == ThreadState::Enabled,
        pre.sy().valid_mutex(id),
        pre.sy().mutex(id).owner matches Some(o) && o != a,
        post.pointer_bytes == pre.pointer_bytes,
        post.threads.threads@ == pre.threads.threads@.update(
            a.0 as int,
            (crate::thread::Thread {
                state: ThreadState::BlockedOnSync,
                ..pre.threads.thread(a)
            }),
        ),
        post.threads.active_thread == pre.threads.active_thread,
        post.threads.yield_active_thread == pre.threads.yield_active_thread,
        post.threads.timeout_callbacks@ == pre.threads.timeout_callbacks@,
        post.threads.thread_local_alloc_ids@ == pre.threads.thread_local_alloc_ids@,
        post.sy().only_mutex_changed(pre.sy(), id),
        post.sy().mutex(id).owner == pre.sy().mutex(id).owner,
        post.sy().mutex(id).lock_count == pre.sy().mutex(id).lock_count,
        post.sy().mutex(id).queue@ == pre.sy().mutex(id).queue@.push(a),
    ensures
        post.inv(),
{
    reveal(Machine::blocked_wf);
    lemma_not_blocked_no_waits(pre, a);
    assert forall|t: ThreadId|
        t != a implies #[trigger] post.sy().total_waits(t) == pre.sy().total_waits(t) by {
        lemma_count_tid_push(pre.sy().mutex(id).queue@, a, t);
        lemma_total_waits_mutex_changed(pre.sy(), post.sy(), id, t);
    }
    assert(post.sy().total_waits(a) == 1) by {
        lemma_count_tid_push(pre.sy().mutex(id).queue@, a, a);
        lemma_total_waits_mutex_changed(pre.sy(), post.sy(), id, a);
    }
    assert forall|i: int|
        0 <= i < post.sy().mutexes@.len() implies mutex_rec_wf(#[trigger] post.sy().mutexes@[i])
        && mutex_rec_bounded(post.sy().mutexes@[i], post.n()) by {
        assert(mutex_rec_wf(pre.sy().mutexes@[i]));
        assert(mutex_rec_bounded(pre.sy().mutexes@[i], pre.n()));
        if i == id.idx() {
            match pre.sy().mutex(id).owner {
                Some(o) => {
                    lemma_count_tid_push(pre.sy().mutex(id).queue@, a, o);
                },
                None => {},
            }
            assert forall|p: int|
                0 <= p < post.sy().mutexes@[i].queue@.len() implies (#[trigger] post.sy().mutexes@[i].queue@[p]).0
                < post.n() by {
                if p < pre.sy().mutex(id).queue@.len() {
                    assert(pre.sy().mutexes@[i].queue@[p].0 < pre.n());
                }
            }
        }
    }
    lemma_condvars_wf_same_owners(pre, post);
    lemma_join_wf_no_new_joins(pre, post);
    assert forall|j: int|
        0 <= j < post.n() && (#[trigger] post.threads.threads@[j]).state
            == ThreadState::BlockedOnSync implies post.sy().total_waits(ThreadId(j as u32)) == 1
        || (post.sy().total_waits(ThreadId(j as u32)) == 0 && post.sleeping(j)) by {
        if j != a.0 {
            assert(pre.threads.threads@[j].state == ThreadState::BlockedOnSync);
            assert(ThreadId(j as u32) != a);
        }
    }
    assert forall|j: int|
        0 <= j < post.n() implies ((#[trigger] post.threads.timeout_callbacks@[j]) matches Some(
        info,
    ) ==> (info.callback is WakeSleep ==> post.sy().total_waits(ThreadId(j as u32)) == 0)) by {
        match post.threads.timeout_callbacks@[j] {
            Some(info) => {
                if j == a.0 {
                    assert(false);
                } else {
                    assert(ThreadId(j as u32) != a);
                }
            },
            None => {},
        }
    }
    assert forall|t: ThreadId|
        #[trigger] post.sy().total_waits(t) > 0 implies t.0 < post.n() && post.threads.threads@[
        t.0 as int
    ].state == ThreadState::BlockedOnSync && post.sy().total_waits(t) == 1 by {
        if t != a {
            assert(pre.sy().total_waits(t) > 0);
            assert(t.0 != a.0);
        }
    }
    assert forall|j: int|
        0 <= j < post.n() && (#[trigger] post.threads.timeout_callbacks@[j]) is Some implies post.threads.threads@[j].state
        == ThreadState::BlockedOnSync by {
        if j == a.0 {
            assert(false);
        }
    }
    assert forall|j: int|
        0 <= j < post.n() implies ((#[trigger] post.threads.timeout_callbacks@[j]) matches Some(
        info,
    ) ==> (info.callback matches crate::thread::TimeoutCallback::CondTimeout { condvar, mutex }
        ==> {
        &&& post.sy().valid_condvar(condvar)
        &&& exists|p: int|
            0 <= p < post.sy().condvar(condvar).waiters@.len() && post.sy().condvar(
                condvar,
            ).waiters@[p] == (crate::sync::CondvarWaiter { thread: ThreadId(j as u32), mutex })
    })) by {
        match post.threads.timeout_callbacks@[j] {
            Some(info) => match info.callback {
                crate::thread::TimeoutCallback::CondTimeout { condvar, mutex: _ } => {
                    assert(pre.sy().valid_condvar(condvar));
                    assert(post.sy().condvar(condvar) == pre.sy().condvar(condvar));
                },
                _ => {},
            },
            None => {},
        }
    }
}

/// The condvar record the operation will act on: the stored one, or a
/// fresh one if the id field still holds zero.
pub open spec fn cond_op_id<F>(m: Machine<F>, r: GuestRegion) -> CondvarId {
    if r.word_u32(4) != 0 {
        CondvarId(r.word_u32(4))
    } else {
        CondvarId((m.sy().condvars@.len() + 1) as u32)
    }
}

/// The waiter list of the condvar the operation acts on.
pub open spec fn cond_op_waiters<F>(m: Machine<F>, r: GuestRegion) -> Seq<crate::sync::CondvarWaiter> {
    if r.word_u32(4) != 0 {
        m.sy().condvar(CondvarId(r.word_u32(4))).waiters@
    } else {
        Seq::empty()
    }
}

/// Both the mutex `mu` and the condvar `c` may have changed; everything
/// else of the synchronization state is as in `pre`.
pub open spec fn only_mutex_and_condvar_changed(
    post: crate::sync::SynchronizationState,
    pre: crate::sync::SynchronizationState,
    mu: MutexId,
    c: CondvarId,
) -> bool {
    &&& post.mutexes@.len() == pre.mutexes@.len()
    &&& forall|j: int|
        0 <= j < pre.mutexes@.len() && j != mu.idx() ==> #[trigger] post.mutexes@[j]
            == pre.mutexes@[j]
    &&& post.rwlocks@ == pre.rwlocks@
    &&& post.condvars@.len() == pre.condvars@.len()
    &&& forall|j: int|
        0 <= j < pre.condvars@.len() && j != c.idx() ==> #[trigger] post.condvars@[j]
            == pre.condvars@[j]
}

/// The machine invariant after waiter `k` (thread `h`, mutex `mu`) of
/// condvar `c` is taken out of the waiter list, its pending timeout (if
/// any) is dropped, and `h` reacquires `mu`: it is enqueued on the locked
/// mutex, or takes the unlocked mutex and is woken. This is the net effect
/// of a signal, and of a timed-out wait's callback.
#[verifier::rlimit(30)]
pub proof fn lemma_inv_after_condvar_wake<F>(
    pre: Machine<F>,
    post: Machine<F>,
    c: CondvarId,
    h: ThreadId,
    mu: MutexId,
    k: int,
)
    requires
        pre.inv(),
        pre.sy().valid_condvar(c),
        0 <= k < pre.sy().condvar(c).waiters@.len(),
        pre.sy().condvar(c).waiters@[k] == (crate::sync::CondvarWaiter { thread: h, mutex: mu }),
        pre.sy().valid_mutex(mu),
        post.pointer_bytes == pre.pointer_bytes,
        post.threads.active_thread == pre.threads.active_thread,
        post.threads.yield_active_thread == pre.threads.yield_active_thread,
        post.threads.thread_local_alloc_ids@ == pre.threads.thread_local_alloc_ids@,
        post.threads.timeout_callbacks@ =~= pre.threads.timeout_callbacks@.update(
            h.0 as int,
            Option::<crate::thread::TimeoutCallbackInfo>::None,
        ),
        only_mutex_and_condvar_changed(post.sy(), pre.sy(), mu, c),
        post.sy().condvar(c).waiters@ == pre.sy().condvar(c).waiters@.remove(k),
        pre.sy().mutex(mu).owner is Some ==> {
            &&& post.threads.threads@ == pre.threads.threads@
            &&& post.sy().mutex(mu).owner == pre.sy().mutex(mu).owner
            &&& post.sy().mutex(mu).lock_count == pre.sy().mutex(mu).lock_count
            &&& post.sy().mutex(mu).queue@ == pre.sy().mutex(mu).queue@.push(h)
        },
        pre.sy().mutex(mu).owner is None ==> {
            &&& post.threads.threads@ == pre.threads.threads@.update(
                h.0 as int,
                (crate::thread::Thread { state: ThreadState::Enabled, ..pre.threads.thread(h) }),
            )
            &&& post.sy().mutex(mu).owner == Some(h)
            &&& post.sy().mutex(mu).lock_count == 1
            &&& post.sy().mutex(mu).queue@ == pre.sy().mutex(mu).queue@
        },
    ensures
        post.inv(),
{
    reveal(Machine::blocked_wf);
    crate::sync::lemma_count_waiters_positive(pre.sy().condvar(c).waiters@, h, k);
    lemma_thread_in_condvar(pre, c, h);
    assert(count_tid(pre.sy().mutex(mu).queue@, h) == 0) by {
        crate::sync::lemma_mutexes_waits_bound(pre.sy().mutexes@, mu.idx(), h);
    }
    assert(pre.sy().mutexes@ =~= pre.sy().mutexes@);
    assert(post.sy().mutexes@ =~= pre.sy().mutexes@.update(mu.idx(), post.sy().mutex(mu)));
    assert(post.sy().condvars@ =~= pre.sy().condvars@.update(c.idx(), post.sy().condvar(c)));
    // Per-thread totals: h loses its condvar entry; it gains a mutex-queue
    // entry exactly when the mutex was locked. Everyone else is untouched.
    assert forall|t: ThreadId|
        t != h implies #[trigger] post.sy().total_waits(t) == pre.sy().total_waits(t) by {
        crate::sync::lemma_mutexes_waits_update(pre.sy().mutexes@, mu.idx(), post.sy().mutex(mu), t);
        crate::sync::lemma_condvars_waits_update(
            pre.sy().condvars@,
            c.idx(),
            post.sy().condvar(c),
            t,
        );
        crate::sync::lemma_count_waiters_remove(pre.sy().condvar(c).waiters@, k, t);
        lemma_count_tid_push(pre.sy().mutex(mu).queue@, h, t);
    }
    let locked = pre.sy().mutex(mu).owner is Some;
    assert(post.sy().total_waits(h) == (if locked {
        1int
    } else {
        0int
    })) by {
        crate::sync::lemma_mutexes_waits_update(pre.sy().mutexes@, mu.idx(), post.sy().mutex(mu), h);
        crate::sync::lemma_condvars_waits_update(
            pre.sy().condvars@,
            c.idx(),
            post.sy().condvar(c),
            h,
        );
        crate::sync::lemma_count_waiters_remove(pre.sy().condvar(c).waiters@, k, h);
        lemma_count_tid_push(pre.sy().mutex(mu).queue@, h, h);
    }
    // Mutex records stay well formed.
    assert forall|i: int|
        0 <= i < post.sy().mutexes@.len() implies mutex_rec_wf(#[trigger] post.sy().mutexes@[i])
        && mutex_rec_bounded(post.sy().mutexes@[i], post.n()) by {
        assert(mutex_rec_wf(pre.sy().mutexes@[i]));
        assert(mutex_rec_bounded(pre.sy().mutexes@[i], pre.n()));
        if i == mu.idx() {
            if locked {
                match pre.sy().mutex(mu).owner {
                    Some(o) => {
                        assert(condvar_rec_wf(pre.sy().condvars@[c.idx()], pre.n(), pre.sy()));
                        assert(o != h);
                        lemma_count_tid_push(pre.sy().mutex(mu).queue@, h, o);
                    },
                    None => {},
                }
                assert forall|p: int|
                    0 <= p < post.sy().mutexes@[i].queue@.len() implies (#[trigger] post.sy().mutexes@[i].queue@[p]).0
                    < post.n() by {
                    if p < pre.sy().mutex(mu).queue@.len() {
                        assert(pre.sy().mutexes@[i].queue@[p].0 < pre.n());
                    }
                }
            }
        }
    }
    // Rwlock records are untouched.
    assert forall|i: int|
        0 <= i < post.sy().rwlocks@.len() implies rwlock_rec_wf(#[trigger] post.sy().rwlocks@[i])
        && rwlock_rec_bounded(post.sy().rwlocks@[i], post.n()) by {
        assert(rwlock_rec_wf(pre.sy().rwlocks@[i]));
        assert(rwlock_rec_bounded(pre.sy().rwlocks@[i], pre.n()));
    }
    // Condvar records stay well formed: entries keep their threads and
    // mutexes; the only owner that may have appeared is `h`, which waits on
    // no condvar any more.
    assert forall|i: int|
        0 <= i < post.sy().condvars@.len() implies condvar_rec_wf(
        #[trigger] post.sy().condvars@[i],
        post.n(),
        post.sy(),
    ) by {
        assert(condvar_rec_wf(pre.sy().condvars@[i], pre.n(), pre.sy()));
        let cv = post.sy().condvars@[i];
        assert forall|p: int| 0 <= p < cv.waiters@.len() implies {
            &&& (#[trigger] cv.waiters@[p]).thread.0 < post.n()
            &&& post.sy().valid_mutex(cv.waiters@[p].mutex)
            &&& post.sy().mutex(cv.waiters@[p].mutex).owner != Some(cv.waiters@[p].thread)
        } by {
            let w = cv.waiters@[p];
            assert(pre.sy().condvars@[i].waiters@.contains(w) || (i == c.idx()
                && pre.sy().condvar(c).waiters@.remove(k).contains(w))) by {
                if i != c.idx() {
                    assert(pre.sy().condvars@[i].waiters@[p] == w);
                }
            }
            let q = choose|q: int|
                0 <= q < pre.sy().condvars@[i].waiters@.len() && pre.sy().condvars@[i].waiters@[q]
                    == w;
            if i == c.idx() {
                if p < k {
                    assert(pre.sy().condvars@[i].waiters@[p] == w);
                } else {
                    assert(pre.sy().condvars@[i].waiters@[p + 1] == w);
                }
            }
            assert(exists|q: int|
                0 <= q < pre.sy().condvars@[i].waiters@.len() && #[trigger] pre.sy().condvars@[i].waiters@[q]
                    == w);
            let q2 = choose|q: int|
                0 <= q < pre.sy().condvars@[i].waiters@.len() && #[trigger] pre.sy().condvars@[i].waiters@[q]
                    == w;
            assert(w.thread.0 < pre.n());
            assert(pre.sy().valid_mutex(w.mutex));
            assert(pre.sy().mutex(w.mutex).owner != Some(w.thread));
            if w.mutex == mu && !locked {
                // The new owner is `h`; `h` has no condvar entry left.
                if w.thread == h {
                    if i == c.idx() {
                        crate::sync::lemma_count_waiters_remove(pre.sy().condvar(c).waiters@, k, h);
                        crate::sync::lemma_count_waiters_positive(cv.waiters@, h, p);
                    } else {
                        crate::sync::lemma_count_waiters_positive(
                            pre.sy().condvars@[i].waiters@,
                            h,
                            q2,
                        );
                        crate::sync::lemma_condvars_waits_two_bound(
                            pre.sy().condvars@,
                            i,
                            c.idx(),
                            h,
                        );
                    }
                    assert(false);
                }
            } else {
                assert(post.sy().mutex(w.mutex).owner == pre.sy().mutex(w.mutex).owner || (w.mutex
                    == mu && locked));
            }
        }
    }
    lemma_join_wf_no_new_joins(pre, post);
    // Blocked-thread accounting.
    assert forall|t: ThreadId|
        #[trigger] post.sy().total_waits(t) > 0 implies t.0 < post.n() && post.threads.threads@[
        t.0 as int
    ].state == ThreadState::BlockedOnSync && post.sy().total_waits(t) == 1 by {
        if t != h {
            assert(pre.sy().total_waits(t) > 0);
            assert(t.0 != h.0);
        }
    }
    assert forall|j: int|
        0 <= j < post.n() && (#[trigger] post.threads.threads@[j]).state
            == ThreadState::BlockedOnSync implies post.sy().total_waits(ThreadId(j as u32)) == 1
        || (post.sy().total_waits(ThreadId(j as u32)) == 0 && post.sleeping(j)) by {
        if j == h.0 {
            assert(locked);
        } else {
            assert(pre.threads.threads@[j].state == ThreadState::BlockedOnSync);
            assert(ThreadId(j as u32) != h);
        }
    }
    assert forall|j: int|
        0 <= j < post.n() && (#[trigger] post.threads.timeout_callbacks@[j]) is Some implies post.threads.threads@[j].state
        == ThreadState::BlockedOnSync by {
        assert(j != h.0);
        assert(pre.threads.timeout_callbacks@[j] is Some);
    }
    assert forall|j: int|
        0 <= j < post.n() implies ((#[trigger] post.threads.timeout_callbacks@[j]) matches Some(
        info,
    ) ==> (info.callback is WakeSleep ==> post.sy().total_waits(ThreadId(j as u32)) == 0)) by {
        match post.threads.timeout_callbacks@[j] {
            Some(info) => {
                assert(j != h.0);
                assert(ThreadId(j as u32) != h);
            },
            None => {},
        }
    }
    assert forall|j: int|
        0 <= j < post.n() implies ((#[trigger] post.threads.timeout_callbacks@[j]) matches Some(
        info,
    ) ==> (info.callback matches crate::thread::TimeoutCallback::CondTimeout {
        condvar: c2,
        mutex: mu2,
    } ==> {
        &&& post.sy().valid_condvar(c2)
        &&& exists|p: int|
            0 <= p < post.sy().condvar(c2).waiters@.len() && post.sy().condvar(c2).waiters@[p] == (
            crate::sync::CondvarWaiter { thread: ThreadId(j as u32), mutex: mu2 })
    })) by {
        match post.threads.timeout_callbacks@[j] {
            Some(info) => match info.callback {
                crate::thread::TimeoutCallback::CondTimeout { condvar: c2, mutex: mu2 } => {
                    assert(j != h.0);
                    let t2 = ThreadId(j as u32);
                    assert(pre.threads.timeout_callbacks@[j] == post.threads.timeout_callbacks@[j]);
                    assert(pre.sy().valid_condvar(c2));
                    let p0 = choose|p: int|
                        0 <= p < pre.sy().condvar(c2).waiters@.len() && pre.sy().condvar(
                            c2,
                        ).waiters@[p] == (crate::sync::CondvarWaiter { thread: t2, mutex: mu2 });
                    if c2 == c {
                        assert(pre.sy().condvar(c).waiters@[p0].thread == t2);
                        assert(t2 != h);
                        assert(p0 != k);
                        if p0 < k {
                            assert(post.sy().condvar(c).waiters@[p0] == pre.sy().condvar(
                                c,
                            ).waiters@[p0]);
                        } else {
                            assert(post.sy().condvar(c).waiters@[p0 - 1] == pre.sy().condvar(
                                c,
                            ).waiters@[p0]);
                        }
                    } else {
                        assert(post.sy().condvar(c2) == pre.sy().condvar(c2));
                    }
                },
                _ => {},
            },
            None => {},
        }
    }
}

/// The machine invariant after the active thread releases mutex `mu`
/// (possibly handing it to the first queued waiter `h`) and enqueues
/// itself as a waiter of condvar `c`: the net effect of starting a wait.
#[verifier::rlimit(30)]
proof fn lemma_inv_after_wait_enqueue<F>(
    pre: Machine<F>,
    post: Machine<F>,
    c: CondvarId,
    mu: MutexId,
    a: ThreadId,
)
    requires
        pre.inv(),
        a == pre.threads.active_thread,
        pre.threads.thread(a).state == ThreadState::Enabled,
        pre.sy().valid_condvar(c),
        pre.sy().valid_mutex(mu),
        pre.sy().mutex(mu).owner == Some(a),
        pre.sy().mutex(mu).lock_count == 1,
        post.pointer_bytes == pre.pointer_bytes,
        post.threads.active_thread == pre.threads.active_thread,
        post.threads.yield_active_thread == pre.threads.yield_active_thread,
        post.threads.thread_local_alloc_ids@ == pre.threads.thread_local_alloc_ids@,
        post.threads.timeout_callbacks@ == pre.threads.timeout_callbacks@,
        only_mutex_and_condvar_changed(post.sy(), pre.sy(), mu, c),
        post.sy().condvar(c).waiters@ == pre.sy().condvar(c).waiters@.push(
            (crate::sync::CondvarWaiter { thread: a, mutex: mu }),
        ),
        pre.sy().mutex(mu).queue@.len() == 0 ==> {
            &&& post.threads.threads@ == pre.threads.threads@.update(
                a.0 as int,
                (crate::thread::Thread {
                    state: ThreadState::BlockedOnSync,
                    ..pre.threads.thread(a)
                }),
            )
            &&& post.sy().mutex(mu).owner is None
            &&& post.sy().mutex(mu).lock_count == 0
            &&& post.sy().mutex(mu).queue@ == pre.sy().mutex(mu).queue@
        },
        pre.sy().mutex(mu).queue@.len() > 0 ==> {
            &&& post.threads.threads@ == pre.threads.threads@.update(
                a.0 as int,
                (crate::thread::Thread {
                    state: ThreadState::BlockedOnSync,
                    ..pre.threads.thread(a)
                }),
            ).update(
                pre.sy().mutex(mu).queue@[0].0 as int,
                (crate::thread::Thread {
                    state: ThreadState::Enabled,
                    ..pre.threads.thread(pre.sy().mutex(mu).queue@[0])
                }),
            )
            &&& post.sy().mutex(mu).owner == Some(pre.sy().mutex(mu).queue@[0])
            &&& post.sy().mutex(mu).lock_count == 1
            &&& post.sy().mutex(mu).queue@ == pre.sy().mutex(mu).queue@.remove(0)
        },
    ensures
        post.inv(),
{
    reveal(Machine::blocked_wf);
    lemma_not_blocked_no_waits(pre, a);
    let handoff = pre.sy().mutex(mu).queue@.len() > 0;
    let h = pre.sy().mutex(mu).queue@[0];
    if handoff {
        crate::sync::lemma_count_tid_positive(pre.sy().mutex(mu).queue@, h, 0);
        lemma_thread_in_mutex_queue(pre, mu, h);
        assert(h != a);
    }
    assert(post.sy().mutexes@ =~= pre.sy().mutexes@.update(mu.idx(), post.sy().mutex(mu)));
    assert(post.sy().condvars@ =~= pre.sy().condvars@.update(c.idx(), post.sy().condvar(c)));
    assert forall|t: ThreadId|
        t != a && (handoff ==> t != h) implies #[trigger] post.sy().total_waits(t)
        == pre.sy().total_waits(t) by {
        crate::sync::lemma_mutexes_waits_update(pre.sy().mutexes@, mu.idx(), post.sy().mutex(mu), t);
        crate::sync::lemma_condvars_waits_update(
            pre.sy().condvars@,
            c.idx(),
            post.sy().condvar(c),
            t,
        );
        crate::sync::lemma_count_waiters_push(
            pre.sy().condvar(c).waiters@,
            (crate::sync::CondvarWaiter { thread: a, mutex: mu }),
            t,
        );
        if handoff {
            crate::sync::lemma_count_tid_remove(pre.sy().mutex(mu).queue@, 0, t);
        }
    }
    assert(post.sy().total_waits(a) == 1) by {
        crate::sync::lemma_mutexes_waits_update(pre.sy().mutexes@, mu.idx(), post.sy().mutex(mu), a);
        crate::sync::lemma_condvars_waits_update(
            pre.sy().condvars@,
            c.idx(),
            post.sy().condvar(c),
            a,
        );
        crate::sync::lemma_count_waiters_push(
            pre.sy().condvar(c).waiters@,
            (crate::sync::CondvarWaiter { thread: a, mutex: mu }),
            a,
        );
        if handoff {
            crate::sync::lemma_count_tid_remove(pre.sy().mutex(mu).queue@, 0, a);
        }
    }
    if handoff {
        assert(post.sy().total_waits(h) == 0) by {
            crate::sync::lemma_mutexes_waits_update(
                pre.sy().mutexes@,
                mu.idx(),
                post.sy().mutex(mu),
                h,
            );
            crate::sync::lemma_condvars_waits_update(
                pre.sy().condvars@,
                c.idx(),
                post.sy().condvar(c),
                h,
            );
            crate::sync::lemma_count_waiters_push(
                pre.sy().condvar(c).waiters@,
                (crate::sync::CondvarWaiter { thread: a, mutex: mu }),
                h,
            );
            crate::sync::lemma_count_tid_remove(pre.sy().mutex(mu).queue@, 0, h);
        }
    }
    assert forall|i: int|
        0 <= i < post.sy().mutexes@.len() implies mutex_rec_wf(#[trigger] post.sy().mutexes@[i])
        && mutex_rec_bounded(post.sy().mutexes@[i], post.n()) by {
        assert(mutex_rec_wf(pre.sy().mutexes@[i]));
        assert(mutex_rec_bounded(pre.sy().mutexes@[i], pre.n()));
        if i == mu.idx() && handoff {
            crate::sync::lemma_count_tid_remove(pre.sy().mutex(mu).queue@, 0, h);
            assert forall|p: int|
                0 <= p < post.sy().mutexes@[i].queue@.len() implies (#[trigger] post.sy().mutexes@[i].queue@[p]).0
                < post.n() by {
                assert(post.sy().mutexes@[i].queue@[p] == pre.sy().mutex(mu).queue@[p + 1]);
                assert(pre.sy().mutexes@[mu.idx()].queue@[p + 1].0 < pre.n());
            }
        }
    }
    assert forall|i: int|
        0 <= i < post.sy().rwlocks@.len() implies rwlock_rec_wf(#[trigger] post.sy().rwlocks@[i])
        && rwlock_rec_bounded(post.sy().rwlocks@[i], post.n()) by {
        assert(rwlock_rec_wf(pre.sy().rwlocks@[i]));
        assert(rwlock_rec_bounded(pre.sy().rwlocks@[i], pre.n()));
    }
    assert forall|i: int|
        0 <= i < post.sy().condvars@.len() implies condvar_rec_wf(
        #[trigger] post.sy().condvars@[i],
        post.n(),
        post.sy(),
    ) by {
        assert(condvar_rec_wf(pre.sy().condvars@[i], pre.n(), pre.sy()));
        let cv = post.sy().condvars@[i];
        assert forall|p: int| 0 <= p < cv.waiters@.len() implies {
            &&& (#[trigger] cv.waiters@[p]).thread.0 < post.n()
            &&& post.sy().valid_mutex(cv.waiters@[p].mutex)
            &&& post.sy().mutex(cv.waiters@[p].mutex).owner != Some(cv.waiters@[p].thread)
        } by {
            let w = cv.waiters@[p];
            if i == c.idx() && p == pre.sy().condvar(c).waiters@.len() {
                // The new entry (a, mu): the mutex is now unowned or owned
                // by the woken waiter, never by `a`.
                assert(w.thread == a);
            } else {
                assert(pre.sy().condvars@[i].waiters@[p] == w);
                assert(w.thread.0 < pre.n());
                assert(pre.sy().valid_mutex(w.mutex));
                assert(pre.sy().mutex(w.mutex).owner != Some(w.thread));
                if w.mutex == mu && handoff {
                    // The new owner `h` waits on no condvar.
                    if w.thread == h {
                        crate::sync::lemma_count_waiters_positive(
                            pre.sy().condvars@[i].waiters@,
                            h,
                            p,
                        );
                        crate::sync::lemma_condvars_waits_bound(pre.sy().condvars@, i, h);
                        assert(false);
                    }
                }
            }
        }
    }
    lemma_join_wf_no_new_joins(pre, post);
    assert forall|t: ThreadId|
        #[trigger] post.sy().total_waits(t) > 0 implies t.0 < post.n() && post.threads.threads@[
        t.0 as int
    ].state == ThreadState::BlockedOnSync && post.sy().total_waits(t) == 1 by {
        if t != a && (!handoff || t != h) {
            assert(pre.sy().total_waits(t) > 0);
            assert(t.0 != a.0);
            if handoff {
                assert(t.0 != h.0);
            }
        }
    }
    assert forall|j: int|
        0 <= j < post.n() && (#[trigger] post.threads.threads@[j]).state
            == ThreadState::BlockedOnSync implies post.sy().total_waits(ThreadId(j as u32)) == 1
        || (post.sy().total_waits(ThreadId(j as u32)) == 0 && post.sleeping(j)) by {
        if j != a.0 && (!handoff || j != h.0) {
            assert(pre.threads.threads@[j].state == ThreadState::BlockedOnSync);
            assert(ThreadId(j as u32) != a);
            if handoff {
                assert(ThreadId(j as u32) != h);
            }
        }
    }
    assert forall|j: int|
        0 <= j < post.n() && (#[trigger] post.threads.timeout_callbacks@[j]) is Some implies post.threads.threads@[j].state
        == ThreadState::BlockedOnSync by {
        assert(j != a.0);
        if handoff && j == h.0 {
            assert(false);
        }
    }
    assert forall|j: int|
        0 <= j < post.n() implies ((#[trigger] post.threads.timeout_callbacks@[j]) matches Some(
        info,
    ) ==> (info.callback is WakeSleep ==> post.sy().total_waits(ThreadId(j as u32)) == 0)) by {
        match post.threads.timeout_callbacks@[j] {
            Some(info) => {
                assert(j != a.0);
                assert(ThreadId(j as u32) != a);
                if handoff {
                    assert(j != h.0);
                    assert(ThreadId(j as u32) != h);
                }
            },
            None => {},
        }
    }
    assert forall|j: int|
        0 <= j < post.n() implies ((#[trigger] post.threads.timeout_callbacks@[j]) matches Some(
        info,
    ) ==> (info.callback matches crate::thread::TimeoutCallback::CondTimeout {
        condvar: c2,
        mutex: mu2,
    } ==> {
        &&& post.sy().valid_condvar(c2)
        &&& exists|p: int|
            0 <= p < post.sy().condvar(c2).waiters@.len() && post.sy().condvar(c2).waiters@[p] == (
            crate::sync::CondvarWaiter { thread: ThreadId(j as u32), mutex: mu2 })
    })) by {
        match post.threads.timeout_callbacks@[j] {
            Some(info) => match info.callback {
                crate::thread::TimeoutCallback::CondTimeout { condvar: c2, mutex: mu2 } => {
                    assert(pre.sy().valid_condvar(c2));
                    let t2 = ThreadId(j as u32);
                    let p0 = choose|p: int|
                        0 <= p < pre.sy().condvar(c2).waiters@.len() && pre.sy().condvar(
                            c2,
                        ).waiters@[p] == (crate::sync::CondvarWaiter { thread: t2, mutex: mu2 });
                    if c2 == c {
                        assert(post.sy().condvar(c).waiters@[p0] == pre.sy().condvar(
                            c,
                        ).waiters@[p0]);
                    } else {
                        assert(post.sy().condvar(c2) == pre.sy().condvar(c2));
                    }
                },
                _ => {},
            },
            None => {},
        }
    }
}

/// Release the mutex associated with a condition variable because the
/// active thread is entering the waiting state: the mutex must be held
/// exactly once by the active thread; it is handed to its first queued
/// waiter (if any), and the active thread blocks. The caller then appends
/// the active thread to the condvar, restoring the machine invariant.
pub fn release_cond_mutex<F>(
    m: &mut Machine<F>,
    active_thread: ThreadId,
    mutex: MutexId,
) -> (r: Result<(), MachineStop>)
    requires
        old(m).inv(),
        active_thread == old(m).threads.active_thread,
        old(m).threads.thread(active_thread).state == ThreadState::Enabled,
        old(m).sy().valid_mutex(mutex),
    ensures
        final(m).same_config(*old(m)),
        final(m).threads.active_thread == old(m).threads.active_thread,
        final(m).threads.yield_active_thread == old(m).threads.yield_active_thread,
        final(m).threads.thread_local_alloc_ids@ == old(m).threads.thread_local_alloc_ids@,
        final(m).threads.timeout_callbacks@ == old(m).threads.timeout_callbacks@,
        final(m).sy().rwlocks@ == old(m).sy().rwlocks@,
        final(m).sy().condvars@ == old(m).sy().condvars@,
        r is Err ==> final(m).inv(),
        old(m).sy().mutex(mutex).owner is None ==> r == Err::<(), MachineStop>(
            MachineStop::UndefinedBehavior,
        ) && final(m).unchanged_from(*old(m)),
        old(m).sy().mutex(mutex).owner is Some && old(m).sy().mutex(mutex).lock_count > 1 ==> r
            == Err::<(), MachineStop>(MachineStop::Unsupported),
        (old(m).sy().mutex(mutex).owner matches Some(o) && old(m).sy().mutex(mutex).lock_count == 1
            && o != active_thread) ==> r == Err::<(), MachineStop>(
            MachineStop::UndefinedBehavior,
        ),
        (old(m).sy().mutex(mutex).owner == Some(active_thread) && old(m).sy().mutex(
            mutex,
        ).lock_count == 1) ==> {
            &&& r == Ok::<(), MachineStop>(())
            &&& final(m).sy().only_mutex_changed(old(m).sy(), mutex)
            &&& (old(m).sy().mutex(mutex).queue@.len() == 0 ==> {
                &&& final(m).threads.threads@ == old(m).threads.threads@.update(
                    active_thread.0 as int,
                    (crate::thread::Thread {
                        state: ThreadState::BlockedOnSync,
                        ..old(m).threads.thread(active_thread)
                    }),
                )
                &&& final(m).sy().mutex(mutex).owner is None
                &&& final(m).sy().mutex(mutex).lock_count == 0
                &&& final(m).sy().mutex(mutex).queue@ == old(m).sy().mutex(mutex).queue@
            })
            &&& (old(m).sy().mutex(mutex).queue@.len() > 0 ==> {
                &&& final(m).threads.threads@ == old(m).threads.threads@.update(
                    active_thread.0 as int,
                    (crate::thread::Thread {
                        state: ThreadState::BlockedOnSync,
                        ..old(m).threads.thread(active_thread)
                    }),
                ).update(
                    old(m).sy().mutex(mutex).queue@[0].0 as int,
                    (crate::thread::Thread {
                        state: ThreadState::Enabled,
                        ..old(m).threads.thread(old(m).sy().mutex(mutex).queue@[0])
                    }),
                )
                &&& final(m).sy().mutex(mutex).owner == Some(old(m).sy().mutex(mutex).queue@[0])
                &&& final(m).sy().mutex(mutex).lock_count == 1
                &&& final(m).sy().mutex(mutex).queue@ == old(m).sy().mutex(mutex).queue@.remove(0)
            })
        },
{
    let ghost pre = *m;
    proof {
        assert(mutex_rec_wf(pre.sy().mutexes@[mutex.idx()]));
    }
    match m.threads.sync.mutex_unlock(mutex) {
        Some((owner_thread, current_locked_count)) => {
            if current_locked_count != 0 {
                // Waiting while holding a recursively acquired mutex.
                proof {
                    lemma_inv_after_unlock_dec(pre, *m, mutex);
                }
                return Err(MachineStop::Unsupported);
            }
            if !thread_id_eq(owner_thread, active_thread) {
                // Waiting on a mutex owned by a different thread.
                proof {
                    lemma_inv_after_unlock_dec(pre, *m, mutex);
                }
                return Err(MachineStop::UndefinedBehavior);
            }
            let ghost mid = *m;
            match m.threads.sync.mutex_dequeue(mutex) {
                Some(waiter) => {
                    // At least one thread waits on this mutex: transfer
                    // ownership to it.
                    proof {
                        crate::sync::lemma_count_tid_positive(
                            pre.sy().mutex(mutex).queue@,
                            waiter,
                            0,
                        );
                        lemma_thread_in_mutex_queue(pre, mutex, waiter);
                    }
                    m.threads.sync.mutex_lock(mutex, waiter);
                    m.threads.unblock_thread(waiter);
                },
                None => {},
            }
            m.threads.block_thread(active_thread);
            Ok(())
        },
        None => {
            proof {
                crate::machine::lemma_inv_unchanged(pre, *m);
            }
            Err(MachineStop::UndefinedBehavior)
        },
    }
}

/// Try to reacquire the mutex associated with a condition variable for a
/// woken waiter: enqueue it on the locked mutex (it stays blocked), or
/// lock the unlocked mutex for it and wake it.
pub fn reacquire_cond_mutex<F>(m: &mut Machine<F>, thread: ThreadId, mutex: MutexId)
    requires
        old(m).sy().valid_mutex(mutex),
        old(m).threads.valid_thread(thread),
        old(m).threads.thread(thread).state == ThreadState::BlockedOnSync,
        old(m).sy().mutex(mutex).owner is None ==> old(m).sy().mutex(mutex).lock_count == 0,
    ensures
        final(m).same_config(*old(m)),
        final(m).threads.active_thread == old(m).threads.active_thread,
        final(m).threads.yield_active_thread == old(m).threads.yield_active_thread,
        final(m).threads.thread_local_alloc_ids@ == old(m).threads.thread_local_alloc_ids@,
        final(m).threads.timeout_callbacks@ == old(m).threads.timeout_callbacks@,
        final(m).sy().only_mutex_changed(old(m).sy(), mutex),
        old(m).sy().mutex(mutex).owner is Some ==> {
            &&& final(m).threads.threads@ == old(m).threads.threads@
            &&& final(m).sy().mutex(mutex).owner == old(m).sy().mutex(mutex).owner
            &&& final(m).sy().mutex(mutex).lock_count == old(m).sy().mutex(mutex).lock_count
            &&& final(m).sy().mutex(mutex).queue@ == old(m).sy().mutex(mutex).queue@.push(thread)
        },
        old(m).sy().mutex(mutex).owner is None ==> {
            &&& final(m).threads.threads@ == old(m).threads.threads@.update(
                thread.0 as int,
                (crate::thread::Thread {
                    state: ThreadState::Enabled,
                    ..old(m).threads.thread(thread)
                }),
            )
            &&& final(m).sy().mutex(mutex).owner == Some(thread)
            &&& final(m).sy().mutex(mutex).lock_count == 1
            &&& final(m).sy().mutex(mutex).queue@ == old(m).sy().mutex(mutex).queue@
        },
{
    if m.threads.sync.mutex_is_locked(mutex) {
        m.threads.sync.mutex_enqueue(mutex, thread);
    } else {
        m.threads.sync.mutex_lock(mutex, thread);
        m.threads.unblock_thread(thread);
    }
}

/// Initialize a `pthread_condattr_t` with the default clock (REALTIME).
pub fn pthread_condattr_init(attr_op: &mut GuestRegion) -> (r: Result<i32, MachineStop>)
    requires
        old(attr_op).len() >= PTHREAD_CONDATTR_T_MIN_SIZE,
    ensures
        r == Ok::<i32, MachineStop>(0),
        final(attr_op).len() == old(attr_op).len(),
        final(attr_op).word_defined(0),
        final(attr_op).word_i32(0) == crate::posix::CLOCK_REALTIME,
        final(attr_op).same_outside_word(*old(attr_op), 0),
{
    condattr_set_clock_id(attr_op, crate::posix::CLOCK_REALTIME);
    Ok(0)
}

/// Set the clock of a `pthread_condattr_t`; only REALTIME and MONOTONIC
/// are accepted, anything else is EINVAL.
pub fn pthread_condattr_setclock(attr_op: &mut GuestRegion, clock_id: i32) -> (r: Result<
    i32,
    MachineStop,
>)
    requires
        old(attr_op).len() >= PTHREAD_CONDATTR_T_MIN_SIZE,
    ensures
        final(attr_op).len() == old(attr_op).len(),
        (clock_id == crate::posix::CLOCK_REALTIME || clock_id == crate::posix::CLOCK_MONOTONIC)
            ==> {
            &&& r == Ok::<i32, MachineStop>(0)
            &&& final(attr_op).word_defined(0)
            &&& final(attr_op).word_i32(0) == clock_id
            &&& final(attr_op).same_outside_word(*old(attr_op), 0)
        },
        !(clock_id == crate::posix::CLOCK_REALTIME || clock_id == crate::posix::CLOCK_MONOTONIC)
            ==> r == Ok::<i32, MachineStop>(EINVAL) && *final(attr_op) == *old(attr_op),
{
    if clock_id == crate::posix::CLOCK_REALTIME || clock_id == crate::posix::CLOCK_MONOTONIC {
        condattr_set_clock_id(attr_op, clock_id);
        Ok(0)
    } else {
        Ok(EINVAL)
    }
}

/// Read the clock of a `pthread_condattr_t`; the host writes the returned
/// clock id into the guest's result location.
pub fn pthread_condattr_getclock(attr_op: &GuestRegion) -> (r: Result<i32, MachineStop>)
    requires
        attr_op.len() >= PTHREAD_CONDATTR_T_MIN_SIZE,
    ensures
        attr_op.word_defined(0) ==> r == Ok::<i32, MachineStop>(attr_op.word_i32(0)),
        !attr_op.word_defined(0) ==> r == Err::<i32, MachineStop>(
            MachineStop::UndefinedBehavior,
        ),
{
    condattr_get_clock_id(attr_op)
}

/// Destroy a `pthread_condattr_t`: its clock field becomes undefined.
pub fn pthread_condattr_destroy(attr_op: &mut GuestRegion) -> (r: Result<i32, MachineStop>)
    requires
        old(attr_op).len() >= PTHREAD_CONDATTR_T_MIN_SIZE,
    ensures
        r == Ok::<i32, MachineStop>(0),
        final(attr_op).len() == old(attr_op).len(),
        !final(attr_op).word_defined(0),
        final(attr_op).same_outside_word(*old(attr_op), 0),
{
    attr_op.write_undef_word(0);
    Ok(0)
}

/// Initialize a `pthread_cond_t`: allocate its id and store its clock,
/// taken from the attribute object (or REALTIME for a null attribute).
pub fn pthread_cond_init<F>(
    m: &mut Machine<F>,
    cond_op: &mut GuestRegion,
    attr_op: Option<&GuestRegion>,
) -> (r: Result<i32, MachineStop>)
    requires
        old(m).inv(),
        old(m).sy().condvars@.len() < u32::MAX,
        old(cond_op).len() >= PTHREAD_COND_T_MIN_SIZE,
        cond_id_field_ok(*old(m), *old(cond_op)),
        attr_op matches Some(a) ==> a.len() >= PTHREAD_CONDATTR_T_MIN_SIZE,
    ensures
        final(m).inv(),
        final(m).same_config(*old(m)),
        final(m).threads.same_but_sync(old(m).threads),
        final(cond_op).len() == old(cond_op).len(),
        (attr_op matches Some(a) && !a.word_defined(0)) ==> r == Err::<i32, MachineStop>(
            MachineStop::UndefinedBehavior,
        ) && final(m).unchanged_from(*old(m)) && *final(cond_op) == *old(cond_op),
        (attr_op is None || (attr_op matches Some(a) && a.word_defined(0))) ==> {
            &&& !old(cond_op).word_defined(4) ==> r == Err::<i32, MachineStop>(
                MachineStop::UndefinedBehavior,
            ) && final(m).unchanged_from(*old(m)) && *final(cond_op) == *old(cond_op)
            &&& old(cond_op).word_defined(4) ==> {
                let id = cond_op_id(*old(m), *old(cond_op));
                &&& r == Ok::<i32, MachineStop>(0)
                &&& final(cond_op).word_defined(8)
                &&& final(cond_op).word_i32(8) == (match attr_op {
                    Some(a) => a.word_i32(0),
                    None => crate::posix::CLOCK_REALTIME,
                })
                &&& final(cond_op).word_defined(4)
                &&& final(cond_op).word_u32(4) == id.0
                &&& forall|k: int|
                    0 <= k < old(cond_op).len() && !(4 <= k < 12) ==> final(cond_op).cells@[k]
                        == #[trigger] old(cond_op).cells@[k]
                &&& final(m).sy().valid_condvar(id)
                &&& (old(cond_op).word_u32(4) != 0 ==> final(m).unchanged_from(*old(m)))
                &&& (old(cond_op).word_u32(4) == 0 ==> {
                    &&& final(m).sy().condvar(id).waiters@.len() == 0
                    &&& final(m).sy().condvars@.len() == old(m).sy().condvars@.len() + 1
                    &&& forall|j: int|
                        0 <= j < old(m).sy().condvars@.len() ==> #[trigger] final(m).sy().condvars@[j]
                            == old(m).sy().condvars@[j]
                    &&& final(m).sy().mutexes@ == old(m).sy().mutexes@
                    &&& final(m).sy().rwlocks@ == old(m).sy().rwlocks@
                })
            }
        },
{
    let clock_id = match attr_op {
        None => crate::posix::CLOCK_REALTIME,
        Some(a) => match condattr_get_clock_id(a) {
            Ok(c) => c,
            Err(e) => {
                return Err(e);
            },
        },
    };
    let ghost before_create = *cond_op;
    match cond_get_or_create_id(m, cond_op) {
        Ok(_id) => {},
        Err(e) => {
            return Err(e);
        },
    }
    let ghost after_create = *cond_op;
    cond_set_clock_id(cond_op, clock_id);
    proof {
        crate::guest::lemma_word_preserved(after_create, *cond_op, 8, 4);
    }
    Ok(0)
}

/// Signal a condvar: pop its first waiter (FIFO), let it reacquire its
/// mutex (blocking in the mutex queue if the mutex is held), and drop its
/// pending timed-wait timeout. Signalling with no waiters does nothing and
/// succeeds.
pub fn pthread_cond_signal<F>(m: &mut Machine<F>, cond_op: &mut GuestRegion) -> (r: Result<
    i32,
    MachineStop,
>)
    requires
        old(m).inv(),
        old(m).sy().condvars@.len() < u32::MAX,
        old(cond_op).len() >= PTHREAD_COND_T_MIN_SIZE,
        cond_id_field_ok(*old(m), *old(cond_op)),
    ensures
        final(m).inv(),
        final(m).same_config(*old(m)),
        final(cond_op).len() == old(cond_op).len(),
        !old(cond_op).word_defined(4) ==> r == Err::<i32, MachineStop>(
            MachineStop::UndefinedBehavior,
        ) && final(m).unchanged_from(*old(m)) && *final(cond_op) == *old(cond_op),
        old(cond_op).word_defined(4) && old(cond_op).word_u32(4) != 0 ==> *final(cond_op) == *old(
            cond_op,
        ),
        old(cond_op).word_defined(4) && old(cond_op).word_u32(4) == 0 ==> {
            &&& final(cond_op).word_defined(4)
            &&& final(cond_op).word_u32(4) == cond_op_id(*old(m), *old(cond_op)).0
            &&& final(cond_op).same_outside_word(*old(cond_op), 4)
        },
        old(cond_op).word_defined(4) ==> {
            let id = cond_op_id(*old(m), *old(cond_op));
            &&& r == Ok::<i32, MachineStop>(0)
            &&& (old(cond_op).word_u32(4) != 0 && cond_op_waiters(*old(m), *old(cond_op)).len()
                == 0 ==> final(m).unchanged_from(*old(m)))
            &&& (old(cond_op).word_u32(4) == 0 ==> final(m).sy().valid_condvar(id) && final(m).sy().condvar(id).waiters@.len() == 0 && final(m).threads.same_but_sync(
                old(m).threads,
            ) && final(m).sy().mutexes@ == old(m).sy().mutexes@ && final(m).sy().rwlocks@ == old(
                m,
            ).sy().rwlocks@ && final(m).sy().condvars@.len() == old(m).sy().condvars@.len() + 1
                && (forall|j: int|
                0 <= j < old(m).sy().condvars@.len() ==> #[trigger] final(m).sy().condvars@[j]
                    == old(m).sy().condvars@[j]))
            &&& (cond_op_waiters(*old(m), *old(cond_op)).len() > 0 ==> {
                let h = cond_op_waiters(*old(m), *old(cond_op))[0].thread;
                let mu = cond_op_waiters(*old(m), *old(cond_op))[0].mutex;
                &&& final(m).sy().condvar(id).waiters@ == cond_op_waiters(
                    *old(m),
                    *old(cond_op),
                ).remove(0)
                &&& final(m).threads.timeout_callbacks@ == old(m).threads.timeout_callbacks@.update(
                    h.0 as int,
                    Option::<crate::thread::TimeoutCallbackInfo>::None,
                )
                &&& (old(m).sy().mutex(mu).owner is Some ==> {
                    &&& final(m).threads.threads@ == old(m).threads.threads@
                    &&& final(m).sy().mutex(mu).queue@ == old(m).sy().mutex(mu).queue@.push(h)
                    &&& final(m).sy().mutex(mu).owner == old(m).sy().mutex(mu).owner
                })
                &&& (old(m).sy().mutex(mu).owner is None ==> {
                    &&& final(m).threads.threads@ == old(m).threads.threads@.update(
                        h.0 as int,
                        (crate::thread::Thread {
                            state: ThreadState::Enabled,
                            ..old(m).threads.thread(h)
                        }),
                    )
                    &&& final(m).sy().mutex(mu).owner == Some(h)
                    &&& final(m).sy().mutex(mu).lock_count == 1
                })
            })
        },
{
    let id = match cond_get_or_create_id(m, cond_op) {
        Ok(i) => i,
        Err(e) => {
            return Err(e);
        },
    };
    let ghost mid = *m;
    match m.threads.sync.condvar_signal(id) {
        Some((thread, mutex)) => {
            proof {
                assert(condvar_rec_wf(mid.sy().condvars@[id.idx()], mid.n(), mid.sy()));
                crate::sync::lemma_count_waiters_positive(mid.sy().condvar(id).waiters@, thread, 0);
                lemma_thread_in_condvar(mid, id, thread);
                assert(mutex_rec_wf(mid.sy().mutexes@[mutex.idx()]));
            }
            reacquire_cond_mutex(m, thread, mutex);
            m.threads.unregister_timeout_callback_if_exists(thread);
            proof {
                lemma_inv_after_condvar_wake(mid, *m, id, thread, mutex, 0);
            }
            Ok(0)
        },
        None => {
            proof {
                crate::machine::lemma_inv_unchanged(mid, *m);
            }
            Ok(0)
        },
    }
}

/// Broadcast on a condvar: signal until no waiter is left. Always succeeds;
/// in particular a broadcast on an empty condvar does nothing, and two
/// broadcasts in a row both return 0.
/// The threads among the waiters `ws` that must reacquire mutex `mu`, in
/// FIFO order.
pub open spec fn waiters_for(ws: Seq<crate::sync::CondvarWaiter>, mu: MutexId) -> Seq<ThreadId>
    decreases ws.len(),
{
    if ws.len() == 0 {
        Seq::empty()
    } else if ws.last().mutex == mu {
        waiters_for(ws.drop_last(), mu).push(ws.last().thread)
    } else {
        waiters_for(ws.drop_last(), mu)
    }
}

/// Appending a waiter extends its own mutex's FIFO list and no other.
proof fn lemma_waiters_for_push(
    ws: Seq<crate::sync::CondvarWaiter>,
    x: crate::sync::CondvarWaiter,
    mu: MutexId,
)
    ensures
        x.mutex == mu ==> waiters_for(ws.push(x), mu) == waiters_for(ws, mu).push(x.thread),
        x.mutex != mu ==> waiters_for(ws.push(x), mu) == waiters_for(ws, mu),
{
    assert(ws.push(x).drop_last() =~= ws);
}

/// A mutex no waiter names has an empty FIFO list.
proof fn lemma_waiters_for_absent(ws: Seq<crate::sync::CondvarWaiter>, mu: MutexId)
    requires
        forall|q: int| 0 <= q < ws.len() ==> (#[trigger] ws[q]).mutex != mu,
    ensures
        waiters_for(ws, mu).len() == 0,
    decreases ws.len(),
{
    if ws.len() > 0 {
        lemma_waiters_for_absent(ws.drop_last(), mu);
    }
}

/// An empty FIFO list means no waiter names the mutex.
proof fn lemma_waiters_for_empty_no_entry(ws: Seq<crate::sync::CondvarWaiter>, mu: MutexId)
    requires
        waiters_for(ws, mu).len() == 0,
    ensures
        forall|q: int| 0 <= q < ws.len() ==> (#[trigger] ws[q]).mutex != mu,
    decreases ws.len(),
{
    if ws.len() > 0 {
        lemma_waiters_for_empty_no_entry(ws.drop_last(), mu);
        assert forall|q: int| 0 <= q < ws.len() implies (#[trigger] ws[q]).mutex != mu by {
            if q < ws.len() - 1 {
                assert(ws.drop_last()[q] == ws[q]);
            } else {
                assert(ws[q] == ws.last());
            }
        }
    }
}

/// Waiter `p` of the list `ws` is granted its mutex by a broadcast over
/// the machine state `sy0`: it is the first waiter of that mutex, and the
/// mutex was unlocked when the broadcast began.
pub open spec fn broadcast_grants(
    sy0: crate::sync::SynchronizationState,
    ws: Seq<crate::sync::CondvarWaiter>,
    p: int,
) -> bool {
    &&& 0 <= p < ws.len()
    &&& sy0.mutex(ws[p].mutex).owner is None
    &&& forall|q: int| 0 <= q < p ==> (#[trigger] ws[q]).mutex != ws[p].mutex
}

/// Some waiter in `ws` is thread `j`.
pub open spec fn waiter_thread_present(ws: Seq<crate::sync::CondvarWaiter>, j: int) -> bool {
    exists|p: int| 0 <= p < ws.len() && (#[trigger] ws[p]).thread.0 == j
}

/// Some waiter in `ws` is thread `j` and is granted its mutex.
pub open spec fn waiter_thread_granted(
    sy0: crate::sync::SynchronizationState,
    ws: Seq<crate::sync::CondvarWaiter>,
    j: int,
) -> bool {
    exists|p: int| #[trigger] broadcast_grants(sy0, ws, p) && ws[p].thread.0 == j
}

/// What a broadcast over the waiters `ws` makes of the mutex at table
/// index `i`: untouched if no waiter names it; otherwise its FIFO list of
/// waiters is appended to the queue — except that, if the mutex was
/// unlocked, the first of them takes the mutex instead.
pub open spec fn broadcast_mutex_effect(
    sy0: crate::sync::SynchronizationState,
    ws_all: Seq<crate::sync::CondvarWaiter>,
    i: int,
    post_rec: crate::sync::Mutex,
) -> bool {
    let ws = waiters_for(ws_all, MutexId((i + 1) as u32));
    &&& (ws.len() == 0 ==> post_rec == sy0.mutexes@[i])
    &&& (ws.len() > 0 && sy0.mutexes@[i].owner is Some ==> {
        &&& post_rec.owner == sy0.mutexes@[i].owner
        &&& post_rec.lock_count == sy0.mutexes@[i].lock_count
        &&& post_rec.queue@ == sy0.mutexes@[i].queue@ + ws
    })
    &&& (ws.len() > 0 && sy0.mutexes@[i].owner is None ==> {
        &&& post_rec.owner == Some(ws[0])
        &&& post_rec.lock_count == 1
        &&& post_rec.queue@ == sy0.mutexes@[i].queue@ + ws.drop_first()
    })
}

pub fn pthread_cond_broadcast<F>(m: &mut Machine<F>, cond_op: &mut GuestRegion) -> (r: Result<
    i32,
    MachineStop,
>)
    requires
        old(m).inv(),
        old(m).sy().condvars@.len() < u32::MAX,
        old(m).sy().mutexes@.len() <= u32::MAX,
        old(cond_op).len() >= PTHREAD_COND_T_MIN_SIZE,
        cond_id_field_ok(*old(m), *old(cond_op)),
    ensures
        final(m).inv(),
        final(m).same_config(*old(m)),
        final(cond_op).len() == old(cond_op).len(),
        !old(cond_op).word_defined(4) ==> r == Err::<i32, MachineStop>(
            MachineStop::UndefinedBehavior,
        ) && final(m).unchanged_from(*old(m)) && *final(cond_op) == *old(cond_op),
        old(cond_op).word_defined(4) && old(cond_op).word_u32(4) != 0 ==> *final(cond_op) == *old(
            cond_op,
        ),
        old(cond_op).word_defined(4) && old(cond_op).word_u32(4) == 0 ==> {
            &&& final(cond_op).word_defined(4)
            &&& final(cond_op).word_u32(4) == cond_op_id(*old(m), *old(cond_op)).0
            &&& final(cond_op).same_outside_word(*old(cond_op), 4)
        },
        old(cond_op).word_defined(4) ==> {
            let id = cond_op_id(*old(m), *old(cond_op));
            &&& r == Ok::<i32, MachineStop>(0)
            &&& final(m).sy().valid_condvar(id)
            &&& final(m).sy().condvar(id).waiters@.len() == 0
            &&& final(m).sy().rwlocks@ == old(m).sy().rwlocks@
            &&& final(m).threads.active_thread == old(m).threads.active_thread
            &&& final(m).threads.yield_active_thread == old(m).threads.yield_active_thread
            &&& final(m).threads.thread_local_alloc_ids@ == old(m).threads.thread_local_alloc_ids@
            &&& (old(cond_op).word_u32(4) != 0 && cond_op_waiters(*old(m), *old(cond_op)).len()
                == 0 ==> final(m).unchanged_from(*old(m)))
            &&& (old(cond_op).word_u32(4) == 0 ==> final(m).threads.same_but_sync(old(m).threads)
                && final(m).sy().mutexes@ == old(m).sy().mutexes@ && final(m).sy().condvars@.len()
                == old(m).sy().condvars@.len() + 1 && (forall|j: int|
                0 <= j < old(m).sy().condvars@.len() ==> #[trigger] final(m).sy().condvars@[j]
                    == old(m).sy().condvars@[j]))
            &&& forall|j: int|
                0 <= j < old(m).sy().condvars@.len() && j != id.idx()
                    ==> #[trigger] final(m).sy().condvars@[j] == old(m).sy().condvars@[j]
            &&& ({
                let w0 = cond_op_waiters(*old(m), *old(cond_op));
                &&& final(m).threads.timeout_callbacks@.len() == old(
                    m,
                ).threads.timeout_callbacks@.len()
                &&& forall|j: int|
                    0 <= j < old(m).threads.timeout_callbacks@.len()
                        ==> (#[trigger] final(m).threads.timeout_callbacks@[j]) == (
                    if waiter_thread_present(w0, j) {
                        Option::<crate::thread::TimeoutCallbackInfo>::None
                    } else {
                        old(m).threads.timeout_callbacks@[j]
                    })
                &&& final(m).threads.threads@.len() == old(m).threads.threads@.len()
                &&& forall|j: int|
                    0 <= j < old(m).threads.threads@.len()
                        ==> (#[trigger] final(m).threads.threads@[j]) == (
                    if waiter_thread_granted(old(m).sy(), w0, j) {
                        crate::thread::Thread {
                            state: ThreadState::Enabled,
                            ..old(m).threads.threads@[j]
                        }
                    } else {
                        old(m).threads.threads@[j]
                    })
                &&& final(m).sy().mutexes@.len() == old(m).sy().mutexes@.len()
                &&& forall|i: int|
                    0 <= i < old(m).sy().mutexes@.len() ==> broadcast_mutex_effect(
                        old(m).sy(),
                        w0,
                        i,
                        #[trigger] final(m).sy().mutexes@[i],
                    )
            })
        },
{
    let id = match cond_get_or_create_id(m, cond_op) {
        Ok(i) => i,
        Err(e) => {
            return Err(e);
        },
    };
    let ghost w0 = m.sy().condvar(id).waiters@;
    let ghost mut done: int = 0;
    proof {
        assert(w0.subrange(0, 0) =~= Seq::<crate::sync::CondvarWaiter>::empty());
        assert(w0.subrange(0, w0.len() as int) =~= w0);
        assert forall|i: int|
            0 <= i < old(m).sy().mutexes@.len() implies broadcast_mutex_effect(
            old(m).sy(),
            w0.subrange(0, 0),
            i,
            #[trigger] m.sy().mutexes@[i],
        ) by {
            lemma_waiters_for_absent(w0.subrange(0, 0), MutexId((i + 1) as u32));
        }
    }
    let mut awaited = m.threads.sync.condvar_is_awaited(id);
    while awaited
        invariant
            m.inv(),
            old(m).inv(),
            m.sy().valid_condvar(id),
            m.same_config(*old(m)),
            m.threads.active_thread == old(m).threads.active_thread,
            m.threads.yield_active_thread == old(m).threads.yield_active_thread,
            m.threads.thread_local_alloc_ids@ == old(m).threads.thread_local_alloc_ids@,
            m.sy().rwlocks@ == old(m).sy().rwlocks@,
            awaited == (m.sy().condvar(id).waiters@.len() > 0),
            id == cond_op_id(*old(m), *old(cond_op)),
            w0 == cond_op_waiters(*old(m), *old(cond_op)),
            old(m).sy().mutexes@.len() <= u32::MAX,
            old(cond_op).word_defined(4) && old(cond_op).word_u32(4) != 0 && w0.len() == 0
                ==> m.unchanged_from(*old(m)),
            old(cond_op).word_defined(4) && old(cond_op).word_u32(4) == 0 ==> {
                &&& m.threads.same_but_sync(old(m).threads)
                &&& m.sy().mutexes@ == old(m).sy().mutexes@
            },
            0 <= done <= w0.len(),
            m.sy().condvar(id).waiters@ == w0.subrange(done, w0.len() as int),
            m.sy().condvars@.len() == old(m).sy().condvars@.len() + (
            if old(cond_op).word_defined(4) && old(cond_op).word_u32(4) == 0 {
                1int
            } else {
                0int
            }),
            forall|j: int|
                0 <= j < old(m).sy().condvars@.len() && j != id.idx()
                    ==> #[trigger] m.sy().condvars@[j] == old(m).sy().condvars@[j],
            m.threads.timeout_callbacks@.len() == old(m).threads.timeout_callbacks@.len(),
            forall|j: int|
                0 <= j < old(m).threads.timeout_callbacks@.len()
                    ==> (#[trigger] m.threads.timeout_callbacks@[j]) == (
                if waiter_thread_present(w0.subrange(0, done), j) {
                    Option::<crate::thread::TimeoutCallbackInfo>::None
                } else {
                    old(m).threads.timeout_callbacks@[j]
                }),
            m.threads.threads@.len() == old(m).threads.threads@.len(),
            forall|j: int|
                0 <= j < old(m).threads.threads@.len() ==> (#[trigger] m.threads.threads@[j]) == (
                if waiter_thread_granted(old(m).sy(), w0.subrange(0, done), j) {
                    crate::thread::Thread {
                        state: ThreadState::Enabled,
                        ..old(m).threads.threads@[j]
                    }
                } else {
                    old(m).threads.threads@[j]
                }),
            m.sy().mutexes@.len() == old(m).sy().mutexes@.len(),
            forall|i: int|
                0 <= i < old(m).sy().mutexes@.len() ==> broadcast_mutex_effect(
                    old(m).sy(),
                    w0.subrange(0, done),
                    i,
                    #[trigger] m.sy().mutexes@[i],
                ),
        decreases m.sy().condvar(id).waiters@.len(),
    {
        let ghost mid = *m;
        let ghost prefix = w0.subrange(0, done);
        match m.threads.sync.condvar_signal(id) {
            Some((thread, mutex)) => {
                proof {
                    assert(mid.sy().condvar(id).waiters@[0] == w0[done]);
                    assert(thread == w0[done].thread && mutex == w0[done].mutex);
                    assert(condvar_rec_wf(mid.sy().condvars@[id.idx()], mid.n(), mid.sy()));
                    crate::sync::lemma_count_waiters_positive(
                        mid.sy().condvar(id).waiters@,
                        thread,
                        0,
                    );
                    lemma_thread_in_condvar(mid, id, thread);
                    assert(mutex_rec_wf(mid.sy().mutexes@[mutex.idx()]));
                    // This waiter was not handled before: it still waits on
                    // the condvar, so it is blocked — a thread the broadcast
                    // already granted its mutex would be enabled.
                    assert(!waiter_thread_granted(old(m).sy(), prefix, thread.0 as int)) by {
                        if waiter_thread_granted(old(m).sy(), prefix, thread.0 as int) {
                            assert(mid.threads.threads@[thread.0 as int].state
                                == ThreadState::Enabled);
                        }
                    }
                    assert(mid.threads.threads@[thread.0 as int] == old(
                        m,
                    ).threads.threads@[thread.0 as int]);
                }
                reacquire_cond_mutex(m, thread, mutex);
                m.threads.unregister_timeout_callback_if_exists(thread);
                proof {
                    lemma_inv_after_condvar_wake(mid, *m, id, thread, mutex, 0);
                    let prefix2 = w0.subrange(0, done + 1);
                    assert(prefix2 =~= prefix.push(w0[done]));
                    let granted = mid.sy().mutex(mutex).owner is None;
                    // Relate the reacquire branch to the broadcast-start
                    // state of the mutex via the per-mutex invariant.
                    assert(broadcast_mutex_effect(
                        old(m).sy(),
                        prefix,
                        mutex.idx(),
                        mid.sy().mutexes@[mutex.idx()],
                    ));
                    let ws_pre = waiters_for(prefix, mutex);
                    if granted {
                        assert(ws_pre.len() == 0 || old(m).sy().mutexes@[mutex.idx()].owner
                            is None);
                        if ws_pre.len() > 0 {
                            assert(mid.sy().mutexes@[mutex.idx()].owner is Some);
                            assert(false);
                        }
                        lemma_waiters_for_empty_no_entry(prefix, mutex);
                        assert(broadcast_grants(old(m).sy(), w0, done)) by {
                            assert forall|q: int| 0 <= q < done implies (#[trigger] w0[q]).mutex
                                != mutex by {
                                assert(prefix[q] == w0[q]);
                            }
                        }
                    } else {
                        assert(!broadcast_grants(old(m).sy(), w0, done)) by {
                            if broadcast_grants(old(m).sy(), w0, done) {
                                assert forall|q: int|
                                    0 <= q < prefix.len() implies (#[trigger] prefix[q]).mutex
                                    != mutex by {
                                    assert(prefix[q] == w0[q]);
                                }
                                lemma_waiters_for_absent(prefix, mutex);
                                assert(mid.sy().mutexes@[mutex.idx()] == old(
                                    m,
                                ).sy().mutexes@[mutex.idx()]);
                            }
                        }
                    }
                    // Callback table: this waiter's slot is cleared.
                    assert forall|j: int|
                        0 <= j < old(m).threads.timeout_callbacks@.len() implies (
                    #[trigger] m.threads.timeout_callbacks@[j]) == (if waiter_thread_present(
                        prefix2,
                        j,
                    ) {
                        Option::<crate::thread::TimeoutCallbackInfo>::None
                    } else {
                        old(m).threads.timeout_callbacks@[j]
                    }) by {
                        if j == thread.0 as int {
                            assert(prefix2[done] == w0[done]);
                            assert(waiter_thread_present(prefix2, j));
                        } else {
                            assert(waiter_thread_present(prefix2, j) == waiter_thread_present(
                                prefix,
                                j,
                            )) by {
                                if waiter_thread_present(prefix, j) {
                                    let p = choose|p: int|
                                        0 <= p < prefix.len() && (#[trigger] prefix[p]).thread.0
                                            == j;
                                    assert(prefix2[p] == prefix[p]);
                                    assert(waiter_thread_present(prefix2, j));
                                }
                                if waiter_thread_present(prefix2, j) {
                                    let p = choose|p: int|
                                        0 <= p < prefix2.len() && (#[trigger] prefix2[p]).thread.0
                                            == j;
                                    assert(p != done);
                                    assert(prefix[p] == prefix2[p]);
                                    assert(waiter_thread_present(prefix, j));
                                }
                            }
                        }
                    }
                    // Thread table: granted waiters are enabled, the rest
                    // keep their broadcast-start state.
                    assert forall|j: int|
                        0 <= j < old(m).threads.threads@.len() implies (
                    #[trigger] m.threads.threads@[j]) == (if waiter_thread_granted(
                        old(m).sy(),
                        w0.subrange(0, done + 1),
                        j,
                    ) {
                        crate::thread::Thread {
                            state: ThreadState::Enabled,
                            ..old(m).threads.threads@[j]
                        }
                    } else {
                        old(m).threads.threads@[j]
                    }) by {
                        assert(waiter_thread_granted(old(m).sy(), prefix2, j)
                            == (waiter_thread_granted(old(m).sy(), prefix, j) || (granted && j
                            == thread.0 as int))) by {
                            if waiter_thread_granted(old(m).sy(), prefix, j) {
                                let p = choose|p: int|
                                    #[trigger] broadcast_grants(old(m).sy(), prefix, p)
                                        && prefix[p].thread.0 == j;
                                assert(prefix2[p] == prefix[p]);
                                assert forall|q: int|
                                    0 <= q < p implies (#[trigger] prefix2[q]).mutex
                                    != prefix2[p].mutex by {
                                    assert(prefix2[q] == prefix[q]);
                                }
                                assert(broadcast_grants(old(m).sy(), prefix2, p));
                                assert(waiter_thread_granted(old(m).sy(), prefix2, j));
                            }
                            if granted && j == thread.0 as int {
                                assert(prefix2[done] == w0[done]);
                                assert forall|q: int|
                                    0 <= q < done implies (#[trigger] prefix2[q]).mutex
                                    != prefix2[done].mutex by {
                                    assert(prefix2[q] == prefix[q]);
                                    assert(prefix[q] == w0[q]);
                                }
                                assert(broadcast_grants(old(m).sy(), prefix2, done));
                                assert(waiter_thread_granted(old(m).sy(), prefix2, j));
                            }
                            if waiter_thread_granted(old(m).sy(), prefix2, j) {
                                let p = choose|p: int|
                                    #[trigger] broadcast_grants(old(m).sy(), prefix2, p)
                                        && prefix2[p].thread.0 == j;
                                if p < done {
                                    assert(prefix[p] == prefix2[p]);
                                    assert forall|q: int|
                                        0 <= q < p implies (#[trigger] prefix[q]).mutex
                                        != prefix[p].mutex by {
                                        assert(prefix2[q] == prefix[q]);
                                    }
                                    assert(broadcast_grants(old(m).sy(), prefix, p));
                                    assert(waiter_thread_granted(old(m).sy(), prefix, j));
                                } else {
                                    assert(p == done);
                                    assert(prefix2[done] == w0[done]);
                                    assert(j == thread.0 as int);
                                    assert(old(m).sy().mutex(mutex).owner is None);
                                    assert forall|q: int|
                                        0 <= q < prefix.len() implies (#[trigger] prefix[q]).mutex
                                        != mutex by {
                                        assert(prefix2[q] == prefix[q]);
                                    }
                                    lemma_waiters_for_absent(prefix, mutex);
                                    assert(mid.sy().mutexes@[mutex.idx()] == old(
                                        m,
                                    ).sy().mutexes@[mutex.idx()]);
                                    assert(granted);
                                }
                            }
                        }
                    }
                    // Mutex table: only this waiter's mutex changed, by one
                    // more FIFO entry (or the grant).
                    assert forall|i: int|
                        0 <= i < old(m).sy().mutexes@.len() implies broadcast_mutex_effect(
                        old(m).sy(),
                        prefix2,
                        i,
                        #[trigger] m.sy().mutexes@[i],
                    ) by {
                        let mui = MutexId((i + 1) as u32);
                        lemma_waiters_for_push(prefix, w0[done], mui);
                        assert(broadcast_mutex_effect(
                            old(m).sy(),
                            prefix,
                            i,
                            mid.sy().mutexes@[i],
                        ));
                        if i != mutex.idx() {
                            assert(mui != mutex);
                            assert(m.sy().mutexes@[i] == mid.sy().mutexes@[i]);
                            assert(waiters_for(prefix2, mui) == waiters_for(prefix, mui));
                        } else {
                            assert(mui == mutex);
                            let ws2 = waiters_for(prefix2, mutex);
                            assert(ws2 == waiters_for(prefix, mutex).push(thread));
                            if granted {
                                assert(waiters_for(prefix, mutex).len() == 0);
                                assert(ws2 =~= seq![thread]);
                                assert(m.sy().mutexes@[i].owner == Some(thread));
                                assert(m.sy().mutexes@[i].lock_count == 1);
                                assert(m.sy().mutexes@[i].queue@ =~= old(
                                    m,
                                ).sy().mutexes@[i].queue@ + ws2.drop_first());
                            } else {
                                let ws = waiters_for(prefix, mutex);
                                if ws.len() == 0 {
                                    assert(mid.sy().mutexes@[i] == old(m).sy().mutexes@[i]);
                                    assert(old(m).sy().mutexes@[i].owner is Some);
                                    assert(m.sy().mutexes@[i].queue@ =~= old(
                                        m,
                                    ).sy().mutexes@[i].queue@ + ws2);
                                } else if old(m).sy().mutexes@[i].owner is Some {
                                    assert(m.sy().mutexes@[i].queue@ =~= old(
                                        m,
                                    ).sy().mutexes@[i].queue@ + ws2);
                                } else {
                                    assert(ws2.drop_first() =~= ws.drop_first().push(thread));
                                    assert(m.sy().mutexes@[i].queue@ =~= old(
                                        m,
                                    ).sy().mutexes@[i].queue@ + ws2.drop_first());
                                    assert(ws2[0] == ws[0]);
                                }
                            }
                        }
                    }
                    assert(m.sy().condvar(id).waiters@ =~= w0.subrange(done + 1, w0.len() as int));
                    done = done + 1;
                }
            },
            None => {
                proof {
                    assert(false);
                }
            },
        }
        awaited = m.threads.sync.condvar_is_awaited(id);
    }
    proof {
        assert(done == w0.len());
        assert(w0.subrange(0, done) =~= w0);
    }
    Ok(0)
}

/// Wait on a condvar: release the mutex (which the active thread must hold
/// exactly once) — handing it to its first queued waiter, if any — append
/// the active thread to the condvar's waiter list, and block.
pub fn pthread_cond_wait<F>(
    m: &mut Machine<F>,
    cond_op: &mut GuestRegion,
    mutex_op: &mut GuestRegion,
) -> (r: Result<i32, MachineStop>)
    requires
        old(m).inv(),
        old(m).threads.thread(old(m).threads.active_thread).state == ThreadState::Enabled,
        old(m).sy().condvars@.len() < u32::MAX,
        old(m).sy().mutexes@.len() < u32::MAX,
        old(cond_op).len() >= PTHREAD_COND_T_MIN_SIZE,
        old(mutex_op).len() >= PTHREAD_MUTEX_T_MIN_SIZE,
        cond_id_field_ok(*old(m), *old(cond_op)),
        mutex_id_field_ok(*old(m), *old(mutex_op)),
    ensures
        final(m).inv(),
        final(m).same_config(*old(m)),
        final(cond_op).len() == old(cond_op).len(),
        final(mutex_op).len() == old(mutex_op).len(),
        !old(cond_op).word_defined(4) ==> r == Err::<i32, MachineStop>(
            MachineStop::UndefinedBehavior,
        ) && final(m).unchanged_from(*old(m)),
        old(cond_op).word_defined(4) && !old(mutex_op).word_defined(4) ==> r == Err::<
            i32,
            MachineStop,
        >(MachineStop::UndefinedBehavior),
        old(cond_op).word_defined(4) && old(cond_op).word_u32(4) != 0 ==> *final(cond_op) == *old(
            cond_op,
        ),
        old(cond_op).word_defined(4) && old(cond_op).word_u32(4) == 0 ==> {
            &&& final(cond_op).word_defined(4)
            &&& final(cond_op).word_u32(4) == cond_op_id(*old(m), *old(cond_op)).0
            &&& final(cond_op).same_outside_word(*old(cond_op), 4)
        },
        old(cond_op).word_defined(4) && old(mutex_op).word_defined(4) && old(mutex_op).word_u32(4)
            != 0 ==> *final(mutex_op) == *old(mutex_op),
        old(cond_op).word_defined(4) && old(mutex_op).word_defined(4) && old(mutex_op).word_u32(4)
            == 0 ==> {
            &&& final(mutex_op).word_defined(4)
            &&& final(mutex_op).word_u32(4) == mutex_op_id(*old(m), *old(mutex_op)).0
            &&& final(mutex_op).same_outside_word(*old(mutex_op), 4)
        },
        old(cond_op).word_defined(4) && old(mutex_op).word_defined(4) ==> {
            let id = cond_op_id(*old(m), *old(cond_op));
            let mu = mutex_op_id(*old(m), *old(mutex_op));
            let a = old(m).threads.active_thread;
            &&& (mutex_op_owner(*old(m), *old(mutex_op)) is None ==> r == Err::<i32, MachineStop>(
                MachineStop::UndefinedBehavior,
            ))
            &&& (mutex_op_owner(*old(m), *old(mutex_op)) is Some && mutex_op_count(
                *old(m),
                *old(mutex_op),
            ) > 1 ==> r == Err::<i32, MachineStop>(MachineStop::Unsupported))
            &&& ((mutex_op_owner(*old(m), *old(mutex_op)) matches Some(o) && mutex_op_count(
                *old(m),
                *old(mutex_op),
            ) == 1 && o != a) ==> r == Err::<i32, MachineStop>(MachineStop::UndefinedBehavior))
            &&& ((mutex_op_owner(*old(m), *old(mutex_op)) == Some(a) && mutex_op_count(
                *old(m),
                *old(mutex_op),
            ) == 1) ==> {
                &&& r == Ok::<i32, MachineStop>(0)
                &&& final(m).sy().condvar(id).waiters@ == cond_op_waiters(
                    *old(m),
                    *old(cond_op),
                ).push((crate::sync::CondvarWaiter { thread: a, mutex: mu }))
                &&& final(m).threads.thread(a).state == ThreadState::BlockedOnSync
                &&& final(m).threads.timeout_callbacks@ == old(m).threads.timeout_callbacks@
                &&& final(m).threads.active_thread == old(m).threads.active_thread
                &&& final(m).threads.yield_active_thread == old(m).threads.yield_active_thread
                &&& final(m).threads.thread_local_alloc_ids@ == old(
                    m,
                ).threads.thread_local_alloc_ids@
                &&& final(m).sy().rwlocks@ == old(m).sy().rwlocks@
                &&& final(m).sy().mutexes@.len() == old(m).sy().mutexes@.len() + (
                if old(mutex_op).word_u32(4) == 0 {
                    1int
                } else {
                    0int
                })
                &&& forall|j: int|
                    0 <= j < old(m).sy().mutexes@.len() && j != mu.idx()
                        ==> #[trigger] final(m).sy().mutexes@[j] == old(m).sy().mutexes@[j]
                &&& final(m).sy().condvars@.len() == old(m).sy().condvars@.len() + (
                if old(cond_op).word_u32(4) == 0 {
                    1int
                } else {
                    0int
                })
                &&& forall|j: int|
                    0 <= j < old(m).sy().condvars@.len() && j != id.idx()
                        ==> #[trigger] final(m).sy().condvars@[j] == old(m).sy().condvars@[j]
                &&& (mutex_op_queue(*old(m), *old(mutex_op)).len() == 0 ==> {
                    &&& final(m).threads.threads@ == old(m).threads.threads@.update(
                        a.0 as int,
                        (crate::thread::Thread {
                            state: ThreadState::BlockedOnSync,
                            ..old(m).threads.thread(a)
                        }),
                    )
                    &&& final(m).sy().mutex(mu).owner is None
                    &&& final(m).sy().mutex(mu).lock_count == 0
                    &&& final(m).sy().mutex(mu).queue@ == mutex_op_queue(*old(m), *old(mutex_op))
                })
                &&& (mutex_op_queue(*old(m), *old(mutex_op)).len() > 0 ==> {
                    &&& final(m).threads.threads@ == old(m).threads.threads@.update(
                        a.0 as int,
                        (crate::thread::Thread {
                            state: ThreadState::BlockedOnSync,
                            ..old(m).threads.thread(a)
                        }),
                    ).update(
                        mutex_op_queue(*old(m), *old(mutex_op))[0].0 as int,
                        (crate::thread::Thread {
                            state: ThreadState::Enabled,
                            ..old(m).threads.thread(mutex_op_queue(*old(m), *old(mutex_op))[0])
                        }),
                    )
                    &&& final(m).sy().mutex(mu).owner == Some(
                        mutex_op_queue(*old(m), *old(mutex_op))[0],
                    )
                    &&& final(m).sy().mutex(mu).lock_count == 1
                    &&& final(m).sy().mutex(mu).queue@ == mutex_op_queue(
                        *old(m),
                        *old(mutex_op),
                    ).remove(0)
                    &&& final(m).threads.thread(
                        mutex_op_queue(*old(m), *old(mutex_op))[0],
                    ).state == ThreadState::Enabled
                })
            })
        },
{
    let id = match cond_get_or_create_id(m, cond_op) {
        Ok(i) => i,
        Err(e) => {
            return Err(e);
        },
    };
    let mutex_id = match mutex_get_or_create_id(m, mutex_op) {
        Ok(i) => i,
        Err(e) => {
            return Err(e);
        },
    };
    let active_thread = m.threads.get_active_thread_id();
    let ghost mid = *m;
    match release_cond_mutex(m, active_thread, mutex_id) {
        Ok(()) => {},
        Err(e) => {
            return Err(e);
        },
    }
    m.threads.sync.condvar_wait(id, active_thread, mutex_id);
    proof {
        lemma_inv_after_wait_enqueue(mid, *m, id, mutex_id, active_thread);
        if mid.sy().mutex(mutex_id).queue@.len() > 0 {
            assert(mutex_rec_wf(mid.sy().mutexes@[mutex_id.idx()]));
            crate::sync::lemma_count_tid_zero(mid.sy().mutex(mutex_id).queue@, active_thread);
            assert(mid.sy().mutex(mutex_id).queue@[0] != active_thread);
        }
    }
    Ok(0)
}

/// Timed wait on a condvar: as `pthread_cond_wait`, and additionally
/// register a one-shot timeout at the given absolute time, interpreted on
/// the condvar's stored clock. The host writes 0 (success) into the guest's
/// return slot now; if the timeout fires first, its callback reports
/// ETIMEDOUT for the host to write instead. Reading the wall clock needs
/// the machine to be allowed to observe the host.
pub fn pthread_cond_timedwait<F>(
    m: &mut Machine<F>,
    cond_op: &mut GuestRegion,
    mutex_op: &mut GuestRegion,
    abstime_seconds: u64,
    abstime_nanos: u32,
) -> (r: Result<i32, MachineStop>)
    requires
        old(m).inv(),
        old(m).threads.thread(old(m).threads.active_thread).state == ThreadState::Enabled,
        old(m).sy().condvars@.len() < u32::MAX,
        old(m).sy().mutexes@.len() < u32::MAX,
        old(cond_op).len() >= PTHREAD_COND_T_MIN_SIZE,
        old(mutex_op).len() >= PTHREAD_MUTEX_T_MIN_SIZE,
        cond_id_field_ok(*old(m), *old(cond_op)),
        mutex_id_field_ok(*old(m), *old(mutex_op)),
    ensures
        final(m).inv(),
        final(m).same_config(*old(m)),
        final(cond_op).len() == old(cond_op).len(),
        final(mutex_op).len() == old(mutex_op).len(),
        !old(m).communicate ==> r == Err::<i32, MachineStop>(MachineStop::Unsupported) && final(m).unchanged_from(*old(m)),
        old(m).communicate && old(cond_op).word_defined(4) && old(cond_op).word_u32(4) != 0 ==> *final(cond_op) == *old(cond_op),
        old(m).communicate && old(cond_op).word_defined(4) && old(cond_op).word_u32(4) == 0 ==> {
            &&& final(cond_op).word_defined(4)
            &&& final(cond_op).word_u32(4) == cond_op_id(*old(m), *old(cond_op)).0
            &&& final(cond_op).same_outside_word(*old(cond_op), 4)
        },
        old(m).communicate && old(cond_op).word_defined(4) && old(mutex_op).word_defined(4)
            && old(mutex_op).word_u32(4) != 0 ==> *final(mutex_op) == *old(mutex_op),
        old(m).communicate && old(cond_op).word_defined(4) && old(mutex_op).word_defined(4)
            && old(mutex_op).word_u32(4) == 0 ==> {
            &&& final(mutex_op).word_defined(4)
            &&& final(mutex_op).word_u32(4) == mutex_op_id(*old(m), *old(mutex_op)).0
            &&& final(mutex_op).same_outside_word(*old(mutex_op), 4)
        },
        old(m).communicate && old(cond_op).word_defined(4) && old(mutex_op).word_defined(4)
            && old(cond_op).word_defined(8) && (mutex_op_owner(*old(m), *old(mutex_op)) == Some(
            old(m).threads.active_thread,
        ) && mutex_op_count(*old(m), *old(mutex_op)) == 1) && !(old(cond_op).word_i32(8)
            == crate::posix::CLOCK_REALTIME || old(cond_op).word_i32(8)
            == crate::posix::CLOCK_MONOTONIC) ==> r == Err::<i32, MachineStop>(
            MachineStop::Unsupported,
        ),
        old(m).communicate && old(cond_op).word_defined(4) && old(mutex_op).word_defined(4)
            && old(cond_op).word_defined(8) && (mutex_op_owner(*old(m), *old(mutex_op)) == Some(
            old(m).threads.active_thread,
        ) && mutex_op_count(*old(m), *old(mutex_op)) == 1) && (old(cond_op).word_i32(8)
            == crate::posix::CLOCK_REALTIME || old(cond_op).word_i32(8)
            == crate::posix::CLOCK_MONOTONIC) ==> {
            let id = cond_op_id(*old(m), *old(cond_op));
            let mu = mutex_op_id(*old(m), *old(mutex_op));
            let a = old(m).threads.active_thread;
            &&& r == Ok::<i32, MachineStop>(0)
            &&& final(m).sy().condvar(id).waiters@ == cond_op_waiters(
                *old(m),
                *old(cond_op),
            ).push((crate::sync::CondvarWaiter { thread: a, mutex: mu }))
            &&& final(m).threads.thread(a).state == ThreadState::BlockedOnSync
            &&& final(m).threads.callback_of(a) == Some(
                (crate::thread::TimeoutCallbackInfo {
                    call_time: (if old(cond_op).word_i32(8) == crate::posix::CLOCK_REALTIME {
                        crate::thread::Time::RealTime(
                            (abstime_seconds as u128 * 1000000000 + abstime_nanos as u128) as u128,
                        )
                    } else {
                        crate::thread::Time::Monotonic(
                            (abstime_seconds as u128 * 1000000000 + abstime_nanos as u128) as u128,
                        )
                    }),
                    callback: (crate::thread::TimeoutCallback::CondTimeout {
                        condvar: id,
                        mutex: mu,
                    }),
                }),
            )
            &&& final(m).threads.timeout_callbacks@ == old(m).threads.timeout_callbacks@.update(
                a.0 as int,
                final(m).threads.callback_of(a),
            )
            &&& final(m).sy().rwlocks@ == old(m).sy().rwlocks@
            &&& final(m).sy().mutexes@.len() == old(m).sy().mutexes@.len()
            &&& forall|j: int|
                0 <= j < old(m).sy().mutexes@.len() && j != mu.idx()
                    ==> #[trigger] final(m).sy().mutexes@[j] == old(m).sy().mutexes@[j]
            &&& final(m).sy().condvars@.len() == old(m).sy().condvars@.len() + (
            if old(cond_op).word_u32(4) == 0 {
                1int
            } else {
                0int
            })
            &&& forall|j: int|
                0 <= j < old(m).sy().condvars@.len() && j != id.idx()
                    ==> #[trigger] final(m).sy().condvars@[j] == old(m).sy().condvars@[j]
            &&& final(m).threads.active_thread == old(m).threads.active_thread
            &&& final(m).threads.yield_active_thread == old(m).threads.yield_active_thread
            &&& final(m).threads.thread_local_alloc_ids@ == old(m).threads.thread_local_alloc_ids@
            &&& (mutex_op_queue(*old(m), *old(mutex_op)).len() == 0 ==> {
                &&& final(m).threads.threads@ == old(m).threads.threads@.update(
                    a.0 as int,
                    (crate::thread::Thread {
                        state: ThreadState::BlockedOnSync,
                        ..old(m).threads.thread(a)
                    }),
                )
                &&& final(m).sy().mutex(mu).owner is None
                &&& final(m).sy().mutex(mu).lock_count == 0
                &&& final(m).sy().mutex(mu).queue@ == mutex_op_queue(*old(m), *old(mutex_op))
            })
            &&& (mutex_op_queue(*old(m), *old(mutex_op)).len() > 0 ==> {
                &&& final(m).threads.threads@ == old(m).threads.threads@.update(
                    a.0 as int,
                    (crate::thread::Thread {
                        state: ThreadState::BlockedOnSync,
                        ..old(m).threads.thread(a)
                    }),
                ).update(
                    mutex_op_queue(*old(m), *old(mutex_op))[0].0 as int,
                    (crate::thread::Thread {
                        state: ThreadState::Enabled,
                        ..old(m).threads.thread(mutex_op_queue(*old(m), *old(mutex_op))[0])
                    }),
                )
                &&& final(m).sy().mutex(mu).owner == Some(
                    mutex_op_queue(*old(m), *old(mutex_op))[0],
                )
                &&& final(m).sy().mutex(mu).lock_count == 1
                &&& final(m).sy().mutex(mu).queue@ == mutex_op_queue(
                    *old(m),
                    *old(mutex_op),
                ).remove(0)
            })
        },
{
    if !m.communicate {
        // Reading the wall clock would let the guest observe the host.
        return Err(MachineStop::Unsupported);
    }
    let id = match cond_get_or_create_id(m, cond_op) {
        Ok(i) => i,
        Err(e) => {
            return Err(e);
        },
    };
    let mutex_id = match mutex_get_or_create_id(m, mutex_op) {
        Ok(i) => i,
        Err(e) => {
            return Err(e);
        },
    };
    proof {
        crate::guest::lemma_word_preserved(*old(cond_op), *cond_op, spec_cond_id_off(), 8);
    }
    let active_thread = m.threads.get_active_thread_id();
    let ghost mid = *m;
    match release_cond_mutex(m, active_thread, mutex_id) {
        Ok(()) => {},
        Err(e) => {
            return Err(e);
        },
    }
    m.threads.sync.condvar_wait(id, active_thread, mutex_id);
    proof {
        lemma_inv_after_wait_enqueue(mid, *m, id, mutex_id, active_thread);
        if mid.sy().mutex(mutex_id).queue@.len() > 0 {
            assert(mutex_rec_wf(mid.sy().mutexes@[mutex_id.idx()]));
            crate::sync::lemma_count_tid_zero(mid.sy().mutex(mutex_id).queue@, active_thread);
            assert(mid.sy().mutex(mutex_id).queue@[0] != active_thread);
        }
    }
    // The host writes 0 (success) into the guest's return slot now; the
    // timeout callback may overwrite it with ETIMEDOUT later.
    let clock_id = match cond_get_clock_id(cond_op) {
        Ok(c) => c,
        Err(e) => {
            return Err(e);
        },
    };
    let abs_nanos: u128 = abstime_seconds as u128 * 1000000000 + abstime_nanos as u128;
    let call_time = if clock_id == crate::posix::CLOCK_REALTIME {
        crate::thread::Time::RealTime(abs_nanos)
    } else if clock_id == crate::posix::CLOCK_MONOTONIC {
        crate::thread::Time::Monotonic(abs_nanos)
    } else {
        // A timed wait on any other clock is not supported.
        return Err(MachineStop::Unsupported);
    };
    let ghost before_register = *m;
    proof {
        lemma_not_blocked_no_waits(mid, active_thread);
    }
    m.threads.register_timeout_callback(
        active_thread,
        call_time,
        crate::thread::TimeoutCallback::CondTimeout { condvar: id, mutex: mutex_id },
    );
    proof {
        assert(before_register.sy().condvar(id).waiters@[before_register.sy().condvar(
            id,
        ).waiters@.len() - 1] == (crate::sync::CondvarWaiter {
            thread: active_thread,
            mutex: mutex_id,
        }));
        assert(exists|p: int|
            0 <= p < before_register.sy().condvar(id).waiters@.len()
                && before_register.sy().condvar(id).waiters@[p] == (crate::sync::CondvarWaiter {
                thread: active_thread,
                mutex: mutex_id,
            }));
        crate::machine::lemma_inv_after_register_condtimeout(
            before_register,
            *m,
            active_thread,
            (crate::thread::TimeoutCallbackInfo {
                call_time,
                callback: (crate::thread::TimeoutCallback::CondTimeout {
                    condvar: id,
                    mutex: mutex_id,
                }),
            }),
            id,
            mutex_id,
        );
    }
    Ok(0)
}

/// Destroy a condvar: undefined behaviour while any thread waits on it;
/// otherwise its guest fields become undefined. A never-used object is
/// first allocated (with no waiters), so destroying it succeeds.
pub fn pthread_cond_destroy<F>(m: &mut Machine<F>, cond_op: &mut GuestRegion) -> (r: Result<
    i32,
    MachineStop,
>)
    requires
        old(m).inv(),
        old(m).sy().condvars@.len() < u32::MAX,
        old(cond_op).len() >= PTHREAD_COND_T_MIN_SIZE,
        cond_id_field_ok(*old(m), *old(cond_op)),
    ensures
        final(m).inv(),
        final(m).same_config(*old(m)),
        final(m).threads.same_but_sync(old(m).threads),
        final(cond_op).len() == old(cond_op).len(),
        !old(cond_op).word_defined(4) ==> r == Err::<i32, MachineStop>(
            MachineStop::UndefinedBehavior,
        ) && final(m).unchanged_from(*old(m)) && *final(cond_op) == *old(cond_op),
        old(cond_op).word_defined(4) ==> {
            &&& (cond_op_waiters(*old(m), *old(cond_op)).len() > 0 ==> r == Err::<
                i32,
                MachineStop,
            >(MachineStop::UndefinedBehavior) && final(m).unchanged_from(*old(m)) && *final(cond_op) == *old(cond_op))
            &&& (cond_op_waiters(*old(m), *old(cond_op)).len() == 0 ==> {
                &&& r == Ok::<i32, MachineStop>(0)
                &&& !final(cond_op).word_defined(4)
                &&& !final(cond_op).word_defined(8)
            })
        },
{
    let id = match cond_get_or_create_id(m, cond_op) {
        Ok(i) => i,
        Err(e) => {
            return Err(e);
        },
    };
    if m.threads.sync.condvar_is_awaited(id) {
        return Err(MachineStop::UndefinedBehavior);
    }
    let ghost after_create = *cond_op;
    cond_op.write_undef_word(4);
    let ghost after_id = *cond_op;
    cond_op.write_undef_word(8);
    proof {
        crate::guest::lemma_word_preserved(after_id, *cond_op, 8, 4);
    }
    Ok(0)
}

} // verus!

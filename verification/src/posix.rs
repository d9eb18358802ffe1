//! POSIX constants and the fatal-error type of the emulation core.
//!
//! Shim operations return `Result<i32, MachineStop>`: `Ok(0)` is success,
//! `Ok(e)` with `e > 0` is a POSIX error number handed back to the guest,
//! and `Err(_)` stops the machine (there is no rollback).
//!
//! The constant values are the Linux x86-64 libc values.

use vstd::prelude::*;

verus! {

/// Reasons for which the whole machine stops at the current step.
#[derive(Clone, Copy, Debug, PartialEq, Eq, Structural)]
pub enum MachineStop {
    /// The guest program exhibited undefined behaviour.
    UndefinedBehavior,
    /// The guest program used a feature the emulation does not support.
    Unsupported,
    /// No guest thread can make progress and no timeout is pending, or a
    /// NORMAL mutex was reacquired by its own owner.
    Deadlock,
}

pub const PTHREAD_MUTEX_NORMAL: i32 = 0;

pub const PTHREAD_MUTEX_RECURSIVE: i32 = 1;

pub const PTHREAD_MUTEX_ERRORCHECK: i32 = 2;

/// On Linux the default mutex kind is the NORMAL kind.
pub const PTHREAD_MUTEX_DEFAULT: i32 = 0;

pub const CLOCK_REALTIME: i32 = 0;

pub const CLOCK_MONOTONIC: i32 = 1;

pub const EPERM: i32 = 1;

pub const EBUSY: i32 = 16;

pub const EINVAL: i32 = 22;

pub const EDEADLK: i32 = 35;

pub const ETIMEDOUT: i32 = 110;

pub const PR_SET_NAME: i32 = 15;

pub const PR_GET_NAME: i32 = 16;

} // verus!

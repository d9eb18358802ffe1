//! Shims for guest clock calls: `clock_gettime`, `gettimeofday` and
//! `mach_absolute_time`, and the time value types they share.
//!
//! The host reads its real clocks and passes plain nanosecond counts in:
//! wall-clock time as nanoseconds since the UNIX epoch, monotonic time as
//! nanoseconds since the host's time anchor. All operations that read the
//! wall clock require the machine to be allowed to observe the host.

use vstd::prelude::*;
use crate::machine::Machine;
use crate::posix::{MachineStop, CLOCK_MONOTONIC, CLOCK_REALTIME, EINVAL};

verus! {

/// A span of time: whole seconds plus a sub-second nanosecond part.
#[derive(Clone, Copy, Debug, PartialEq, Eq, Structural)]
pub struct Duration {
    pub secs: u64,
    pub nanos: u32,
}

impl Duration {
    /// The nanosecond part names less than one second.
    pub open spec fn wf(self) -> bool {
        self.nanos < 1000000000
    }

    /// The whole span in nanoseconds.
    pub open spec fn spec_as_nanos(self) -> int {
        self.secs * 1000000000 + self.nanos
    }
}

/// A wall-clock instant: nanoseconds relative to the UNIX epoch (negative
/// means before the epoch).
#[derive(Clone, Copy, Debug, PartialEq, Eq, Structural)]
pub struct SystemTime {
    pub nanos_since_epoch: i128,
}

/// The time elapsed between the given instant and the UNIX epoch. Times
/// before the epoch are not supported.
pub fn system_time_to_duration(time: &SystemTime) -> (r: Result<Duration, MachineStop>)
    requires
        time.nanos_since_epoch <= u64::MAX * 1000000000 + 999999999,
    ensures
        time.nanos_since_epoch < 0 ==> r == Err::<Duration, MachineStop>(
            MachineStop::Unsupported,
        ),
        time.nanos_since_epoch >= 0 ==> (r matches Ok(d) && d.wf() && d.spec_as_nanos()
            == time.nanos_since_epoch),
{
    if time.nanos_since_epoch < 0 {
        return Err(MachineStop::Unsupported);
    }
    let total = time.nanos_since_epoch as u128;
    let secs = (total / 1000000000) as u64;
    let nanos = (total % 1000000000) as u32;
    Ok(Duration { secs, nanos })
}

/// `clock_gettime`: return `(0, seconds, nanoseconds)` of the requested
/// clock — the wall clock for CLOCK_REALTIME, time since the host's anchor
/// for CLOCK_MONOTONIC. Any other clock id sets `errno` to EINVAL and
/// returns -1 (with meaningless time fields).
pub fn clock_gettime<F>(
    m: &mut Machine<F>,
    clk_id: i32,
    now_real_nanos: u128,
    now_monotonic: u128,
) -> (r: Result<(i32, u64, u32), MachineStop>)
    requires
        old(m).inv(),
        now_real_nanos / 1000000000 <= u64::MAX,
        now_monotonic / 1000000000 <= u64::MAX,
    ensures
        final(m).inv(),
        final(m).threads.unchanged_from(old(m).threads),
        final(m).pointer_bytes == old(m).pointer_bytes,
        final(m).communicate == old(m).communicate,
        !old(m).communicate ==> r == Err::<(i32, u64, u32), MachineStop>(
            MachineStop::Unsupported,
        ) && final(m).last_error == old(m).last_error,
        old(m).communicate ==> {
            &&& clk_id == CLOCK_REALTIME ==> r == Ok::<(i32, u64, u32), MachineStop>(
                (0, (now_real_nanos / 1000000000) as u64, (now_real_nanos % 1000000000) as u32),
            ) && final(m).last_error == old(m).last_error
            &&& clk_id == CLOCK_MONOTONIC ==> r == Ok::<(i32, u64, u32), MachineStop>(
                (0, (now_monotonic / 1000000000) as u64, (now_monotonic % 1000000000) as u32),
            ) && final(m).last_error == old(m).last_error
            &&& (clk_id != CLOCK_REALTIME && clk_id != CLOCK_MONOTONIC) ==> r == Ok::<
                (i32, u64, u32),
                MachineStop,
            > ((-1i32, 0u64, 0u32)) && final(m).last_error == EINVAL
        },
{
    let ghost pre = *m;
    if !m.communicate {
        return Err(MachineStop::Unsupported);
    }
    if clk_id == CLOCK_REALTIME {
        Ok((0, (now_real_nanos / 1000000000) as u64, (now_real_nanos % 1000000000) as u32))
    } else if clk_id == CLOCK_MONOTONIC {
        Ok((0, (now_monotonic / 1000000000) as u64, (now_monotonic % 1000000000) as u32))
    } else {
        m.last_error = EINVAL;
        proof {
            crate::machine::lemma_inv_unchanged(pre, *m);
        }
        Ok((-1i32, 0u64, 0u32))
    }
}

/// `gettimeofday`: return `(0, seconds, microseconds)` of the wall clock.
/// A non-null timezone argument is obsolete: EINVAL and -1.
pub fn gettimeofday<F>(m: &mut Machine<F>, tz_is_null: bool, now_real_nanos: u128) -> (r: Result<
    (i32, u64, u32),
    MachineStop,
>)
    requires
        old(m).inv(),
        now_real_nanos / 1000000000 <= u64::MAX,
    ensures
        final(m).inv(),
        final(m).threads.unchanged_from(old(m).threads),
        final(m).pointer_bytes == old(m).pointer_bytes,
        final(m).communicate == old(m).communicate,
        !old(m).communicate ==> r == Err::<(i32, u64, u32), MachineStop>(
            MachineStop::Unsupported,
        ) && final(m).last_error == old(m).last_error,
        old(m).communicate ==> {
            &&& !tz_is_null ==> r == Ok::<(i32, u64, u32), MachineStop> ((-1i32, 0u64, 0u32)) && final(m).last_error == EINVAL
            &&& tz_is_null ==> r == Ok::<(i32, u64, u32), MachineStop>(
                (
                    0,
                    (now_real_nanos / 1000000000) as u64,
                    ((now_real_nanos % 1000000000) / 1000) as u32,
                ),
            ) && final(m).last_error == old(m).last_error
        },
{
    let ghost pre = *m;
    if !m.communicate {
        return Err(MachineStop::Unsupported);
    }
    if !tz_is_null {
        m.last_error = EINVAL;
        proof {
            crate::machine::lemma_inv_unchanged(pre, *m);
        }
        return Ok((-1i32, 0u64, 0u32));
    }
    Ok((0, (now_real_nanos / 1000000000) as u64, ((now_real_nanos % 1000000000) / 1000) as u32))
}

/// `mach_absolute_time`: plain nanoseconds since the host's time anchor.
/// Programs running longer than 2^64 nanoseconds are not supported.
pub fn mach_absolute_time<F>(m: &Machine<F>, now_monotonic: u128) -> (r: Result<u64, MachineStop>)
    ensures
        !m.communicate ==> r == Err::<u64, MachineStop>(MachineStop::Unsupported),
        m.communicate && now_monotonic > u64::MAX ==> r == Err::<u64, MachineStop>(
            MachineStop::Unsupported,
        ),
        m.communicate && now_monotonic <= u64::MAX ==> r == Ok::<u64, MachineStop>(
            now_monotonic as u64,
        ),
{
    if !m.communicate {
        return Err(MachineStop::Unsupported);
    }
    if now_monotonic > u64::MAX as u128 {
        return Err(MachineStop::Unsupported);
    }
    Ok(now_monotonic as u64)
}

} // verus!

//! Core of a cooperative guest-thread scheduler with POSIX-style
//! synchronization primitives.
//!
//! A single-threaded host interprets a multi-threaded guest program one step
//! at a time. This crate decides which guest thread runs next and emulates
//! the blocking semantics of mutexes, read-write locks, condition variables,
//! thread creation and join, sleep, and timed waits, deterministically.
//!
//! The crate is organized leaves-first:
//! - [`posix`]: libc constants and the fatal-error type;
//! - [`guest`]: the bytes of a primitive's in-guest header;
//! - [`sync`]: the live mutexes, rwlocks and condition variables;
//! - [`thread`]: the thread registry, timeout callbacks, and the scheduler;
//! - [`machine`]: the whole machine, and the invariant every operation
//!   preserves;
//! - [`shims`]: the pthread/libc entry points over all of the above;
//! - [`laws`]: the proved laws of the scheduler and its primitives.
//!
//! The host interpreter itself (instruction stepping, guest memory, clocks,
//! real sleeping) stays outside: functions here take clock readings and
//! already-read guest values as arguments and return what must be written
//! back.

pub mod guest;
pub mod laws;
pub mod machine;
pub mod posix;
pub mod shims;
pub mod sync;
pub mod thread;

//! The POSIX shim layer: the libc-compatible entry points.
//!
//! Each function translates one guest libc call into operations on the
//! thread manager and the synchronization state. Guest memory reads and
//! writes, clock readings and real sleeping belong to the host interpreter:
//! the functions here take the read values (and the bytes of the primitive
//! objects themselves) as arguments.

pub mod sync;
pub mod thread;
pub mod time;

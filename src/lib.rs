//! Preemptive multitasking core of a small kernel: the decisions of which
//! thread runs next on which processor, made on every timer tick and every
//! voluntary block.
//!
//! - `time`: microsecond measures, deadlines and time sources.
//! - `thread`: thread numbers, priorities, time slices, handles.
//! - `queue`: bounded circular queues of thread handles.
//! - `pool`: the store of thread control blocks.
//! - `signal`: single-slot mailboxes that wake a parked thread.
//! - `policy`: the scheduling policy over an abstract scheduler state.
//! - `scheduler`: the per-processor and system-wide schedulers.
//! - `laws`: properties of the policy.
//! - `font`, `devno`, `sync`: font metrics, device numbers, lock errors.
//!
//! The platform performs what the decisions call for: the context switch,
//! interrupt masking, halting, reading the clock.

pub mod devno;
pub mod font;
pub mod laws;
pub mod policy;
pub mod pool;
pub mod queue;
pub mod scheduler;
pub mod signal;
pub mod sync;
pub mod thread;
pub mod time;

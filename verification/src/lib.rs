//! A sans-I/O core for a small cooperative runtime on Linux.
//!
//! The crate holds the bookkeeping of a single-threaded executor and of its
//! readiness reactor: the bounded run queue, the queue of register and
//! unregister requests, the table of wakers by file descriptor, and the step
//! rule of the non-blocking socket adapters. It performs no system call
//! itself. Every function takes what the kernel answered as a plain value and
//! returns what has to be done next, so that the shell around it only carries
//! out requests and waits.
//!
//! - [`executor`]: the run queue, and what it guarantees to tasks.
//! - [`selector`]: the control queue, the waker table, and the reactor's
//!   answer to a readiness event.
//! - [`kernel`]: the requests to the readiness object, and what follows from
//!   its answers.
//! - [`mask`]: event masks.
//! - [`net`]: the step rule of listeners and streams.
//! - [`sched`]: the map entry that marks a thread for the external scheduler.
//! - [`ledger`]: what holds of the waker table over any run of changes.
//! - [`system`]: what holds of the runtime as a whole.

pub mod executor;
pub mod kernel;
pub mod ledger;
pub mod mask;
pub mod net;
pub mod sched;
pub mod selector;
pub mod system;

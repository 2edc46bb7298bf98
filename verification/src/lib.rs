//! Scheduling and context-switching core of a small single-address-space
//! kernel, written against a software-simulated machine.
//!
//! The crate keeps the task registry, the ready queue, the per-core active
//! slots and cleanup queues, and the context-switch primitive as explicit
//! values that are passed by reference into every operation, so that each
//! scheduling step is an ordinary function whose effect is stated in its
//! contract.  The architecture-level pieces (registers, the FPU save area,
//! the page-table base, the privilege stack) live in [`machine::MachineState`],
//! a simulated processor core; the hardware instructions that move that state
//! are the one part the model replaces.

pub mod context;
pub mod machine;
pub mod proc;
pub mod task;
pub mod thread;

//! The core of a preemptive micro-kernel for a single Cortex-M core: the
//! process table, its round-robin scheduler, the system-call dispatcher and
//! the decisions of the two trap handlers.
//!
//! Nothing here touches the hardware. The trap shims hand in what they
//! captured and carry out the action that comes back.
//!
//! - [`memory_map`]: where the process stacks lie.
//! - [`task_scheduler`]: the process table, create, exit and switch.
//! - [`round_robin`]: the proof that switching is fair.
//! - [`syscall_provider`]: the supervisor, pend-switch and tick traps.
//! - [`text`]: what the print calls write.
//! - [`utils`]: the privilege and memory-protection bits.

pub mod memory_map;
pub mod round_robin;
pub mod syscall_provider;
pub mod task_scheduler;
pub mod text;
pub mod utils;

//! Where the process stacks lie in RAM.
//!
//! Every slot of the process table owns one fixed window of RAM for its
//! stack. The windows are laid out downwards from [`STACK_TOP`], one
//! [`STACK_SLOT_SIZE`] apart, so the slot index alone decides the window.

use vstd::prelude::*;

verus! {

/// Number of slots in the process table.
pub const MAX_PCB: usize = 8;

/// Top of the stack of slot 0; the other stacks lie below it.
pub const STACK_TOP: u32 = 0x2000_D000;

/// Bytes of RAM between the stack tops of two neighbouring slots.
pub const STACK_SLOT_SIZE: u32 = 0x1000;

/// First byte of the region that the bootloader keeps its hand-off flag in.
pub const BOOT_FLAG_START: u32 = 0x2000_F500;

/// First byte after the bootloader's hand-off region.
pub const BOOT_FLAG_END: u32 = 0x2001_0000;

/// Top-of-stack address of slot `pid`.
pub open spec fn stack_base_of(pid: int) -> int {
    STACK_TOP - pid * STACK_SLOT_SIZE
}

/// Lowest address of the stack window of slot `pid`.
pub open spec fn stack_limit_of(pid: int) -> int {
    stack_base_of(pid) - STACK_SLOT_SIZE
}

/// Whether `addr` lies in the stack window of slot `pid`. A full-descending
/// stack never writes at its top address, so the window is half open.
pub open spec fn in_stack_window(pid: int, addr: int) -> bool {
    stack_limit_of(pid) <= addr < stack_base_of(pid)
}

/// Top-of-stack address of the slot `pid`.
pub fn get_base_stack_pointer_from_pid(pid: usize) -> (base: u32)
    requires
        pid < MAX_PCB,
    ensures
        base == stack_base_of(pid as int),
        base as int == 0x2000_D000 - 0x1000 * pid,
{
    STACK_TOP - (pid as u32) * STACK_SLOT_SIZE
}

/// The stack windows of two different slots share no address.
pub proof fn lemma_stacks_disjoint(i: int, j: int, addr: int)
    requires
        0 <= i < MAX_PCB,
        0 <= j < MAX_PCB,
        i != j,
    ensures
        !(in_stack_window(i, addr) && in_stack_window(j, addr)),
{
}

/// The window of slot `i` is exactly the gap between its own stack top and
/// that of the next slot, and no stack window reaches into the bootloader's
/// hand-off region.
pub proof fn lemma_stack_window_bounds(i: int, addr: int)
    requires
        0 <= i < MAX_PCB,
        in_stack_window(i, addr),
    ensures
        stack_base_of(i + 1) <= addr < stack_base_of(i),
        0 < addr < BOOT_FLAG_START,
        !(BOOT_FLAG_START <= addr < BOOT_FLAG_END),
{
}

} // verus!

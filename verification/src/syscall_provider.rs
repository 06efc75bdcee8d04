//! What the trap handlers decide.
//!
//! The supervisor trap carries a system call; the pend-switch trap carries
//! the snapshot of the process that was interrupted. Each handler updates
//! the process table and tells the trap shim what to do next. The shim
//! reads and writes the registers and the stacks; nothing here does.

use vstd::prelude::*;
use crate::memory_map::{in_stack_window, stack_base_of, MAX_PCB};
use crate::task_scheduler::{KernelFault, ProcessState, SavedState, TableView, TaskScheduler};
use crate::text::{c_string_text, decimal, integer_text, nul_terminated, DecimalText};
use vstd::utf8::{decode_utf8, valid_utf8};

verus! {

/// Reserved; does nothing.
pub const SYS_RESERVED: u32 = 0;

/// Gives up the rest of the time slice.
pub const SYS_YIELD: u32 = 1;

/// Prints the text behind a reference to a string slice.
pub const SYS_PRINT: u32 = 3;

/// Prints a C string.
pub const SYS_PRINT_C: u32 = 4;

/// Ends the calling process.
pub const SYS_EXIT: u32 = 5;

/// Creates a child of the calling process.
pub const SYS_CREATE: u32 = 6;

/// Prints an integer.
pub const SYS_PRINT_INT: u32 = 7;

/// What `SYS_CREATE` returns where the table is full. No pid has this value.
pub const SYSCALL_FAILED: u32 = 0xFFFF_FFFF;

/// Exception priority of the supervisor trap: the most urgent level, so
/// that neither the tick nor the pend-switch trap interrupts a system call.
pub const SVCALL_PRIORITY: u8 = 0x00;

/// Exception priority of the tick.
pub const SYSTICK_PRIORITY: u8 = 0x80;

/// Exception priority of the pend-switch trap: the least urgent level, so
/// that a switch waits until no other handler is active.
pub const PENDSV_PRIORITY: u8 = 0xF0;

/// Words in the frame of a process that has never run: eight registers that
/// the trap epilogue pops, then the eight that the hardware pops on
/// exception return.
pub const FRAME_WORDS: usize = 16;

/// Index of the program counter in that frame.
pub const FRAME_PC: usize = 14;

/// Index of the program status register in that frame.
pub const FRAME_XPSR: usize = 15;

/// Program status of a process that has never run: the Thumb bit alone.
pub const XPSR_THUMB: u32 = 0x0100_0000;

/// Text that a system call asks the shim to write to the diagnostic sink.
#[derive(Copy, Clone, PartialEq, Eq, Debug)]
pub enum Output {
    /// Nothing is written.
    Nothing,
    /// The text behind the string-slice reference at `address`.
    Str { address: u32 },
    /// The C string at `address`. The shim reads it and hands the bytes to
    /// `print_c_string`.
    CStr { address: u32 },
    /// This text.
    Text(DecimalText),
}

/// What the supervisor trap does after a system call was dispatched.
#[derive(Copy, Clone, PartialEq, Eq, Debug)]
pub struct SyscallOutcome {
    /// The word that the caller gets back.
    pub result: u32,
    /// Whether the pend-switch trap is to be armed before the trap returns.
    pub switch_requested: bool,
    /// What is to be written to the diagnostic sink.
    pub output: Output,
}

/// What the pend-switch trap does after the table was updated.
#[derive(Copy, Clone, PartialEq, Eq, Debug)]
pub enum SwitchAction {
    /// First activation. The interrupted context is the root's: the trap
    /// returns on `stack_pointer`, the stack it came in on, and thread mode
    /// gives up its privilege.
    Activate { stack_pointer: u32 },
    /// The selected process has never run. The shim stores `frame` at
    /// `stack_pointer`, lowest word first, and returns on it.
    Launch { stack_pointer: u32, frame: [u32; 16] },
    /// The selected process was preempted before. The shim restores `state`
    /// and returns on its process stack pointer.
    Resume { state: SavedState },
}

/// Whether the kernel knows the system call `id`.
pub open spec fn known_syscall(id: u32) -> bool {
    id == SYS_RESERVED || id == SYS_YIELD || id == SYS_PRINT || id == SYS_PRINT_C || id
        == SYS_EXIT || id == SYS_CREATE || id == SYS_PRINT_INT
}

impl TableView {
    /// The table after the system call `id` with first argument `arg1`.
    ///
    /// Exit frees the slot of the running process, unless that is the
    /// root. Create registers a child of the running process that starts at
    /// `arg1` and makes it the pending override; in a full table it changes
    /// nothing. No other call touches the table.
    pub open spec fn after_syscall(self, id: u32, arg1: u32) -> TableView {
        if id == SYS_EXIT {
            self.exited(self.current_process)
        } else if id == SYS_CREATE && !self.full() {
            TableView {
                pending_process: Some(self.first_free()),
                ..self.created(self.first_free(), self.current_process as usize, arg1)
            }
        } else {
            self
        }
    }

    /// The word that the system call `id` returns: the new pid for a create
    /// that found a slot, `SYSCALL_FAILED` for one that found none, and 0
    /// for every other call.
    pub open spec fn syscall_result(self, id: u32) -> u32 {
        if id == SYS_CREATE {
            if self.full() {
                SYSCALL_FAILED
            } else {
                self.first_free() as u32
            }
        } else {
            0
        }
    }

    /// Whether the system call `id` asks for a switch: yield and exit do,
    /// and so does a create that found a slot.
    pub open spec fn syscall_switches(self, id: u32) -> bool {
        id == SYS_YIELD || id == SYS_EXIT || (id == SYS_CREATE && !self.full())
    }
}

/// What the output of the system call `id` with first argument `arg1` has
/// to be.
pub open spec fn is_syscall_output(output: Output, id: u32, arg1: u32) -> bool {
    if id == SYS_PRINT {
        output == (Output::Str { address: arg1 })
    } else if id == SYS_PRINT_C {
        output == (Output::CStr { address: arg1 })
    } else if id == SYS_PRINT_INT {
        output matches Output::Text(text) && text@ == decimal(arg1 as nat)
    } else {
        output == Output::Nothing
    }
}

/// The frame of a process that starts at `entry_point` and has never run:
/// the program counter is `entry_point`, the status register selects Thumb
/// state, and every general-purpose register is zero.
pub open spec fn initial_frame(entry_point: u32) -> Seq<u32> {
    Seq::new(
        FRAME_WORDS as nat,
        |i: int|
            if i == FRAME_PC {
                entry_point
            } else if i == FRAME_XPSR {
                XPSR_THUMB
            } else {
                0u32
            },
    )
}

/// The first frame of a process lies on that process's own stack: each of
/// its words is in the stack window of the slot, where the frame ends at
/// the top of the slot's stack.
pub proof fn lemma_initial_frame_in_window(pid: int, word: int)
    requires
        0 <= pid < MAX_PCB,
        0 <= word < FRAME_WORDS,
    ensures
        in_stack_window(pid, stack_base_of(pid) - 4 * FRAME_WORDS + 4 * word),
        stack_base_of(pid) - 4 * FRAME_WORDS + 4 * FRAME_WORDS == stack_base_of(pid),
{
}

/// Builds the frame of a process that starts at `entry_point` and has never
/// run, lowest word first.
pub fn build_initial_frame(entry_point: u32) -> (frame: [u32; 16])
    ensures
        frame@ == initial_frame(entry_point),
{
    let mut frame: [u32; 16] = [0u32; 16];
    frame[FRAME_PC] = entry_point;
    frame[FRAME_XPSR] = XPSR_THUMB;
    assert(frame@ =~= initial_frame(entry_point));
    frame
}

/// Whether the periodic tick arms the pend-switch trap: only once the root
/// has finished its bring-up and the table is activated.
pub fn sys_tick(scheduler: &TaskScheduler, init_ready: bool) -> (arm: bool)
    ensures
        arm == (init_ready && scheduler@.is_activated),
{
    init_ready && scheduler.is_activated()
}

/// Whether the kernel knows the system call `id`. The supervisor trap asks
/// this before it dispatches, and halts the kernel on a call that it does
/// not know.
pub fn is_known_syscall(id: u32) -> (known: bool)
    ensures
        known == known_syscall(id),
{
    id == SYS_RESERVED || id == SYS_YIELD || id == SYS_PRINT || id == SYS_PRINT_C || id
        == SYS_EXIT || id == SYS_CREATE || id == SYS_PRINT_INT
}

/// Dispatches the system call `syscall_id` of the running process.
///
/// The table is updated as `after_syscall` says. The outcome holds the word
/// for the caller, whether the pend-switch trap is to be armed, and what is
/// to be written to the diagnostic sink. The handler does not switch.
///
/// The identifier must be one that the kernel knows: any other is a fault
/// of the kernel, which the caller halts on.
pub fn svc_handler(
    scheduler: &mut TaskScheduler,
    syscall_id: u32,
    arg1: u32,
    arg2: u32,
    arg3: u32,
) -> (outcome: SyscallOutcome)
    requires
        old(scheduler)@.wf(),
        known_syscall(syscall_id),
    ensures
        final(scheduler)@.wf(),
        old(scheduler)@.one_running() ==> final(scheduler)@.one_running(),
        final(scheduler)@ == old(scheduler)@.after_syscall(syscall_id, arg1),
        outcome.result == old(scheduler)@.syscall_result(syscall_id),
        outcome.switch_requested == old(scheduler)@.syscall_switches(syscall_id),
        is_syscall_output(outcome.output, syscall_id, arg1),
{
    if syscall_id == SYS_YIELD {
        SyscallOutcome { result: 0, switch_requested: true, output: Output::Nothing }
    } else if syscall_id == SYS_PRINT {
        SyscallOutcome { result: 0, switch_requested: false, output: Output::Str { address: arg1 } }
    } else if syscall_id == SYS_PRINT_C {
        SyscallOutcome {
            result: 0,
            switch_requested: false,
            output: Output::CStr { address: arg1 },
        }
    } else if syscall_id == SYS_EXIT {
        let current = scheduler.current_process();
        scheduler.exit(current as u16);
        SyscallOutcome { result: 0, switch_requested: true, output: Output::Nothing }
    } else if syscall_id == SYS_CREATE {
        let current = scheduler.current_process();
        match scheduler.create(current, arg1) {
            Ok(pid) => {
                proof {
                    old(scheduler)@.lemma_first_free_unique(
                        pid as int,
                        old(scheduler)@.first_free(),
                    );
                }
                scheduler.set_pending_process(pid);
                SyscallOutcome {
                    result: pid as u32,
                    switch_requested: true,
                    output: Output::Nothing,
                }
            },
            Err(_) => SyscallOutcome {
                result: SYSCALL_FAILED,
                switch_requested: false,
                output: Output::Nothing,
            },
        }
    } else if syscall_id == SYS_PRINT_INT {
        SyscallOutcome {
            result: 0,
            switch_requested: false,
            output: Output::Text(integer_text(arg1)),
        }
    } else {
        SyscallOutcome { result: 0, switch_requested: false, output: Output::Nothing }
    }
}

/// The second half of `SYS_PRINT_C`: the shim has read `bytes`, the C string
/// at the address that `Output::CStr` names, terminator included.
///
/// Bytes that are the text of a C string are handed back as the text to
/// write, and the table stays as it is. Any other bytes fail the calling
/// process: it is ended as by `SYS_EXIT`, nothing is written, and the shim
/// has to arm the pend-switch trap.
pub fn print_c_string<'a>(scheduler: &mut TaskScheduler, bytes: &'a [u8]) -> (text: Option<
    &'a str,
>)
    requires
        old(scheduler)@.wf(),
    ensures
        final(scheduler)@.wf(),
        old(scheduler)@.one_running() ==> final(scheduler)@.one_running(),
        text is Some <==> nul_terminated(bytes@) && valid_utf8(bytes@.drop_last()),
        text matches Some(t) ==> t@ == decode_utf8(bytes@.drop_last()) && final(scheduler)@
            == old(scheduler)@,
        text is None ==> final(scheduler)@ == old(scheduler)@.exited(
            old(scheduler)@.current_process,
        ),
{
    match c_string_text(bytes) {
        Ok(t) => Some(t),
        Err(_) => {
            let current = scheduler.current_process();
            scheduler.exit(current as u16);
            None
        },
    }
}

/// The snapshot that the pend-switch trap took.
pub open spec fn trap_snapshot(
    caller_stack_addr: u32,
    exc_stack_addr: u32,
    exc_return: u32,
) -> SavedState {
    SavedState { rsp: exc_stack_addr, psp: caller_stack_addr, exc_return }
}

/// The pend-switch trap. `caller_stack_addr` is the process stack pointer of
/// the interrupted context, `exc_stack_addr` the handler's stack value and
/// `exc_return` the exception-return code.
///
/// Before the first activation the interrupted context becomes the root's
/// and goes on running. After it the handler switches: the interrupted
/// process is parked with its snapshot, and the next one is selected and
/// becomes `Running`. A selected process that has never run is launched on
/// a fresh frame at the top of its stack; any other is resumed from the
/// snapshot it was parked with.
///
/// Fails with `RootMissing`, and changes nothing, where the first
/// activation finds no root.
pub fn pendsv_handler(
    scheduler: &mut TaskScheduler,
    caller_stack_addr: u32,
    exc_stack_addr: u32,
    exc_return: u32,
) -> (action: Result<SwitchAction, KernelFault>)
    requires
        old(scheduler)@.wf(),
    ensures
        final(scheduler)@.wf(),
        old(scheduler)@.one_running() ==> final(scheduler)@.one_running(),
        action is Err <==> !old(scheduler)@.is_activated && !old(scheduler)@.occupied(0),
        action matches Err(fault) ==> fault == KernelFault::RootMissing && final(scheduler)@
            == old(scheduler)@,
        action matches Ok(step) ==> is_switch_action(
            old(scheduler)@,
            trap_snapshot(caller_stack_addr, exc_stack_addr, exc_return),
            final(scheduler)@,
            step,
        ),
{
    let snapshot = SavedState { rsp: exc_stack_addr, psp: caller_stack_addr, exc_return };
    if !scheduler.is_activated() {
        match scheduler.init_handler(snapshot) {
            Ok(_) => Ok(SwitchAction::Activate { stack_pointer: caller_stack_addr }),
            Err(_) => Err(KernelFault::RootMissing),
        }
    } else {
        match scheduler.switch(snapshot) {
            Ok(next) => {
                if next.state == ProcessState::Initialize {
                    assert(scheduler@.record(scheduler@.current_process).stack_base
                        == next.stack_base);
                    Ok(
                        SwitchAction::Launch {
                            stack_pointer: next.stack_base - 4 * (FRAME_WORDS as u32),
                            frame: build_initial_frame(next.entry_point),
                        },
                    )
                } else {
                    Ok(SwitchAction::Resume { state: next.running_state })
                }
            },
            Err(_) => Err(KernelFault::RootMissing),
        }
    }
}

/// Whether `step` and the table `after` are what the pend-switch trap makes
/// of the table `before` and the snapshot `snapshot`.
pub open spec fn is_switch_action(
    before: TableView,
    snapshot: SavedState,
    after: TableView,
    step: SwitchAction,
) -> bool {
    if !before.is_activated {
        &&& after == before.activated(snapshot)
        &&& step == (SwitchAction::Activate { stack_pointer: snapshot.psp })
    } else {
        let next = before.selected(snapshot);
        &&& after == before.switched(snapshot)
        &&& if next.state == ProcessState::Initialize {
            &&& step matches SwitchAction::Launch { stack_pointer, frame }
            &&& stack_pointer == next.stack_base - 4 * FRAME_WORDS
            &&& frame@ == initial_frame(next.entry_point)
        } else {
            step == (SwitchAction::Resume { state: next.running_state })
        }
    }
}

} // verus!

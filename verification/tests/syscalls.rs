use chocos::memory_map::{MAX_PCB, STACK_TOP};
use chocos::syscall_provider::{
    build_initial_frame, is_known_syscall, pendsv_handler, print_c_string, svc_handler,
    sys_tick, Output, SwitchAction,
    SyscallOutcome, FRAME_PC, FRAME_WORDS, FRAME_XPSR, SYSCALL_FAILED, SYS_CREATE, SYS_EXIT,
    SYS_PRINT, SYS_PRINT_C, SYS_PRINT_INT, SYS_RESERVED, SYS_YIELD, XPSR_THUMB,
};
use chocos::task_scheduler::{
    KernelFault, ProcessControlBlock, ProcessState, SavedState, TaskScheduler,
};

const ROOT_ENTRY: u32 = 0x0801_0101;
const EXC_RETURN: u32 = 0xFFFF_FFFD;
const HANDLER_STACK: u32 = 0x2000_E800;

fn running_kernel() -> TaskScheduler {
    let mut table = TaskScheduler::new();
    table.init(ROOT_ENTRY);
    pendsv_handler(&mut table, 0x2000_CFC0, HANDLER_STACK, EXC_RETURN).unwrap();
    table
}

fn slots(table: &TaskScheduler) -> Vec<Option<ProcessControlBlock>> {
    let mut all = Vec::new();
    for pid in 0..MAX_PCB {
        all.push(table.pcb(pid));
    }
    all
}

fn quiet(result: u32, switch_requested: bool) -> SyscallOutcome {
    SyscallOutcome { result, switch_requested, output: Output::Nothing }
}

#[test]
fn syscall_numbers() {
    assert_eq!(SYS_RESERVED, 0);
    assert_eq!(SYS_YIELD, 1);
    assert_eq!(SYS_PRINT, 3);
    assert_eq!(SYS_PRINT_C, 4);
    assert_eq!(SYS_EXIT, 5);
    assert_eq!(SYS_CREATE, 6);
    assert_eq!(SYS_PRINT_INT, 7);
}

#[test]
fn reserved_call_does_nothing() {
    let mut table = running_kernel();
    let before = slots(&table);
    assert_eq!(svc_handler(&mut table, 0, 0x11, 0x22, 0x33), quiet(0, false));
    assert_eq!(slots(&table), before);
    assert_eq!(table.pending_process(), None);
}

#[test]
fn yield_asks_for_a_switch() {
    let mut table = running_kernel();
    let before = slots(&table);
    assert_eq!(svc_handler(&mut table, 1, 0, 0, 0), quiet(0, true));
    assert_eq!(slots(&table), before);
    assert_eq!(table.current_process(), 0);
}

#[test]
fn print_calls_name_the_text() {
    let mut table = running_kernel();
    let before = slots(&table);
    assert_eq!(
        svc_handler(&mut table, 3, 0x2000_1234, 0, 0),
        SyscallOutcome {
            result: 0,
            switch_requested: false,
            output: Output::Str { address: 0x2000_1234 },
        }
    );
    assert_eq!(
        svc_handler(&mut table, 4, 0x0803_0040, 9, 9),
        SyscallOutcome {
            result: 0,
            switch_requested: false,
            output: Output::CStr { address: 0x0803_0040 },
        }
    );
    assert_eq!(slots(&table), before);
}

#[test]
fn print_integer_is_decimal() {
    let mut table = running_kernel();
    let before = slots(&table);
    for (value, text) in [
        (0u32, "0"),
        (7, "7"),
        (10, "10"),
        (42, "42"),
        (1000, "1000"),
        (0x0803_00A2, "134414498"),
        (u32::MAX, "4294967295"),
    ] {
        let outcome = svc_handler(&mut table, 7, value, 0, 0);
        assert_eq!(outcome.result, 0);
        assert!(!outcome.switch_requested);
        match outcome.output {
            Output::Text(digits) => assert_eq!(digits.as_bytes(), text.as_bytes()),
            other => panic!("no text for {}: {:?}", value, other),
        }
    }
    assert_eq!(slots(&table), before);
}

#[test]
fn c_string_is_handed_back_as_text() {
    let mut table = running_kernel();
    svc_handler(&mut table, SYS_CREATE, 0x1000, 0, 0);
    pendsv_handler(&mut table, 0x2000_CF00, HANDLER_STACK, EXC_RETURN).unwrap();
    let before = slots(&table);
    assert_eq!(print_c_string(&mut table, b"hello\n\0"), Some("hello\n"));
    assert_eq!(print_c_string(&mut table, b"\0"), Some(""));
    assert_eq!(print_c_string(&mut table, "gr\u{fc}n\0".as_bytes()), Some("gr\u{fc}n"));
    assert_eq!(slots(&table), before);
    assert_eq!(table.current_process(), 1);
}

#[test]
fn bad_c_string_fails_the_caller() {
    for bytes in [&b"hello"[..], &b"he\0llo\0"[..], &b""[..], &[0xFF, 0][..], &[0xC3, 0][..]] {
        let mut table = running_kernel();
        svc_handler(&mut table, SYS_CREATE, 0x1000, 0, 0);
        svc_handler(&mut table, SYS_CREATE, 0x2000, 0, 0);
        table.set_pending_process(1);
        pendsv_handler(&mut table, 0x2000_CF00, HANDLER_STACK, EXC_RETURN).unwrap();
        assert_eq!(table.current_process(), 1);
        let root = table.pcb(0);
        let other = table.pcb(2);
        assert_eq!(print_c_string(&mut table, bytes), None);
        assert_eq!(table.pcb(1), None);
        assert_eq!(table.pcb(0), root);
        assert_eq!(table.pcb(2), other);
        assert_eq!(table.this_process_status(), ProcessState::Terminated);
    }
}

#[test]
fn bad_c_string_of_the_root_leaves_the_root() {
    let mut table = running_kernel();
    let before = slots(&table);
    assert_eq!(print_c_string(&mut table, b"no terminator"), None);
    assert_eq!(slots(&table), before);
}

#[test]
fn known_calls_are_told_from_unknown() {
    for id in [0u32, 1, 3, 4, 5, 6, 7] {
        assert!(is_known_syscall(id));
    }
    for id in [2u32, 8, 9, 100, 0x8000_0000, u32::MAX] {
        assert!(!is_known_syscall(id));
    }
    for id in 0..1000u32 {
        assert_eq!(is_known_syscall(id), [0, 1, 3, 4, 5, 6, 7].contains(&id));
    }
}

#[test]
fn create_call_schedules_the_child() {
    let mut table = running_kernel();
    assert_eq!(svc_handler(&mut table, 6, 0x0803_00A2, 0, 0), quiet(1, true));
    assert_eq!(table.pending_process(), Some(1));
    assert_eq!(table.current_process(), 0);
    assert_eq!(
        table.pcb(1),
        Some(ProcessControlBlock {
            pid: 1,
            ppid: 0,
            stack_base: 0x2000_C000,
            entry_point: 0x0803_00A2,
            priority: 0,
            state: ProcessState::Initialize,
            running_state: SavedState { rsp: 0, psp: 0, exc_return: 0 },
        })
    );
    pendsv_handler(&mut table, 0x2000_CF00, HANDLER_STACK, EXC_RETURN).unwrap();
    assert_eq!(svc_handler(&mut table, 6, 0x0804_0000, 0, 0), quiet(2, true));
    assert_eq!(table.pcb(2).unwrap().ppid, 1);
    assert_eq!(table.pending_process(), Some(2));
}

#[test]
fn create_call_fails_on_a_full_table() {
    let mut table = running_kernel();
    for pid in 1..MAX_PCB {
        assert_eq!(svc_handler(&mut table, 6, 0x1000, 0, 0), quiet(pid as u32, true));
    }
    assert_eq!(table.pending_process(), Some(7));
    let before = slots(&table);
    assert_eq!(svc_handler(&mut table, 6, 0x1000, 0, 0), quiet(SYSCALL_FAILED, false));
    assert_eq!(SYSCALL_FAILED, 0xFFFF_FFFF);
    assert_eq!(slots(&table), before);
    assert_eq!(table.pending_process(), Some(7));
    assert_eq!(table.current_process(), 0);
}

#[test]
fn exit_call_frees_the_caller() {
    let mut table = running_kernel();
    svc_handler(&mut table, 6, 0x1000, 0, 0);
    pendsv_handler(&mut table, 0x2000_CF00, HANDLER_STACK, EXC_RETURN).unwrap();
    assert_eq!(table.current_process(), 1);
    let root = table.pcb(0);
    assert_eq!(svc_handler(&mut table, 5, 17, 0, 0), quiet(0, true));
    assert_eq!(table.pcb(1), None);
    assert_eq!(table.pcb(0), root);
    assert_eq!(table.this_process_status(), ProcessState::Terminated);
}

#[test]
fn tick_waits_for_activation() {
    let mut table = TaskScheduler::new();
    assert!(!sys_tick(&table, false));
    assert!(!sys_tick(&table, true));
    table.init(ROOT_ENTRY);
    assert!(!sys_tick(&table, true));
    pendsv_handler(&mut table, 0x2000_CFC0, HANDLER_STACK, EXC_RETURN).unwrap();
    assert!(sys_tick(&table, true));
    assert!(!sys_tick(&table, false));
}

#[test]
fn initial_frame_layout() {
    assert_eq!(FRAME_WORDS, 16);
    assert_eq!(FRAME_PC, 14);
    assert_eq!(FRAME_XPSR, 15);
    assert_eq!(XPSR_THUMB, 0x0100_0000);
    let frame = build_initial_frame(0x0803_00A2);
    assert_eq!(frame, [0, 0, 0, 0, 0, 0, 0, 0, 0, 0, 0, 0, 0, 0, 0x0803_00A2, 0x0100_0000]);
    assert_eq!(build_initial_frame(0)[15], 0x0100_0000);
}

#[test]
fn first_trap_activates_the_root() {
    let mut table = TaskScheduler::new();
    assert_eq!(table.init(ROOT_ENTRY), STACK_TOP);
    let action = pendsv_handler(&mut table, 0x2000_CFC0, HANDLER_STACK, EXC_RETURN);
    assert_eq!(action, Ok(SwitchAction::Activate { stack_pointer: 0x2000_CFC0 }));
    assert!(table.is_activated());
    assert_eq!(table.current_process(), 0);
    let root = table.pcb(0).unwrap();
    assert_eq!(root.state, ProcessState::Running);
    assert_eq!(
        root.running_state,
        SavedState { rsp: HANDLER_STACK, psp: 0x2000_CFC0, exc_return: EXC_RETURN }
    );
}

#[test]
fn second_trap_does_not_activate_again() {
    let mut table = running_kernel();
    let action = pendsv_handler(&mut table, 0x2000_CF80, 0x2000_E7F0, EXC_RETURN);
    let parked = SavedState { rsp: 0x2000_E7F0, psp: 0x2000_CF80, exc_return: EXC_RETURN };
    assert_eq!(action, Ok(SwitchAction::Resume { state: parked }));
    let root = table.pcb(0).unwrap();
    assert_eq!(root.state, ProcessState::Running);
    assert_eq!(root.running_state, parked);
}

#[test]
fn trap_without_a_root_is_a_fault() {
    let mut table = TaskScheduler::new();
    table.create(0, 0x1000).unwrap();
    let before = slots(&table);
    assert_eq!(
        pendsv_handler(&mut table, 0x2000_CFC0, HANDLER_STACK, EXC_RETURN),
        Err(KernelFault::RootMissing)
    );
    assert!(!table.is_activated());
    assert_eq!(slots(&table), before);
}

#[test]
fn exit_call_of_the_root_keeps_the_root() {
    let mut table = running_kernel();
    let before = slots(&table);
    assert_eq!(svc_handler(&mut table, SYS_EXIT, 0, 0, 0), quiet(0, true));
    assert_eq!(slots(&table), before);
    let parked = SavedState { rsp: HANDLER_STACK, psp: 0x2000_CF00, exc_return: EXC_RETURN };
    assert_eq!(
        pendsv_handler(&mut table, 0x2000_CF00, HANDLER_STACK, EXC_RETURN),
        Ok(SwitchAction::Resume { state: parked })
    );
    assert_eq!(table.current_process(), 0);
}

#[test]
fn new_process_is_launched_on_a_fresh_frame() {
    let mut table = running_kernel();
    svc_handler(&mut table, SYS_CREATE, 0x1000, 0, 0);
    svc_handler(&mut table, SYS_CREATE, 0x2000, 0, 0);
    let action = pendsv_handler(&mut table, 0x2000_CF00, HANDLER_STACK, EXC_RETURN);
    let mut frame = [0u32; 16];
    frame[14] = 0x2000;
    frame[15] = 0x0100_0000;
    assert_eq!(action, Ok(SwitchAction::Launch { stack_pointer: 0x2000_B000 - 64, frame }));
    assert_eq!(table.current_process(), 2);
    assert_eq!(table.pcb(2).unwrap().state, ProcessState::Running);
    assert_eq!(table.pcb(1).unwrap().state, ProcessState::Initialize);
    assert_eq!(table.pcb(0).unwrap().state, ProcessState::Ready);
    assert_eq!(table.pending_process(), None);
}

#[test]
fn preempted_process_is_resumed_from_its_snapshot() {
    let mut table = running_kernel();
    svc_handler(&mut table, SYS_CREATE, 0x1000, 0, 0);
    pendsv_handler(&mut table, 0x2000_CF00, HANDLER_STACK, EXC_RETURN).unwrap();
    // Process 1 is preempted by the tick: only the root is left to run.
    let action = pendsv_handler(&mut table, 0x2000_BF40, 0x2000_E7F8, 0xFFFF_FFF9);
    assert_eq!(
        action,
        Ok(SwitchAction::Resume {
            state: SavedState { rsp: HANDLER_STACK, psp: 0x2000_CF00, exc_return: EXC_RETURN },
        })
    );
    assert_eq!(table.current_process(), 0);
    let action = pendsv_handler(&mut table, 0x2000_CEC0, HANDLER_STACK, EXC_RETURN);
    assert_eq!(
        action,
        Ok(SwitchAction::Resume {
            state: SavedState { rsp: 0x2000_E7F8, psp: 0x2000_BF40, exc_return: 0xFFFF_FFF9 },
        })
    );
    assert_eq!(table.current_process(), 1);
    assert_eq!(table.pcb(1).unwrap().state, ProcessState::Running);
    assert_eq!(table.pcb(0).unwrap().state, ProcessState::Ready);
}

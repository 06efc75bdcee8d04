use chocos::syscall_provider::{
    pendsv_handler, svc_handler, Output, SwitchAction, SyscallOutcome, SYS_CREATE, SYS_EXIT,
    SYS_YIELD,
};
use chocos::task_scheduler::{ProcessState, TaskScheduler};

#[test]
fn create_yield_exit() {
    let mut table = TaskScheduler::new();
    assert_eq!(table.init(0x0801_0101), 0x2000_D000);
    pendsv_handler(&mut table, 0x2000_CFC0, 0x2000_E800, 0xFFFF_FFFD).unwrap();

    // The root creates a child.
    let created = svc_handler(&mut table, SYS_CREATE, 0x1000, 0, 0);
    assert_eq!(
        created,
        SyscallOutcome { result: 1, switch_requested: true, output: Output::Nothing }
    );
    assert_eq!(table.pcb(1).unwrap().state, ProcessState::Initialize);
    assert_eq!(table.pending_process(), Some(1));

    // The next switch takes the child and builds its frame.
    match pendsv_handler(&mut table, 0x2000_CF80, 0x2000_E800, 0xFFFF_FFFD).unwrap() {
        SwitchAction::Launch { stack_pointer, frame } => {
            assert_eq!(stack_pointer, 0x2000_BFC0);
            assert_eq!(frame[14], 0x1000);
            assert_eq!(frame[15], 0x0100_0000);
            assert_eq!(&frame[..14], &[0u32; 14]);
        }
        other => panic!("the child was not launched: {:?}", other),
    }
    assert_eq!(table.current_process(), 1);
    assert_eq!(table.pending_process(), None);

    // The child yields: nothing else is Ready, so the root runs.
    let yielded = svc_handler(&mut table, SYS_YIELD, 0, 0, 0);
    assert!(yielded.switch_requested);
    assert_eq!(yielded.result, 0);
    match pendsv_handler(&mut table, 0x2000_BF80, 0x2000_E800, 0xFFFF_FFFD).unwrap() {
        SwitchAction::Resume { state } => assert_eq!(state.psp, 0x2000_CF80),
        other => panic!("the root was not resumed: {:?}", other),
    }
    assert_eq!(table.current_process(), 0);
    assert_eq!(table.pcb(1).unwrap().state, ProcessState::Ready);

    // The tick hands the core back to the child, which exits.
    pendsv_handler(&mut table, 0x2000_CF40, 0x2000_E800, 0xFFFF_FFFD).unwrap();
    assert_eq!(table.current_process(), 1);
    let exited = svc_handler(&mut table, SYS_EXIT, 0, 0, 0);
    assert!(exited.switch_requested);
    assert_eq!(table.pcb(1), None);
    assert_eq!(table.this_process_status(), ProcessState::Terminated);

    // The child is gone: every further switch falls back to the root.
    for _ in 0..3 {
        match pendsv_handler(&mut table, 0x2000_BF00, 0x2000_E800, 0xFFFF_FFFD).unwrap() {
            SwitchAction::Resume { .. } => {}
            other => panic!("the root was not resumed: {:?}", other),
        }
        assert_eq!(table.current_process(), 0);
        assert_eq!(table.pcb(1), None);
    }
}

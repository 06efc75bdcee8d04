//! The process table and its round-robin scheduler.
//!
//! The table is a fixed array of optional process records. Its state is
//! modelled by [`TableView`]; every operation says how it changes that view.

use vstd::prelude::*;
use crate::memory_map::{MAX_PCB, get_base_stack_pointer_from_pid, stack_base_of};

verus! {

/// Where a process stands in its life.
#[derive(Copy, Clone, PartialEq, Eq, Debug, Structural)]
pub enum ProcessState {
    /// Registered, never run: it has no exception frame on its stack yet.
    Initialize,
    /// The process that owns the core.
    Running,
    /// Preempted, waiting for its next slice.
    Ready,
    /// Defined for waiting on events. Nothing enters it.
    Blocked,
    /// Exited. Its slot is free.
    Terminated,
}

/// The three words that the kernel keeps of a preempted process. The
/// hardware stacks the rest of the register file on the process's own stack
/// when it takes the exception.
#[derive(Copy, Clone, PartialEq, Eq, Debug, Structural)]
pub struct SavedState {
    /// Handler-mode stack value at the time of the trap.
    pub rsp: u32,
    /// Process stack pointer.
    pub psp: u32,
    /// Exception-return code.
    pub exc_return: u32,
}

impl Default for SavedState {
    fn default() -> (state: SavedState)
        ensures
            state == (SavedState { rsp: 0, psp: 0, exc_return: 0 }),
    {
        SavedState { rsp: 0, psp: 0, exc_return: 0 }
    }
}

/// One schedulable unit.
#[derive(Copy, Clone, PartialEq, Eq, Debug, Structural)]
pub struct ProcessControlBlock {
    /// Index of the slot that holds the record.
    pub pid: usize,
    /// Pid of the creator; 0 for the root.
    pub ppid: usize,
    /// Top of the process's private stack.
    pub stack_base: u32,
    /// Address at which the process starts on its first dispatch.
    pub entry_point: u32,
    /// Reserved. The scheduler does not read it.
    pub priority: u8,
    pub state: ProcessState,
    /// Snapshot taken when the process was last switched out.
    pub running_state: SavedState,
}

/// `create` found no free slot.
#[derive(Copy, Clone, PartialEq, Eq, Debug, Structural)]
pub struct TableFull;

/// An inconsistency that a trap found in the table. The kernel cannot
/// recover from it: the caller halts.
#[derive(Copy, Clone, PartialEq, Eq, Debug, Structural)]
pub enum KernelFault {
    /// The root is to run and was never registered.
    RootMissing,
    /// First activation was asked for a second time.
    AlreadyActivated,
    /// A switch was asked for before the first activation.
    NotActivated,
}

/// The record that `create` writes into slot `pid`.
pub open spec fn fresh_record(pid: int, ppid: usize, entry_point: u32) -> ProcessControlBlock {
    ProcessControlBlock {
        pid: pid as usize,
        ppid,
        stack_base: stack_base_of(pid) as u32,
        entry_point,
        priority: 0,
        state: ProcessState::Initialize,
        running_state: SavedState { rsp: 0, psp: 0, exc_return: 0 },
    }
}

/// What a process table holds.
pub struct TableView {
    /// Whether the first switch-in has happened.
    pub is_activated: bool,
    /// Slot of the process that is scheduled.
    pub current_process: int,
    /// Slot that the next selection must take, if any.
    pub pending_process: Option<int>,
    /// The slots, `MAX_PCB` of them.
    pub pcbs: Seq<Option<ProcessControlBlock>>,
}

impl TableView {
    /// Whether `pid` names a slot that holds a record.
    pub open spec fn occupied(self, pid: int) -> bool {
        0 <= pid < self.pcbs.len() && self.pcbs[pid] is Some
    }

    /// The record in slot `pid`.
    pub open spec fn record(self, pid: int) -> ProcessControlBlock
        recommends
            self.occupied(pid),
    {
        self.pcbs[pid].unwrap()
    }

    /// Whether `record` may stand in slot `pid`: it carries the slot's
    /// index and stack, and it is in a state that the scheduler produces.
    pub open spec fn record_fits(pid: int, record: ProcessControlBlock) -> bool {
        &&& record.pid == pid
        &&& record.stack_base == stack_base_of(pid)
        &&& (record.state == ProcessState::Initialize || record.state == ProcessState::Running
            || record.state == ProcessState::Ready)
    }

    /// The invariant of the table: the cursor and the override name slots,
    /// an activated table has its root, and every record fits its slot.
    pub open spec fn wf(self) -> bool {
        &&& self.pcbs.len() == MAX_PCB
        &&& 0 <= self.current_process < MAX_PCB
        &&& (self.pending_process matches Some(p) ==> 0 < p < MAX_PCB)
        &&& (self.is_activated ==> self.pcbs[0] is Some)
        &&& forall|i: int|
            0 <= i < MAX_PCB ==> ((#[trigger] self.pcbs[i]) matches Some(record)
                ==> Self::record_fits(i, record))
    }

    /// Whether no process runs but the scheduled one: a record is `Running`
    /// only in the slot of the cursor, and only in an activated table.
    ///
    /// Every operation keeps this but `next_ready`, which moves the cursor
    /// and leaves the marking of the records to its caller.
    pub open spec fn one_running(self) -> bool {
        forall|i: int|
            0 <= i < MAX_PCB ==> ((#[trigger] self.pcbs[i]) matches Some(record)
                ==> (record.state == ProcessState::Running ==> self.is_activated && i
                == self.current_process))
    }

    /// How many steps the scan takes from the running slot to `pid`. The
    /// scan walks upwards from the slot after the running one and wraps
    /// from the last slot to slot 1.
    pub open spec fn ahead(self, pid: int) -> int {
        if pid > self.current_process {
            pid - self.current_process
        } else {
            pid - self.current_process + MAX_PCB - 1
        }
    }

    /// Whether the scan may pick `pid`: a slot other than slot 0 and the
    /// running one, holding a `Ready` record.
    pub open spec fn eligible(self, pid: int) -> bool {
        &&& 0 < pid < MAX_PCB
        &&& pid != self.current_process
        &&& self.occupied(pid)
        &&& self.record(pid).state == ProcessState::Ready
    }

    /// Whether `pid` is what round-robin picks: the eligible slot that the
    /// scan reaches first, or slot 0 where no slot is eligible.
    pub open spec fn is_next_ready(self, pid: int) -> bool {
        if exists|i: int| self.eligible(i) {
            self.eligible(pid) && forall|j: int| self.eligible(j) ==> self.ahead(pid) <= self.ahead(j)
        } else {
            pid == 0
        }
    }

    /// The slot that round-robin picks.
    pub open spec fn next_ready(self) -> int {
        choose|pid: int| self.is_next_ready(pid)
    }

    /// The table after round-robin has picked: the cursor is on the pick,
    /// and nothing else has changed.
    pub open spec fn advanced(self) -> TableView {
        TableView { current_process: self.next_ready(), ..self }
    }

    /// The slot that the next switch selects: the pending override where it
    /// names a record, the round-robin pick otherwise.
    pub open spec fn selection(self) -> int {
        if self.pending_process is Some && self.occupied(self.pending_process.unwrap()) {
            self.pending_process.unwrap()
        } else {
            self.next_ready()
        }
    }

    /// The slots after the running process was switched out with
    /// `snapshot`: its record, if it has one, is `Ready` and holds the
    /// snapshot.
    pub open spec fn switched_out(self, snapshot: SavedState) -> Seq<Option<ProcessControlBlock>> {
        if self.occupied(self.current_process) {
            self.pcbs.update(
                self.current_process,
                Some(
                    ProcessControlBlock {
                        state: ProcessState::Ready,
                        running_state: snapshot,
                        ..self.record(self.current_process)
                    },
                ),
            )
        } else {
            self.pcbs
        }
    }

    /// The record in the selected slot at the moment of its selection, when
    /// the running process has been parked with `snapshot`. Its state
    /// tells whether the process has run before.
    pub open spec fn selected(self, snapshot: SavedState) -> ProcessControlBlock
        recommends
            self.wf(),
            self.is_activated,
    {
        self.switched_out(snapshot)[self.selection()].unwrap()
    }

    /// The table after a switch away from the running process, whose
    /// snapshot is `snapshot`, to the slot `self.selection()`: the process
    /// that ran is parked, the selected one is `Running` and scheduled, and
    /// no override is pending.
    pub open spec fn switched(self, snapshot: SavedState) -> TableView
        recommends
            self.wf(),
            self.is_activated,
    {
        TableView {
            is_activated: self.is_activated,
            current_process: self.selection(),
            pending_process: None,
            pcbs: self.switched_out(snapshot).update(
                self.selection(),
                Some(
                    ProcessControlBlock {
                        state: ProcessState::Running,
                        ..self.selected(snapshot)
                    },
                ),
            ),
        }
    }

    /// The number of records in the slots from 1 up to, not including,
    /// `end`.
    pub open spec fn records_below(self, end: int) -> int
        decreases end,
    {
        if end <= 1 {
            0
        } else {
            self.records_below(end - 1) + if self.occupied(end - 1) {
                1int
            } else {
                0int
            }
        }
    }

    /// The number of records above slot 0.
    pub open spec fn population(self) -> int {
        self.records_below(MAX_PCB as int)
    }

    /// Whether `pid` is the lowest free slot above slot 0.
    pub open spec fn is_first_free(self, pid: int) -> bool {
        &&& 0 < pid < MAX_PCB
        &&& !self.occupied(pid)
        &&& forall|j: int| 0 < j < pid ==> self.occupied(j)
    }

    /// The lowest free slot above slot 0.
    pub open spec fn first_free(self) -> int {
        choose|pid: int| self.is_first_free(pid)
    }

    /// Whether every slot above slot 0 holds a record.
    pub open spec fn full(self) -> bool {
        forall|j: int| 0 < j < MAX_PCB ==> self.occupied(j)
    }

    /// The table after a child of `ppid` was registered in the free slot
    /// `pid`.
    pub open spec fn created(self, pid: int, ppid: usize, entry_point: u32) -> TableView {
        TableView { pcbs: self.pcbs.update(pid, Some(fresh_record(pid, ppid, entry_point))), ..self }
    }

    /// The table after `pid` exited: its slot is free. The root in slot 0
    /// does not exit, and a `pid` that names no record changes nothing.
    pub open spec fn exited(self, pid: int) -> TableView {
        if 0 < pid && self.occupied(pid) {
            TableView { pcbs: self.pcbs.update(pid, None), ..self }
        } else {
            self
        }
    }

    /// The state that is reported for slot `pid`: that of its record, and
    /// `Terminated` for a free slot.
    pub open spec fn status(self, pid: int) -> ProcessState {
        if self.occupied(pid) {
            self.record(pid).state
        } else {
            ProcessState::Terminated
        }
    }

    /// The table after the root was registered with `entry_point`.
    pub open spec fn initialized(self, entry_point: u32) -> TableView {
        TableView { pcbs: self.pcbs.update(0, Some(fresh_record(0, 0, entry_point))), ..self }
    }

    /// The table after the first activation: the root runs, and the trap's
    /// snapshot is its saved state.
    pub open spec fn activated(self, snapshot: SavedState) -> TableView
        recommends
            self.occupied(0),
    {
        TableView {
            is_activated: true,
            current_process: 0,
            pending_process: self.pending_process,
            pcbs: self.pcbs.update(
                0,
                Some(
                    ProcessControlBlock {
                        state: ProcessState::Running,
                        running_state: snapshot,
                        ..self.record(0)
                    },
                ),
            ),
        }
    }

    /// Why the first activation is refused; `None` where it goes ahead.
    pub open spec fn activation_fault(self) -> Option<KernelFault> {
        if self.is_activated {
            Some(KernelFault::AlreadyActivated)
        } else if !self.occupied(0) {
            Some(KernelFault::RootMissing)
        } else {
            None
        }
    }

    /// The table after the first activation was asked for with `snapshot`:
    /// activated where that goes ahead, unchanged where it is refused.
    pub open spec fn after_activation(self, snapshot: SavedState) -> TableView {
        if self.activation_fault() is None {
            self.activated(snapshot)
        } else {
            self
        }
    }

    /// The table before the kernel has set anything up.
    pub open spec fn empty() -> TableView {
        TableView {
            is_activated: false,
            current_process: 0,
            pending_process: None,
            pcbs: Seq::new(MAX_PCB as nat, |i: int| None),
        }
    }
}

impl TableView {
    /// Round-robin picks exactly one slot.
    pub proof fn lemma_next_ready_unique(self, pid: int)
        requires
            self.wf(),
            self.is_next_ready(pid),
        ensures
            pid == self.next_ready(),
    {
        let chosen = self.next_ready();
        assert(self.is_next_ready(chosen));
    }

    /// The lowest free slot is unique, and there is none in a full table.
    pub proof fn lemma_first_free_unique(self, a: int, b: int)
        requires
            self.is_first_free(a),
        ensures
            !self.full(),
            self.is_first_free(b) ==> a == b,
    {
    }

    /// There is always a slot that round-robin picks.
    pub proof fn lemma_next_ready_exists(self)
        requires
            self.wf(),
        ensures
            self.is_next_ready(self.next_ready()),
            0 <= self.next_ready() < MAX_PCB,
    {
        self.lemma_scan_finds(1);
    }

    /// The scan ends: from `step` on it finds an eligible slot or runs out
    /// of slots.
    proof fn lemma_scan_finds(self, step: int)
        requires
            self.wf(),
            1 <= step <= MAX_PCB,
            forall|j: int| self.eligible(j) ==> self.ahead(j) >= step,
        ensures
            exists|pid: int| self.is_next_ready(pid),
        decreases MAX_PCB - step,
    {
        if step == MAX_PCB {
            assert(forall|j: int| self.eligible(j) ==> self.ahead(j) < MAX_PCB);
            assert(self.is_next_ready(0));
        } else {
            let i = if self.current_process + step < MAX_PCB {
                self.current_process + step
            } else {
                self.current_process + step + 1 - MAX_PCB
            };
            if self.eligible(i) {
                assert(self.ahead(i) == step);
                assert(self.is_next_ready(i));
            } else {
                assert(forall|j: int| self.eligible(j) && self.ahead(j) == step ==> j == i);
                self.lemma_scan_finds(step + 1);
            }
        }
    }

    /// What the invariants say of the records: at most one is `Running`,
    /// and that is the scheduled one; each lies in the slot that its pid
    /// names, on that slot's stack; none is `Blocked` or `Terminated`; and
    /// once the table is activated the root is there.
    pub proof fn lemma_one_running(self, i: int, j: int)
        requires
            self.wf(),
            self.one_running(),
            self.occupied(i),
            self.occupied(j),
        ensures
            self.record(i).state == ProcessState::Running && self.record(j).state
                == ProcessState::Running ==> i == j && i == self.current_process,
            self.record(i).pid == i,
            self.record(i).stack_base == stack_base_of(i),
            self.record(i).state != ProcessState::Blocked,
            self.record(i).state != ProcessState::Terminated,
            self.is_activated ==> self.occupied(0),
    {
    }

    /// What round-robin picks does not depend on the record of the
    /// scheduled process: two tables with the same cursor that agree on
    /// every other slot have the same pick.
    pub proof fn lemma_pick_ignores_current(self, other: TableView)
        requires
            self.wf(),
            other.wf(),
            other.current_process == self.current_process,
            forall|i: int|
                0 <= i < MAX_PCB && i != self.current_process ==> other.pcbs[i] == self.pcbs[i],
        ensures
            other.next_ready() == self.next_ready(),
    {
        self.lemma_next_ready_exists();
        let pick = self.next_ready();
        assert forall|j: int| other.eligible(j) == self.eligible(j) by {}
        assert forall|j: int| other.ahead(j) == self.ahead(j) by {}
        if exists|i: int| self.eligible(i) {
            let i = choose|i: int| self.eligible(i);
            assert(other.eligible(i));
        }
        assert(other.is_next_ready(pick));
        other.lemma_next_ready_unique(pick);
    }

    /// In an activated table the next switch always finds a record: an
    /// override counts only where it names one, round-robin picks among
    /// records, and the root that it falls back to is there.
    pub proof fn lemma_selection_occupied(self)
        requires
            self.wf(),
            self.is_activated,
        ensures
            self.occupied(self.selection()),
    {
        self.lemma_next_ready_exists();
    }

    /// A switch keeps the invariant of the table and every record in its
    /// slot.
    pub proof fn lemma_switched_wf(self, snapshot: SavedState)
        requires
            self.wf(),
            self.is_activated,
        ensures
            self.switched(snapshot).wf(),
            self.switched(snapshot).is_activated,
            self.switched(snapshot).pending_process is None,
            self.switched(snapshot).current_process == self.selection(),
            forall|i: int| self.switched(snapshot).occupied(i) == self.occupied(i),
            self.one_running() ==> self.switched(snapshot).one_running(),
    {
        self.lemma_selection_occupied();
    }

    /// First activation happens once: asked for again, it changes nothing,
    /// whatever snapshot comes with it.
    pub proof fn lemma_single_activation(self, first: SavedState, second: SavedState)
        requires
            self.wf(),
        ensures
            self.after_activation(first).wf(),
            self.one_running() ==> self.after_activation(first).one_running(),
            self.after_activation(first).activation_fault() is Some,
            self.after_activation(first).after_activation(second) == self.after_activation(first),
    {
    }

    /// A pending override wins once. The switch that follows its setting
    /// selects the named record, whatever else is `Ready`, and clears the
    /// override; the switch after that is round-robin's again and does not
    /// select that record a second time in a row.
    pub proof fn lemma_override_once(self, pid: int, first: SavedState)
        requires
            self.wf(),
            self.is_activated,
            self.pending_process == Some(pid),
            self.occupied(pid),
        ensures
            self.selection() == pid,
            self.switched(first).wf(),
            self.one_running() ==> self.switched(first).one_running(),
            self.switched(first).current_process == pid,
            self.switched(first).pending_process is None,
            self.switched(first).selection() == self.switched(first).next_ready(),
            self.switched(first).selection() != pid,
    {
        self.lemma_switched_wf(first);
        self.switched(first).lemma_next_ready_exists();
    }

    /// Exit touches one slot: every other record, the cursor and the
    /// override stay as they are, and a second exit of the same pid changes
    /// nothing. The slot of an exited process is free and reported as
    /// `Terminated`; the root stays.
    pub proof fn lemma_exit_once(self, pid: int, other: int)
        requires
            self.wf(),
        ensures
            self.exited(pid).wf(),
            self.one_running() ==> self.exited(pid).one_running(),
            pid != 0 ==> !self.exited(pid).occupied(pid),
            pid != 0 ==> self.exited(pid).status(pid) == ProcessState::Terminated,
            self.exited(pid).occupied(0) == self.occupied(0),
            self.exited(pid).exited(pid) == self.exited(pid),
            0 <= other < MAX_PCB && other != pid ==> self.exited(pid).pcbs[other]
                == self.pcbs[other],
            self.exited(pid).is_activated == self.is_activated,
            self.exited(pid).current_process == self.current_process,
            self.exited(pid).pending_process == self.pending_process,
    {
    }

    /// A create that finds a slot fills the lowest free one and no other,
    /// and a create on a full table finds none.
    pub proof fn lemma_create_fills_lowest(self, pid: int, ppid: usize, entry_point: u32, other: int)
        requires
            self.wf(),
            self.is_first_free(pid),
        ensures
            !self.full(),
            pid == self.first_free(),
            self.created(pid, ppid, entry_point).wf(),
            self.one_running() ==> self.created(pid, ppid, entry_point).one_running(),
            self.created(pid, ppid, entry_point).occupied(pid),
            self.created(pid, ppid, entry_point).record(pid) == fresh_record(pid, ppid, entry_point),
            0 <= other < MAX_PCB && other != pid ==> self.created(pid, ppid, entry_point).pcbs[other]
                == self.pcbs[other],
    {
        self.lemma_first_free_unique(pid, self.first_free());
    }

    /// The table is full exactly when it holds a record in each of the
    /// `MAX_PCB - 1` slots above slot 0.
    pub proof fn lemma_full_population(self)
        requires
            self.wf(),
        ensures
            0 <= self.population() <= MAX_PCB - 1,
            self.full() <==> self.population() == MAX_PCB - 1,
    {
        reveal_with_fuel(TableView::records_below, 9);
        if self.population() == MAX_PCB - 1 {
            assert forall|j: int| 0 < j < MAX_PCB implies self.occupied(j) by {
                assert(j == 1 || j == 2 || j == 3 || j == 4 || j == 5 || j == 6 || j == 7);
            }
        }
        if self.full() {
            assert(self.occupied(1) && self.occupied(2) && self.occupied(3) && self.occupied(4)
                && self.occupied(5) && self.occupied(6) && self.occupied(7));
        }
    }

    /// A create that finds a slot adds one record, and the exit of a
    /// process above slot 0 takes one away. So a table with `n` records
    /// above slot 0 takes `MAX_PCB - 1 - n` creates, and refuses the next.
    pub proof fn lemma_population_counts(self, pid: int, ppid: usize, entry_point: u32)
        requires
            self.wf(),
            0 < pid < MAX_PCB,
        ensures
            !self.occupied(pid) ==> self.created(pid, ppid, entry_point).population()
                == self.population() + 1,
            self.occupied(pid) ==> self.exited(pid).population() == self.population() - 1,
    {
        self.lemma_records_below_differ(self.created(pid, ppid, entry_point), pid, MAX_PCB as int);
        self.lemma_records_below_differ(self.exited(pid), pid, MAX_PCB as int);
    }

    /// Two tables that differ in the occupancy of slot `pid` alone differ
    /// by that one record in their counts.
    proof fn lemma_records_below_differ(self, other: TableView, pid: int, end: int)
        requires
            1 <= end <= MAX_PCB,
            self.pcbs.len() == MAX_PCB,
            other.pcbs.len() == MAX_PCB,
            forall|j: int| 0 < j < MAX_PCB && j != pid ==> other.occupied(j) == self.occupied(j),
        ensures
            other.records_below(end) - self.records_below(end) == if 0 < pid < end
                && other.occupied(pid) && !self.occupied(pid) {
                1int
            } else if 0 < pid < end && !other.occupied(pid) && self.occupied(pid) {
                -1int
            } else {
                0int
            },
        decreases end,
    {
        if end > 1 {
            self.lemma_records_below_differ(other, pid, end - 1);
        }
    }
}

/// The process table: the records and the scheduler's cursor.
pub struct TaskScheduler {
    is_activated: bool,
    current_process: usize,
    pending_process: Option<usize>,
    pcbs: [Option<ProcessControlBlock>; MAX_PCB],
}

impl View for TaskScheduler {
    type V = TableView;

    closed spec fn view(&self) -> TableView {
        TableView {
            is_activated: self.is_activated,
            current_process: self.current_process as int,
            pending_process: match self.pending_process {
                Some(p) => Some(p as int),
                None => None,
            },
            pcbs: self.pcbs@,
        }
    }
}

impl TaskScheduler {
    /// A table with every slot free.
    pub fn new() -> (table: TaskScheduler)
        ensures
            table@ == TableView::empty(),
            table@.wf(),
            table@.one_running(),
    {
        let table = TaskScheduler {
            is_activated: false,
            current_process: 0,
            pending_process: None,
            pcbs: [None; MAX_PCB],
        };
        assert(table@.pcbs =~= TableView::empty().pcbs);
        table
    }

    /// Whether the first switch-in has happened.
    pub fn is_activated(&self) -> (activated: bool)
        ensures
            activated == self@.is_activated,
    {
        self.is_activated
    }

    /// Slot of the process that is scheduled.
    pub fn current_process(&self) -> (pid: usize)
        requires
            self@.wf(),
        ensures
            pid == self@.current_process,
            pid < MAX_PCB,
    {
        self.current_process
    }

    /// The override that the next switch will honour, if one is set.
    pub fn pending_process(&self) -> (pending: Option<usize>)
        requires
            self@.wf(),
        ensures
            pending is Some == self@.pending_process is Some,
            pending matches Some(p) ==> self@.pending_process == Some(p as int) && 0 < p < MAX_PCB,
    {
        self.pending_process
    }

    /// A copy of the record in slot `pid`; `None` for a free slot and for a
    /// `pid` that names no slot.
    pub fn pcb(&self, pid: usize) -> (record: Option<ProcessControlBlock>)
        requires
            self@.wf(),
        ensures
            record is Some == self@.occupied(pid as int),
            record matches Some(r) ==> r == self@.record(pid as int),
    {
        if pid < MAX_PCB {
            self.pcbs[pid]
        } else {
            None
        }
    }

    /// Registers the root process in slot 0 and returns the top of its
    /// stack. Slot 0 must be free: to set up the root a second time is a
    /// fault of the kernel, which the caller halts on.
    pub fn init(&mut self, entry_point: u32) -> (stack_base: u32)
        requires
            old(self)@.wf(),
            !old(self)@.occupied(0),
        ensures
            final(self)@.wf(),
            old(self)@.one_running() ==> final(self)@.one_running(),
            stack_base == stack_base_of(0),
            final(self)@ == old(self)@.initialized(entry_point),
    {
        let stack_base = get_base_stack_pointer_from_pid(0);
        self.pcbs[0] = Some(
            ProcessControlBlock {
                pid: 0,
                ppid: 0,
                stack_base,
                entry_point,
                priority: 0,
                state: ProcessState::Initialize,
                running_state: SavedState { rsp: 0, psp: 0, exc_return: 0 },
            },
        );
        assert(self@.pcbs =~= old(self)@.initialized(entry_point).pcbs);
        stack_base
    }

    /// First activation: the trap's context becomes the root's, the root
    /// runs, and the table is activated. Returns the root's entry point.
    /// Fails, and changes nothing, where the table is activated already or
    /// has no root.
    pub fn init_handler(&mut self, state: SavedState) -> (entry_point: Result<u32, KernelFault>)
        requires
            old(self)@.wf(),
        ensures
            final(self)@.wf(),
            old(self)@.one_running() ==> final(self)@.one_running(),
            final(self)@ == old(self)@.after_activation(state),
            entry_point is Err <==> old(self)@.activation_fault() is Some,
            entry_point matches Err(fault) ==> old(self)@.activation_fault() == Some(fault),
            entry_point matches Ok(entry) ==> entry == old(self)@.record(0).entry_point,
    {
        if self.is_activated {
            return Err(KernelFault::AlreadyActivated);
        }
        match self.pcbs[0] {
            None => Err(KernelFault::RootMissing),
            Some(root) => {
                self.pcbs[0] = Some(
                    ProcessControlBlock {
                        state: ProcessState::Running,
                        running_state: state,
                        ..root
                    },
                );
                self.current_process = 0;
                self.is_activated = true;
                assert(self@.pcbs =~= old(self)@.activated(state).pcbs);
                Ok(root.entry_point)
            },
        }
    }

    /// Registers a child of `ppid` that starts at `entry_point`, in the
    /// lowest free slot above slot 0, and returns its pid. The child is
    /// `Initialize`; nothing is switched. Fails, and changes nothing, where
    /// no slot above slot 0 is free.
    pub fn create(&mut self, ppid: usize, entry_point: u32) -> (pid: Result<usize, TableFull>)
        requires
            old(self)@.wf(),
        ensures
            final(self)@.wf(),
            old(self)@.one_running() ==> final(self)@.one_running(),
            pid is Err == old(self)@.full(),
            pid is Err ==> final(self)@ == old(self)@,
            pid matches Ok(p) ==> old(self)@.is_first_free(p as int) && final(self)@ == old(self)@.created(p as int, ppid, entry_point),
    {
        let mut i: usize = 1;
        while i < MAX_PCB
            invariant
                1 <= i <= MAX_PCB,
                *self == *old(self),
                self@.wf(),
                forall|j: int| 0 < j < i ==> self@.occupied(j),
            decreases MAX_PCB - i,
        {
            if self.pcbs[i].is_none() {
                assert(!old(self)@.occupied(i as int));
                let stack_base = get_base_stack_pointer_from_pid(i);
                self.pcbs[i] = Some(
                    ProcessControlBlock {
                        pid: i,
                        ppid,
                        stack_base,
                        entry_point,
                        priority: 0,
                        state: ProcessState::Initialize,
                        running_state: SavedState { rsp: 0, psp: 0, exc_return: 0 },
                    },
                );
                assert(self@.pcbs =~= old(self)@.created(i as int, ppid, entry_point).pcbs);
                return Ok(i);
            }
            i += 1;
        }
        Err(TableFull)
    }

    /// Round-robin's pick. A scan starts after the scheduled slot, walks
    /// upwards and wraps from the last slot to slot 1; it passes over the
    /// scheduled slot itself and takes the first slot that holds a `Ready`
    /// record, or slot 0 where it finds none. The cursor moves to the pick.
    /// No record changes: to park the process that ran and to mark the one
    /// that runs is left to the caller, as `switch` does.
    pub fn next_ready(&mut self) -> (pid: usize)
        requires
            old(self)@.wf(),
        ensures
            final(self)@.wf(),
            old(self)@.is_next_ready(pid as int),
            pid == old(self)@.next_ready(),
            pid < MAX_PCB,
            final(self)@ == old(self)@.advanced(),
            final(self)@ == (TableView { current_process: pid as int, ..old(self)@ }),
    {
        let current = self.current_process;
        let mut step: usize = 1;
        while step < MAX_PCB
            invariant
                1 <= step <= MAX_PCB,
                current == self.current_process,
                *self == *old(self),
                self@.wf(),
                forall|j: int| self@.eligible(j) ==> self@.ahead(j) >= step,
            decreases MAX_PCB - step,
        {
            let i: usize = if current + step < MAX_PCB {
                current + step
            } else {
                current + step + 1 - MAX_PCB
            };
            if i != current {
                if let Some(record) = self.pcbs[i] {
                    if record.state == ProcessState::Ready {
                        assert(self@.eligible(i as int));
                        assert(self@.ahead(i as int) == step);
                        proof {
                            self@.lemma_next_ready_unique(i as int);
                        }
                        self.current_process = i;
                        return i;
                    }
                }
            }
            assert(forall|j: int| self@.eligible(j) && self@.ahead(j) == step ==> j == i);
            step += 1;
        }
        assert(forall|j: int| self@.eligible(j) ==> self@.ahead(j) < MAX_PCB);
        proof {
            self@.lemma_next_ready_unique(0);
        }
        self.current_process = 0;
        0
    }

    /// The state of the scheduled process; `Terminated` where its slot is
    /// free.
    pub fn this_process_status(&self) -> (state: ProcessState)
        requires
            self@.wf(),
        ensures
            state == self@.status(self@.current_process),
    {
        match self.pcbs[self.current_process] {
            Some(record) => record.state,
            None => ProcessState::Terminated,
        }
    }

    /// Switches away from the running process, whose snapshot is
    /// `old_saved_state`, and returns the record of the process that runs
    /// next, as it stood when it was selected.
    ///
    /// A pending override that names a record is taken, whatever the state
    /// of that record; otherwise round-robin picks. The override is cleared
    /// either way. The record of the process that ran, if it still has one,
    /// becomes `Ready` and keeps the snapshot. The selected record becomes
    /// `Running`. The copy that is returned still has the state from before:
    /// `Initialize` tells the trap layer that the process has never run and
    /// needs its first frame.
    ///
    /// Fails, and changes nothing, before the first activation.
    pub fn switch(&mut self, old_saved_state: SavedState) -> (next: Result<
        ProcessControlBlock,
        KernelFault,
    >)
        requires
            old(self)@.wf(),
        ensures
            final(self)@.wf(),
            old(self)@.one_running() ==> final(self)@.one_running(),
            !old(self)@.is_activated ==> next == Err::<ProcessControlBlock, KernelFault>(
                KernelFault::NotActivated,
            ) && final(self)@ == old(self)@,
            old(self)@.is_activated ==> final(self)@ == old(self)@.switched(old_saved_state)
                && next == Ok::<ProcessControlBlock, KernelFault>(
                old(self)@.selected(old_saved_state),
            ),
    {
        if !self.is_activated {
            return Err(KernelFault::NotActivated);
        }
        let overridden: Option<usize> = match self.pending_process {
            Some(p) => if self.pcbs[p].is_some() {
                Some(p)
            } else {
                None
            },
            None => None,
        };
        let current = self.current_process;
        if let Some(outgoing) = self.pcbs[current] {
            self.pcbs[current] = Some(
                ProcessControlBlock {
                    state: ProcessState::Ready,
                    running_state: old_saved_state,
                    ..outgoing
                },
            );
        }
        assert(self@.pcbs =~= old(self)@.switched_out(old_saved_state));
        self.pending_process = None;
        let next: usize = match overridden {
            Some(p) => {
                self.current_process = p;
                p
            },
            None => {
                proof {
                    old(self)@.lemma_pick_ignores_current(self@);
                }
                self.next_ready()
            },
        };
        assert(next == old(self)@.selection());
        proof {
            old(self)@.lemma_selection_occupied();
        }
        let selected = self.pcbs[next].unwrap();
        self.pcbs[next] = Some(ProcessControlBlock { state: ProcessState::Running, ..selected });
        assert(self@.pcbs =~= old(self)@.switched(old_saved_state).pcbs);
        Ok(selected)
    }

    /// Makes `pid` the process that the next switch selects. A `pid` that
    /// is 0 or names no slot changes nothing.
    pub fn set_pending_process(&mut self, pid: usize)
        requires
            old(self)@.wf(),
        ensures
            final(self)@.wf(),
            old(self)@.one_running() ==> final(self)@.one_running(),
            0 < pid < MAX_PCB ==> final(self)@ == (TableView {
                pending_process: Some(pid as int),
                ..old(self)@
            }),
            !(0 < pid < MAX_PCB) ==> final(self)@ == old(self)@,
    {
        if pid > 0 && pid < MAX_PCB {
            self.pending_process = Some(pid);
        }
    }

    /// Ends the process `pid`: its slot is freed at once, and its state is
    /// reported as `Terminated` from then on. The root in slot 0 does not
    /// exit, and a `pid` that names no record changes nothing. The caller
    /// has to switch afterwards where the process ended itself.
    pub fn exit(&mut self, pid: u16)
        requires
            old(self)@.wf(),
        ensures
            final(self)@.wf(),
            old(self)@.one_running() ==> final(self)@.one_running(),
            final(self)@ == old(self)@.exited(pid as int),
    {
        let slot = pid as usize;
        if 0 < slot && slot < MAX_PCB {
            if self.pcbs[slot].is_some() {
                self.pcbs[slot] = None;
                assert(self@.pcbs =~= old(self)@.exited(pid as int).pcbs);
            }
        }
    }
}

} // verus!

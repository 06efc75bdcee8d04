//! Round-robin is fair.
//!
//! Where every waiting process is `Ready` and no override is set, repeated
//! selection visits the records above slot 0 one after the other in scan
//! order, and comes back to none of them before it has visited them all.
//! This holds of repeated calls of `next_ready`, which only moves the
//! cursor, and of repeated calls of `switch`, which also parks and marks.

use vstd::prelude::*;
use crate::memory_map::MAX_PCB;
use crate::task_scheduler::{ProcessState, SavedState, TableView};

verus! {

impl TableView {
    /// Whether every record above slot 0, but for that of the running
    /// process, is `Ready`.
    pub open spec fn waiting_are_ready(self) -> bool {
        forall|i: int|
            0 < i < MAX_PCB && i != self.current_process && (#[trigger] self.pcbs[i]) is Some
                ==> self.pcbs[i].unwrap().state == ProcessState::Ready
    }

    /// Whether every record above slot 0 is `Ready`.
    pub open spec fn all_ready(self) -> bool {
        forall|i: int|
            0 < i < MAX_PCB && (#[trigger] self.pcbs[i]) is Some ==> self.pcbs[i].unwrap().state
                == ProcessState::Ready
    }

    /// The table after `turns` picks of round-robin in a row.
    pub open spec fn advanced_by(self, turns: int) -> TableView
        decreases turns,
    {
        if turns <= 0 {
            self
        } else {
            self.advanced_by(turns - 1).advanced()
        }
    }

    /// The slot that the `turn`-th of these picks takes, counted from 1.
    pub open spec fn picked(self, turn: int) -> int {
        self.advanced_by(turn).current_process
    }

    /// The table after one switch for each of `snapshots`, in their order.
    pub open spec fn run(self, snapshots: Seq<SavedState>) -> TableView
        decreases snapshots.len(),
    {
        if snapshots.len() == 0 {
            self
        } else {
            self.run(snapshots.drop_last()).switched(snapshots.last())
        }
    }

    /// The slot that the `turn`-th of these switches selects, counted
    /// from 1.
    pub open spec fn visited(self, snapshots: Seq<SavedState>, turn: int) -> int {
        self.run(snapshots.take(turn)).current_process
    }

    /// The slot that the scan reaches `step` steps after the running slot.
    pub open spec fn slot_at(self, step: int) -> int {
        if self.current_process + step < MAX_PCB {
            self.current_process + step
        } else {
            self.current_process + step + 1 - MAX_PCB
        }
    }

    /// The number of records in the slots that the scan reaches within its
    /// first `steps` steps.
    pub open spec fn records_within(self, steps: int) -> int
        decreases steps,
    {
        if steps <= 0 {
            0
        } else {
            self.records_within(steps - 1) + if self.occupied(self.slot_at(steps)) {
                1int
            } else {
                0int
            }
        }
    }

    /// The turn at which fair round-robin reaches the record in slot `pid`:
    /// its place among the records in scan order.
    pub open spec fn turn_of(self, pid: int) -> int {
        self.records_within(self.ahead(pid))
    }

    /// Whether `later` is this table some selections on: the same slots
    /// hold records, all that wait are `Ready`, and the cursor is `steps`
    /// scan steps away from where this table's scan starts; `steps` is 0
    /// where nothing was selected yet.
    spec fn scanned(self, later: TableView, steps: int) -> bool {
        &&& later.wf()
        &&& later.waiting_are_ready()
        &&& forall|i: int|
            0 <= i < MAX_PCB ==> ((#[trigger] later.pcbs[i]) is Some) == (self.pcbs[i] is Some)
        &&& 0 <= steps < MAX_PCB
        &&& if steps == 0 {
            later.current_process == self.current_process
        } else {
            later.current_process == self.slot_at(steps) && self.occupied(later.current_process)
        }
    }

    /// `slot_at` and `ahead` undo each other: the scan reaches each slot
    /// above slot 0 at exactly one step.
    proof fn lemma_scan_order(self, step: int, pid: int)
        requires
            self.wf(),
        ensures
            0 < step < MAX_PCB ==> 0 < self.slot_at(step) < MAX_PCB && self.ahead(
                self.slot_at(step),
            ) == step,
            0 < pid < MAX_PCB ==> 0 < self.ahead(pid) < MAX_PCB && self.slot_at(self.ahead(pid))
                == pid,
    {
    }

    /// The count of records along the scan grows by at most one a step,
    /// and grows only where the scan reaches a record.
    proof fn lemma_records_within_grows(self, from: int, to: int)
        requires
            self.wf(),
            0 <= from <= to,
        ensures
            self.records_within(from) <= self.records_within(to),
            self.records_within(to) - self.records_within(from) <= to - from,
            self.records_within(from) < self.records_within(to) ==> exists|step: int|
                from < step <= to && self.occupied(self.slot_at(step)),
            (forall|step: int| from < step <= to ==> !self.occupied(self.slot_at(step)))
                ==> self.records_within(to) == self.records_within(from),
        decreases to - from,
    {
        if from < to {
            self.lemma_records_within_grows(from, to - 1);
            if self.records_within(from) < self.records_within(to) {
                if self.occupied(self.slot_at(to)) {
                } else {
                    let step = choose|step: int|
                        from < step <= to - 1 && self.occupied(self.slot_at(step));
                    assert(from < step <= to && self.occupied(self.slot_at(step)));
                }
            }
        }
    }

    /// The scan reaches every slot above slot 0 once, so it counts the
    /// population.
    proof fn lemma_scan_counts_population(self)
        requires
            self.wf(),
        ensures
            self.records_within(MAX_PCB - 1) == self.population(),
    {
        reveal_with_fuel(TableView::records_below, 9);
        reveal_with_fuel(TableView::records_within, 9);
        let c = self.current_process;
        assert(c == 0 || c == 1 || c == 2 || c == 3 || c == 4 || c == 5 || c == 6 || c == 7);
    }

    /// One fair pick: from a table that is `steps` scan steps on, with a
    /// record left to visit, round-robin picks the next record in scan
    /// order.
    proof fn lemma_fair_pick(self, later: TableView, steps: int)
        requires
            self.wf(),
            self.scanned(later, steps),
            exists|j: int| later.eligible(j) && self.ahead(j) > steps,
        ensures
            later.eligible(later.next_ready()),
            self.occupied(later.next_ready()),
            steps < self.ahead(later.next_ready()) < MAX_PCB,
            later.next_ready() == self.slot_at(self.ahead(later.next_ready())),
            self.records_within(self.ahead(later.next_ready())) == self.records_within(steps) + 1,
            forall|j: int| later.eligible(j) ==> later.ahead(later.next_ready()) <= later.ahead(j),
    {
        later.lemma_next_ready_exists();
        let next = later.next_ready();
        assert(later.is_next_ready(next));
        let witness = choose|j: int| later.eligible(j) && self.ahead(j) > steps;
        assert(later.eligible(next));
        self.lemma_scan_order(steps, next);
        self.lemma_scan_order(steps, witness);
        assert(later.ahead(next) <= later.ahead(witness));
        assert(self.ahead(next) > steps);
        assert(later.pcbs[next] is Some);
        assert forall|step: int| steps < step < self.ahead(next) implies !self.occupied(
            self.slot_at(step),
        ) by {
            self.lemma_scan_order(step, 1);
            let between = self.slot_at(step);
            if self.occupied(between) {
                assert(later.pcbs[between] is Some);
                assert(later.eligible(between));
                assert(later.ahead(between) < later.ahead(next));
            }
        }
        self.lemma_records_within_grows(steps, self.ahead(next) - 1);
    }

    /// One fair switch: the switch selects what round-robin picks, and the
    /// table after it is one record further on in the scan.
    proof fn lemma_fair_step(self, later: TableView, steps: int, snapshot: SavedState)
        requires
            self.wf(),
            self.scanned(later, steps),
            later.is_activated,
            later.pending_process is None,
            exists|j: int| later.eligible(j) && self.ahead(j) > steps,
        ensures
            later.selection() == later.next_ready(),
            self.scanned(later.switched(snapshot), self.ahead(later.selection())),
            later.switched(snapshot).is_activated,
            later.switched(snapshot).pending_process is None,
    {
        self.lemma_fair_pick(later, steps);
        later.lemma_switched_wf(snapshot);
        let after = later.switched(snapshot);
        assert(after.waiting_are_ready()) by {
            assert forall|i: int|
                0 < i < MAX_PCB && i != after.current_process && (#[trigger] after.pcbs[i])
                    is Some implies after.pcbs[i].unwrap().state == ProcessState::Ready by {
                assert(later.pcbs[i] is Some);
            }
        }
        assert forall|i: int| 0 <= i < MAX_PCB implies ((#[trigger] after.pcbs[i]) is Some) == (
        self.pcbs[i] is Some) by {
            assert(after.occupied(i) == later.occupied(i));
            assert((later.pcbs[i] is Some) == (self.pcbs[i] is Some));
        }
    }

    /// A record is left to visit as long as fewer were visited than there
    /// are.
    proof fn lemma_record_left(self, later: TableView, steps: int, turn: int)
        requires
            self.wf(),
            self.scanned(later, steps),
            exists|i: int| self.eligible(i),
            self.records_within(steps) == turn,
            0 <= turn < self.population(),
            steps == 0 ==> later.pcbs == self.pcbs,
        ensures
            exists|j: int| later.eligible(j) && self.ahead(j) > steps,
    {
        if steps == 0 {
            let i = choose|i: int| self.eligible(i);
            assert(later.pcbs[i] is Some);
            assert(later.eligible(i) && self.ahead(i) > steps);
        } else {
            self.lemma_scan_counts_population();
            self.lemma_records_within_grows(steps, MAX_PCB - 1);
            let step = choose|step: int|
                steps < step <= MAX_PCB - 1 && self.occupied(self.slot_at(step));
            self.lemma_scan_order(step, 1);
            self.lemma_scan_order(steps, 1);
            let j = self.slot_at(step);
            assert(later.pcbs[j] is Some);
            assert(later.eligible(j) && self.ahead(j) > steps);
        }
    }

    /// Where fair round-robin stands after `turn` switches.
    proof fn lemma_fair_run(self, snapshots: Seq<SavedState>, turn: int)
        requires
            self.wf(),
            self.is_activated,
            self.pending_process is None,
            self.waiting_are_ready(),
            exists|i: int| self.eligible(i),
            0 <= turn <= self.population(),
            turn <= snapshots.len(),
        ensures
            self.scanned(self.run(snapshots.take(turn)), self.lined_up(snapshots, turn)),
            self.run(snapshots.take(turn)).is_activated,
            self.run(snapshots.take(turn)).pending_process is None,
            turn == 0 ==> self.run(snapshots.take(turn)) == self,
            self.records_within(self.lined_up(snapshots, turn)) == turn,
            turn > 0 ==> self.lined_up(snapshots, turn) == self.ahead(self.visited(snapshots, turn)),
        decreases turn,
    {
        let taken = snapshots.take(turn);
        if turn == 0 {
            assert(taken.len() == 0);
            assert(self.run(taken) == self);
        } else {
            self.lemma_fair_run(snapshots, turn - 1);
            assert(taken.drop_last() =~= snapshots.take(turn - 1));
            let before = self.run(snapshots.take(turn - 1));
            let steps = self.lined_up(snapshots, turn - 1);
            assert(self.run(taken) == before.switched(taken.last()));
            self.lemma_record_left(before, steps, turn - 1);
            self.lemma_fair_pick(before, steps);
            self.lemma_fair_step(before, steps, taken.last());
        }
    }

    /// How many scan steps from its start fair round-robin stands after
    /// `turn` switches.
    spec fn lined_up(self, snapshots: Seq<SavedState>, turn: int) -> int {
        if turn <= 0 {
            0
        } else {
            self.ahead(self.visited(snapshots, turn))
        }
    }

    /// Where fair round-robin stands after `turn` picks.
    proof fn lemma_fair_scan(self, turn: int)
        requires
            self.wf(),
            self.all_ready(),
            exists|i: int| self.eligible(i),
            0 <= turn <= self.population(),
        ensures
            self.scanned(self.advanced_by(turn), self.scanned_to(turn)),
            self.advanced_by(turn).pcbs == self.pcbs,
            self.records_within(self.scanned_to(turn)) == turn,
            turn > 0 ==> self.scanned_to(turn) == self.ahead(self.picked(turn)),
        decreases turn,
    {
        if turn > 0 {
            self.lemma_fair_scan(turn - 1);
            let before = self.advanced_by(turn - 1);
            let steps = self.scanned_to(turn - 1);
            self.lemma_record_left(before, steps, turn - 1);
            self.lemma_fair_pick(before, steps);
        }
    }

    /// How many scan steps from its start fair round-robin stands after
    /// `turn` picks.
    spec fn scanned_to(self, turn: int) -> int {
        if turn <= 0 {
            0
        } else {
            self.ahead(self.picked(turn))
        }
    }

    /// Of two records above slot 0, one is not the running process.
    proof fn lemma_two_records(self)
        requires
            self.wf(),
            self.waiting_are_ready(),
            self.population() >= 2,
        ensures
            exists|i: int| self.eligible(i),
    {
        if forall|i: int| 0 < i < MAX_PCB && i != self.current_process ==> !self.occupied(i) {
            reveal_with_fuel(TableView::records_below, 9);
            assert(self.population() <= 1);
        } else {
            let i = choose|i: int|
                0 < i < MAX_PCB && i != self.current_process && self.occupied(i);
            assert(self.pcbs[i] is Some);
            assert(self.eligible(i));
        }
    }

    /// Round-robin takes the waiting processes in scan order: where all of
    /// them are `Ready`, its pick is the record above slot 0 that the scan
    /// reaches first. Where no override is set either, a switch selects
    /// that record and leaves the others waiting and `Ready`.
    pub proof fn lemma_round_robin_order(self, snapshot: SavedState)
        requires
            self.wf(),
            self.waiting_are_ready(),
            exists|i: int| self.eligible(i),
        ensures
            self.eligible(self.next_ready()),
            forall|j: int|
                0 < j < MAX_PCB && j != self.current_process && self.occupied(j) ==> self.ahead(
                    self.next_ready(),
                ) <= self.ahead(j),
            self.is_activated && self.pending_process is None ==> {
                &&& self.selection() == self.next_ready()
                &&& self.switched(snapshot).wf()
                &&& self.switched(snapshot).waiting_are_ready()
                &&& self.switched(snapshot).pending_process is None
            },
    {
        assert(self.scanned(self, 0));
        let i = choose|i: int| self.eligible(i);
        self.lemma_scan_order(1, i);
        self.lemma_fair_pick(self, 0);
        assert forall|j: int|
            0 < j < MAX_PCB && j != self.current_process && self.occupied(j) implies self.ahead(
            self.next_ready(),
        ) <= self.ahead(j) by {
            assert(self.pcbs[j] is Some);
            assert(self.eligible(j));
        }
        if self.is_activated && self.pending_process is None {
            self.lemma_fair_step(self, 0, snapshot);
        }
    }

    /// Round-robin is fair. Take a table in which every waiting process is
    /// `Ready` and no override is set. Then as many switches as there are
    /// records above slot 0 select that many different records above
    /// slot 0: no process gets a second turn before every other has had its
    /// first.
    pub proof fn lemma_round_robin_fair(self, snapshots: Seq<SavedState>, earlier: int, later: int)
        requires
            self.wf(),
            self.is_activated,
            self.pending_process is None,
            self.waiting_are_ready(),
            1 <= earlier < later <= self.population(),
            later <= snapshots.len(),
        ensures
            self.visited(snapshots, earlier) != self.visited(snapshots, later),
            0 < self.visited(snapshots, earlier) < MAX_PCB,
            0 < self.visited(snapshots, later) < MAX_PCB,
            self.occupied(self.visited(snapshots, earlier)),
            self.occupied(self.visited(snapshots, later)),
    {
        self.lemma_two_records();
        self.lemma_fair_run(snapshots, earlier);
        self.lemma_fair_run(snapshots, later);
        self.lemma_scan_order(1, self.visited(snapshots, earlier));
        self.lemma_scan_order(1, self.visited(snapshots, later));
    }

    /// Fair round-robin reaches every process. Take a table in which every
    /// waiting process is `Ready`, at least one is waiting, and no override
    /// is set. Then the record in slot `pid` above slot 0 is selected at its
    /// turn, which is its place among the records in scan order.
    ///
    /// Without a waiting process the only record above slot 0 is the
    /// running one, and a switch away from it falls back to slot 0.
    pub proof fn lemma_round_robin_reaches(self, snapshots: Seq<SavedState>, pid: int)
        requires
            self.wf(),
            self.is_activated,
            self.pending_process is None,
            self.waiting_are_ready(),
            exists|i: int| self.eligible(i),
            0 < pid < MAX_PCB,
            self.occupied(pid),
            self.population() <= snapshots.len(),
        ensures
            1 <= self.turn_of(pid) <= self.population(),
            self.visited(snapshots, self.turn_of(pid)) == pid,
    {
        let turn = self.turn_of(pid);
        self.lemma_turn_in_range(pid);
        self.lemma_fair_run(snapshots, turn);
        self.lemma_scan_order(1, self.visited(snapshots, turn));
        self.lemma_same_turn(self.visited(snapshots, turn), pid);
    }
    /// Repeated picks are fair. Take a table in which every record above
    /// slot 0 is `Ready`. Then as many calls of `next_ready` in a row as
    /// there are such records pick that many different records above
    /// slot 0: none is picked a second time before every other was picked.
    pub proof fn lemma_next_ready_fair(self, earlier: int, later: int)
        requires
            self.wf(),
            self.all_ready(),
            1 <= earlier < later <= self.population(),
        ensures
            self.picked(earlier) != self.picked(later),
            0 < self.picked(earlier) < MAX_PCB,
            0 < self.picked(later) < MAX_PCB,
            self.occupied(self.picked(earlier)),
            self.occupied(self.picked(later)),
    {
        self.lemma_two_records();
        self.lemma_fair_scan(earlier);
        self.lemma_fair_scan(later);
        self.lemma_scan_order(1, self.picked(earlier));
        self.lemma_scan_order(1, self.picked(later));
    }

    /// Repeated picks reach every process. Take a table in which every
    /// record above slot 0 is `Ready` and one of them is not the scheduled
    /// one. Then the record in slot `pid` above slot 0 is picked at its
    /// turn, which is its place among the records in scan order.
    ///
    /// Where the only record above slot 0 is the scheduled one, the pick
    /// falls back to slot 0.
    pub proof fn lemma_next_ready_reaches(self, pid: int)
        requires
            self.wf(),
            self.all_ready(),
            exists|i: int| self.eligible(i),
            0 < pid < MAX_PCB,
            self.occupied(pid),
        ensures
            1 <= self.turn_of(pid) <= self.population(),
            self.picked(self.turn_of(pid)) == pid,
    {
        let turn = self.turn_of(pid);
        self.lemma_turn_in_range(pid);
        self.lemma_fair_scan(turn);
        self.lemma_same_turn(self.picked(turn), pid);
    }

    /// Repeated picks go round. Take a table in which every record above
    /// slot 0 is `Ready` and there are at least two. Then the pick after
    /// as many picks as there are records is the first pick again.
    pub proof fn lemma_next_ready_cycles(self)
        requires
            self.wf(),
            self.all_ready(),
            self.population() >= 2,
        ensures
            self.picked(self.population() + 1) == self.picked(1),
    {
        self.lemma_two_records();
        self.lemma_fair_scan(1);
        let first = self.advanced_by(1);
        let pid = first.current_process;
        assert(first.pcbs == self.pcbs);
        assert(first.all_ready());
        first.lemma_same_population(self);
        first.lemma_two_records();
        self.lemma_scan_order(1, pid);
        first.lemma_scan_counts_population();
        assert(first.turn_of(pid) == first.population());
        first.lemma_next_ready_reaches(pid);
        self.lemma_advanced_from_first(self.population());
    }

    /// Picks after the first are picks of the table after the first.
    proof fn lemma_advanced_from_first(self, turns: int)
        requires
            turns >= 0,
        ensures
            self.advanced_by(1).advanced_by(turns) == self.advanced_by(turns + 1),
        decreases turns,
    {
        reveal_with_fuel(TableView::advanced_by, 2);
        if turns > 0 {
            self.lemma_advanced_from_first(turns - 1);
        }
    }

    /// Tables with the same slots have the same population.
    proof fn lemma_same_population(self, other: TableView)
        requires
            self.pcbs == other.pcbs,
        ensures
            self.population() == other.population(),
    {
        reveal_with_fuel(TableView::records_below, 9);
    }

    /// The turn of a record above slot 0 lies among the turns that there
    /// are.
    proof fn lemma_turn_in_range(self, pid: int)
        requires
            self.wf(),
            0 < pid < MAX_PCB,
            self.occupied(pid),
        ensures
            1 <= self.turn_of(pid) <= self.population(),
    {
        self.lemma_scan_order(1, pid);
        self.lemma_scan_counts_population();
        self.lemma_records_within_grows(0, self.ahead(pid) - 1);
        self.lemma_records_within_grows(self.ahead(pid), MAX_PCB - 1);
        assert(self.records_within(0) == 0);
    }

    /// Two records above slot 0 with the same turn are one record.
    proof fn lemma_same_turn(self, a: int, b: int)
        requires
            self.wf(),
            0 < a < MAX_PCB,
            0 < b < MAX_PCB,
            self.occupied(a),
            self.occupied(b),
            self.turn_of(a) == self.turn_of(b),
        ensures
            a == b,
    {
        self.lemma_scan_order(1, a);
        self.lemma_scan_order(1, b);
        let x = self.ahead(a);
        let y = self.ahead(b);
        if x < y {
            self.lemma_records_within_grows(x, y - 1);
        } else if y < x {
            self.lemma_records_within_grows(y, x - 1);
        }
    }
}

} // verus!

//! The application state: the four status partitions of the task store, the
//! tab cursor, the per-partition selection cursors, and the input dispatch.

use vstd::prelude::*;

use crate::tabs::tab_next;
use crate::tabs::tab_prev;
use crate::tabs::TabsState;
use crate::task::task_views;
use crate::task::Task;
use crate::task::TaskKind;
use crate::task::TaskView;
use crate::tasklist::sel_next;
use crate::tasklist::sel_prev;
use crate::tasklist::TaskList;

verus! {

/// The predicate a task must meet to land in the partition of status `k`.
pub open spec fn has_kind(k: TaskKind) -> spec_fn(TaskView) -> bool {
    |t: TaskView| t.kind == k
}

/// The status shown on tab `i` of the fixed display order
/// (`Not Done`, `Almost Done`, `Done`, `Unsure`).
pub open spec fn kind_of_tab(i: int) -> TaskKind {
    if i == 0 {
        TaskKind::NotDone
    } else if i == 1 {
        TaskKind::AlmostDone
    } else if i == 2 {
        TaskKind::Done
    } else {
        TaskKind::Unsure
    }
}

/// A task list with the selection stepped one down, as `TaskList::next` does.
pub open spec fn stepped_next(l: TaskList) -> TaskList {
    TaskList { selected: sel_next(l.selected, l.tasks@.len()), tasks: l.tasks }
}

/// A task list with the selection stepped one up, as `TaskList::previous` does.
pub open spec fn stepped_prev(l: TaskList) -> TaskList {
    TaskList { selected: sel_prev(l.selected, l.tasks@.len()), tasks: l.tasks }
}

/// The sub-sequence of tasks whose status is `kind`, in source order:
/// a stable, order-preserving filter of the input.
pub fn filter_tasks(tasks: &Vec<Task>, kind: TaskKind) -> (r: Vec<Task>)
    ensures
        task_views(r@) == task_views(tasks@).filter(has_kind(kind)),
{
    let ghost all = task_views(tasks@);
    let ghost pred = has_kind(kind);
    let mut out: Vec<Task> = Vec::new();
    let mut idx: usize = 0;
    proof {
        reveal_with_fuel(Seq::<_>::filter, 2);
        assert(all.take(0) =~= Seq::<TaskView>::empty());
    }
    while idx < tasks.len()
        invariant
            idx <= tasks@.len(),
            all == task_views(tasks@),
            pred == has_kind(kind),
            task_views(out@) == all.take(idx as int).filter(pred),
        decreases tasks@.len() - idx,
    {
        proof {
            let pre = all.take(idx as int);
            let cur = all.take(idx as int + 1);
            let single = seq![all[idx as int]];
            assert(cur =~= pre + single);
            Seq::<TaskView>::filter_distributes_over_add(pre, single, pred);
            reveal_with_fuel(Seq::<_>::filter, 2);
            assert(single.drop_last() =~= Seq::<TaskView>::empty());
            if pred(all[idx as int]) {
                assert(cur.filter(pred) =~= pre.filter(pred).push(all[idx as int]));
            } else {
                assert(cur.filter(pred) =~= pre.filter(pred));
            }
        }
        let t = &tasks[idx];
        if t.kind == kind {
            let ghost pre_out = out@;
            let copy = t.clone();
            out.push(copy);
            proof {
                assert(task_views(out@) =~= task_views(pre_out).push(tasks@[idx as int]@));
            }
        }
        idx = idx + 1;
    }
    proof {
        assert(all.take(tasks@.len() as int) =~= all);
    }
    out
}

/// The whole application state: quit flag, tab row, and the four partitions
/// with their selection cursors. Built once from the parsed tasks and then
/// mutated only by the dispatch methods below.
pub struct App {
    pub should_quit: bool,
    pub tabs: TabsState,
    pub title: &'static str,
    pub done_tasks: TaskList,
    pub not_done_tasks: TaskList,
    pub almost_done_tasks: TaskList,
    pub unsure_tasks: TaskList,
}

impl App {
    /// State invariant: four tabs with the active index among them, and every
    /// selection cursor inside its own list.
    pub open spec fn wf(&self) -> bool {
        &&& self.tabs.wf()
        &&& self.tabs.titles@.len() == 4
        &&& self.not_done_tasks.wf()
        &&& self.almost_done_tasks.wf()
        &&& self.done_tasks.wf()
        &&& self.unsure_tasks.wf()
    }

    /// The partition that holds the tasks of status `k`.
    pub open spec fn list_of_kind(&self, k: TaskKind) -> TaskList {
        match k {
            TaskKind::NotDone => self.not_done_tasks,
            TaskKind::AlmostDone => self.almost_done_tasks,
            TaskKind::Done => self.done_tasks,
            TaskKind::Unsure => self.unsure_tasks,
        }
    }

    /// The partition on display under the active tab.
    pub open spec fn active_list(&self) -> TaskList {
        self.list_of_kind(kind_of_tab(self.tabs.index as int))
    }

    /// Build the application state from the parsed tasks: each partition is
    /// the stable filter of the source order by one status, the tab row is in
    /// its fixed display order on the first tab, and nothing is selected.
    pub fn new(all_tasks: Vec<Task>) -> (r: App)
        ensures
            r.wf(),
            !r.should_quit,
            r.tabs.index == 0,
            r.tabs.titles@.len() == 4,
            r.tabs.titles@[0]@ == "Not Done"@,
            r.tabs.titles@[1]@ == "Almost Done"@,
            r.tabs.titles@[2]@ == "Done"@,
            r.tabs.titles@[3]@ == "Unsure"@,
            r.title@ == "Task txt"@,
            task_views(r.not_done_tasks.tasks@) == task_views(all_tasks@).filter(
                has_kind(TaskKind::NotDone),
            ),
            task_views(r.almost_done_tasks.tasks@) == task_views(all_tasks@).filter(
                has_kind(TaskKind::AlmostDone),
            ),
            task_views(r.done_tasks.tasks@) == task_views(all_tasks@).filter(
                has_kind(TaskKind::Done),
            ),
            task_views(r.unsure_tasks.tasks@) == task_views(all_tasks@).filter(
                has_kind(TaskKind::Unsure),
            ),
            r.not_done_tasks.selected is None,
            r.almost_done_tasks.selected is None,
            r.done_tasks.selected is None,
            r.unsure_tasks.selected is None,
    {
        let mut titles: Vec<&'static str> = Vec::new();
        titles.push("Not Done");
        titles.push("Almost Done");
        titles.push("Done");
        titles.push("Unsure");
        App {
            should_quit: false,
            tabs: TabsState::new(titles),
            title: "Task txt",
            not_done_tasks: TaskList::new(filter_tasks(&all_tasks, TaskKind::NotDone)),
            done_tasks: TaskList::new(filter_tasks(&all_tasks, TaskKind::Done)),
            almost_done_tasks: TaskList::new(filter_tasks(&all_tasks, TaskKind::AlmostDone)),
            unsure_tasks: TaskList::new(filter_tasks(&all_tasks, TaskKind::Unsure)),
        }
    }

    /// Handle a character key: `q` requests quit, anything else is ignored.
    pub fn on_key(&mut self, c: char)
        ensures
            final(self).should_quit == (old(self).should_quit || c == 'q'),
            final(self).tabs == old(self).tabs,
            final(self).title == old(self).title,
            final(self).not_done_tasks == old(self).not_done_tasks,
            final(self).almost_done_tasks == old(self).almost_done_tasks,
            final(self).done_tasks == old(self).done_tasks,
            final(self).unsure_tasks == old(self).unsure_tasks,
    {
        match c {
            'q' => {
                self.should_quit = true;
            },
            _ => {},
        }
    }

    /// The periodic tick does nothing in this core.
    pub fn on_tick(&mut self)
        ensures
            *final(self) == *old(self),
    {
    }

    /// Left arrow: previous tab, wrapping.
    pub fn on_left(&mut self)
        requires
            old(self).wf(),
        ensures
            final(self).wf(),
            final(self).tabs.titles == old(self).tabs.titles,
            final(self).tabs.index as int == tab_prev(old(self).tabs.index as int, 4),
            final(self).should_quit == old(self).should_quit,
            final(self).title == old(self).title,
            final(self).not_done_tasks == old(self).not_done_tasks,
            final(self).almost_done_tasks == old(self).almost_done_tasks,
            final(self).done_tasks == old(self).done_tasks,
            final(self).unsure_tasks == old(self).unsure_tasks,
    {
        self.tabs.previous();
    }

    /// Right arrow: next tab, wrapping.
    pub fn on_right(&mut self)
        requires
            old(self).wf(),
        ensures
            final(self).wf(),
            final(self).tabs.titles == old(self).tabs.titles,
            final(self).tabs.index as int == tab_next(old(self).tabs.index as int, 4),
            final(self).should_quit == old(self).should_quit,
            final(self).title == old(self).title,
            final(self).not_done_tasks == old(self).not_done_tasks,
            final(self).almost_done_tasks == old(self).almost_done_tasks,
            final(self).done_tasks == old(self).done_tasks,
            final(self).unsure_tasks == old(self).unsure_tasks,
    {
        self.tabs.next();
    }

    /// Up arrow: step the selection of the active tab's partition up; the
    /// other partitions and the rest of the state are untouched.
    pub fn on_up(&mut self)
        requires
            old(self).wf(),
        ensures
            final(self).wf(),
            final(self).should_quit == old(self).should_quit,
            final(self).tabs == old(self).tabs,
            final(self).title == old(self).title,
            final(self).not_done_tasks == (if old(self).tabs.index == 0 {
                stepped_prev(old(self).not_done_tasks)
            } else {
                old(self).not_done_tasks
            }),
            final(self).almost_done_tasks == (if old(self).tabs.index == 1 {
                stepped_prev(old(self).almost_done_tasks)
            } else {
                old(self).almost_done_tasks
            }),
            final(self).done_tasks == (if old(self).tabs.index == 2 {
                stepped_prev(old(self).done_tasks)
            } else {
                old(self).done_tasks
            }),
            final(self).unsure_tasks == (if old(self).tabs.index == 3 {
                stepped_prev(old(self).unsure_tasks)
            } else {
                old(self).unsure_tasks
            }),
    {
        match self.tabs.index {
            0 => self.not_done_tasks.previous(),
            1 => self.almost_done_tasks.previous(),
            2 => self.done_tasks.previous(),
            3 => self.unsure_tasks.previous(),
            _ => {},
        }
    }

    /// Down arrow: step the selection of the active tab's partition down; the
    /// other partitions and the rest of the state are untouched.
    pub fn on_down(&mut self)
        requires
            old(self).wf(),
        ensures
            final(self).wf(),
            final(self).should_quit == old(self).should_quit,
            final(self).tabs == old(self).tabs,
            final(self).title == old(self).title,
            final(self).not_done_tasks == (if old(self).tabs.index == 0 {
                stepped_next(old(self).not_done_tasks)
            } else {
                old(self).not_done_tasks
            }),
            final(self).almost_done_tasks == (if old(self).tabs.index == 1 {
                stepped_next(old(self).almost_done_tasks)
            } else {
                old(self).almost_done_tasks
            }),
            final(self).done_tasks == (if old(self).tabs.index == 2 {
                stepped_next(old(self).done_tasks)
            } else {
                old(self).done_tasks
            }),
            final(self).unsure_tasks == (if old(self).tabs.index == 3 {
                stepped_next(old(self).unsure_tasks)
            } else {
                old(self).unsure_tasks
            }),
    {
        match self.tabs.index {
            0 => self.not_done_tasks.next(),
            1 => self.almost_done_tasks.next(),
            2 => self.done_tasks.next(),
            3 => self.unsure_tasks.next(),
            _ => {},
        }
    }

    /// Hand the renderer the active partition and its selection cursor. The
    /// renderer is a pure consumer of this view.
    pub fn active_tasks(&self) -> (r: &TaskList)
        requires
            self.wf(),
        ensures
            *r == self.active_list(),
    {
        match self.tabs.index {
            0 => &self.not_done_tasks,
            1 => &self.almost_done_tasks,
            2 => &self.done_tasks,
            _ => &self.unsure_tasks,
        }
    }

    /// Runtime check of the state invariant, for an unverified caller that
    /// must establish it before dispatching input into the state machine.
    pub fn is_well_formed(&self) -> (b: bool)
        ensures
            b == self.wf(),
    {
        self.tabs.index < self.tabs.titles.len() && self.tabs.titles.len() == 4 && list_ok(
            &self.not_done_tasks,
        ) && list_ok(&self.almost_done_tasks) && list_ok(&self.done_tasks) && list_ok(
            &self.unsure_tasks,
        )
    }
}

fn list_ok(l: &TaskList) -> (b: bool)
    ensures
        b == l.wf(),
{
    match l.selected {
        None => true,
        Some(i) => i < l.tasks.len(),
    }
}

proof fn lemma_partition_lens(ts: Seq<TaskView>)
    ensures
        ts.filter(has_kind(TaskKind::NotDone)).len() + ts.filter(
            has_kind(TaskKind::AlmostDone),
        ).len() + ts.filter(has_kind(TaskKind::Done)).len() + ts.filter(
            has_kind(TaskKind::Unsure),
        ).len() == ts.len(),
    decreases ts.len(),
{
    reveal_with_fuel(Seq::<_>::filter, 2);
    if ts.len() > 0 {
        lemma_partition_lens(ts.drop_last());
        match ts.last().kind {
            TaskKind::NotDone => {},
            TaskKind::Done => {},
            TaskKind::AlmostDone => {},
            TaskKind::Unsure => {},
        }
    }
}

/// Partition completeness: the four status partitions cover the task sequence
/// exactly. Their lengths sum to the length of the sequence, every task
/// appears in the partition of its own status, and a partition holds only
/// tasks of its status — so no task lands in a partition of another status.
pub proof fn lemma_partition_complete(ts: Seq<TaskView>)
    ensures
        ts.filter(has_kind(TaskKind::NotDone)).len() + ts.filter(
            has_kind(TaskKind::AlmostDone),
        ).len() + ts.filter(has_kind(TaskKind::Done)).len() + ts.filter(
            has_kind(TaskKind::Unsure),
        ).len() == ts.len(),
        forall|i: int|
            0 <= i < ts.len() ==> #[trigger] ts.filter(has_kind(ts[i].kind)).contains(ts[i]),
        forall|k: TaskKind, j: int|
            0 <= j < ts.filter(has_kind(k)).len() ==> (#[trigger] ts.filter(has_kind(k))[j]).kind
                == k,
{
    lemma_partition_lens(ts);
    assert forall|i: int|
        0 <= i < ts.len() implies #[trigger] ts.filter(has_kind(ts[i].kind)).contains(ts[i]) by {
        Seq::lemma_filter_contains(ts, has_kind(ts[i].kind), i);
    }
    assert forall|k: TaskKind, j: int|
        0 <= j < ts.filter(has_kind(k)).len() implies (#[trigger] ts.filter(has_kind(k))[j]).kind
        == k by {
        Seq::lemma_filter_pred(ts, has_kind(k), j);
    }
}

/// Order preservation: each status partition is a stable sub-sequence of the
/// source — there is a strictly increasing map `pos` from partition positions
/// to source positions under which the tasks agree, so two tasks of one
/// status keep their relative source order in the partition.
pub proof fn lemma_order_preservation(ts: Seq<TaskView>, k: TaskKind) -> (pos: Seq<int>)
    ensures
        pos.len() == ts.filter(has_kind(k)).len(),
        forall|a: int| 0 <= a < pos.len() ==> 0 <= #[trigger] pos[a] < ts.len(),
        forall|a: int| 0 <= a < pos.len() ==> ts[#[trigger] pos[a]] == ts.filter(has_kind(k))[a],
        forall|a: int, b: int| 0 <= a < b < pos.len() ==> pos[a] < pos[b],
    decreases ts.len(),
{
    reveal_with_fuel(Seq::<_>::filter, 2);
    if ts.len() == 0 {
        Seq::empty()
    } else {
        let pre = ts.drop_last();
        let m0 = lemma_order_preservation(pre, k);
        if has_kind(k)(ts.last()) {
            let m = m0.push(ts.len() - 1);
            assert(ts.filter(has_kind(k)) == pre.filter(has_kind(k)).push(ts.last()));
            m
        } else {
            assert(ts.filter(has_kind(k)) == pre.filter(has_kind(k)));
            m0
        }
    }
}

} // verus!

//! The selection cursor: one status partition and the position selected in it.

use vstd::prelude::*;

use crate::task::Task;

verus! {

/// One status partition with its selection cursor. `selected` is `None` when
/// nothing is highlighted, else `Some(i)` with `i` inside the list.
#[derive(Debug)]
pub struct TaskList {
    pub selected: Option<usize>,
    pub tasks: Vec<Task>,
}

/// Where `next` moves the cursor: down one step, clamped at the last index;
/// from `None` to the first item. On an empty list the cursor stays `None`
/// (the explicit policy here: no out-of-range index is ever produced).
pub open spec fn sel_next(sel: Option<usize>, len: nat) -> Option<usize> {
    if len == 0 {
        None
    } else {
        match sel {
            None => Some(0usize),
            Some(i) => if i + 1 < len {
                Some((i + 1) as usize)
            } else {
                Some((len - 1) as usize)
            },
        }
    }
}

/// Where `previous` moves the cursor: up one step, clamped at index zero;
/// from `None` to the first item; `None` on an empty list.
pub open spec fn sel_prev(sel: Option<usize>, len: nat) -> Option<usize> {
    if len == 0 {
        None
    } else {
        match sel {
            None => Some(0usize),
            Some(i) => if i == 0 {
                Some(0usize)
            } else {
                Some((i - 1) as usize)
            },
        }
    }
}

impl TaskList {
    /// The cursor is `None` or a valid index of the list.
    pub open spec fn wf(&self) -> bool {
        match self.selected {
            None => true,
            Some(i) => i < self.tasks@.len(),
        }
    }

    /// A fresh list starts with nothing selected.
    pub fn new(tasks: Vec<Task>) -> (r: TaskList)
        ensures
            r.tasks == tasks,
            r.selected is None,
            r.wf(),
    {
        TaskList { selected: None, tasks }
    }

    /// Move the selection one step down, clamping at the last index.
    pub fn next(&mut self)
        requires
            old(self).wf(),
        ensures
            final(self).tasks == old(self).tasks,
            final(self).selected == sel_next(old(self).selected, old(self).tasks@.len()),
            final(self).wf(),
    {
        let len = self.tasks.len();
        if len > 0 {
            self.selected = match self.selected {
                None => Some(0),
                Some(i) => if i + 1 < len {
                    Some(i + 1)
                } else {
                    Some(len - 1)
                },
            };
        }
    }

    /// Move the selection one step up, saturating at index zero.
    pub fn previous(&mut self)
        requires
            old(self).wf(),
        ensures
            final(self).tasks == old(self).tasks,
            final(self).selected == sel_prev(old(self).selected, old(self).tasks@.len()),
            final(self).wf(),
    {
        let len = self.tasks.len();
        if len > 0 {
            self.selected = match self.selected {
                None => Some(0),
                Some(i) => if i == 0 {
                    Some(0)
                } else {
                    Some(i - 1)
                },
            };
        }
    }
}

/// Selection clamping: on a non-empty list neither operation ever yields an
/// out-of-range index, and both are idempotent at their boundary (`next` at
/// the last index stays there, `previous` at index zero stays there).
pub proof fn lemma_selection_clamping(sel: Option<usize>, len: nat)
    requires
        len > 0,
        len <= usize::MAX,
        sel is Some ==> sel.unwrap() < len,
    ensures
        sel_next(sel, len) is Some && sel_next(sel, len).unwrap() < len,
        sel_prev(sel, len) is Some && sel_prev(sel, len).unwrap() < len,
        sel == Some((len - 1) as usize) ==> sel_next(sel, len) == sel,
        sel == Some(0usize) ==> sel_prev(sel, len) == sel,
{
}

} // verus!

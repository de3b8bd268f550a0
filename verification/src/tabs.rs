//! The tab cursor: which status partition is on display. Tabs form a ring,
//! so unlike the selection cursor both moves wrap around.

use vstd::prelude::*;

use vstd::arithmetic::div_mod::lemma_mod_add_multiples_vanish;
use vstd::arithmetic::div_mod::lemma_mod_self_0;
use vstd::arithmetic::div_mod::lemma_small_mod;

verus! {

/// The active tab index within a fixed row of tab titles.
#[derive(Debug)]
pub struct TabsState {
    pub titles: Vec<&'static str>,
    pub index: usize,
}

/// Cyclic increment of a tab index.
pub open spec fn tab_next(i: int, len: int) -> int {
    (i + 1) % len
}

/// Cyclic decrement of a tab index.
pub open spec fn tab_prev(i: int, len: int) -> int {
    (i + len - 1) % len
}

impl TabsState {
    /// The active index points at one of the titles.
    pub open spec fn wf(&self) -> bool {
        self.index < self.titles@.len()
    }

    /// A fresh tab row starts on the first tab.
    pub fn new(titles: Vec<&'static str>) -> (r: TabsState)
        requires
            titles@.len() > 0,
        ensures
            r.titles == titles,
            r.index == 0,
            r.wf(),
    {
        TabsState { titles, index: 0 }
    }

    /// Step to the next tab, wrapping from the last back to the first.
    pub fn next(&mut self)
        requires
            old(self).wf(),
        ensures
            final(self).titles == old(self).titles,
            final(self).index as int == tab_next(old(self).index as int, old(self).titles@.len() as int),
            final(self).wf(),
    {
        let len = self.titles.len();
        proof {
            if self.index as int + 1 < len as int {
                lemma_small_mod((self.index + 1) as nat, len as nat);
            } else {
                lemma_mod_self_0(len as int);
            }
        }
        self.index = (self.index + 1) % len;
    }

    /// Step to the previous tab, wrapping from the first back to the last.
    pub fn previous(&mut self)
        requires
            old(self).wf(),
        ensures
            final(self).titles == old(self).titles,
            final(self).index as int == tab_prev(old(self).index as int, old(self).titles@.len() as int),
            final(self).wf(),
    {
        let len = self.titles.len();
        proof {
            let i = self.index as int;
            let l = len as int;
            if i > 0 {
                lemma_mod_add_multiples_vanish(i - 1, l);
                lemma_small_mod((i - 1) as nat, l as nat);
            } else {
                lemma_small_mod((l - 1) as nat, l as nat);
            }
        }
        if self.index > 0 {
            self.index = self.index - 1;
        } else {
            self.index = len - 1;
        }
    }
}

/// Tab wraparound: stepping in either direction always lands on a valid tab,
/// stepping forward off the last tab lands on the first, and stepping back
/// off the first lands on the last.
pub proof fn lemma_tab_wraparound(len: int)
    requires
        len > 0,
    ensures
        tab_next(len - 1, len) == 0,
        tab_prev(0, len) == len - 1,
        forall|i: int| 0 <= i < len ==> 0 <= #[trigger] tab_next(i, len) < len,
        forall|i: int| 0 <= i < len ==> 0 <= #[trigger] tab_prev(i, len) < len,
{
    lemma_mod_self_0(len);
    lemma_small_mod((len - 1) as nat, len as nat);
    assert forall|i: int| 0 <= i < len implies 0 <= #[trigger] tab_next(i, len) < len by {
        if i + 1 < len {
            lemma_small_mod((i + 1) as nat, len as nat);
        } else {
            lemma_mod_self_0(len);
        }
    }
    assert forall|i: int| 0 <= i < len implies 0 <= #[trigger] tab_prev(i, len) < len by {
        if i > 0 {
            lemma_mod_add_multiples_vanish(i - 1, len);
            lemma_small_mod((i - 1) as nat, len as nat);
        } else {
            lemma_small_mod((len - 1) as nat, len as nat);
        }
    }
}

} // verus!

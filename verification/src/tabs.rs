//! The tab strip of the main window: the management tab first, then one tab per terminal,
//! which tab is shown and which terminal has the keyboard.

use vstd::prelude::*;

verus! {

/// The tab the main window shows: the management pages or the terminal with this id.
#[derive(Debug, Clone, Copy, PartialEq, Eq, Structural)]
pub enum ActiveTab {
    Manage,
    Terminal(u64),
}

/// The terminal tabs, by id in strip order, with the shown tab and the focused terminal.
#[derive(Debug, Clone)]
pub struct TabStrip {
    pub tab_ids: Vec<u64>,
    pub active_tab: ActiveTab,
    pub terminal_focus: Option<u64>,
}

/// The first position at or after `i` that holds `id`.
pub open spec fn position_from(ids: Seq<u64>, id: u64, i: int) -> Option<int>
    decreases ids.len() - i,
{
    if 0 <= i < ids.len() {
        if ids[i] == id {
            Some(i)
        } else {
            position_from(ids, id, i + 1)
        }
    } else {
        None
    }
}

/// The first position that holds `id`.
pub open spec fn position_of(ids: Seq<u64>, id: u64) -> Option<int> {
    position_from(ids, id, 0)
}

/// Whether no id occurs twice.
pub open spec fn distinct_ids(ids: Seq<u64>) -> bool {
    forall|i: int, j: int| 0 <= i < j < ids.len() ==> ids[i] != ids[j]
}

/// The position of the shown tab in the strip: 0 for the management tab, `k + 1` for the
/// terminal at `k`, and 0 for a terminal that is not in the strip.
pub open spec fn active_index_spec(ids: Seq<u64>, active: ActiveTab) -> nat {
    match active {
        ActiveTab::Manage => 0,
        ActiveTab::Terminal(id) => match position_of(ids, id) {
            Some(k) => (k + 1) as nat,
            None => 0,
        },
    }
}

/// The tab at strip position `index`, where `1 <= index <= ids.len()` names a terminal.
pub open spec fn tab_at_index(ids: Seq<u64>, index: nat) -> ActiveTab {
    if index == 0 {
        ActiveTab::Manage
    } else {
        ActiveTab::Terminal(ids[index - 1])
    }
}

/// The strip position one step from the shown tab, wrapping around at both ends: forward
/// for a non-negative direction, backward for a negative one.
pub open spec fn adjacent_index_spec(ids: Seq<u64>, active: ActiveTab, direction: isize) -> nat {
    let total = ids.len() + 1;
    let current = active_index_spec(ids, active);
    if direction < 0 {
        if current == 0 {
            (total - 1) as nat
        } else {
            (current - 1) as nat
        }
    } else if current + 1 == total {
        0
    } else {
        current + 1
    }
}

/// Showing the tab at strip position `index` (see `TabStrip::activate_tab_index`): it
/// succeeds exactly when the position exists; the ids stay; the tab at that position is
/// shown and its terminal focused (none for the management tab); otherwise nothing changes.
pub open spec fn index_activated(old: TabStrip, index: usize, new: TabStrip, r: bool) -> bool {
    &&& r == (index <= old.tab_ids@.len())
    &&& new.tab_ids@ == old.tab_ids@
    &&& r ==> new.active_tab == tab_at_index(old.tab_ids@, index as nat)
    &&& r ==> new.terminal_focus == match tab_at_index(old.tab_ids@, index as nat) {
        ActiveTab::Manage => None,
        ActiveTab::Terminal(id) => Some(id),
    }
    &&& !r ==> new == old
}

/// Showing the tab one step away (see `TabStrip::activate_adjacent_tab`): it succeeds
/// exactly when there is a terminal tab; the ids stay; the adjacent tab is shown and its
/// terminal focused (none for the management tab); otherwise nothing changes.
pub open spec fn adjacent_activated(old: TabStrip, direction: isize, new: TabStrip, r: bool) -> bool {
    &&& r == (old.tab_ids@.len() > 0)
    &&& new.tab_ids@ == old.tab_ids@
    &&& r ==> new.active_tab == tab_at_index(
        old.tab_ids@,
        adjacent_index_spec(old.tab_ids@, old.active_tab, direction),
    )
    &&& r ==> new.terminal_focus == match new.active_tab {
        ActiveTab::Manage => None,
        ActiveTab::Terminal(id) => Some(id),
    }
    &&& !r ==> new == old
}

/// Closing terminal tab `id` (see `TabStrip::close_terminal_tab`).
pub open spec fn tab_closed(old: TabStrip, id: u64, new: TabStrip, r: Option<usize>) -> bool {
    match position_of(old.tab_ids@, id) {
        None => r is None && new == old,
        Some(k) => {
            let rest = old.tab_ids@.remove(k);
            &&& 0 <= k < old.tab_ids@.len()
            &&& r == Some(k as usize)
            &&& new.tab_ids@ == rest
            &&& rest.len() == 0 ==> new.active_tab == ActiveTab::Manage && new.terminal_focus is None
            &&& rest.len() > 0 && old.active_tab == ActiveTab::Terminal(id) ==> {
                let next = rest[if k < rest.len() { k } else { rest.len() - 1 }];
                new.active_tab == ActiveTab::Terminal(next) && new.terminal_focus == Some(next)
            }
            &&& rest.len() > 0 && old.active_tab != ActiveTab::Terminal(id) ==> {
                &&& new.active_tab == old.active_tab
                &&& new.terminal_focus == if old.terminal_focus == Some(id) {
                    Some(rest.last())
                } else {
                    old.terminal_focus
                }
            }
        },
    }
}

impl TabStrip {
    /// Whether the strip holds no id twice and the shown tab and the focused terminal are in
    /// the strip.
    pub open spec fn wf(&self) -> bool {
        &&& distinct_ids(self.tab_ids@)
        &&& (self.active_tab matches ActiveTab::Terminal(t) ==> self.tab_ids@.contains(t))
        &&& (self.terminal_focus matches Some(f) ==> self.tab_ids@.contains(f))
    }

    /// A strip with no terminal, showing the management tab.
    pub fn new() -> (s: Self)
        ensures
            s.tab_ids@.len() == 0,
            s.active_tab == ActiveTab::Manage,
            s.terminal_focus is None,
            s.wf(),
    {
        TabStrip { tab_ids: Vec::new(), active_tab: ActiveTab::Manage, terminal_focus: None }
    }

    /// Adds a terminal tab at the end of the strip, shows it and focuses it.
    pub fn open_tab(&mut self, id: u64)
        ensures
            final(self).tab_ids@ == old(self).tab_ids@.push(id),
            final(self).active_tab == ActiveTab::Terminal(id),
            final(self).terminal_focus == Some(id),
            old(self).wf() && !old(self).tab_ids@.contains(id) ==> final(self).wf(),
    {
        self.tab_ids.push(id);
        self.active_tab = ActiveTab::Terminal(id);
        self.terminal_focus = Some(id);
        proof {
            assert(self.tab_ids@.last() == id);
            assert(self.tab_ids@.contains(id));
            if old(self).wf() && !old(self).tab_ids@.contains(id) {
                let ids = self.tab_ids@;
                assert forall|i: int, j: int| 0 <= i < j < ids.len() implies ids[i] != ids[j] by {
                    if j == ids.len() - 1 {
                        assert(ids[i] == old(self).tab_ids@[i]);
                    } else {
                        assert(ids[i] == old(self).tab_ids@[i] && ids[j] == old(self).tab_ids@[j]);
                    }
                }
            }
        }
    }

    /// Shows the management tab; no terminal keeps the keyboard.
    pub fn activate_manage(&mut self)
        ensures
            final(self).tab_ids@ == old(self).tab_ids@,
            final(self).active_tab == ActiveTab::Manage,
            final(self).terminal_focus is None,
            old(self).wf() ==> final(self).wf(),
    {
        self.active_tab = ActiveTab::Manage;
        self.terminal_focus = None;
    }

    /// Shows the terminal tab `id` and gives it the keyboard.
    pub fn activate_terminal(&mut self, id: u64)
        ensures
            final(self).tab_ids@ == old(self).tab_ids@,
            final(self).active_tab == ActiveTab::Terminal(id),
            final(self).terminal_focus == Some(id),
            old(self).wf() && old(self).tab_ids@.contains(id) ==> final(self).wf(),
    {
        self.active_tab = ActiveTab::Terminal(id);
        self.terminal_focus = Some(id);
    }

    /// The strip position of the shown tab (see `active_index_spec`).
    pub fn active_tab_index(&self) -> (r: usize)
        ensures
            r == active_index_spec(self.tab_ids@, self.active_tab),
    {
        match self.active_tab {
            ActiveTab::Manage => 0,
            ActiveTab::Terminal(id) => {
                proof {
                    lemma_position_found(self.tab_ids@, id, 0);
                }
                match position(&self.tab_ids, id) {
                    Some(k) => {
                        assert(position_from(self.tab_ids@, id, 0) == Some(k as int));
                        let n = self.tab_ids.len();
                        assert(k < n);
                        k + 1
                    },
                    None => 0,
                }
            },
        }
    }

    /// Shows the tab at strip position `index` and focuses its terminal (no terminal for the
    /// management tab); a position past the last tab changes nothing and answers `false`.
    pub fn activate_tab_index(&mut self, index: usize) -> (r: bool)
        ensures
            index_activated(*old(self), index, *final(self), r),
            r && distinct_ids(old(self).tab_ids@) ==> active_index_spec(
                final(self).tab_ids@,
                final(self).active_tab,
            ) == index,
            old(self).wf() ==> final(self).wf(),
    {
        if index == 0 {
            self.active_tab = ActiveTab::Manage;
            self.terminal_focus = None;
            return true;
        }
        if index - 1 >= self.tab_ids.len() {
            return false;
        }
        let id = self.tab_ids[index - 1];
        self.active_tab = ActiveTab::Terminal(id);
        self.terminal_focus = Some(id);
        proof {
            assert(self.tab_ids@.contains(id));
            if distinct_ids(self.tab_ids@) {
                lemma_position_of_distinct(self.tab_ids@, index - 1);
            }
        }
        true
    }

    /// Shows the tab one step from the shown one (see `adjacent_index_spec`); with no
    /// terminal tab there is nowhere to go and nothing changes.
    pub fn activate_adjacent_tab(&mut self, direction: isize) -> (r: bool)
        requires
            old(self).tab_ids@.len() < usize::MAX,
        ensures
            adjacent_activated(*old(self), direction, *final(self), r),
            old(self).wf() ==> final(self).wf(),
    {
        let total = self.tab_ids.len() + 1;
        if total <= 1 {
            return false;
        }
        let current = self.active_tab_index();
        proof {
            lemma_active_index_bound(self.tab_ids@, self.active_tab);
        }
        let next = if direction < 0 {
            if current == 0 {
                total - 1
            } else {
                current - 1
            }
        } else if current + 1 == total {
            0
        } else {
            current + 1
        };
        self.activate_tab_index(next)
    }

    /// Closes the terminal tab `id` and answers where it stood; a strip without it is left
    /// as it is. With no terminal left the management tab shows; closing the shown tab
    /// shows the tab that took its place, or the last one; closing the focused terminal
    /// otherwise moves the keyboard to the last tab.
    pub fn close_terminal_tab(&mut self, id: u64) -> (r: Option<usize>)
        ensures
            tab_closed(*old(self), id, *final(self), r),
            old(self).wf() ==> final(self).wf() && !final(self).tab_ids@.contains(id),
    {
        let index = match position(&self.tab_ids, id) {
            Some(k) => k,
            None => {
                proof {
                    lemma_position_found(self.tab_ids@, id, 0);
                }
                return None;
            },
        };
        proof {
            lemma_position_found(old(self).tab_ids@, id, 0);
        }
        let ghost before = self.tab_ids@;
        self.tab_ids.remove(index);
        assert(self.tab_ids@ == before.remove(index as int));
        let len = self.tab_ids.len();
        if len == 0 {
            self.active_tab = ActiveTab::Manage;
            self.terminal_focus = None;
        } else if self.active_tab == ActiveTab::Terminal(id) {
            let next_index = if index < len {
                index
            } else {
                len - 1
            };
            let next_id = self.tab_ids[next_index];
            self.active_tab = ActiveTab::Terminal(next_id);
            self.terminal_focus = Some(next_id);
            assert(self.tab_ids@.contains(next_id));
        } else if self.terminal_focus == Some(id) {
            let last = self.tab_ids[len - 1];
            self.terminal_focus = Some(last);
            assert(self.tab_ids@.contains(last));
        }
        proof {
            if old(self).wf() {
                lemma_remove_keeps(before, index as int);
                if let ActiveTab::Terminal(t) = self.active_tab {
                    if t != id || old(self).active_tab != ActiveTab::Terminal(id) {
                        if old(self).active_tab == self.active_tab {
                            assert(before.contains(t));
                            let j = choose|j: int| 0 <= j < before.len() && before[j] == t;
                            assert(j != index as int);
                        }
                    }
                }
                if let Some(f) = self.terminal_focus {
                    if old(self).terminal_focus == self.terminal_focus && f != id {
                        assert(before.contains(f));
                        let j = choose|j: int| 0 <= j < before.len() && before[j] == f;
                        assert(j != index as int);
                    }
                }
                assert(!self.tab_ids@.contains(id)) by {
                    if self.tab_ids@.contains(id) {
                        let j = choose|j: int| 0 <= j < self.tab_ids@.len() && self.tab_ids@[j] == id;
                        if j < index {
                            assert(before[j] == id);
                        } else {
                            assert(before[j + 1] == id);
                        }
                    }
                }
            }
        }
        Some(index)
    }

    /// Closes the shown terminal tab (see `close_terminal_tab`); with the management tab
    /// shown nothing changes and the answer is `false`.
    pub fn close_active_terminal_tab(&mut self) -> (r: bool)
        ensures
            r == (old(self).active_tab is Terminal),
            !r ==> *final(self) == *old(self),
            old(self).wf() ==> final(self).wf(),
    {
        match self.active_tab {
            ActiveTab::Terminal(id) => {
                let _ = self.close_terminal_tab(id);
                true
            },
            ActiveTab::Manage => false,
        }
    }
}

/// In the shell window, the terminal tab shown after selecting tab `tab_index` of
/// `tab_count`: that tab when it exists, else the one shown before (`-1` is the management
/// view).
pub fn shell_tab_after_select(active: i32, tab_index: i32, tab_count: usize) -> (r: i32)
    ensures
        r == (if 0 <= tab_index < tab_count {
            tab_index
        } else {
            active
        }),
{
    if tab_index >= 0 && (tab_index as usize) < tab_count {
        tab_index
    } else {
        active
    }
}

/// In the shell window, closing terminal tab `tab_index` of `tab_count`: nothing happens
/// (`None`) when there is no such tab; otherwise the tab shown next, which is the management
/// view (`-1`, on its connections page) when no tab is left, and else the tab shown before,
/// moved onto the last tab when it was past it.
pub fn shell_tab_after_close(active: i32, tab_index: i32, tab_count: usize) -> (r: Option<i32>)
    requires
        tab_count <= i32::MAX,
    ensures
        !(0 <= tab_index < tab_count) ==> r is None,
        0 <= tab_index < tab_count ==> r == Some(
            if tab_count == 1 {
                -1i32
            } else if active < tab_count - 1 {
                active
            } else {
                (tab_count - 2) as i32
            },
        ),
{
    if tab_index >= 0 && (tab_index as usize) < tab_count {
        let left = tab_count - 1;
        if left == 0 {
            Some(-1)
        } else {
            let last = left as i32 - 1;
            Some(if active < last + 1 {
                active
            } else {
                last
            })
        }
    } else {
        None
    }
}

/// The first position of `id` in `ids` (see `position_of`).
fn position(ids: &Vec<u64>, id: u64) -> (r: Option<usize>)
    ensures
        match r {
            Some(i) => position_of(ids@, id) == Some(i as int),
            None => position_of(ids@, id) is None,
        },
{
    let mut i: usize = 0;
    while i < ids.len()
        invariant
            i <= ids@.len(),
            position_of(ids@, id) == position_from(ids@, id, i as int),
        decreases ids.len() - i,
    {
        if ids[i] == id {
            return Some(i);
        }
        i = i + 1;
    }
    None
}

proof fn lemma_position_found(ids: Seq<u64>, id: u64, i: int)
    requires
        0 <= i,
    ensures
        position_from(ids, id, i) matches Some(k) ==> i <= k < ids.len() && ids[k] == id
            && forall|j: int| i <= j < k ==> ids[j] != id,
        position_from(ids, id, i) is None ==> forall|j: int| i <= j < ids.len() ==> ids[j] != id,
    decreases ids.len() - i,
{
    if 0 <= i < ids.len() && ids[i] != id {
        lemma_position_found(ids, id, i + 1);
    }
}

/// In a strip without repeated ids, the position of the id at `k` is `k`.
proof fn lemma_position_of_distinct(ids: Seq<u64>, k: int)
    requires
        distinct_ids(ids),
        0 <= k < ids.len(),
    ensures
        position_of(ids, ids[k]) == Some(k),
{
    lemma_position_found(ids, ids[k], 0);
    assert forall|i: int| 0 <= i <= k implies position_from(ids, ids[k], i) == Some(k) by {
        lemma_position_from_before(ids, k, i);
    }
}

proof fn lemma_position_from_before(ids: Seq<u64>, k: int, i: int)
    requires
        distinct_ids(ids),
        0 <= i <= k < ids.len(),
    ensures
        position_from(ids, ids[k], i) == Some(k),
    decreases k - i,
{
    if i < k {
        assert(ids[i] != ids[k]);
        lemma_position_from_before(ids, k, i + 1);
    }
}

proof fn lemma_active_index_bound(ids: Seq<u64>, active: ActiveTab)
    ensures
        active_index_spec(ids, active) <= ids.len(),
{
    if let ActiveTab::Terminal(id) = active {
        lemma_position_found(ids, id, 0);
    }
}

proof fn lemma_remove_keeps(ids: Seq<u64>, k: int)
    requires
        distinct_ids(ids),
        0 <= k < ids.len(),
    ensures
        distinct_ids(ids.remove(k)),
        forall|j: int| 0 <= j < ids.len() && j != k ==> ids.remove(k).contains(#[trigger] ids[j]),
{
    let r = ids.remove(k);
    assert forall|i: int, j: int| 0 <= i < j < r.len() implies r[i] != r[j] by {
        let oi = if i < k { i } else { i + 1 };
        let oj = if j < k { j } else { j + 1 };
        assert(r[i] == ids[oi] && r[j] == ids[oj]);
    }
    assert forall|j: int| 0 <= j < ids.len() && j != k implies r.contains(#[trigger] ids[j]) by {
        if j < k {
            assert(r[j] == ids[j]);
        } else {
            assert(r[j - 1] == ids[j]);
        }
    }
}

/// Stepping forward through the tabs and then back returns to the tab one started from,
/// in a strip without repeated ids that holds at least one terminal and shows one of its
/// tabs.
pub proof fn lemma_adjacent_tabs_undo(ids: Seq<u64>, active: ActiveTab, forward: isize, backward: isize)
    requires
        distinct_ids(ids),
        ids.len() > 0,
        forward >= 0,
        backward < 0,
        active matches ActiveTab::Terminal(t) ==> ids.contains(t),
    ensures
        tab_at_index(
            ids,
            adjacent_index_spec(
                ids,
                tab_at_index(ids, adjacent_index_spec(ids, active, forward)),
                backward,
            ),
        ) == active,
{
    lemma_active_index_bound(ids, active);
    let next = adjacent_index_spec(ids, active, forward);
    if next > 0 {
        lemma_position_of_distinct(ids, next - 1);
    }
    assert(active_index_spec(ids, tab_at_index(ids, next)) == next);
    match active {
        ActiveTab::Manage => {},
        ActiveTab::Terminal(t) => {
            let j = choose|j: int| 0 <= j < ids.len() && ids[j] == t;
            lemma_position_of_distinct(ids, j);
        },
    }
}

} // verus!

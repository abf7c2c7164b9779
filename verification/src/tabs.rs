//! Opening, closing and switching tabs; splitting, closing and focusing panes.

use crate::tab::{fresh_tab, Tab, TabId};
use crate::tab_tree::{lemma_close_tabs, lemma_replace_tabs};
use crate::tree::{lemma_leaves_nonempty, Pane, PaneId, PaneNode, Scalar, SplitDir};
use crate::tree_laws::{
    law_close_distinct, law_close_leaves, law_position, law_split_distinct, law_split_leaves,
    law_with_pane,
};
use crate::workspace::{
    default_title, lemma_pane_set, lemma_pane_tabs_ok, lemma_tabs_replaced, tabs_ok, Workspace,
};
use vstd::prelude::*;

verus! {

impl Workspace {
    /// The focused pane, to be changed in place.
    pub fn active_pane_mut(&mut self) -> (p: &mut Pane)
        requires
            old(self).sound(),
        ensures
            *p == old(self).active(),
            p.wf(),
            *final(self) == (Workspace {
                root: Some(old(self).tree().with_pane(old(self).active_pane, *final(p))),
                ..*old(self)
            }),
    {
        proof {
            self.lemma_pane_wf(self.active_pane);
        }
        let id = self.active_pane;
        match &mut self.root {
            Some(n) => match n.find_mut(id) {
                Some(p) => p,
                None => vstd::pervasive::unreached(),
            },
            None => vstd::pervasive::unreached(),
        }
    }

    /// `self` is `before` after the focused pane became `q`, its tabs being
    /// the old ones, changed, or new ones; the grid mirrors the active tab.
    pub open spec fn pane_became(self, before: Workspace, q: Pane) -> bool {
        self == Workspace {
            root: Some(before.tree().with_pane(before.active_pane, q)),
            next_tab_id: self.next_tab_id,
            grid_cols: q.shown().cols,
            grid_rows: q.shown().rows,
            ..before
        }
    }

    /// Open a tab in the focused pane and show it.
    pub fn open_tab(&mut self, cols: usize, rows: usize) -> (id: TabId)
        requires
            old(self).wf(),
            old(self).next_tab_id < u64::MAX,
        ensures
            final(self).wf(),
            id == TabId(old(self).next_tab_id),
            final(self).opened_tab(*old(self), cols, rows),
    {
        let ghost w = *self;
        let id = TabId(self.next_tab_id);
        let tab = Tab::new(id, "terminite".to_owned(), cols, rows);
        let ghost t = tab;
        proof {
            lemma_pane_tabs_ok(w, w.active_pane);
            law_with_pane(w.tree(), w.active_pane, w.active());
        }
        let pane = self.active_pane_mut();
        pane.tabs.push(tab);
        pane.active_tab = pane.tabs.len() - 1;
        let ghost q = *pane;
        self.next_tab_id = self.next_tab_id + 1;
        proof {
            let p = w.active();
            assert(q.tabs@ == p.tabs@.push(t));
            assert forall|i: int| 0 <= i < q.tabs@.len() implies (exists|k: int|
                0 <= k < p.tabs@.len() && #[trigger] p.tabs@[k].id == (#[trigger] q.tabs@[i]).id)
                || q.tabs@[i].id.0 >= w.next_tab_id by {
                if i < p.tabs@.len() {
                    assert(p.tabs@[i].id == q.tabs@[i].id);
                }
            }
            assert(tabs_ok(q.tabs@, self.next_tab_id)) by {
                assert forall|i: int, j: int| 0 <= i < j < q.tabs@.len() implies (
                #[trigger] q.tabs@[i]).id != (#[trigger] q.tabs@[j]).id by {
                    assert(p.tabs@[i].id.0 < w.next_tab_id);
                    if j < p.tabs@.len() {
                        assert(p.tabs@[i].id != p.tabs@[j].id);
                    }
                }
                assert forall|i: int| 0 <= i < q.tabs@.len() implies (
                #[trigger] q.tabs@[i]).id.0 < self.next_tab_id && q.tabs@[i].wf() by {
                    if i < p.tabs@.len() {
                        assert(p.tabs@[i].wf());
                    }
                }
            }
            lemma_pane_set(w, w.active_pane, q, self.next_tab_id);
        }
        self.sync_active_grid();
        assert(q.tabs@.drop_last() =~= w.active().tabs@);
        id
    }

    /// `self` is `before` with a fresh tab in the focused pane, at the end and
    /// on show.
    pub open spec fn opened_tab(self, before: Workspace, cols: usize, rows: usize) -> bool {
        let p = before.active();
        let q = self.active();
        &&& self.pane_became(before, q)
        &&& self.next_tab_id == before.next_tab_id + 1
        &&& q == Pane { tabs: q.tabs, active_tab: q.active_tab, ..p }
        &&& q.active_tab == p.tabs@.len()
        &&& q.tabs@.len() == p.tabs@.len() + 1
        &&& q.tabs@.drop_last() == p.tabs@
        &&& fresh_tab(q.tabs@.last(), TabId(before.next_tab_id), default_title(), cols, rows)
    }

    /// Show tab `idx` of the focused pane. Returns whether anything changed.
    pub fn show_tab(&mut self, idx: usize) -> (changed: bool)
        requires
            old(self).wf(),
        ensures
            final(self).wf(),
            changed == (idx < old(self).active().tabs@.len() && idx != old(self).active().active_tab),
            !changed ==> *final(self) == *old(self),
            changed ==> final(self).showed_tab(*old(self), idx),
    {
        let ghost w = *self;
        let (n, at) = {
            let p = self.active_pane_ref();
            (p.tabs.len(), p.active_tab)
        };
        if idx >= n || idx == at {
            return false;
        }
        let pane = self.active_pane_mut();
        pane.active_tab = idx;
        let ghost q = *pane;
        proof {
            lemma_pane_tabs_ok(w, w.active_pane);
            lemma_pane_set(w, w.active_pane, q, w.next_tab_id);
        }
        self.sync_active_grid();
        true
    }

    /// `self` is `before` with tab `idx` of the focused pane on show.
    pub open spec fn showed_tab(self, before: Workspace, idx: usize) -> bool {
        let q = Pane { active_tab: idx, ..before.active() };
        &&& self.pane_became(before, q)
        &&& self.next_tab_id == before.next_tab_id
    }

    /// `self` is `before` without the active tab, which was not the only one
    /// of its pane: the tab after it is on show, or the one before it where it
    /// was the last.
    pub open spec fn dropped_tab(self, before: Workspace) -> bool {
        let p = before.active();
        let q = self.active();
        &&& self.pane_became(before, q)
        &&& self.next_tab_id == before.next_tab_id
        &&& q == Pane { tabs: q.tabs, active_tab: q.active_tab, ..p }
        &&& q.tabs@ == p.tabs@.remove(p.active_tab as int)
        &&& q.active_tab == (if p.active_tab == p.tabs@.len() - 1 {
            p.active_tab - 1
        } else {
            p.active_tab as int
        })
    }

    /// `self` is `before` without its focused pane, which was not the only
    /// one; the first pane of what is left has the focus.
    pub open spec fn dropped_pane(self, before: Workspace) -> bool {
        &&& before.tree().closed(before.active_pane) == Some(self.tree())
        &&& self == Workspace {
            root: Some(self.tree()),
            active_pane: self.tree().leaves()[0].0,
            grid_cols: self.active_tab().cols,
            grid_rows: self.active_tab().rows,
            ..before
        }
    }

    /// Close the focused pane. Returns true, with nothing changed, if it was
    /// the window's last pane.
    pub fn drop_pane(&mut self) -> (last: bool)
        requires
            old(self).wf(),
        ensures
            final(self).wf(),
            last == (old(self).tree().leaves().len() == 1),
            last ==> *final(self) == *old(self),
            !last ==> final(self).dropped_pane(*old(self)),
    {
        let ghost w = *self;
        proof {
            lemma_leaves_nonempty(w.tree());
        }
        if self.root_ref().leaf_count() <= 1 {
            return true;
        }
        let target = self.active_pane;
        proof {
            law_close_leaves(w.tree(), target);
            law_close_distinct(w.tree(), target);
            law_position(w.tree(), target);
            lemma_close_tabs(w.tree(), target);
        }
        let new_root = match self.root.take() {
            Some(root) => match root.into_closed(target) {
                Some(n) => n,
                None => vstd::pervasive::unreached(),
            },
            None => vstd::pervasive::unreached(),
        };
        self.active_pane = new_root.first_leaf_id();
        let ghost u = new_root;
        self.root = Some(new_root);
        proof {
            let t = w.tree();
            let k = t.position(target);
            assert forall|i: int| 0 <= i < u.leaves().len() implies (
            #[trigger] u.leaves()[i]).1.wf() && u.leaves()[i].0.0 < w.next_pane_id by {
                let j = if i < k { i } else { i + 1 };
                assert(u.leaves()[i] == t.leaves()[j]);
                assert(t.leaves()[j].1.wf());
            }
            let n = t.first_tab(target);
            let m = t.pane(target).tabs@;
            let a = t.tabs().take(n);
            let b = t.tabs().skip(n + m.len());
            assert(a + m + b =~= t.tabs());
            lemma_tabs_replaced(a, m, b, Seq::<Tab>::empty(), w.next_tab_id, w.next_tab_id);
            assert(a + Seq::<Tab>::empty() + b =~= a + b);
            assert(self.sound());
        }
        self.sync_active_grid();
        false
    }

    /// Close the active tab. If it was the pane's last tab the pane closes too;
    /// returns true, with nothing changed, if that was the window's last pane.
    pub fn drop_tab(&mut self) -> (last: bool)
        requires
            old(self).wf(),
        ensures
            final(self).wf(),
            last == (old(self).active().tabs@.len() == 1 && old(self).tree().leaves().len() == 1),
            last ==> *final(self) == *old(self),
            !last ==> if old(self).active().tabs@.len() > 1 {
                final(self).dropped_tab(*old(self))
            } else {
                final(self).dropped_pane(*old(self))
            },
    {
        let ghost w = *self;
        proof {
            w.lemma_pane_wf(w.active_pane);
            lemma_pane_tabs_ok(w, w.active_pane);
        }
        let n = self.active_pane_ref().tabs.len();
        if n > 1 {
            let pane = self.active_pane_mut();
            let idx = pane.active_tab;
            pane.tabs.remove(idx);
            if pane.active_tab >= pane.tabs.len() {
                pane.active_tab = pane.tabs.len() - 1;
            }
            let ghost q = *pane;
            proof {
                let p = w.active();
                assert forall|i: int| 0 <= i < q.tabs@.len() implies #[trigger] q.tabs@[i]
                    == p.tabs@[if i < idx { i } else { i + 1 }] by {}
                assert forall|i: int| 0 <= i < q.tabs@.len() implies (exists|k: int|
                    0 <= k < p.tabs@.len() && #[trigger] p.tabs@[k].id == (
                    #[trigger] q.tabs@[i]).id) || q.tabs@[i].id.0 >= w.next_tab_id by {
                    let k = if i < idx { i } else { i + 1 };
                    assert(p.tabs@[k].id == q.tabs@[i].id);
                }
                assert forall|i: int, j: int| 0 <= i < j < q.tabs@.len() implies (
                #[trigger] q.tabs@[i]).id != (#[trigger] q.tabs@[j]).id by {
                    let a = if i < idx { i } else { i + 1 };
                    let b = if j < idx { j } else { j + 1 };
                    assert(p.tabs@[a].id != p.tabs@[b].id);
                }
                lemma_pane_set(w, w.active_pane, q, w.next_tab_id);
            }
            self.sync_active_grid();
            return false;
        }
        self.drop_pane()
    }

    /// `self` is `before` with its focused pane split: the new pane, which
    /// holds one fresh tab, has the focus.
    pub open spec fn split_pane(self, before: Workspace, dir: SplitDir, ratio: Scalar) -> bool {
        let new_id = PaneId(before.next_pane_id);
        let p = self.active();
        &&& self == Workspace {
            root: Some(before.tree().split(before.active_pane, dir, new_id, p, ratio)),
            active_pane: new_id,
            next_tab_id: (before.next_tab_id + 1) as u64,
            next_pane_id: (before.next_pane_id + 1) as u64,
            ..before
        }
        &&& p.tabs@.len() == 1
        &&& p.active_tab == 0
        &&& p.bg_idx == 0
        &&& p.font_scale == Scalar(crate::tree::ONE_BITS)
        &&& fresh_tab(
            p.tabs@[0],
            TabId(before.next_tab_id),
            default_title(),
            before.grid_cols,
            before.grid_rows,
        )
    }

    /// Split the focused pane in two at `ratio`; the new pane (one fresh tab)
    /// is focused.
    pub fn split(&mut self, dir: SplitDir, ratio: Scalar) -> (id: TabId)
        requires
            old(self).wf(),
            old(self).next_tab_id < u64::MAX,
            old(self).next_pane_id < u64::MAX,
            old(self).tree().leaves().len() < usize::MAX,
        ensures
            final(self).wf(),
            id == TabId(old(self).next_tab_id),
            final(self).split_pane(*old(self), dir, ratio),
    {
        let ghost w = *self;
        let target = self.active_pane;
        let id = TabId(self.next_tab_id);
        let new_pid = PaneId(self.next_pane_id);
        let tab = Tab::new(id, "terminite".to_owned(), self.grid_cols, self.grid_rows);
        let ghost t = tab;
        let pane = Pane::single(tab);
        let ghost q = pane;
        proof {
            law_position(w.tree(), new_pid);
            law_position(w.tree(), target);
            if w.tree().has(new_pid) {
                let k = w.tree().position(new_pid);
                assert(w.tree().leaves()[k].0.0 < w.next_pane_id);
            }
            law_split_leaves(w.tree(), target, dir, new_pid, q, ratio);
            law_split_distinct(w.tree(), target, dir, new_pid, q, ratio);
        }
        let new_root = match self.root.take() {
            Some(root) => root.into_split(target, dir, new_pid, pane, ratio),
            None => vstd::pervasive::unreached(),
        };
        let ghost u = new_root;
        self.root = Some(new_root);
        self.active_pane = new_pid;
        self.next_tab_id = self.next_tab_id + 1;
        self.next_pane_id = self.next_pane_id + 1;
        proof {
            let tree = w.tree();
            let k = tree.position(target) + 1;
            assert forall|i: int| 0 <= i < u.leaves().len() implies (
            #[trigger] u.leaves()[i]).1.wf() && u.leaves()[i].0.0 < self.next_pane_id by {
                if i != k {
                    let j = if i < k { i } else { i - 1 };
                    assert(u.leaves()[i] == tree.leaves()[j]);
                    assert(tree.leaves()[j].1.wf());
                }
            }
            let node = PaneNode::Split {
                dir,
                ratio,
                first: Box::new(PaneNode::Leaf { id: target, pane: tree.pane(target) }),
                second: Box::new(PaneNode::Leaf { id: new_pid, pane: q }),
            };
            lemma_replace_tabs(tree, target, node);
            let n = tree.first_tab(target);
            let m = tree.pane(target).tabs@;
            let a = tree.tabs().take(n);
            let b = tree.tabs().skip(n + m.len());
            reveal_with_fuel(PaneNode::tabs, 2);
            assert(node.tabs() == m + q.tabs@);
            assert(m + q.tabs@ =~= m.push(t));
            assert(a + m + b =~= tree.tabs());
            lemma_pane_tabs_ok(w, target);
            let new = m.push(t);
            assert forall|i: int| 0 <= i < new.len() implies (exists|x: int|
                0 <= x < m.len() && #[trigger] m[x].id == (#[trigger] new[i]).id)
                || new[i].id.0 >= w.next_tab_id by {
                if i < m.len() {
                    assert(m[i].id == new[i].id);
                }
            }
            assert forall|i: int, j: int| 0 <= i < j < new.len() implies (#[trigger] new[i]).id != (
            #[trigger] new[j]).id by {
                assert(m[i].id.0 < w.next_tab_id);
                if j < m.len() {
                    assert(m[i].id != m[j].id);
                }
            }
            assert forall|i: int| 0 <= i < new.len() implies (#[trigger] new[i]).id.0
                < self.next_tab_id && new[i].wf() by {
                if i < m.len() {
                    assert(m[i].wf());
                }
            }
            lemma_tabs_replaced(a, m, b, new, w.next_tab_id, self.next_tab_id);
            assert(self.sound());
        }
        self.sync_active_grid();
        id
    }

    /// `self` is `before` with the focus on pane `pid`; the tab that had it
    /// holds no selection any more.
    pub open spec fn focused(self, before: Workspace, pid: PaneId) -> bool {
        let p = before.active();
        let q = self.tree().pane(before.active_pane);
        &&& self.tree() == before.tree().with_pane(before.active_pane, q)
        &&& q == Pane { tabs: q.tabs, ..p }
        &&& q.tabs@ == p.tabs@.update(
            p.active_tab as int,
            Tab { selection: None, dragging: false, ..p.shown() },
        )
        &&& self == Workspace {
            root: Some(self.tree()),
            active_pane: pid,
            grid_cols: self.active_tab().cols,
            grid_rows: self.active_tab().rows,
            ..before
        }
    }

    /// Make a pane the active one. Returns whether it was another before.
    pub fn focus(&mut self, pid: PaneId) -> (changed: bool)
        requires
            old(self).wf(),
            old(self).tree().has(pid),
        ensures
            final(self).wf(),
            changed == (pid != old(self).active_pane),
            !changed ==> *final(self) == *old(self),
            changed ==> final(self).focused(*old(self), pid),
    {
        let ghost w = *self;
        if self.active_pane == pid {
            return false;
        }
        proof {
            w.lemma_pane_wf(w.active_pane);
        }
        {
            let tab = self.active_tab_mut();
            tab.selection = None;
            tab.dragging = false;
        }
        proof {
            law_with_pane(w.tree(), w.active_pane, self.tree().pane(w.active_pane));
        }
        self.active_pane = pid;
        self.sync_active_grid();
        true
    }

    /// The active tab, to be changed in place. As long as it stays sound and
    /// keeps its id and its grid, the workspace stays sound.
    pub fn active_tab_mut(&mut self) -> (t: &mut Tab)
        requires
            old(self).wf(),
        ensures
            *t == old(self).active_tab(),
            t.wf(),
            final(self).active_tab_became(*old(self), *final(t)),
            final(t).wf() && final(t).id == t.id && final(t).cols == t.cols && final(t).rows
                == t.rows ==> final(self).wf(),
    {
        let ghost w = *self;
        proof {
            lemma_pane_tabs_ok(w, w.active_pane);
            w.lemma_pane_wf(w.active_pane);
            assert(w.active().tabs@[w.active().active_tab as int].wf());
            assert forall|q: Pane|
                #![trigger w.tree().with_pane(w.active_pane, q)]
                pane_with_tab(w.active(), q) implies (Workspace {
                root: Some(w.tree().with_pane(w.active_pane, q)),
                ..w
            }).sound() by {
                let p = w.active();
                let k = p.active_tab as int;
                assert forall|i: int| 0 <= i < q.tabs@.len() implies (exists|x: int|
                    0 <= x < p.tabs@.len() && #[trigger] p.tabs@[x].id == (
                    #[trigger] q.tabs@[i]).id) || q.tabs@[i].id.0 >= w.next_tab_id by {
                    assert(p.tabs@[i].id == q.tabs@[i].id);
                }
                assert forall|i: int, j: int| 0 <= i < j < q.tabs@.len() implies (
                #[trigger] q.tabs@[i]).id != (#[trigger] q.tabs@[j]).id by {
                    assert(p.tabs@[i].id != p.tabs@[j].id);
                }
                assert forall|i: int| 0 <= i < q.tabs@.len() implies (
                #[trigger] q.tabs@[i]).id.0 < w.next_tab_id && q.tabs@[i].wf() by {
                    assert(p.tabs@[i].wf());
                }
                lemma_pane_set(w, w.active_pane, q, w.next_tab_id);
            }
            assert forall|q: Pane| (#[trigger] w.tree().with_pane(w.active_pane, q)).pane(
                w.active_pane,
            ) == q by {
                law_with_pane(w.tree(), w.active_pane, q);
            }
        }
        self.active_pane_mut().active_tab_mut()
    }

    /// Set the background tint of the focused pane.
    pub fn set_pane_bg(&mut self, idx: u8)
        requires
            old(self).wf(),
        ensures
            final(self).wf(),
            *final(self) == (Workspace {
                root: Some(
                    old(self).tree().with_pane(
                        old(self).active_pane,
                        Pane { bg_idx: idx, ..old(self).active() },
                    ),
                ),
                ..*old(self)
            }),
    {
        let ghost w = *self;
        let pane = self.active_pane_mut();
        pane.bg_idx = idx;
        let ghost q = *pane;
        proof {
            lemma_pane_tabs_ok(w, w.active_pane);
            lemma_pane_set(w, w.active_pane, q, w.next_tab_id);
        }
    }

    /// `self` is `before` with the active tab changed to `t`.
    pub open spec fn active_tab_became(self, before: Workspace, t: Tab) -> bool {
        let p = before.active();
        let q = self.active();
        &&& self == Workspace {
            root: Some(before.tree().with_pane(before.active_pane, q)),
            ..before
        }
        &&& q == Pane { tabs: q.tabs, ..p }
        &&& q.tabs@ == p.tabs@.update(p.active_tab as int, t)
    }
}

/// `q` is `p` with a change to the tab on show that keeps its id and leaves it
/// sound.
pub open spec fn pane_with_tab(p: Pane, q: Pane) -> bool {
    let t = q.tabs@[p.active_tab as int];
    &&& q == Pane { tabs: q.tabs, ..p }
    &&& q.tabs@ == p.tabs@.update(p.active_tab as int, t)
    &&& t.wf()
    &&& t.id == p.shown().id
}

} // verus!

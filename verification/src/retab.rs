//! Changing tabs in place, wherever they are in the tree.

use crate::tab::{Tab, TabId};
use crate::tab_tree::{
    lemma_replace_tabs, lemma_same_shape, lemma_same_shape_pane, lemma_same_shape_refl,
    lemma_same_shape_trans, lemma_tab_pos, lemma_tab_pos_is_first, ids_of, tab_pos,
};
use crate::tree::{PaneId, PaneNode};
use crate::workspace::{tabs_ok, Workspace};
use vstd::prelude::*;

verus! {

impl Workspace {
    /// Every tab of the window.
    pub open spec fn all(self) -> Seq<Tab> {
        self.tree().tabs()
    }

    /// `self` is `before` but for what its tabs are.
    pub open spec fn retabbed(self, before: Workspace) -> bool {
        &&& self.root is Some
        &&& self == Workspace { root: self.root, ..before }
        &&& before.tree().same_shape(self.tree())
    }

    /// `self` is `before` with the tab `id` changed to `t`.
    pub open spec fn tab_became(self, before: Workspace, id: TabId, t: Tab) -> bool {
        &&& self.retabbed(before)
        &&& self.all() == before.all().update(tab_pos(before.all(), id), t)
    }

    /// The ids of all tabs.
    pub fn tab_ids(&self) -> (r: Vec<TabId>)
        requires
            self.root is Some,
        ensures
            r@ == ids_of(self.all()),
    {
        let mut tabs: Vec<&Tab> = Vec::new();
        let ghost n = tabs@.len();
        self.root_ref().all_tabs(&mut tabs);
        assert forall|k: int| 0 <= k < tabs@.len() implies *(#[trigger] tabs@[k])
            == self.all()[k] by {
            assert(*tabs@[n + k] == self.all()[k]);
        }
        let mut r: Vec<TabId> = Vec::new();
        let mut i: usize = 0;
        while i < tabs.len()
            invariant
                i <= tabs@.len(),
                tabs@.len() == self.all().len(),
                forall|k: int| 0 <= k < tabs@.len() ==> *(#[trigger] tabs@[k]) == self.all()[k],
                r@.len() == i,
                forall|k: int| 0 <= k < i ==> #[trigger] r@[k] == self.all()[k].id,
            decreases tabs.len() - i,
        {
            r.push(tabs[i].id);
            i = i + 1;
        }
        assert(r@ =~= ids_of(self.all()));
        r
    }

    /// The tab with the id `id`, to be changed in place. As long as it stays
    /// sound and keeps its id, the workspace stays sound.
    pub fn tab_mut(&mut self, id: TabId) -> (r: Option<&mut Tab>)
        requires
            old(self).sound(),
        ensures
            r is Some <==> old(self).tree().has_tab(id),
            r is None ==> *final(self) == *old(self),
            r matches Some(t) ==> {
                &&& *t == old(self).tree().tab(id)
                &&& t.id == id
                &&& t.wf()
                &&& final(self).tab_became(*old(self), id, *final(t))
                &&& final(t).wf() && final(t).id == id ==> final(self).sound()
                    && final(self).tree().has_tab(id) && final(self).tree().tab(id) == *final(t)
                &&& old(self).wf() && final(t).wf() && final(t).id == id && final(t).cols == t.cols
                    && final(t).rows == t.rows ==> final(self).wf()
            },
    {
        let ghost w = *self;
        proof {
            lemma_tab_pos_is_first(w.all(), id);
            if w.tree().has_tab(id) {
                assert(w.all()[tab_pos(w.all(), id)].wf());
            }
            assert forall|v: Workspace, t: Tab|
                #![trigger v.tab_became(w, id, t)]
                v.tab_became(w, id, t) && w.tree().has_tab(id) && t.wf() && t.id == id implies
                v.sound() && v.tree().has_tab(id) && v.tree().tab(id) == t && (w.wf() && t.cols == w.tree().tab(id).cols && t.rows
                == w.tree().tab(id).rows ==> v.wf()) by {
                lemma_tab_became(w, v, id, t);
            }
        }
        match &mut self.root {
            Some(n) => n.find_tab_mut(id),
            None => {
                assert(false);
                None
            },
        }
    }
}

/// Where the tabs of a pane stand among all tabs.
pub proof fn lemma_pane_tab(t: PaneNode, pid: PaneId, k: int)
    requires
        t.has(pid),
        0 <= k < t.pane(pid).tabs@.len(),
    ensures
        0 <= t.first_tab(pid) + k < t.tabs().len(),
        t.tabs()[t.first_tab(pid) + k] == t.pane(pid).tabs@[k],
{
    lemma_replace_tabs(t, pid, t);
    let n = t.first_tab(pid);
    let m = t.pane(pid).tabs@;
    assert(t.tabs().subrange(n, n + m.len())[k] == m[k]);
}

impl Workspace {
    /// Where the active tab stands among all tabs.
    pub open spec fn active_place(self) -> int {
        self.tree().first_tab(self.active_pane) + self.active().active_tab
    }

    /// The active tab is one of the tabs.
    pub proof fn lemma_active_place(self)
        requires
            self.sound(),
        ensures
            0 <= self.active_place() < self.all().len(),
            self.all()[self.active_place()] == self.active_tab(),
    {
        self.lemma_pane_wf(self.active_pane);
        lemma_pane_tab(self.tree(), self.active_pane, self.active().active_tab as int);
    }
}

/// Changing tabs keeps a workspace sound, as long as each keeps its id and
/// stays sound; the grid stays mirrored where no tab changes its own.
pub proof fn lemma_retabbed(w: Workspace, v: Workspace)
    requires
        w.sound(),
        v.retabbed(w),
        forall|i: int|
            0 <= i < v.all().len() ==> (#[trigger] v.all()[i]).id == w.all()[i].id
                && v.all()[i].wf(),
    ensures
        v.sound(),
        (w.wf() && forall|i: int|
            0 <= i < v.all().len() ==> (#[trigger] v.all()[i]).cols == w.all()[i].cols
                && v.all()[i].rows == w.all()[i].rows) ==> v.wf(),
{
    let a = w.tree();
    let b = v.tree();
    lemma_same_shape(a, b);
    lemma_same_shape_pane(a, b, w.active_pane);
    assert forall|i: int, j: int| 0 <= i < j < b.leaves().len() implies #[trigger] b.leaves()[i].0
        != #[trigger] b.leaves()[j].0 by {
        assert(a.leaves()[i].0 != a.leaves()[j].0);
    }
    assert forall|i: int| 0 <= i < b.leaves().len() implies (#[trigger] b.leaves()[i]).1.wf()
        && b.leaves()[i].0.0 < v.next_pane_id by {
        assert(a.leaves()[i].1.wf());
    }
    assert forall|i: int, j: int| 0 <= i < j < b.tabs().len() implies (#[trigger] b.tabs()[i]).id
        != (#[trigger] b.tabs()[j]).id by {
        assert(a.tabs()[i].id != a.tabs()[j].id);
        assert(v.all()[i].id == w.all()[i].id);
        assert(v.all()[j].id == w.all()[j].id);
    }
    assert forall|i: int| 0 <= i < b.tabs().len() implies (#[trigger] b.tabs()[i]).id.0
        < v.next_tab_id && b.tabs()[i].wf() by {
        assert(a.tabs()[i].id.0 < w.next_tab_id);
        assert(v.all()[i].id == w.all()[i].id);
    }
    w.lemma_pane_wf(w.active_pane);
    let k = w.active().active_tab as int;
    lemma_pane_tab(a, w.active_pane, k);
    lemma_pane_tab(b, w.active_pane, k);
    assert(v.active_tab() == v.all()[a.first_tab(w.active_pane) + k]);
}

proof fn lemma_tab_became(w: Workspace, v: Workspace, id: TabId, t: Tab)
    requires
        w.sound(),
        w.tree().has_tab(id),
        v.tab_became(w, id, t),
        t.wf(),
        t.id == id,
    ensures
        v.sound(),
        v.tree().has_tab(id),
        v.tree().tab(id) == t,
        w.wf() && t.cols == w.tree().tab(id).cols && t.rows == w.tree().tab(id).rows ==> v.wf(),
{
    lemma_tab_pos_is_first(w.all(), id);
    assert forall|i: int| 0 <= i < v.all().len() implies (#[trigger] v.all()[i]).id
        == w.all()[i].id && v.all()[i].wf() by {
        assert(w.all()[i].wf());
    }
    lemma_retabbed(w, v);
    lemma_own_place(v.all(), tab_pos(w.all(), id), v.next_tab_id);
}

/// The tab at place `i` is the one that its id finds.
pub proof fn lemma_own_place(tabs: Seq<Tab>, i: int, bound: u64)
    requires
        tabs_ok(tabs, bound),
        0 <= i < tabs.len(),
    ensures
        tab_pos(tabs, tabs[i].id) == i,
{
    lemma_tab_pos(tabs, tabs[i].id, i);
}

/// A change of tabs after a change of tabs is one.
pub proof fn lemma_retabbed_trans(a: Workspace, b: Workspace, c: Workspace)
    requires
        b.retabbed(a),
        c.retabbed(b),
    ensures
        c.retabbed(a),
{
    lemma_same_shape_trans(a.tree(), b.tree(), c.tree());
}

/// Nothing changed is no change of tabs.
pub proof fn lemma_retabbed_refl(a: Workspace)
    requires
        a.root is Some,
    ensures
        a.retabbed(a),
{
    lemma_same_shape_refl(a.tree());
}

} // verus!

//! The workspace: the pane tree with its focus, and the operations on tabs and
//! panes that keep it sound.

use crate::tab::{fresh_tab, Tab, TabId};
use crate::tab_tree::lemma_replace_tabs;
use crate::tree::{Pane, PaneId, PaneNode, Scalar};
use crate::tree_laws::{law_position, law_with_pane};
use vstd::prelude::*;

verus! {

/// The title of a tab that nothing has named yet.
pub open spec fn default_title() -> Seq<char> {
    "terminite"@
}

/// No two tabs share an id, every id is below `bound`, and every tab is sound.
pub open spec fn tabs_ok(tabs: Seq<Tab>, bound: u64) -> bool {
    &&& forall|i: int, j: int|
        0 <= i < j < tabs.len() ==> (#[trigger] tabs[i]).id != (#[trigger] tabs[j]).id
    &&& forall|i: int| 0 <= i < tabs.len() ==> (#[trigger] tabs[i]).id.0 < bound && tabs[i].wf()
}

/// Every pane shows one of its tabs, and every id is below `bound`.
pub open spec fn panes_ok(leaves: Seq<(PaneId, Pane)>, bound: u64) -> bool {
    forall|i: int| 0 <= i < leaves.len() ==> (#[trigger] leaves[i]).1.wf() && leaves[i].0.0 < bound
}

pub struct Workspace {
    /// The window's pane tree. `None` only while a pane is being split or
    /// closed.
    pub root: Option<PaneNode>,
    /// The focused pane; keyboard and mouse input routes to its active tab.
    pub active_pane: PaneId,
    pub next_tab_id: u64,
    pub next_pane_id: u64,
    /// The grid of the active tab.
    pub grid_cols: usize,
    pub grid_rows: usize,
}

impl Workspace {
    pub open spec fn tree(self) -> PaneNode {
        self.root->0
    }

    /// The focused pane.
    pub open spec fn active(self) -> Pane {
        self.tree().pane(self.active_pane)
    }

    /// The tab that input goes to.
    pub open spec fn active_tab(self) -> Tab {
        self.active().shown()
    }

    /// The tree is sound, apart from the grid being mirrored.
    pub open spec fn sound(self) -> bool {
        &&& self.root is Some
        &&& self.tree().distinct()
        &&& self.tree().has(self.active_pane)
        &&& self.tree().leaves().len() <= usize::MAX
        &&& panes_ok(self.tree().leaves(), self.next_pane_id)
        &&& tabs_ok(self.tree().tabs(), self.next_tab_id)
    }

    /// The tree is sound: ids are unique and not yet to be given out, the
    /// focused pane is in it, every pane shows a tab, and the grid mirrors the
    /// active tab's.
    pub open spec fn wf(self) -> bool {
        &&& self.sound()
        &&& self.grid_cols == self.active_tab().cols
        &&& self.grid_rows == self.active_tab().rows
    }

    /// Every pane of the tree shows a tab.
    pub proof fn lemma_pane_wf(self, id: PaneId)
        requires
            self.sound(),
            self.tree().has(id),
        ensures
            self.tree().pane(id).wf(),
    {
        law_position(self.tree(), id);
        let k = self.tree().position(id);
        assert(self.tree().leaves()[k].1.wf());
    }

    /// A window with one pane that holds one shell.
    pub fn new(cols: usize, rows: usize) -> (w: Self)
        ensures
            w.wf(),
            w.tree() matches PaneNode::Leaf { id, pane } && {
                &&& id == PaneId(0)
                &&& pane.tabs@.len() == 1
                &&& pane.active_tab == 0
                &&& pane.bg_idx == 0
                &&& pane.font_scale == Scalar(crate::tree::ONE_BITS)
                &&& fresh_tab(pane.tabs@[0], TabId(0), default_title(), cols, rows)
            },
            w.active_pane == PaneId(0),
            w.next_tab_id == 1,
            w.next_pane_id == 1,
    {
        let tab = Tab::new(TabId(0), "terminite".to_owned(), cols, rows);
        let (cols, rows) = (tab.cols, tab.rows);
        let pane = Pane::single(tab);
        Workspace {
            root: Some(PaneNode::Leaf { id: PaneId(0), pane }),
            active_pane: PaneId(0),
            next_tab_id: 1,
            next_pane_id: 1,
            grid_cols: cols,
            grid_rows: rows,
        }
    }

    pub fn root_ref(&self) -> (r: &PaneNode)
        requires
            self.root is Some,
        ensures
            *r == self.tree(),
    {
        match &self.root {
            Some(n) => n,
            None => {
                assert(false);
                vstd::pervasive::unreached()
            },
        }
    }

    pub fn active_pane_ref(&self) -> (p: &Pane)
        requires
            self.sound(),
        ensures
            *p == self.active(),
            p.wf(),
    {
        proof {
            self.lemma_pane_wf(self.active_pane);
        }
        match self.root_ref().find(self.active_pane) {
            Some(p) => p,
            None => {
                assert(false);
                vstd::pervasive::unreached()
            },
        }
    }

    pub fn active_tab_ref(&self) -> (t: &Tab)
        requires
            self.sound(),
        ensures
            *t == self.active_tab(),
    {
        self.active_pane_ref().active_tab_ref()
    }

    /// Mirror the active tab's grid.
    pub fn sync_active_grid(&mut self)
        requires
            old(self).sound(),
        ensures
            *final(self) == (Workspace {
                grid_cols: old(self).active_tab().cols,
                grid_rows: old(self).active_tab().rows,
                ..*old(self)
            }),
            final(self).wf(),
    {
        let (cols, rows) = {
            let t = self.active_tab_ref();
            (t.cols, t.rows)
        };
        self.grid_cols = cols;
        self.grid_rows = rows;
    }
}

/// Putting other tabs in the place of some keeps tabs sound, as long as each is
/// one of those, changed, or has an id that was never given out.
pub proof fn lemma_tabs_replaced(
    a: Seq<Tab>,
    m: Seq<Tab>,
    b: Seq<Tab>,
    new: Seq<Tab>,
    bound: u64,
    new_bound: u64,
)
    requires
        tabs_ok(a + m + b, bound),
        tabs_ok(new, new_bound),
        bound <= new_bound,
        forall|i: int|
            0 <= i < new.len() ==> (exists|k: int| 0 <= k < m.len() && #[trigger] m[k].id == (
            #[trigger] new[i]).id) || new[i].id.0 >= bound,
    ensures
        tabs_ok(a + new + b, new_bound),
{
    let s = a + m + b;
    let t = a + new + b;
    let la = a.len() as int;
    let lm = m.len() as int;
    let ln = new.len() as int;
    assert forall|i: int| 0 <= i < la implies t[i] == s[i] by {}
    assert forall|i: int| la + ln <= i < t.len() implies t[i] == s[i - ln + lm] by {}
    assert forall|i: int| la <= i < la + ln implies t[i] == new[i - la] by {}
    assert forall|i: int| 0 <= i < t.len() implies (#[trigger] t[i]).id.0 < new_bound && t[i].wf() by {
        if i < la {
            assert(s[i].wf());
        } else if i < la + ln {
            assert(new[i - la].wf());
        } else {
            assert(s[i - ln + lm].wf());
        }
    }
    assert forall|i: int, j: int| 0 <= i < j < t.len() implies (#[trigger] t[i]).id != (
    #[trigger] t[j]).id by {
        let oi = if i < la { i } else { i - ln + lm };
        let oj = if j < la { j } else { j - ln + lm };
        let in_i = la <= i < la + ln;
        let in_j = la <= j < la + ln;
        if in_i && in_j {
            assert(new[i - la].id != new[j - la].id);
        } else if in_i {
            let x = new[i - la];
            assert(s[oj].id.0 < bound);
            if x.id.0 < bound {
                let k = choose|k: int| 0 <= k < m.len() && #[trigger] m[k].id == x.id;
                assert(s[la + k] == m[k]);
                assert(s[la + k].id != s[oj].id);
            }
        } else if in_j {
            let x = new[j - la];
            assert(s[oi].id.0 < bound);
            if x.id.0 < bound {
                let k = choose|k: int| 0 <= k < m.len() && #[trigger] m[k].id == x.id;
                assert(s[la + k] == m[k]);
                assert(s[oi].id != s[la + k].id);
            }
        } else {
            assert(s[oi].id != s[oj].id);
        }
    }
}

/// The tabs of a pane of a sound workspace are sound.
pub proof fn lemma_pane_tabs_ok(w: Workspace, pid: PaneId)
    requires
        w.sound(),
        w.tree().has(pid),
    ensures
        tabs_ok(w.tree().pane(pid).tabs@, w.next_tab_id),
{
    let t = w.tree();
    lemma_replace_tabs(t, pid, t);
    let n = t.first_tab(pid);
    let m = t.pane(pid).tabs@;
    assert forall|i: int| 0 <= i < m.len() implies #[trigger] m[i] == t.tabs()[n + i] by {
        assert(t.tabs().subrange(n, n + m.len())[i] == m[i]);
    }
    assert forall|i: int, j: int| 0 <= i < j < m.len() implies (#[trigger] m[i]).id != (
    #[trigger] m[j]).id by {
        assert(t.tabs()[n + i].id != t.tabs()[n + j].id);
    }
    assert forall|i: int| 0 <= i < m.len() implies (#[trigger] m[i]).id.0 < w.next_tab_id
        && m[i].wf() by {
        assert(t.tabs()[n + i].wf());
    }
}

/// Putting another pane in the place of one keeps a workspace sound, as long
/// as the pane shows a tab, and each of its tabs is one that the old pane
/// held, changed, or is new.
pub proof fn lemma_pane_set(w: Workspace, pid: PaneId, q: Pane, next_tab_id: u64)
    requires
        w.sound(),
        w.tree().has(pid),
        q.wf(),
        tabs_ok(q.tabs@, next_tab_id),
        w.next_tab_id <= next_tab_id,
        forall|i: int|
            0 <= i < q.tabs@.len() ==> (exists|k: int|
                0 <= k < w.tree().pane(pid).tabs@.len() && #[trigger] w.tree().pane(pid).tabs@[k].id
                    == (#[trigger] q.tabs@[i]).id) || q.tabs@[i].id.0 >= w.next_tab_id,
    ensures
        ({
            let v = Workspace {
                root: Some(w.tree().with_pane(pid, q)),
                next_tab_id,
                ..w
            };
            &&& v.sound()
            &&& v.tree().pane(pid) == q
        }),
{
    let t = w.tree();
    let u = t.with_pane(pid, q);
    law_with_pane(t, pid, q);
    law_position(t, pid);
    lemma_replace_tabs(t, pid, PaneNode::Leaf { id: pid, pane: q });
    let n = t.first_tab(pid);
    let m = t.pane(pid).tabs@;
    let a = t.tabs().take(n);
    let b = t.tabs().skip(n + m.len());
    assert(a + m + b =~= t.tabs());
    lemma_tabs_replaced(a, m, b, q.tabs@, w.next_tab_id, next_tab_id);
    let k = t.position(pid);
    assert forall|i: int| 0 <= i < u.leaves().len() implies (#[trigger] u.leaves()[i]).1.wf()
        && u.leaves()[i].0.0 < w.next_pane_id by {
        assert(t.leaves()[i].1.wf());
    }
    assert(u.has(w.active_pane));
}

} // verus!

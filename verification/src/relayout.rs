//! Fitting the tabs to the panes that hold them.

use crate::renderer::{nothing, no_effects, Effects, Renderer};
use crate::retab::{lemma_own_place, lemma_retabbed, lemma_retabbed_refl, lemma_retabbed_trans};
use crate::tab::{
    bound_grid, within_limits, Tab, TabId, MAX_GRID_COLS, MAX_GRID_ROWS,
};
use crate::tab_tree::{ids_of, lemma_same_shape, tab_index, tab_pos};
use crate::tree::{Pane, PaneId, PaneNode, Scalar, ONE_BITS};
use crate::tree_laws::law_with_pane_other;
use crate::workspace::{lemma_pane_set, lemma_pane_tabs_ok, tabs_ok, Workspace};
use vstd::prelude::*;

verus! {

/// A tab in a pane with room for `grid`, in columns and rows. A new size
/// makes what was shaped for the old one stale, and the selection with it.
pub open spec fn regridded(t: Tab, grid: (usize, usize)) -> Tab {
    if t.cols != grid.0 || t.rows != grid.1 {
        Tab { cols: grid.0, rows: grid.1, buffer_dirty: true, selection: None, ..t }
    } else {
        t
    }
}

/// The tabs of `b` whose size is not what it was in `a`.
pub open spec fn resized(a: Seq<Tab>, b: Seq<Tab>) -> Seq<TabId>
    decreases a.len(),
{
    if a.len() == 0 {
        Seq::empty()
    } else {
        let t = a.last();
        let u = b.last();
        let rest = resized(a.drop_last(), b.drop_last());
        if t.cols != u.cols || t.rows != u.rows {
            rest.push(t.id)
        } else {
            rest
        }
    }
}

/// Each tab of `b` is the one of `a`, if in another size.
pub open spec fn only_regridded(a: Seq<Tab>, b: Seq<Tab>) -> bool {
    &&& a.len() == b.len()
    &&& forall|i: int|
        0 <= i < b.len() ==> #[trigger] b[i] == regridded(a[i], (b[i].cols, b[i].rows))
}

/// Every tab has a grid of one cell at least, and none beyond the ceilings.
pub open spec fn bounded(ts: Seq<Tab>) -> bool {
    forall|i: int|
        0 <= i < ts.len() ==> 1 <= (#[trigger] ts[i]).cols <= MAX_GRID_COLS && 1 <= ts[i].rows
            <= MAX_GRID_ROWS
}

proof fn lemma_resized_sum(a: Seq<Tab>, b: Seq<Tab>, c: Seq<Tab>, d: Seq<Tab>)
    requires
        a.len() == b.len(),
        c.len() == d.len(),
    ensures
        resized(a + c, b + d) == resized(a, b) + resized(c, d),
    decreases c.len(),
{
    if c.len() == 0 {
        assert(a + c =~= a);
        assert(b + d =~= b);
        assert(resized(a, b) + resized(c, d) =~= resized(a, b));
    } else {
        lemma_resized_sum(a, b, c.drop_last(), d.drop_last());
        assert((a + c).drop_last() =~= a + c.drop_last());
        assert((b + d).drop_last() =~= b + d.drop_last());
        assert(resized(a + c, b + d) =~= resized(a, b) + resized(c, d));
    }
}

impl Pane {
    /// Size every tab of the pane, and list those that had another size.
    fn regrid(&mut self, grid: (usize, usize), out: &mut Vec<TabId>)
        ensures
            *final(self) == (Pane { tabs: final(self).tabs, ..*old(self) }),
            final(self).tabs@.len() == old(self).tabs@.len(),
            forall|i: int|
                0 <= i < old(self).tabs@.len() ==> #[trigger] final(self).tabs@[i] == regridded(
                    old(self).tabs@[i],
                    grid,
                ),
            final(out)@ == old(out)@ + resized(old(self).tabs@, final(self).tabs@),
    {
        let ghost before = self.tabs@;
        let ghost seen = out@;
        let mut i: usize = 0;
        assert(seen + resized(before.take(0), before.take(0)) =~= seen);
        while i < self.tabs.len()
            invariant
                i <= self.tabs@.len(),
                self.tabs@.len() == before.len(),
                *self == (Pane { tabs: self.tabs, ..*old(self) }),
                forall|j: int|
                    0 <= j < i ==> #[trigger] self.tabs@[j] == regridded(before[j], grid),
                forall|j: int| i <= j < before.len() ==> #[trigger] self.tabs@[j] == before[j],
                out@ == seen + resized(before.take(i as int), self.tabs@.take(i as int)),
            decreases self.tabs.len() - i,
        {
            let ghost mid = self.tabs@;
            if self.tabs[i].cols != grid.0 || self.tabs[i].rows != grid.1 {
                out.push(self.tabs[i].id);
                self.tabs[i].cols = grid.0;
                self.tabs[i].rows = grid.1;
                self.tabs[i].buffer_dirty = true;
                self.tabs[i].selection = None;
            }
            proof {
                let a = before.take(i + 1);
                let b = self.tabs@.take(i + 1);
                assert(a.drop_last() =~= before.take(i as int));
                assert(b.drop_last() =~= mid.take(i as int));
                assert(self.tabs@[i as int] == regridded(before[i as int], grid));
                assert(out@ =~= seen + resized(a, b));
            }
            i = i + 1;
        }
        assert(before.take(before.len() as int) =~= before);
        assert(self.tabs@.take(before.len() as int) =~= self.tabs@);
    }
}

impl PaneNode {
    /// Every pane of `self` is as in `before`, with its tabs sized to
    /// `grids`, which has one entry for each pane from `at` on, as far as the
    /// limits allow.
    pub open spec fn fitted(self, before: PaneNode, grids: Seq<(usize, usize)>, at: int) -> bool {
        &&& before.same_shape(self)
        &&& self.leaves().len() == before.leaves().len()
        &&& forall|i: int, k: int|
            0 <= i < before.leaves().len() && 0 <= k < before.leaves()[i].1.tabs@.len()
                ==> #[trigger] self.leaves()[i].1.tabs@[k] == regridded(
                before.leaves()[i].1.tabs@[k],
                within_limits(grids[at + i]),
            )
    }

    fn regrid(&mut self, grids: &Vec<(usize, usize)>, at: usize, out: &mut Vec<TabId>) -> (next:
        usize)
        requires
            at + old(self).leaves().len() <= grids.len(),
        ensures
            next == at + old(self).leaves().len(),
            final(self).fitted(*old(self), grids@, at as int),
            only_regridded(old(self).tabs(), final(self).tabs()),
            bounded(final(self).tabs()),
            final(out)@ == old(out)@ + resized(old(self).tabs(), final(self).tabs()),
        decreases *old(self),
    {
        let ghost before = *self;
        let ghost seen = out@;
        match self {
            PaneNode::Leaf { pane, .. } => {
                pane.regrid(bound_grid(grids[at]), out);
                at + 1
            },
            PaneNode::Split { first, second, .. } => {
                let ghost f = **first;
                let ghost s = **second;
                let mid = first.regrid(grids, at, out);
                let next = second.regrid(grids, mid, out);
                proof {
                    lemma_same_shape(f, **first);
                    lemma_same_shape(s, **second);
                    lemma_resized_sum(f.tabs(), first.tabs(), s.tabs(), second.tabs());
                    lemma_fitted_sum(f, s, **first, **second, grids@, at as int);
                    assert(out@ =~= seen + resized(
                        f.tabs() + s.tabs(),
                        first.tabs() + second.tabs(),
                    ));
                }
                next
            },
        }
    }
}

impl Renderer {
    /// Fit every tab to its pane. `grids` has the room in each pane, in
    /// columns and rows; the result lists the tabs whose terminals have to be
    /// resized. Tabs in the background are kept accurate too.
    pub fn relayout(&mut self, grids: &Vec<(usize, usize)>) -> (r: Vec<TabId>)
        requires
            old(self).wf(),
            grids@.len() == old(self).ws.tree().leaves().len(),
        ensures
            final(self).wf(),
            final(self).same_but_ws(*old(self)),
            final(self).ws == (Workspace {
                root: final(self).ws.root,
                grid_cols: final(self).ws.active_tab().cols,
                grid_rows: final(self).ws.active_tab().rows,
                ..old(self).ws
            }),
            final(self).ws.tree().fitted(old(self).ws.tree(), grids@, 0),
            r@ == resized(old(self).ws.all(), final(self).ws.all()),
    {
        let ghost w = self.ws;
        let mut out: Vec<TabId> = Vec::new();
        if let Some(root) = &mut self.ws.root {
            let _ = root.regrid(grids, 0, &mut out);
        }
        proof {
            assert(out@ =~= resized(w.all(), self.ws.all()));
            assert forall|i: int| 0 <= i < self.ws.all().len() implies (
            #[trigger] self.ws.all()[i]).id == w.all()[i].id && self.ws.all()[i].wf() by {
                assert(w.all()[i].wf());
            }
            lemma_retabbed(w, self.ws);
        }
        self.ws.sync_active_grid();
        out
    }

    /// The scale of the pane that holds tab `id`; one where no pane does.
    pub open spec fn tab_scale(self, id: TabId) -> Scalar {
        let l = self.ws.tree().leaves();
        let k = holder(l, id);
        if k < l.len() {
            l[k].1.font_scale
        } else {
            Scalar(ONE_BITS)
        }
    }

    /// The scale of the pane that holds tab `id`, or one if the tab vanished.
    pub fn scale_for_tab(&self, id: TabId) -> (r: Scalar)
        requires
            self.wf(),
        ensures
            r == self.tab_scale(id),
    {
        let ghost l = self.ws.tree().leaves();
        let mut panes: Vec<&Pane> = Vec::new();
        let ghost n = panes@.len();
        self.ws.root_ref().all_panes(&mut panes);
        assert forall|k: int| 0 <= k < l.len() implies *(#[trigger] panes@[k]) == l[k].1 by {
            assert(*panes@[n + k] == l[k].1);
        }
        let mut i: usize = 0;
        assert(l.skip(0) =~= l);
        while i < panes.len()
            invariant
                i <= panes@.len(),
                panes@.len() == l.len(),
                l == self.ws.tree().leaves(),
                forall|k: int| 0 <= k < l.len() ==> *(#[trigger] panes@[k]) == l[k].1,
                holder(l, id) == i + holder(l.skip(i as int), id),
            decreases panes.len() - i,
        {
            let p = panes[i];
            if tab_index(&p.tabs, id) < p.tabs.len() {
                return p.font_scale;
            }
            assert(l.skip(i as int).drop_first() =~= l.skip(i + 1));
            i = i + 1;
        }
        Scalar(ONE_BITS)
    }

    /// `self` is `before` with pane `pid` at another scale; what was shaped
    /// for the old one is stale.
    pub open spec fn rescaled(self, before: Renderer, pid: PaneId, scale: Scalar) -> bool {
        let p = before.ws.tree().pane(pid);
        let q = self.ws.tree().pane(pid);
        &&& self.same_but_ws(before)
        &&& self.ws == Workspace {
            root: Some(before.ws.tree().with_pane(pid, q)),
            ..before.ws
        }
        &&& q == Pane { tabs: q.tabs, font_scale: scale, ..p }
        &&& q.tabs@.len() == p.tabs@.len()
        &&& forall|i: int|
            0 <= i < p.tabs@.len() ==> #[trigger] q.tabs@[i] == (Tab {
                content_ready: false,
                buffer_dirty: true,
                ..p.tabs@[i]
            })
    }

    /// What a new scale of a pane changes.
    pub open spec fn pane_rescaled(
        self,
        before: Renderer,
        pid: PaneId,
        scale: Scalar,
        differs: bool,
        e: Effects,
    ) -> bool {
        if differs && before.ws.tree().has(pid) {
            &&& self.rescaled(before, pid, scale)
            &&& e == (Effects { relayout: true, redraw: true, ..nothing() })
        } else {
            self == before && e == nothing()
        }
    }

    /// Set one pane's font scale. `differs` says whether it is another than the
    /// pane has; nothing happens where it is not.
    pub fn apply_pane_scale(&mut self, pid: PaneId, scale: Scalar, differs: bool) -> (e: Effects)
        requires
            old(self).wf(),
        ensures
            final(self).wf(),
            final(self).pane_rescaled(*old(self), pid, scale, differs, e),
    {
        if !differs || self.ws.root_ref().find(pid).is_none() {
            return no_effects();
        }
        let ghost w = self.ws;
        proof {
            w.lemma_pane_wf(pid);
            lemma_pane_tabs_ok(w, pid);
        }
        if let Some(root) = &mut self.ws.root {
            if let Some(p) = root.find_mut(pid) {
                p.font_scale = scale;
                stale(&mut p.tabs);
                let ghost q = *p;
                proof {
                    lemma_stale_ok(w.tree().pane(pid).tabs@, q.tabs@, w.next_tab_id);
                    assert forall|i: int| 0 <= i < q.tabs@.len() implies (exists|x: int|
                        0 <= x < w.tree().pane(pid).tabs@.len()
                            && #[trigger] w.tree().pane(pid).tabs@[x].id == (
                        #[trigger] q.tabs@[i]).id) || q.tabs@[i].id.0 >= w.next_tab_id by {
                        assert(w.tree().pane(pid).tabs@[i].id == q.tabs@[i].id);
                    }
                    lemma_pane_set(w, pid, q, w.next_tab_id);
                    if pid != w.active_pane {
                        law_with_pane_other(w.tree(), pid, q, w.active_pane);
                    }
                    w.lemma_pane_wf(w.active_pane);
                }
            }
        }
        Effects {
            reload_config: false,
            relayout: true,
            retitle: false,
            redraw: true,
            persist: false,
        }
    }

    /// What changed layout settings change.
    pub open spec fn laid_out_live(
        self,
        before: Renderer,
        line_height_changed: bool,
        rest_changed: bool,
        e: Effects,
    ) -> bool {
        &&& (if line_height_changed {
            &&& self.same_but_ws(before)
            &&& self.ws.retabbed(before.ws)
            &&& self.ws.all().len() == before.ws.all().len()
            &&& forall|i: int|
                0 <= i < before.ws.all().len() ==> #[trigger] self.ws.all()[i] == (
                Tab { buffer_dirty: true, ..before.ws.all()[i] })
        } else {
            self == before
        })
        &&& e == (if line_height_changed || rest_changed {
            Effects { relayout: true, redraw: true, ..nothing() }
        } else {
            nothing()
        })
    }

    /// Apply changes of the configuration that concern the layout. A new line
    /// height makes every terminal's text stale.
    pub fn apply_live_layout(&mut self, line_height_changed: bool, rest_changed: bool) -> (e:
        Effects)
        requires
            old(self).wf(),
        ensures
            final(self).wf(),
            final(self).laid_out_live(*old(self), line_height_changed, rest_changed, e),
    {
        if !line_height_changed && !rest_changed {
            return no_effects();
        }
        if line_height_changed {
            self.reshape_all();
        }
        Effects {
            reload_config: false,
            relayout: true,
            retitle: false,
            redraw: true,
            persist: false,
        }
    }

    fn reshape_all(&mut self)
        requires
            old(self).wf(),
        ensures
            final(self).wf(),
            final(self).same_but_ws(*old(self)),
            final(self).ws.retabbed(old(self).ws),
            final(self).ws.all().len() == old(self).ws.all().len(),
            forall|i: int|
                0 <= i < old(self).ws.all().len() ==> #[trigger] final(self).ws.all()[i] == (Tab {
                    buffer_dirty: true,
                    ..old(self).ws.all()[i]
                }),
    {
        let ghost before = *self;
        let ghost w = self.ws;
        proof {
            lemma_retabbed_refl(w);
        }
        let ids = self.ws.tab_ids();
        let mut i: usize = 0;
        while i < ids.len()
            invariant
                i <= ids@.len(),
                ids@ == ids_of(w.all()),
                w.wf(),
                self.wf(),
                self.same_but_ws(before),
                self.ws.retabbed(w),
                self.ws.all().len() == w.all().len(),
                forall|j: int|
                    0 <= j < i ==> #[trigger] self.ws.all()[j] == (Tab {
                        buffer_dirty: true,
                        ..w.all()[j]
                    }),
                forall|j: int|
                    i <= j < self.ws.all().len() ==> #[trigger] self.ws.all()[j] == w.all()[j],
            decreases ids.len() - i,
        {
            let ghost mid = self.ws;
            proof {
                lemma_own_place(mid.all(), i as int, mid.next_tab_id);
                assert(ids@[i as int] == w.all()[i as int].id);
                assert(mid.all()[i as int] == w.all()[i as int]);
            }
            if let Some(tab) = self.ws.tab_mut(ids[i]) {
                tab.buffer_dirty = true;
            }
            proof {
                lemma_retabbed_trans(w, mid, self.ws);
            }
            i = i + 1;
        }
    }
}

/// The first pane that holds tab `id`; the number of panes where none does.
pub open spec fn holder(leaves: Seq<(PaneId, Pane)>, id: TabId) -> int
    decreases leaves.len(),
{
    if leaves.len() == 0 || tab_pos(leaves[0].1.tabs@, id) < leaves[0].1.tabs@.len() {
        0
    } else {
        1 + holder(leaves.drop_first(), id)
    }
}

/// Everything that is shaped for these tabs is stale.
fn stale(tabs: &mut Vec<Tab>)
    ensures
        final(tabs)@.len() == old(tabs)@.len(),
        forall|i: int|
            0 <= i < old(tabs)@.len() ==> #[trigger] final(tabs)@[i] == (Tab {
                content_ready: false,
                buffer_dirty: true,
                ..old(tabs)@[i]
            }),
{
    let ghost before = tabs@;
    let mut i: usize = 0;
    while i < tabs.len()
        invariant
            i <= tabs@.len(),
            tabs@.len() == before.len(),
            forall|j: int|
                0 <= j < i ==> #[trigger] tabs@[j] == (Tab {
                    content_ready: false,
                    buffer_dirty: true,
                    ..before[j]
                }),
            forall|j: int| i <= j < before.len() ==> #[trigger] tabs@[j] == before[j],
        decreases tabs.len() - i,
    {
        tabs[i].content_ready = false;
        tabs[i].buffer_dirty = true;
        i = i + 1;
    }
}

proof fn lemma_stale_ok(a: Seq<Tab>, b: Seq<Tab>, bound: u64)
    requires
        tabs_ok(a, bound),
        a.len() == b.len(),
        forall|i: int|
            0 <= i < a.len() ==> #[trigger] b[i] == (Tab {
                content_ready: false,
                buffer_dirty: true,
                ..a[i]
            }),
    ensures
        tabs_ok(b, bound),
{
    assert forall|i: int| 0 <= i < b.len() implies (#[trigger] b[i]).id.0 < bound && b[i].wf() by {
        assert(a[i].wf());
    }
    assert forall|i: int, j: int| 0 <= i < j < b.len() implies (#[trigger] b[i]).id != (
    #[trigger] b[j]).id by {
        assert(a[i].id != a[j].id);
    }
}

proof fn lemma_fitted_sum(
    f: PaneNode,
    s: PaneNode,
    g: PaneNode,
    t: PaneNode,
    grids: Seq<(usize, usize)>,
    at: int,
)
    requires
        g.fitted(f, grids, at),
        t.fitted(s, grids, at + f.leaves().len()),
    ensures
        forall|i: int, k: int|
            0 <= i < f.leaves().len() + s.leaves().len() && 0 <= k < (f.leaves()
                + s.leaves())[i].1.tabs@.len() ==> #[trigger] (g.leaves()
                + t.leaves())[i].1.tabs@[k] == regridded(
                (f.leaves() + s.leaves())[i].1.tabs@[k],
                within_limits(grids[at + i]),
            ),
{
    let n = f.leaves().len() as int;
    assert forall|i: int, k: int|
        0 <= i < f.leaves().len() + s.leaves().len() && 0 <= k < (f.leaves()
            + s.leaves())[i].1.tabs@.len() implies #[trigger] (g.leaves()
        + t.leaves())[i].1.tabs@[k] == regridded(
        (f.leaves() + s.leaves())[i].1.tabs@[k],
        within_limits(grids[at + i]),
    ) by {
        if i < n {
            assert(g.leaves()[i].1.tabs@[k] == regridded(
                f.leaves()[i].1.tabs@[k],
                within_limits(grids[at + i]),
            ));
        } else {
            assert(t.leaves()[i - n].1.tabs@[k] == regridded(
                s.leaves()[i - n].1.tabs@[k],
                within_limits(grids[at + n + (i - n)]),
            ));
        }
    }
}

} // verus!

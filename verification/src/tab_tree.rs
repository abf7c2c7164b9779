//! Tabs in the pane tree: finding one by its id, and what a change of one tab
//! leaves alone.

use crate::tab::{Tab, TabId};
use crate::tree::{Pane, PaneId, PaneNode, Scalar};
use vstd::prelude::*;

verus! {

/// The ids of a list of tabs.
pub open spec fn ids_of(tabs: Seq<Tab>) -> Seq<TabId> {
    tabs.map_values(|t: Tab| t.id)
}

/// The position of the first tab with the id `id`; the number of tabs where
/// there is none.
pub open spec fn tab_pos(tabs: Seq<Tab>, id: TabId) -> int
    decreases tabs.len(),
{
    if tabs.len() == 0 || tabs[0].id == id {
        0
    } else {
        1 + tab_pos(tabs.drop_first(), id)
    }
}

/// `tab_pos` is the first position with the id, or the end.
pub proof fn lemma_tab_pos(tabs: Seq<Tab>, id: TabId, n: int)
    requires
        0 <= n <= tabs.len(),
        forall|i: int| 0 <= i < n ==> (#[trigger] tabs[i]).id != id,
        n < tabs.len() ==> tabs[n].id == id,
    ensures
        tab_pos(tabs, id) == n,
    decreases n,
{
    if n > 0 {
        let rest = tabs.drop_first();
        assert(tabs[0].id != id);
        assert forall|i: int| 0 <= i < n - 1 implies (#[trigger] rest[i]).id != id by {
            assert(tabs[i + 1].id != id);
        }
        if n < tabs.len() {
            assert(rest[n - 1] == tabs[n]);
        }
        lemma_tab_pos(rest, id, n - 1);
    }
}

/// What `tab_pos` means.
pub proof fn lemma_tab_pos_is_first(tabs: Seq<Tab>, id: TabId)
    ensures
        0 <= tab_pos(tabs, id) <= tabs.len(),
        tab_pos(tabs, id) < tabs.len() ==> tabs[tab_pos(tabs, id)].id == id,
        forall|i: int| 0 <= i < tab_pos(tabs, id) ==> (#[trigger] tabs[i]).id != id,
    decreases tabs.len(),
{
    if tabs.len() > 0 && tabs[0].id != id {
        let rest = tabs.drop_first();
        lemma_tab_pos_is_first(rest, id);
        let n = tab_pos(tabs, id);
        assert forall|i: int| 0 <= i < n implies (#[trigger] tabs[i]).id != id by {
            if i > 0 {
                assert(rest[i - 1].id != id);
            }
        }
        if n < tabs.len() {
            assert(rest[n - 1] == tabs[n]);
        }
    }
}

impl PaneNode {
    /// The other tree has the same splits and the same panes, each with as many
    /// tabs; only what the tabs are may differ.
    pub open spec fn same_shape(self, other: PaneNode) -> bool
        decreases self,
    {
        match (self, other) {
            (PaneNode::Leaf { id: a, pane: p }, PaneNode::Leaf { id: b, pane: q }) => {
                &&& a == b
                &&& q == Pane { tabs: q.tabs, ..p }
                &&& q.tabs@.len() == p.tabs@.len()
            },
            (
                PaneNode::Split { dir: d, ratio: r, first: f, second: s },
                PaneNode::Split { dir: e, ratio: t, first: g, second: u },
            ) => d == e && r == t && f.same_shape(*g) && s.same_shape(*u),
            _ => false,
        }
    }

    /// A tab with the id `id` is in the tree.
    pub open spec fn has_tab(self, id: TabId) -> bool {
        tab_pos(self.tabs(), id) < self.tabs().len()
    }

    /// The first tab with the id `id`.
    pub open spec fn tab(self, id: TabId) -> Tab {
        self.tabs()[tab_pos(self.tabs(), id)]
    }

    /// Whether a tab with the id `id` is in the tree.
    pub fn holds_tab(&self, id: TabId) -> (r: bool)
        ensures
            r == self.has_tab(id),
        decreases self,
    {
        match self {
            PaneNode::Leaf { pane, .. } => tab_index(&pane.tabs, id) < pane.tabs.len(),
            PaneNode::Split { first, second, .. } => {
                proof {
                    lemma_pos_in_sum(first.tabs(), second.tabs(), id);
                }
                first.holds_tab(id) || second.holds_tab(id)
            },
        }
    }

    /// The tab with the id `id`.
    pub fn find_tab(&self, id: TabId) -> (r: Option<&Tab>)
        ensures
            r is Some <==> self.has_tab(id),
            r matches Some(t) ==> *t == self.tab(id) && t.id == id,
        decreases self,
    {
        proof {
            lemma_tab_pos_is_first(self.tabs(), id);
        }
        match self {
            PaneNode::Leaf { pane, .. } => {
                let i = tab_index(&pane.tabs, id);
                if i < pane.tabs.len() {
                    Some(&pane.tabs[i])
                } else {
                    None
                }
            },
            PaneNode::Split { first, second, .. } => {
                proof {
                    lemma_pos_in_sum(first.tabs(), second.tabs(), id);
                    lemma_tab_pos_is_first(first.tabs(), id);
                }
                match first.find_tab(id) {
                    Some(t) => Some(t),
                    None => second.find_tab(id),
                }
            },
        }
    }

    /// The tab with the id `id`, to be changed in place.
    pub fn find_tab_mut(&mut self, id: TabId) -> (r: Option<&mut Tab>)
        ensures
            r is Some <==> old(self).has_tab(id),
            r is None ==> *final(self) == *old(self),
            r matches Some(t) ==> {
                &&& *t == old(self).tab(id)
                &&& t.id == id
                &&& old(self).same_shape(*final(self))
                &&& final(self).tabs() == old(self).tabs().update(
                    tab_pos(old(self).tabs(), id),
                    *final(t),
                )
            },
        decreases *old(self),
    {
        let ghost before = *self;
        proof {
            lemma_tab_pos_is_first(self.tabs(), id);
        }
        match self {
            PaneNode::Leaf { pane, .. } => {
                let i = tab_index(&pane.tabs, id);
                if i < pane.tabs.len() {
                    Some(&mut pane.tabs[i])
                } else {
                    None
                }
            },
            PaneNode::Split { first, second, .. } => {
                proof {
                    lemma_pos_in_sum(first.tabs(), second.tabs(), id);
                    lemma_tab_pos_is_first(first.tabs(), id);
                    lemma_update_in_sum(first.tabs(), second.tabs());
                    lemma_same_shape_refl(**first);
                    lemma_same_shape_refl(**second);
                }
                if first.holds_tab(id) {
                    first.find_tab_mut(id)
                } else {
                    second.find_tab_mut(id)
                }
            },
        }
    }
}

pub(crate) fn tab_index(tabs: &Vec<Tab>, id: TabId) -> (i: usize)
    ensures
        i == tab_pos(tabs@, id),
        i <= tabs@.len(),
{
    let mut i: usize = 0;
    while i < tabs.len() && tabs[i].id != id
        invariant
            i <= tabs@.len(),
            forall|k: int| 0 <= k < i ==> (#[trigger] tabs@[k]).id != id,
        decreases tabs.len() - i,
    {
        i = i + 1;
    }
    proof {
        lemma_tab_pos(tabs@, id, i as int);
    }
    i
}

proof fn lemma_pos_in_sum(a: Seq<Tab>, b: Seq<Tab>, id: TabId)
    ensures
        tab_pos(a + b, id) == (if tab_pos(a, id) < a.len() {
            tab_pos(a, id)
        } else {
            a.len() + tab_pos(b, id)
        }),
{
    let s = a + b;
    lemma_tab_pos_is_first(a, id);
    lemma_tab_pos_is_first(b, id);
    let n = if tab_pos(a, id) < a.len() {
        tab_pos(a, id)
    } else {
        a.len() + tab_pos(b, id)
    };
    assert forall|i: int| 0 <= i < n implies (#[trigger] s[i]).id != id by {
        if i < a.len() {
            assert(s[i] == a[i]);
        } else {
            assert(s[i] == b[i - a.len()]);
        }
    }
    lemma_tab_pos(s, id, n);
}

proof fn lemma_update_in_sum(a: Seq<Tab>, b: Seq<Tab>)
    ensures
        forall|i: int, t: Tab|
            0 <= i < a.len() ==> #[trigger] a.update(i, t) + b == (a + b).update(i, t),
        forall|i: int, t: Tab|
            0 <= i < b.len() ==> #[trigger] (a + b.update(i, t)) == (a + b).update(a.len() + i, t),
{
    assert forall|i: int, t: Tab| 0 <= i < a.len() implies #[trigger] a.update(i, t) + b == (a
        + b).update(i, t) by {
        assert(a.update(i, t) + b =~= (a + b).update(i, t));
    }
    assert forall|i: int, t: Tab| 0 <= i < b.len() implies #[trigger] (a + b.update(i, t)) == (a
        + b).update(a.len() + i, t) by {
        assert(a + b.update(i, t) =~= (a + b).update(a.len() + i, t));
    }
}

/// A tree has its own shape.
pub proof fn lemma_same_shape_refl(t: PaneNode)
    ensures
        t.same_shape(t),
    decreases t,
{
    if let PaneNode::Split { first, second, .. } = t {
        lemma_same_shape_refl(*first);
        lemma_same_shape_refl(*second);
    }
}

/// Having one's shape carries over.
pub proof fn lemma_same_shape_trans(a: PaneNode, b: PaneNode, c: PaneNode)
    requires
        a.same_shape(b),
        b.same_shape(c),
    ensures
        a.same_shape(c),
    decreases a,
{
    if let PaneNode::Split { first: f, second: s, .. } = a {
        if let PaneNode::Split { first: g, second: t, .. } = b {
            if let PaneNode::Split { first: h, second: u, .. } = c {
                lemma_same_shape_trans(*f, *g, *h);
                lemma_same_shape_trans(*s, *t, *u);
            }
        }
    }
}

/// Trees of one shape have the same panes, each as it was but for its tabs,
/// and as many tabs.
pub proof fn lemma_same_shape(a: PaneNode, b: PaneNode)
    requires
        a.same_shape(b),
    ensures
        a.leaves().len() == b.leaves().len(),
        a.tabs().len() == b.tabs().len(),
        forall|i: int|
            0 <= i < a.leaves().len() ==> {
                let p = a.leaves()[i];
                let q = #[trigger] b.leaves()[i];
                &&& q.0 == p.0
                &&& q.1 == Pane { tabs: q.1.tabs, ..p.1 }
                &&& q.1.tabs@.len() == p.1.tabs@.len()
            },
    decreases a,
{
    if let PaneNode::Split { first: f, second: s, .. } = a {
        if let PaneNode::Split { first: g, second: t, .. } = b {
            lemma_same_shape(*f, *g);
            lemma_same_shape(*s, *t);
            assert forall|i: int| 0 <= i < a.leaves().len() implies {
                let p = a.leaves()[i];
                let q = #[trigger] b.leaves()[i];
                &&& q.0 == p.0
                &&& q.1 == Pane { tabs: q.1.tabs, ..p.1 }
                &&& q.1.tabs@.len() == p.1.tabs@.len()
            } by {
                let n = f.leaves().len() as int;
                if i < n {
                    assert(g.leaves()[i].0 == f.leaves()[i].0);
                } else {
                    assert(t.leaves()[i - n].0 == s.leaves()[i - n].0);
                }
            }
        }
    }
}

/// In trees of one shape, a pane is in both or in neither, and its tabs stand
/// at the same places among all tabs.
pub proof fn lemma_same_shape_pane(a: PaneNode, b: PaneNode, id: PaneId)
    requires
        a.same_shape(b),
    ensures
        a.has(id) <==> b.has(id),
        a.has(id) ==> {
            let p = a.pane(id);
            let q = b.pane(id);
            &&& q == Pane { tabs: q.tabs, ..p }
            &&& q.tabs@.len() == p.tabs@.len()
            &&& a.first_tab(id) == b.first_tab(id)
        },
    decreases a,
{
    if let PaneNode::Split { first: f, second: s, .. } = a {
        if let PaneNode::Split { first: g, second: t, .. } = b {
            lemma_same_shape(*f, *g);
            lemma_same_shape_pane(*f, *g, id);
            lemma_same_shape_pane(*s, *t, id);
        }
    }
}

impl PaneNode {
    /// How many tabs stand before those of pane `id`.
    pub open spec fn first_tab(self, id: PaneId) -> int
        decreases self,
    {
        match self {
            PaneNode::Leaf { .. } => 0,
            PaneNode::Split { first, second, .. } => if first.has(id) {
                first.first_tab(id)
            } else {
                first.tabs().len() + second.first_tab(id)
            },
        }
    }
}

/// The tabs of a pane stand together among all tabs; replacing the pane by a
/// tree replaces exactly those.
pub proof fn lemma_replace_tabs(t: PaneNode, target: PaneId, node: PaneNode)
    requires
        t.has(target),
    ensures
        ({
            let n = t.first_tab(target);
            let m = t.pane(target).tabs@;
            &&& 0 <= n <= n + m.len() <= t.tabs().len()
            &&& t.tabs().subrange(n, n + m.len()) == m
            &&& t.replace(target, node).tabs() == t.tabs().take(n) + node.tabs() + t.tabs().skip(
                n + m.len(),
            )
        }),
    decreases t,
{
    let n = t.first_tab(target);
    let m = t.pane(target).tabs@;
    match t {
        PaneNode::Leaf { .. } => {
            assert(t.tabs().subrange(0, m.len() as int) =~= m);
            assert(t.replace(target, node).tabs() =~= t.tabs().take(n) + node.tabs()
                + t.tabs().skip(n + m.len()));
        },
        PaneNode::Split { first, second, .. } => {
            let f = first.tabs();
            let s = second.tabs();
            if first.has(target) {
                lemma_replace_tabs(*first, target, node);
                assert((f + s).subrange(n, n + m.len()) =~= f.subrange(n, n + m.len()));
                assert(f.take(n) + node.tabs() + f.skip(n + m.len()) + s =~= (f + s).take(n)
                    + node.tabs() + (f + s).skip(n + m.len()));
            } else {
                lemma_replace_tabs(*second, target, node);
                let k = n - f.len();
                assert((f + s).subrange(n, n + m.len()) =~= s.subrange(k, k + m.len()));
                assert(f + (s.take(k) + node.tabs() + s.skip(k + m.len())) =~= (f + s).take(n)
                    + node.tabs() + (f + s).skip(n + m.len()));
            }
        },
    }
}

/// Closing a pane takes its tabs away, and no others.
pub proof fn lemma_close_tabs(t: PaneNode, target: PaneId)
    requires
        t.has(target),
    ensures
        ({
            let n = t.first_tab(target);
            let m = t.pane(target).tabs@;
            &&& 0 <= n <= n + m.len() <= t.tabs().len()
            &&& t.tabs().subrange(n, n + m.len()) == m
            &&& t.closed(target) matches Some(u) ==> u.tabs() == t.tabs().take(n)
                + t.tabs().skip(n + m.len())
            &&& t.closed(target) is None ==> t.tabs() == m
        }),
    decreases t,
{
    let n = t.first_tab(target);
    let m = t.pane(target).tabs@;
    match t {
        PaneNode::Leaf { .. } => {
            assert(t.tabs().subrange(0, m.len() as int) =~= m);
        },
        PaneNode::Split { dir, ratio, first, second } => {
            let f = first.tabs();
            let s = second.tabs();
            if first.has(target) {
                lemma_close_tabs(*first, target);
                assert((f + s).subrange(n, n + m.len()) =~= f.subrange(n, n + m.len()));
                match first.closed(target) {
                    Some(c) => {
                        let u = PaneNode::Split { dir, ratio, first: Box::new(c), second };
                        assert(u.tabs() == c.tabs() + s);
                        assert(f.take(n) + f.skip(n + m.len()) + s =~= (f + s).take(n) + (f
                            + s).skip(n + m.len()));
                    },
                    None => {
                        assert((f + s).take(n) + (f + s).skip(n + m.len()) =~= s);
                    },
                }
            } else {
                lemma_close_tabs(*second, target);
                let k = n - f.len();
                assert((f + s).subrange(n, n + m.len()) =~= s.subrange(k, k + m.len()));
                match second.closed(target) {
                    Some(c) => {
                        let u = PaneNode::Split { dir, ratio, first, second: Box::new(c) };
                        assert(u.tabs() == f + c.tabs());
                        assert(f + (s.take(k) + s.skip(k + m.len())) =~= (f + s).take(n) + (f
                            + s).skip(n + m.len()));
                    },
                    None => {
                        assert((f + s).take(n) + (f + s).skip(n + m.len()) =~= f);
                    },
                }
            }
        },
    }
}

/// Dragging a divider changes no tab, and no tab's place.
pub proof fn lemma_ratio_keeps_tabs(t: PaneNode, path: Seq<usize>, value: Scalar)
    ensures
        t.with_ratio(path, value).tabs() == t.tabs(),
    decreases t,
{
    if let PaneNode::Split { first, second, .. } = t {
        if path.len() > 0 {
            lemma_ratio_keeps_tabs(*first, path.drop_first(), value);
            lemma_ratio_keeps_tabs(*second, path.drop_first(), value);
        }
    }
}

} // verus!

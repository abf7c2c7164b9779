//! A window built from a layout that was written down.

use crate::acp::AcpSession;
use crate::kinds::{fresh_session, launch, Launch};
use crate::renderer::{no_effects, nothing, Effects, Renderer};
use crate::saved::{
    clamp_saved_ratio, clamped, lemma_path_stays, saved, Layout, LayoutNode, LayoutPane, LayoutTab,
};
use crate::tab::{fresh_tab, ModuleManifest, Tab, TabContentKind, TabId};
use crate::tree::{lemma_leaves_nonempty, Pane, PaneId, PaneNode, Scalar};
use crate::tree_laws::law_position;
use vstd::prelude::*;

verus! {

/// What a window is built with: the grid of its tabs, and the modules there
/// are.
pub struct Ground<'a> {
    pub cols: usize,
    pub rows: usize,
    pub modules: &'a Vec<ModuleManifest>,
}

/// `t` is the tab that `l` says, under the id `id`; `s` says whether what had
/// to be up for it came up.
pub open spec fn restored_as(
    l: LayoutTab,
    t: Tab,
    id: u64,
    cols: usize,
    rows: usize,
    what: Launch,
    s: bool,
) -> bool {
    &&& fresh_tab(
        Tab {
            kind: TabContentKind::Shell,
            color_idx: 0,
            module_session: None,
            module_pty: false,
            acp_session: None,
            last_focused_path: None,
            ..t
        },
        TabId(id),
        l.title@,
        cols,
        rows,
    )
    &&& t.title == l.title
    &&& t.kind == l.kind
    &&& t.color_idx == l.color_idx
    &&& t.last_focused_path == l.focused_path
    &&& t.module_pty == (what is Tty)
    &&& if what is Data && s {
        t.module_session matches Some(body) && body@.len() == 0
    } else {
        t.module_session is None
    }
    &&& if what is Agent && s {
        t.acp_session matches Some(x) && fresh_session(x)
    } else {
        t.acp_session is None
    }
}

/// `t` is the tab that `l` says; `up` are the tabs for which what their kind
/// needs came up.
pub open spec fn tab_restored(
    l: LayoutTab,
    t: Tab,
    id: u64,
    g: Ground,
    up: Seq<TabId>,
) -> bool {
    restored_as(
        l,
        t,
        id,
        g.cols,
        g.rows,
        launch(l.kind, g.modules@),
        up.contains(TabId(id)),
    )
}

/// `pane` is the pane that `l` says, with tab ids from `q` on. It shows the tab
/// that it showed.
pub open spec fn pane_restored(
    l: LayoutPane,
    pane: Pane,
    q: int,
    g: Ground,
    up: Seq<TabId>,
) -> bool {
    &&& pane.tabs@.len() == l.tabs@.len()
    &&& pane.active_tab == (if l.active_tab < l.tabs@.len() {
        l.active_tab as int
    } else {
        l.tabs@.len() - 1
    })
    &&& pane.bg_idx == l.bg_idx
    &&& pane.font_scale == l.font_scale
    &&& forall|i: int|
        0 <= i < l.tabs@.len() ==> tab_restored(
            l.tabs@[i],
            #[trigger] pane.tabs@[i],
            (q + i) as u64,
            g,
            up,
        )
}

/// `t` is the tree that `l` says, with pane ids from `p` and tab ids from `q`
/// on.
pub open spec fn restored(
    l: LayoutNode,
    t: PaneNode,
    p: int,
    q: int,
    g: Ground,
    up: Seq<TabId>,
) -> bool
    decreases l,
{
    match (l, t) {
        (LayoutNode::Pane(x), PaneNode::Leaf { id, pane }) => {
            &&& id == PaneId(p as u64)
            &&& pane_restored(x, pane, q, g, up)
        },
        (
            LayoutNode::Split { dir, ratio, first, second },
            PaneNode::Split { dir: d, ratio: r, first: f, second: s },
        ) => {
            &&& d == dir
            &&& r == clamped(ratio)
            &&& restored(*first, *f, p, q, g, up)
            &&& restored(*second, *s, p + first.panes(), q + first.tabs().len(), g, up)
        },
        _ => false,
    }
}

/// Ids are given out in a row.
proof fn lemma_restored(
    l: LayoutNode,
    t: PaneNode,
    p: int,
    q: int,
    g: Ground,
    up: Seq<TabId>,
)
    requires
        restored(l, t, p, q, g, up),
        l.showable(),
        0 <= p,
        0 <= q,
        p + l.panes() <= u64::MAX,
        q + l.tabs().len() <= u64::MAX,
    ensures
        t.leaves().len() == l.panes(),
        forall|i: int|
            0 <= i < t.leaves().len() ==> (#[trigger] t.leaves()[i]).0 == PaneId((p + i) as u64)
                && t.leaves()[i].1.wf(),
        t.tabs().len() == l.tabs().len(),
        forall|i: int|
            0 <= i < t.tabs().len() ==> (#[trigger] t.tabs()[i]).id == TabId((q + i) as u64)
                && t.tabs()[i].wf(),
    decreases l,
{
    match (l, t) {
        (LayoutNode::Pane(x), PaneNode::Leaf { id, pane }) => {
            assert forall|i: int| 0 <= i < t.tabs().len() implies (#[trigger] t.tabs()[i]).id
                == TabId((q + i) as u64) && t.tabs()[i].wf() by {
                assert(tab_restored(x.tabs@[i], pane.tabs@[i], (q + i) as u64, g, up));
            }
        },
        (
            LayoutNode::Split { dir, ratio, first, second },
            PaneNode::Split { dir: d, ratio: r, first: f, second: s },
        ) => {
            let m = first.panes() as int;
            let n = first.tabs().len() as int;
            lemma_restored(*first, *f, p, q, g, up);
            lemma_restored(*second, *s, p + m, q + n, g, up);
            assert forall|i: int| 0 <= i < t.leaves().len() implies (#[trigger] t.leaves()[i]).0
                == PaneId((p + i) as u64) && t.leaves()[i].1.wf() by {
                if i < m {
                    assert(f.leaves()[i].1.wf());
                } else {
                    assert(s.leaves()[i - m].1.wf());
                }
            }
            assert forall|i: int| 0 <= i < t.tabs().len() implies (#[trigger] t.tabs()[i]).id
                == TabId((q + i) as u64) && t.tabs()[i].wf() by {
                if i < n {
                    assert(f.tabs()[i].wf());
                } else {
                    assert(s.tabs()[i - n].wf());
                }
            }
        },
        _ => {},
    }
}

/// Something that has to be started for a tab.
#[derive(Debug, PartialEq, Eq)]
pub struct Start {
    pub tab: TabId,
    pub kind: TabContentKind,
}

/// What has to be started for tabs that get ids from `q` on.
pub open spec fn starts(tabs: Seq<LayoutTab>, q: int, ms: Seq<ModuleManifest>) -> Seq<Start>
    decreases tabs.len(),
{
    if tabs.len() == 0 {
        Seq::empty()
    } else {
        let n = tabs.len() - 1;
        let rest = starts(tabs.drop_last(), q, ms);
        if launch(tabs.last().kind, ms) is Nothing {
            rest
        } else {
            rest.push(Start { tab: TabId((q + n) as u64), kind: tabs.last().kind })
        }
    }
}

proof fn lemma_starts_sum(a: Seq<LayoutTab>, b: Seq<LayoutTab>, q: int, ms: Seq<ModuleManifest>)
    ensures
        starts(a + b, q, ms) == starts(a, q, ms) + starts(b, q + a.len(), ms),
    decreases b.len(),
{
    if b.len() == 0 {
        assert(a + b =~= a);
        assert(starts(a, q, ms) + starts(b, q + a.len(), ms) =~= starts(a, q, ms));
    } else {
        lemma_starts_sum(a, b.drop_last(), q, ms);
        assert((a + b).drop_last() =~= a + b.drop_last());
        assert((a + b).last() == b.last());
        assert(starts(a + b, q, ms) =~= starts(a, q, ms) + starts(b, q + a.len(), ms));
    }
}

/// List what has to be started for the tabs of a layout, which get ids from
/// `q` on.
fn list_starts(l: &LayoutNode, q: u64, ms: &Vec<ModuleManifest>, out: &mut Vec<Start>) -> (next:
    u64)
    requires
        q + l.tabs().len() <= u64::MAX,
    ensures
        next == q + l.tabs().len(),
        final(out)@ == old(out)@ + starts(l.tabs(), q as int, ms@),
    decreases l,
{
    let ghost had = out@;
    match l {
        LayoutNode::Pane(p) => {
            let mut i: usize = 0;
            assert(had + starts(p.tabs@.take(0), q as int, ms@) =~= had);
            while i < p.tabs.len()
                invariant
                    i <= p.tabs@.len(),
                    q + p.tabs@.len() <= u64::MAX,
                    out@ == had + starts(p.tabs@.take(i as int), q as int, ms@),
                decreases p.tabs.len() - i,
            {
                assert(p.tabs@.take(i + 1).drop_last() =~= p.tabs@.take(i as int));
                let kind = &p.tabs[i].kind;
                if crate::kinds::launch_of(kind, ms) != Launch::Nothing {
                    out.push(Start { tab: TabId(q + i as u64), kind: kind.copy() });
                }
                i = i + 1;
                assert(out@ =~= had + starts(p.tabs@.take(i as int), q as int, ms@));
            }
            assert(p.tabs@.take(i as int) =~= l.tabs());
            q + p.tabs.len() as u64
        },
        LayoutNode::Split { first, second, .. } => {
            let mid = list_starts(first, q, ms, out);
            let next = list_starts(second, mid, ms, out);
            proof {
                lemma_starts_sum(first.tabs(), second.tabs(), q as int, ms@);
                assert(out@ =~= had + starts(l.tabs(), q as int, ms@));
            }
            next
        },
    }
}

fn lists(v: &Vec<TabId>, id: TabId) -> (r: bool)
    ensures
        r == v@.contains(id),
{
    let mut i: usize = 0;
    while i < v.len()
        invariant
            i <= v@.len(),
            forall|k: int| 0 <= k < i ==> v@[k] != id,
        decreases v.len() - i,
    {
        if v[i] == id {
            return true;
        }
        i = i + 1;
    }
    false
}

fn restore_tab(
    l: LayoutTab,
    id: u64,
    g: &Ground,
    up: &Vec<TabId>,
) -> (t: Tab)
    requires
    ensures
        tab_restored(l, t, id, *g, up@),
{
    let what = crate::kinds::launch_of(&l.kind, g.modules);
    let came_up = lists(up, TabId(id));
    let mut t = Tab::new(TabId(id), l.title, g.cols, g.rows);
    t.kind = l.kind;
    t.color_idx = l.color_idx;
    t.last_focused_path = l.focused_path;
    t.module_pty = what == Launch::Tty;
    if what == Launch::Data && came_up {
        t.module_session = Some(String::new());
    }
    if what == Launch::Agent && came_up {
        t.acp_session = Some(AcpSession::new());
    }
    t
}

fn restore_pane(
    l: LayoutPane,
    q: u64,
    g: &Ground,
    up: &Vec<TabId>,
) -> (pane: Pane)
    requires
        l.tabs@.len() > 0,
        q + l.tabs@.len() <= u64::MAX,
    ensures
        pane_restored(l, pane, q as int, *g, up@),
{
    let ghost all = l.tabs@;
    let n = l.tabs.len();
    let active_tab = if l.active_tab < n {
        l.active_tab
    } else {
        n - 1
    };
    let mut rest = l.tabs;
    let mut tabs: Vec<Tab> = Vec::new();
    assert(all.skip(0) =~= all);
    while rest.len() > 0
        invariant
                n == all.len(),
            q + n <= u64::MAX,
            tabs@.len() + rest@.len() == n,
            rest@ == all.skip(tabs@.len() as int),
            forall|j: int|
                0 <= j < tabs@.len() ==> tab_restored(
                    all[j],
                    #[trigger] tabs@[j],
                    (q + j) as u64,
                    *g,
                    up@,
                ),
        decreases rest.len(),
    {
        let ghost i = tabs@.len() as int;
        let l = rest.remove(0);
        let id = q + tabs.len() as u64;
        let t = restore_tab(l, id, g, up);
        tabs.push(t);
        assert(rest@ =~= all.skip(i + 1));
    }
    Pane { tabs, active_tab, bg_idx: l.bg_idx, font_scale: l.font_scale }
}

/// Build a pane tree, with pane ids from `p` and tab ids from `q` on.
fn build_layout_node(
    l: LayoutNode,
    p: u64,
    q: u64,
    g: &Ground,
    up: &Vec<TabId>,
) -> (r: (PaneNode, u64, u64))
    requires
        l.showable(),
        p + l.panes() <= u64::MAX,
        q + l.tabs().len() <= u64::MAX,
    ensures
        restored(l, r.0, p as int, q as int, *g, up@),
        r.1 == p + l.panes(),
        r.2 == q + l.tabs().len(),
    decreases l,
{
    match l {
        LayoutNode::Pane(x) => {
            let n = x.tabs.len() as u64;
            let pane = restore_pane(x, q, g, up);
            (PaneNode::Leaf { id: PaneId(p), pane }, p + 1, q + n)
        },
        LayoutNode::Split { dir, ratio, first, second } => {
            let (f, p2, q2) = build_layout_node(*first, p, q, g, up);
            let (s, p3, q3) = build_layout_node(*second, p2, q2, g, up);
            (
                PaneNode::Split {
                    dir,
                    ratio: clamp_saved_ratio(ratio),
                    first: Box::new(f),
                    second: Box::new(s),
                },
                p3,
                q3,
            )
        },
    }
}

/// The tabs whose modules are told again which file they had.
pub open spec fn replays(tabs: Seq<Tab>) -> Seq<TabId>
    decreases tabs.len(),
{
    if tabs.len() == 0 {
        Seq::empty()
    } else if tabs.last().module_session is Some && tabs.last().last_focused_path is Some {
        replays(tabs.drop_last()).push(tabs.last().id)
    } else {
        replays(tabs.drop_last())
    }
}

/// The pane that is active in a restored tree: the one that was, or the first
/// one where that is not known.
pub open spec fn active_in(t: PaneNode, path: Option<Vec<usize>>) -> PaneId {
    let way = match path {
        Some(v) => v@,
        None => Seq::empty(),
    };
    match t.at_path(way) {
        Some(id) => id,
        None => t.leaves()[0].0,
    }
}

fn restored_active(t: &PaneNode, path: &Option<Vec<usize>>) -> (id: PaneId)
    ensures
        id == active_in(*t, *path),
        t.has(id),
{
    proof {
        lemma_leaves_nonempty(*t);
        law_position(*t, t.leaves()[0].0);
    }
    let found = match path {
        Some(v) => {
            proof {
                lemma_path_stays(*t, v@);
            }
            t.pane_id_at_path(v.as_slice())
        },
        None => {
            let empty: Vec<usize> = Vec::new();
            proof {
                lemma_path_stays(*t, empty@);
                assert(empty@ =~= Seq::<usize>::empty());
            }
            t.pane_id_at_path(empty.as_slice())
        },
    };
    match found {
        Some(id) => id,
        None => t.first_leaf_id(),
    }
}

impl Renderer {
    /// There are ids enough for every pane and tab of a layout.
    pub open spec fn has_room_for(self, l: LayoutNode) -> bool {
        &&& self.ws.next_pane_id + l.panes() <= u64::MAX
        &&& self.ws.next_tab_id + l.tabs().len() <= u64::MAX
        &&& l.panes() <= usize::MAX
    }

    /// What has to be started before a layout is restored, in the order of its
    /// tabs. A layout with a pane that has no tab to show is not restored, and
    /// needs nothing.
    pub fn starts_for(&self, layout: &Layout) -> (r: Vec<Start>)
        requires
            self.wf(),
            self.has_room_for(layout.root),
        ensures
            r@ == (if layout.root.showable() {
                starts(layout.root.tabs(), self.ws.next_tab_id as int, self.modules@)
            } else {
                Seq::empty()
            }),
    {
        let mut r: Vec<Start> = Vec::new();
        if layout.root.can_show() {
            let _ = list_starts(&layout.root, self.ws.next_tab_id, &self.modules, &mut r);
            assert(r@ =~= starts(layout.root.tabs(), self.ws.next_tab_id as int, self.modules@));
        }
        r
    }

    /// What a saved layout puts in place.
    pub open spec fn layout_restored(
        self,
        before: Renderer,
        layout: Layout,
        up: &Vec<TabId>,
        r: (bool, Vec<TabId>, Effects),
    ) -> bool {
        &&& r.0 == layout.root.showable()
        &&& (!r.0 ==> self == before && r.1@.len() == 0 && r.2 == nothing())
        &&& (r.0 ==> {
            let w = before.ws;
            let v = self.ws;
            let g = Ground {
                cols: w.grid_cols,
                rows: w.grid_rows,
                modules: &before.modules,
            };
            &&& self.same_but_ws(before)
            &&& restored(
                layout.root,
                v.tree(),
                w.next_pane_id as int,
                w.next_tab_id as int,
                g,
                up@,
            )
            &&& v.next_pane_id == w.next_pane_id + layout.root.panes()
            &&& v.next_tab_id == w.next_tab_id + layout.root.tabs().len()
            &&& v.active_pane == active_in(v.tree(), layout.active_pane_path)
            &&& r.1@ == replays(v.all())
            &&& r.2 == (Effects {
                retitle: true,
                redraw: true,
                persist: layout.root.other_kinds(),
                ..nothing()
            })
        })
    }

    /// Build a fresh pane tree from a saved layout. The first of the result is
    /// false, and nothing changes, where a pane has no tab to show; the second
    /// lists the tabs whose modules have to be told again which file they had.
    /// `up` are the tabs for which what they need came up.
    pub fn restore_layout(&mut self, layout: Layout, up: &Vec<TabId>) -> (r: (
        bool,
        Vec<TabId>,
        Effects,
    ))
        requires
            old(self).wf(),
            old(self).has_room_for(layout.root),
        ensures
            final(self).wf(),
            final(self).layout_restored(*old(self), layout, up, r),
    {
        if !layout.root.can_show() {
            return (false, Vec::new(), no_effects());
        }
        let ghost w = self.ws;
        let ghost l = layout.root;
        let g = Ground {
            cols: self.ws.grid_cols,
            rows: self.ws.grid_rows,
            modules: &self.modules,
        };
        let persist = has_other_kinds(&layout.root);
        let (root, p, q) = build_layout_node(
            layout.root,
            self.ws.next_pane_id,
            self.ws.next_tab_id,
            &g,
            up,
        );
        let active = restored_active(&root, &layout.active_pane_path);
        proof {
            lemma_restored(
                l,
                root,
                w.next_pane_id as int,
                w.next_tab_id as int,
                g,
                up@,
            );
        }
        self.ws.root = Some(root);
        self.ws.active_pane = active;
        self.ws.next_pane_id = p;
        self.ws.next_tab_id = q;
        proof {
            assert(self.ws.sound());
        }
        self.ws.sync_active_grid();
        let again = self.focus_replays();
        (
            true,
            again,
            Effects {
                reload_config: false,
                relayout: false,
                retitle: true,
                redraw: true,
                persist,
            },
        )
    }

    fn focus_replays(&self) -> (r: Vec<TabId>)
        requires
            self.wf(),
        ensures
            r@ == replays(self.ws.all()),
    {
        let ghost all = self.ws.all();
        let mut tabs: Vec<&Tab> = Vec::new();
        let ghost n = tabs@.len();
        self.ws.root_ref().all_tabs(&mut tabs);
        assert forall|k: int| 0 <= k < all.len() implies *(#[trigger] tabs@[k]) == all[k] by {
            assert(*tabs@[n + k] == all[k]);
        }
        let mut r: Vec<TabId> = Vec::new();
        let mut i: usize = 0;
        while i < tabs.len()
            invariant
                i <= tabs@.len(),
                tabs@.len() == all.len(),
                forall|k: int| 0 <= k < all.len() ==> *(#[trigger] tabs@[k]) == all[k],
                r@ == replays(all.take(i as int)),
            decreases tabs.len() - i,
        {
            assert(all.take(i + 1).drop_last() =~= all.take(i as int));
            if tabs[i].module_session.is_some() && tabs[i].last_focused_path.is_some() {
                r.push(tabs[i].id);
            }
            i = i + 1;
        }
        assert(all.take(all.len() as int) =~= all);
        r
    }
}

fn has_other_kinds(l: &LayoutNode) -> (r: bool)
    ensures
        r == l.other_kinds(),
    decreases l,
{
    match l {
        LayoutNode::Pane(p) => {
            let mut i: usize = 0;
            while i < p.tabs.len()
                invariant
                    i <= p.tabs@.len(),
                    *l == LayoutNode::Pane(*p),
                    forall|j: int| 0 <= j < i ==> (#[trigger] l.tabs()[j]).kind is Shell,
                decreases p.tabs.len() - i,
            {
                if !p.tabs[i].kind.is_shell() {
                    assert(!(l.tabs()[i as int].kind is Shell));
                    return true;
                }
                i = i + 1;
            }
            false
        },
        LayoutNode::Split { first, second, .. } => {
            let a = has_other_kinds(first);
            let b = has_other_kinds(second);
            proof {
                let n = first.tabs().len() as int;
                if a {
                    let k = choose|k: int|
                        0 <= k < first.tabs().len() && !((#[trigger] first.tabs()[k]).kind is Shell);
                    assert(!(l.tabs()[k].kind is Shell));
                }
                if b {
                    let k = choose|k: int|
                        0 <= k < second.tabs().len() && !((
                        #[trigger] second.tabs()[k]).kind is Shell);
                    assert(!(l.tabs()[n + k].kind is Shell));
                }
                if l.other_kinds() {
                    let k = choose|k: int|
                        0 <= k < l.tabs().len() && !((#[trigger] l.tabs()[k]).kind is Shell);
                    if k < n {
                        assert(!(first.tabs()[k].kind is Shell));
                    } else {
                        assert(!(second.tabs()[k - n].kind is Shell));
                    }
                }
            }
            a || b
        },
    }
}

/// Two tabs show the same, under one name.
pub open spec fn tab_like(t: Tab, u: Tab) -> bool {
    &&& u.kind == t.kind
    &&& u.title == t.title
    &&& u.color_idx == t.color_idx
    &&& u.last_focused_path == t.last_focused_path
}

/// Two trees are split alike, and their panes hold like tabs.
pub open spec fn tree_like(t: PaneNode, u: PaneNode) -> bool
    decreases t,
{
    match (t, u) {
        (PaneNode::Leaf { pane: a, .. }, PaneNode::Leaf { pane: b, .. }) => {
            &&& b.tabs@.len() == a.tabs@.len()
            &&& b.active_tab == a.active_tab
            &&& b.bg_idx == a.bg_idx
            &&& b.font_scale == a.font_scale
            &&& forall|i: int|
                0 <= i < a.tabs@.len() ==> tab_like(a.tabs@[i], #[trigger] b.tabs@[i])
        },
        (
            PaneNode::Split { dir, ratio, first, second },
            PaneNode::Split { dir: d, ratio: r, first: f, second: s },
        ) => d == dir && r == clamped(ratio) && tree_like(*first, *f) && tree_like(*second, *s),
        _ => false,
    }
}

/// Every pane shows one of its tabs.
pub open spec fn shows_tabs(t: PaneNode) -> bool
    decreases t,
{
    match t {
        PaneNode::Leaf { pane, .. } => pane.wf(),
        PaneNode::Split { first, second, .. } => shows_tabs(*first) && shows_tabs(*second),
    }
}

/// A layout that is written down and restored gives back what was there: the
/// splits, the tabs with their kinds, names and colors, and which tab each pane
/// shows.
pub proof fn law_restore_gives_back(
    t: PaneNode,
    l: LayoutNode,
    u: PaneNode,
    cwds: Seq<Option<String>>,
    at: int,
    p: int,
    q: int,
    g: Ground,
    up: Seq<TabId>,
)
    requires
        shows_tabs(t),
        saved(t, l, cwds, at),
        restored(l, u, p, q, g, up),
    ensures
        tree_like(t, u),
    decreases t,
{
    match (t, l, u) {
        (PaneNode::Leaf { pane: a, .. }, LayoutNode::Pane(x), PaneNode::Leaf { pane: b, .. }) => {
            assert forall|i: int| 0 <= i < a.tabs@.len() implies tab_like(
                a.tabs@[i],
                #[trigger] b.tabs@[i],
            ) by {
                assert(crate::saved::tab_saved(a.tabs@[i], x.tabs@[i], cwds[at + i]));
                assert(tab_restored(x.tabs@[i], b.tabs@[i], (q + i) as u64, g, up));
            }
        },
        (
            PaneNode::Split { first, second, .. },
            LayoutNode::Split { first: lf, second: ls, .. },
            PaneNode::Split { first: f, second: s, .. },
        ) => {
            law_restore_gives_back(*first, *lf, *f, cwds, at, p, q, g, up);
            law_restore_gives_back(
                *second,
                *ls,
                *s,
                cwds,
                at + first.tabs().len(),
                p + lf.panes(),
                q + lf.tabs().len(),
                g,
                up,
            );
        },
        _ => {},
    }
}

/// The way down to a pane leads, in a restored tree, to the pane in its place.
pub proof fn law_restore_keeps_focus(t: PaneNode, u: PaneNode, id: PaneId)
    requires
        tree_like(t, u),
        t.has(id),
    ensures
        u.leaves().len() == t.leaves().len(),
        0 <= t.position(id) < u.leaves().len(),
        u.at_path(t.path(id)) == Some(u.leaves()[t.position(id)].0),
    decreases t,
{
    law_position(t, id);
    lemma_like_leaves(t, u);
    match (t, u) {
        (
            PaneNode::Split { first, second, .. },
            PaneNode::Split { first: f, second: s, .. },
        ) => {
            let way = t.path(id);
            lemma_like_leaves(*first, *f);
            if first.has(id) {
                law_restore_keeps_focus(*first, *f, id);
                assert(way.drop_first() =~= first.path(id));
            } else {
                law_restore_keeps_focus(*second, *s, id);
                assert(way.drop_first() =~= second.path(id));
            }
        },
        _ => {},
    }
}

proof fn lemma_like_leaves(t: PaneNode, u: PaneNode)
    requires
        tree_like(t, u),
    ensures
        u.leaves().len() == t.leaves().len(),
    decreases t,
{
    match (t, u) {
        (
            PaneNode::Split { first, second, .. },
            PaneNode::Split { first: f, second: s, .. },
        ) => {
            lemma_like_leaves(*first, *f);
            lemma_like_leaves(*second, *s);
        },
        _ => {},
    }
}

/// Restoring a ratio that was restored before does not move the split.
pub proof fn law_clamp_settles(r: Scalar)
    ensures
        clamped(clamped(r)) == clamped(r),
{
}

} // verus!

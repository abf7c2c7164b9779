//! What becomes of panes and tabs when the window is laid out, written down and
//! restored.

use crate::frame::row_of;
use crate::kinds::Launch;
use crate::relayout::{holder, only_regridded, regridded, resized};
use crate::renderer::{CursorIcon, Effects, Renderer};
use crate::restore::{active_in, replays, restored, restored_as, starts, Ground, Start};
use crate::saved::{clamped, saved, Layout, LayoutNode, LayoutTab};
use crate::tab::{ModuleManifest, Tab, TabContentKind, TabId};
use crate::tab_tree::tab_pos;
use crate::tree::{Pane, PaneId, PaneNode, Scalar, SplitDir};
use crate::walk::Divider;
use vstd::prelude::*;

verus! {

/// After a layout every tab has the grid of its pane, within the limits; a tab
/// whose grid has changed is drawn anew and loses its selection, and every other
/// one stays.
pub proof fn law_tabs_fit_their_panes(
    before: PaneNode,
    after: PaneNode,
    grids: Seq<(usize, usize)>,
    i: int,
    k: int,
)
    requires
        after.fitted(before, grids, 0),
        0 <= i < before.leaves().len(),
        0 <= k < before.leaves()[i].1.tabs@.len(),
    ensures
        ({
            let t = before.leaves()[i].1.tabs@[k];
            let u = after.leaves()[i].1.tabs@[k];
            let (cols, rows) = grids[i];
            &&& 1 <= cols <= 600 ==> u.cols == cols
            &&& 1 <= rows <= 400 ==> u.rows == rows
            &&& cols == 0 ==> u.cols == 1
            &&& rows == 0 ==> u.rows == 1
            &&& cols > 600 ==> u.cols == 600
            &&& rows > 400 ==> u.rows == 400
            &&& u.cols == t.cols && u.rows == t.rows ==> u == t
            &&& u.cols != t.cols || u.rows != t.rows ==> u.selection is None && u.buffer_dirty
            &&& u.id == t.id && u.kind == t.kind && u.title == t.title
        }),
{
    let g = grids[0 + i];
    assert(after.leaves()[i].1.tabs@[k] == regridded(
        before.leaves()[i].1.tabs@[k],
        crate::tab::within_limits(g),
    ));
}

/// A terminal is resized exactly when the grid of its tab has changed.
pub proof fn law_changed_grids_are_resized(a: Seq<Tab>, b: Seq<Tab>, k: int)
    requires
        a.len() == b.len(),
        0 <= k < a.len(),
        forall|i: int, j: int|
            0 <= i < j < a.len() ==> (#[trigger] a[i]).id != (#[trigger] a[j]).id,
    ensures
        resized(a, b).contains(a[k].id) <==> a[k].cols != b[k].cols || a[k].rows != b[k].rows,
    decreases a.len(),
{
    let rest = resized(a.drop_last(), b.drop_last());
    let all = resized(a, b);
    let x = a.drop_last();
    if k < a.len() - 1 {
        assert forall|i: int, j: int| 0 <= i < j < x.len() implies (#[trigger] x[i]).id != (
        #[trigger] x[j]).id by {
            assert(a[i].id != a[j].id);
        }
        law_changed_grids_are_resized(x, b.drop_last(), k);
        assert(a[k].id != a[a.len() - 1].id);
        if rest.contains(a[k].id) {
            let i = choose|i: int| 0 <= i < rest.len() && rest[i] == a[k].id;
            assert(all[i] == a[k].id);
        }
        if all.contains(a[k].id) {
            let i = choose|i: int| 0 <= i < all.len() && all[i] == a[k].id;
            if i < rest.len() {
                assert(rest[i] == a[k].id);
            }
        }
    } else {
        if all.contains(a[k].id) && a[k].cols == b[k].cols && a[k].rows == b[k].rows {
            let i = choose|i: int| 0 <= i < rest.len() && rest[i] == a[k].id;
            lemma_resized_from(x, b.drop_last(), i);
        }
        if a[k].cols != b[k].cols || a[k].rows != b[k].rows {
            assert(all[all.len() - 1] == a[k].id);
        }
    }
}

proof fn lemma_resized_from(a: Seq<Tab>, b: Seq<Tab>, i: int)
    requires
        0 <= i < resized(a, b).len(),
    ensures
        exists|k: int| 0 <= k < a.len() && (#[trigger] a[k]).id == resized(a, b)[i],
    decreases a.len(),
{
    let x = a.drop_last();
    let rest = resized(x, b.drop_last());
    if i < rest.len() {
        lemma_resized_from(x, b.drop_last(), i);
        let k = choose|k: int| 0 <= k < x.len() && (#[trigger] x[k]).id == rest[i];
        assert(a[k] == x[k]);
    } else {
        assert(a[a.len() - 1].id == resized(a, b)[i]);
    }
}

/// A scale is set for one pane, whose text is then shaped anew; every other pane
/// keeps its own.
pub proof fn law_scale_is_set(
    before: Renderer,
    after: Renderer,
    pid: PaneId,
    scale: Scalar,
    other: PaneId,
)
    requires
        before.ws.tree().has(pid),
        before.ws.tree().has(other),
        other != pid,
        after.rescaled(before, pid, scale),
    ensures
        after.ws.tree().pane(pid).font_scale == scale,
        after.ws.tree().pane(pid).tabs@.len() == before.ws.tree().pane(pid).tabs@.len(),
        after.ws.tree().pane(other) == before.ws.tree().pane(other),
{
    let q = after.ws.tree().pane(pid);
    crate::tree_laws::law_with_pane_other(before.ws.tree(), pid, q, other);
}

/// A layout that is written down has every tab in its place, with its kind, its
/// name, its colour, its directory and the file that it was told of.
pub proof fn law_every_tab_is_written_down(
    t: PaneNode,
    l: LayoutNode,
    cwds: Seq<Option<String>>,
    at: int,
    i: int,
)
    requires
        saved(t, l, cwds, at),
        0 <= i < t.tabs().len(),
    ensures
        l.tabs().len() == t.tabs().len(),
        l.tabs()[i].kind == t.tabs()[i].kind,
        l.tabs()[i].title == t.tabs()[i].title,
        l.tabs()[i].color_idx == t.tabs()[i].color_idx,
        l.tabs()[i].focused_path == t.tabs()[i].last_focused_path,
        l.tabs()[i].cwd == cwds[at + i],
    decreases t,
{
    lemma_as_many_tabs(t, l, cwds, at);
    match (t, l) {
        (PaneNode::Leaf { pane, .. }, LayoutNode::Pane(p)) => {
            assert(crate::saved::tab_saved(pane.tabs@[i], p.tabs@[i], cwds[at + i]));
        },
        (
            PaneNode::Split { first, second, .. },
            LayoutNode::Split { first: f, second: s, .. },
        ) => {
            let n = first.tabs().len() as int;
            lemma_as_many_tabs(*first, *f, cwds, at);
            if i < n {
                law_every_tab_is_written_down(*first, *f, cwds, at, i);
            } else {
                law_every_tab_is_written_down(*second, *s, cwds, at + n, i - n);
                assert(at + n + (i - n) == at + i);
            }
        },
        _ => {},
    }
}

proof fn lemma_as_many_tabs(t: PaneNode, l: LayoutNode, cwds: Seq<Option<String>>, at: int)
    requires
        saved(t, l, cwds, at),
    ensures
        l.tabs().len() == t.tabs().len(),
        l.panes() == t.leaves().len(),
    decreases t,
{
    match (t, l) {
        (
            PaneNode::Split { first, second, .. },
            LayoutNode::Split { first: f, second: s, .. },
        ) => {
            lemma_as_many_tabs(*first, *f, cwds, at);
            lemma_as_many_tabs(*second, *s, cwds, at + first.tabs().len());
        },
        _ => {},
    }
}

/// It has every split too, in its direction and at its ratio, and every pane
/// with its tab on show, its background and its scale.
pub proof fn law_every_split_is_written_down(
    t: PaneNode,
    l: LayoutNode,
    cwds: Seq<Option<String>>,
    at: int,
)
    requires
        saved(t, l, cwds, at),
    ensures
        l.panes() == t.leaves().len(),
        t matches PaneNode::Split { dir, ratio, .. } ==> (l matches LayoutNode::Split {
            dir: d,
            ratio: r,
            ..
        } && d == dir && r == ratio),
        t matches PaneNode::Leaf { pane, .. } ==> (l matches LayoutNode::Pane(p) && p.active_tab
            == pane.active_tab && p.bg_idx == pane.bg_idx && p.font_scale == pane.font_scale
            && p.tabs@.len() == pane.tabs@.len()),
{
    lemma_as_many_tabs(t, l, cwds, at);
}

/// A layout is restored as it was written: each split in its direction and at
/// its ratio, kept between a tenth and nine tenths, each pane with its
/// background and scale and the tab that it showed, or its last one where it
/// names one that there is not.
pub proof fn law_layout_is_restored(
    l: LayoutNode,
    t: PaneNode,
    p: int,
    q: int,
    g: Ground,
    up: Seq<TabId>,
    i: int,
)
    requires
        restored(l, t, p, q, g, up),
    ensures
        l matches LayoutNode::Split { dir, ratio, .. } ==> (t matches PaneNode::Split {
            dir: d,
            ratio: r,
            ..
        } && d == dir && (0x3dcc_cccd <= ratio.0 <= 0x3f66_6666 ==> r == ratio)),
        l matches LayoutNode::Pane(x) ==> (t matches PaneNode::Leaf { pane, .. } && {
            &&& pane.tabs@.len() == x.tabs@.len()
            &&& pane.bg_idx == x.bg_idx
            &&& pane.font_scale == x.font_scale
            &&& x.active_tab < x.tabs@.len() ==> pane.active_tab == x.active_tab
            &&& x.active_tab >= x.tabs@.len() ==> pane.active_tab == x.tabs@.len() - 1
            &&& 0 <= i < x.tabs@.len() ==> {
                &&& pane.tabs@[i].kind == x.tabs@[i].kind
                &&& pane.tabs@[i].title == x.tabs@[i].title
                &&& pane.tabs@[i].color_idx == x.tabs@[i].color_idx
                &&& pane.tabs@[i].last_focused_path == x.tabs@[i].focused_path
                &&& pane.tabs@[i].id.0 == (q + i) as u64
            }
        }),
{
    if let LayoutNode::Pane(x) = l {
        if let PaneNode::Leaf { pane, .. } = t {
            if 0 <= i < x.tabs@.len() {
                assert(crate::restore::tab_restored(x.tabs@[i], pane.tabs@[i], (q + i) as u64, g, up));
            }
        }
    }
}

/// A ratio is brought back between a tenth and nine tenths, and left alone where
/// it lies there.
pub proof fn law_ratio_is_kept_in_range(r: Scalar)
    ensures
        0x3dcc_cccd <= r.0 <= 0x3f66_6666 ==> clamped(r) == r,
        r.0 < 0x3dcc_cccd ==> clamped(r) == Scalar(0x3dcc_cccd),
        0x3f66_6666 < r.0 <= 0x7f80_0000 ==> clamped(r) == Scalar(0x3f66_6666),
        0x8000_0000 <= r.0 <= 0xff80_0000 ==> clamped(r) == Scalar(0x3dcc_cccd),
{
}

/// The pane that the layout names has the focus; where it names none that there
/// is, the first one has.
pub proof fn law_focus_is_restored(t: PaneNode, path: Option<Vec<usize>>, id: PaneId)
    requires
        t.has(id),
    ensures
        path matches Some(v) && v@ == t.path(id) ==> active_in(t, path) == id,
        (path matches Some(v) && t.at_path(v@) is None) ==> active_in(t, path) == t.leaves()[0].0,
{
    crate::saved::law_path_leads_back(t, id);
}

proof fn lemma_start(tabs: Seq<LayoutTab>, q: int, ms: Seq<ModuleManifest>, k: int)
    requires
        0 <= k < tabs.len(),
        !(crate::kinds::launch(tabs[k].kind, ms) is Nothing),
    ensures
        starts(tabs, q, ms).contains(Start { tab: TabId((q + k) as u64), kind: tabs[k].kind }),
    decreases tabs.len(),
{
    let rest = tabs.drop_last();
    let all = starts(tabs, q, ms);
    let s = Start { tab: TabId((q + k) as u64), kind: tabs[k].kind };
    if k < rest.len() {
        lemma_start(rest, q, ms, k);
        let had = starts(rest, q, ms);
        let i = choose|i: int| 0 <= i < had.len() && had[i] == s;
        assert(all[i] == s);
    } else {
        assert(all[all.len() - 1] == s);
    }
}

/// Every agent and every module that is registered is started for its tab; a
/// shell or a page needs nothing.
pub proof fn law_inhabitants_are_started(
    tabs: Seq<LayoutTab>,
    q: int,
    ms: Seq<ModuleManifest>,
    k: int,
    i: int,
)
    requires
        0 <= k < tabs.len(),
    ensures
        tabs[k].kind is Agent ==> starts(tabs, q, ms).contains(
            Start { tab: TabId((q + k) as u64), kind: tabs[k].kind },
        ),
        (tabs[k].kind matches TabContentKind::Module(id) && 0 <= i < ms.len() && ms[i].id@ == id@
            && forall|j: int| 0 <= j < i ==> (#[trigger] ms[j]).id@ != id@) ==> starts(
            tabs,
            q,
            ms,
        ).contains(Start { tab: TabId((q + k) as u64), kind: tabs[k].kind }),
        (forall|j: int|
            0 <= j < tabs.len() ==> (#[trigger] tabs[j]).kind is Shell || tabs[j].kind is Welcome)
            ==> starts(tabs, q, ms).len() == 0,
{
    if tabs[k].kind is Agent {
        lemma_start(tabs, q, ms, k);
    }
    if let TabContentKind::Module(id) = tabs[k].kind {
        if 0 <= i < ms.len() && ms[i].id@ == id@ && (forall|j: int|
            0 <= j < i ==> (#[trigger] ms[j]).id@ != id@) {
            crate::content_laws::law_kind_needs_its_process(ms, i, id, id);
            lemma_start(tabs, q, ms, k);
        }
    }
    if forall|j: int|
        0 <= j < tabs.len() ==> (#[trigger] tabs[j]).kind is Shell || tabs[j].kind is Welcome {
        lemma_no_starts(tabs, q, ms);
    }
}

proof fn lemma_no_starts(tabs: Seq<LayoutTab>, q: int, ms: Seq<ModuleManifest>)
    requires
        forall|j: int|
            0 <= j < tabs.len() ==> (#[trigger] tabs[j]).kind is Shell || tabs[j].kind is Welcome,
    ensures
        starts(tabs, q, ms).len() == 0,
    decreases tabs.len(),
{
    if tabs.len() > 0 {
        let rest = tabs.drop_last();
        assert(tabs[tabs.len() - 1].kind is Shell || tabs[tabs.len() - 1].kind is Welcome);
        assert forall|j: int| 0 <= j < rest.len() implies (#[trigger] rest[j]).kind is Shell
            || rest[j].kind is Welcome by {
            assert(rest[j] == tabs[j]);
        }
        lemma_no_starts(rest, q, ms);
    }
}

/// The modules that run again and had a file are told of it again, each once.
pub proof fn law_files_are_told_again(tabs: Seq<Tab>)
    ensures
        replays(tabs) == tabs.filter(
            |t: Tab| t.module_session is Some && t.last_focused_path is Some,
        ).map_values(|t: Tab| t.id),
    decreases tabs.len(),
{
    reveal(Seq::filter);
    let f = |t: Tab| t.module_session is Some && t.last_focused_path is Some;
    let g = |t: Tab| t.id;
    if tabs.len() > 0 {
        let rest = tabs.drop_last();
        law_files_are_told_again(rest);
        if f(tabs.last()) {
            assert(rest.filter(f).push(tabs.last()).map_values(g) =~= rest.filter(f).map_values(
                g,
            ).push(tabs.last().id));
        }
    }
    assert(replays(tabs) =~= tabs.filter(f).map_values(g));
}

/// Every pane gets a place, in the order of the tree.
pub proof fn law_every_pane_has_a_place<R, F: Fn(R, SplitDir, Scalar) -> (R, R)>(
    t: PaneNode,
    cut: F,
    area: R,
    out: Seq<(PaneId, R)>,
    i: int,
)
    requires
        t.laid_out(cut, area, out),
        0 <= i < t.leaves().len(),
    ensures
        out.len() == t.leaves().len(),
        out[i].0 == t.leaves()[i].0,
        t is Leaf ==> out[0].1 == area,
    decreases t,
{
    if let PaneNode::Split { dir, ratio, first, second } = t {
        let n = first.leaves().len() as int;
        let (a, b): (R, R) = choose|a: R, b: R|
            {
                &&& #[trigger] call_ensures(cut, (area, dir, ratio), (a, b))
                &&& out.len() == first.leaves().len() + second.leaves().len()
                &&& first.laid_out(cut, a, out.take(n))
                &&& second.laid_out(cut, b, out.skip(n))
            };
        if i < n {
            law_every_pane_has_a_place(*first, cut, a, out.take(n), i);
            assert(out.take(n)[i] == out[i]);
        } else {
            law_every_pane_has_a_place(*second, cut, b, out.skip(n), i - n);
            assert(out.skip(n)[i - n] == out[i]);
        }
    }
}

/// A divider that is found is one of the tree: its path leads to a split.
pub proof fn law_found_divider_is_there<
    R,
    F: Fn(R, SplitDir, Scalar) -> (R, R),
    H: Fn(R, R, SplitDir) -> bool,
>(t: PaneNode, cut: F, hit: H, area: R, path: Seq<usize>, outer: R, dir: SplitDir)
    requires
        t.divider_found(cut, hit, area, Some((path, outer, dir))),
    ensures
        t.ratio_at(path) is Some,
        path.len() == 0 ==> (t matches PaneNode::Split { dir: d, .. } && d == dir),
    decreases t,
{
    if let PaneNode::Split { dir: d, ratio, first, second } = t {
        if path.len() > 0 {
            let rest = path.drop_first();
            let (a, b): (R, R) = choose|a: R, b: R|
                {
                    &&& #[trigger] call_ensures(cut, (area, d, ratio), (a, b))
                    &&& path.len() > 0
                    &&& {
                        ||| path[0] == 0 && first.divider_found(cut, hit, a, Some((rest, outer, dir)))
                        ||| path[0] == 1 && second.divider_found(
                            cut,
                            hit,
                            b,
                            Some((rest, outer, dir)),
                        )
                    }
                };
            if path[0] == 0 && first.divider_found(cut, hit, a, Some((rest, outer, dir))) {
                law_found_divider_is_there(*first, cut, hit, a, rest, outer, dir);
            } else {
                law_found_divider_is_there(*second, cut, hit, b, rest, outer, dir);
            }
        }
    }
}

/// There is a divider for every split, the outermost first.
pub proof fn law_every_split_has_a_divider<R, F: Fn(R, SplitDir, Scalar) -> (R, R)>(
    t: PaneNode,
    cut: F,
    area: R,
    out: Seq<Divider<R>>,
)
    requires
        t.dividers_listed(cut, area, out),
    ensures
        out.len() == t.leaves().len() - 1,
        t matches PaneNode::Split { dir, .. } ==> out[0].dir == dir && out[0].outer == area,
    decreases t,
{
    if let PaneNode::Split { dir, ratio, first, second } = t {
        let n = 1 + first.splits() as int;
        let (a, b): (R, R) = choose|a: R, b: R|
            {
                &&& #[trigger] call_ensures(cut, (area, dir, ratio), (a, b))
                &&& out.len() == n + second.splits()
                &&& out[0] == (Divider { outer: area, first: a, dir })
                &&& first.dividers_listed(cut, a, out.subrange(1, n))
                &&& second.dividers_listed(cut, b, out.skip(n))
            };
        law_every_split_has_a_divider(*first, cut, a, out.subrange(1, n));
        law_every_split_has_a_divider(*second, cut, b, out.skip(n));
    }
}

/// A window that has a size is laid out for it; one without height or width is
/// left as it was.
pub proof fn law_window_takes_its_size(
    before: Renderer,
    after: Renderer,
    width: u32,
    height: u32,
    e: Effects,
)
    requires
        after.surface_changed(before, width, height, e),
    ensures
        width > 0 && height > 0 ==> after.surface == (width, height) && e.relayout,
        width == 0 || height == 0 ==> after.surface == before.surface && !e.relayout,
        after.ws == before.ws,
        after.room == before.room,
{
}

/// A changed line height has every tab shaped anew; any changed setting has the
/// window laid out, and where none changed nothing is done.
pub proof fn law_changed_settings_are_applied(
    before: Renderer,
    after: Renderer,
    line: bool,
    rest: bool,
    e: Effects,
    i: int,
)
    requires
        after.laid_out_live(before, line, rest, e),
        0 <= i < before.ws.all().len(),
    ensures
        e.relayout <==> line || rest,
        e.redraw <==> line || rest,
        line ==> after.ws.all().len() == before.ws.all().len() && after.ws.all()[i].buffer_dirty,
        after.ws.all()[i].id == before.ws.all()[i].id,
        after.ws.all()[i].title == before.ws.all()[i].title,
        after.ws.all()[i].cols == before.ws.all()[i].cols,
        !line ==> after == before,
{
}

/// A pane takes the scale that it is given, where that is another one; its tabs
/// are then shaped anew and keep everything else, and every other pane stays.
pub proof fn law_pane_takes_its_scale(
    before: Renderer,
    after: Renderer,
    pid: PaneId,
    scale: Scalar,
    differs: bool,
    e: Effects,
    other: PaneId,
    i: int,
)
    requires
        after.pane_rescaled(before, pid, scale, differs, e),
        before.ws.tree().has(pid),
        before.ws.tree().has(other),
        other != pid,
        0 <= i < before.ws.tree().pane(pid).tabs@.len(),
    ensures
        !differs ==> after == before && !e.relayout,
        differs ==> {
            let p = before.ws.tree().pane(pid);
            let q = after.ws.tree().pane(pid);
            &&& q.font_scale == scale
            &&& q.tabs@.len() == p.tabs@.len()
            &&& q.tabs@[i].buffer_dirty
            &&& !q.tabs@[i].content_ready
            &&& q.tabs@[i].id == p.tabs@[i].id
            &&& q.tabs@[i].title == p.tabs@[i].title
            &&& q.active_tab == p.active_tab
            &&& q.bg_idx == p.bg_idx
            &&& e.relayout && e.redraw
        },
        after.ws.tree().pane(other) == before.ws.tree().pane(other),
        after.ws.active_pane == before.ws.active_pane,
        after.room == before.room,
        after.find == before.find,
{
    if differs {
        law_scale_is_set(before, after, pid, scale, other);
    }
}

/// A saved layout is put in place whole, or not at all where it has a pane
/// without a tab: the focus goes to the pane that was named, and the tabs get
/// numbers that no tab had.
pub proof fn law_saved_layout_takes_over(
    before: Renderer,
    after: Renderer,
    layout: Layout,
    up: Vec<TabId>,
    r: (bool, Vec<TabId>, Effects),
)
    requires
        after.layout_restored(before, layout, &up, r),
    ensures
        !r.0 ==> after == before && r.1@.len() == 0 && !r.2.redraw,
        layout.root matches LayoutNode::Pane(p) ==> (r.0 <==> p.tabs@.len() > 0),
        r.0 ==> {
            &&& after.ws.active_pane == active_in(after.ws.tree(), layout.active_pane_path)
            &&& after.ws.next_tab_id == before.ws.next_tab_id + layout.root.tabs().len()
            &&& after.ws.next_pane_id == before.ws.next_pane_id + layout.root.panes()
            &&& r.1@ == replays(after.ws.all())
            &&& r.2.redraw && r.2.retitle
            &&& r.2.persist <==> exists|i: int|
                0 <= i < layout.root.tabs().len() && !((#[trigger] layout.root.tabs()[i]).kind
                    is Shell)
        },
        r.0 ==> (layout.root matches LayoutNode::Pane(p) ==> (
        after.ws.tree() matches PaneNode::Leaf { pane, .. } && pane.tabs@.len() == p.tabs@.len()
            && pane.font_scale == p.font_scale && pane.bg_idx == p.bg_idx)),
        r.0 ==> (layout.root matches LayoutNode::Split { dir, .. } ==> (
        after.ws.tree() matches PaneNode::Split { dir: d, .. } && d == dir)),
        after.room == before.room,
        after.config == before.config,
{
    if r.0 {
        let w = before.ws;
        let g = Ground { cols: w.grid_cols, rows: w.grid_rows, modules: &before.modules };
        law_layout_is_restored(
            layout.root,
            after.ws.tree(),
            w.next_pane_id as int,
            w.next_tab_id as int,
            g,
            up@,
            0,
        );
    }
}

proof fn lemma_holder(leaves: Seq<(PaneId, Pane)>, id: TabId, k: int, i: int)
    requires
        0 <= k < leaves.len(),
        0 <= i < leaves[k].1.tabs@.len(),
        leaves[k].1.tabs@[i].id == id,
        forall|j: int, m: int|
            0 <= j < k && 0 <= m < leaves[j].1.tabs@.len() ==> (#[trigger] leaves[j].1.tabs@[m]).id
                != id,
    ensures
        holder(leaves, id) == k,
    decreases leaves.len(),
{
    let first = leaves[0].1.tabs@;
    lemma_tab_pos_found(first, id);
    if k == 0 {
        assert(first[i].id == id);
    } else {
        let rest = leaves.drop_first();
        if tab_pos(first, id) < first.len() {
            assert(leaves[0].1.tabs@[tab_pos(first, id)].id != id);
        }
        assert forall|j: int, m: int|
            0 <= j < k - 1 && 0 <= m < rest[j].1.tabs@.len() implies (
            #[trigger] rest[j].1.tabs@[m]).id != id by {
            assert(leaves[j + 1].1.tabs@[m].id != id);
        }
        lemma_holder(rest, id, k - 1, i);
    }
}

proof fn lemma_tab_pos_found(tabs: Seq<Tab>, id: TabId)
    ensures
        0 <= tab_pos(tabs, id) <= tabs.len(),
        tab_pos(tabs, id) < tabs.len() ==> tabs[tab_pos(tabs, id)].id == id,
        forall|i: int| 0 <= i < tabs.len() && (#[trigger] tabs[i]).id == id ==> tab_pos(tabs, id)
            <= i,
    decreases tabs.len(),
{
    if tabs.len() > 0 && tabs[0].id != id {
        let rest = tabs.drop_first();
        lemma_tab_pos_found(rest, id);
        assert forall|i: int| 0 <= i < tabs.len() && (#[trigger] tabs[i]).id == id implies tab_pos(
            tabs,
            id,
        ) <= i by {
            assert(rest[i - 1].id == id);
        }
    }
}

/// A tab is drawn at the scale of the pane that holds it.
pub proof fn law_tab_has_the_scale_of_its_pane(w: Renderer, k: int, i: int)
    requires
        0 <= k < w.ws.tree().leaves().len(),
        0 <= i < w.ws.tree().leaves()[k].1.tabs@.len(),
        forall|j: int, m: int|
            0 <= j < k && 0 <= m < w.ws.tree().leaves()[j].1.tabs@.len() ==> (
            #[trigger] w.ws.tree().leaves()[j].1.tabs@[m]).id
                != w.ws.tree().leaves()[k].1.tabs@[i].id,
    ensures
        w.tab_scale(w.ws.tree().leaves()[k].1.tabs@[i].id) == w.ws.tree().leaves()[k].1.font_scale,
{
    let l = w.ws.tree().leaves();
    lemma_holder(l, l[k].1.tabs@[i].id, k, i);
}

/// The place of a line among the rows of a body is the first that shows it.
pub proof fn law_line_is_at_its_first_row(lines: Seq<u32>, line: u32)
    ensures
        0 <= row_of(lines, line) <= lines.len(),
        row_of(lines, line) < lines.len() ==> lines[row_of(lines, line)] == line,
        forall|i: int| 0 <= i < row_of(lines, line) ==> #[trigger] lines[i] != line,
    decreases lines.len(),
{
    if lines.len() > 0 && lines[0] != line {
        let rest = lines.drop_first();
        law_line_is_at_its_first_row(rest, line);
        assert forall|i: int| 0 <= i < row_of(lines, line) implies #[trigger] lines[i] != line by {
            if i > 0 {
                assert(rest[i - 1] != line);
            }
        }
    }
}

/// A restored tab has in it what its kind asks for, where that came up, and
/// nothing where it did not; a shell has neither a module nor an agent in it.
pub proof fn law_restored_tab_has_its_inhabitant(
    l: LayoutTab,
    t: Tab,
    id: u64,
    cols: usize,
    rows: usize,
    what: Launch,
    s: bool,
)
    requires
        restored_as(l, t, id, cols, rows, what, s),
    ensures
        t.module_session is Some <==> what is Data && s,
        t.acp_session is Some <==> what is Agent && s,
        t.module_pty <==> what is Tty,
        t.kind == l.kind,
        t.title@ == l.title@,
        t.color_idx == l.color_idx,
        t.last_focused_path == l.focused_path,
        t.module_session matches Some(body) ==> body@.len() == 0,
{
}

/// Tabs that were fitted anew are the same tabs, in other sizes.
pub proof fn law_fitted_tabs_are_the_same(a: Seq<Tab>, b: Seq<Tab>, i: int)
    requires
        only_regridded(a, b),
        0 <= i < a.len(),
    ensures
        b.len() == a.len(),
        b[i].id == a[i].id,
        b[i].kind == a[i].kind,
        b[i].title == a[i].title,
        b[i].shell_title == a[i].shell_title,
        b[i].color_idx == a[i].color_idx,
        b[i].acp_session == a[i].acp_session,
        b[i].module_session == a[i].module_session,
{
}

/// A window that has just opened is at rest: nothing is over its panes, nothing
/// is dragged, nothing is typed and nothing is due.
pub proof fn law_new_window_is_at_rest(w: Renderer)
    requires
        w.idle(),
    ensures
        w.modal is None && w.context_menu is None && w.find is None && w.palette is None,
        !w.display_settings && !w.claims_overlay,
        w.divider_drag is None && w.split_gesture is None && w.slider_drag is None,
        w.cursor_icon == CursorIcon::Default,
        w.preedit@.len() == 0,
        w.bell_flash_until is None && w.next_blink_deadline is None,
        w.next_autoscroll_deadline is None && w.next_surface_retry_deadline is None,
        w.surface_retry_count == 0,
{
}

} // verus!

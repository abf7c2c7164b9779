//! What holds of the window from one event to the next.

use crate::acp::AcpSession;
use crate::agent::{answers, keyed, AgentKey};
use crate::cycle::{after, before, law_steps_undo};
use crate::encode::MouseButton;
use crate::messages::{new_body, text_shows, with_image, with_text, Decoded, SetText};
use crate::mouse::Press;
use crate::press::Pressed;
use crate::relayout::{bounded, only_regridded, regridded, resized};
use crate::renderer::{Effects, Renderer};
use crate::tab::{within_limits, Tab, TabId, MAX_GRID_COLS, MAX_GRID_ROWS};
use crate::tab_tree::{lemma_same_shape, lemma_tab_pos_is_first};
use crate::text::blank;
use crate::titles::{auto_titled, shell_titled};
use crate::tree::{Pane, PaneId, PaneNode};
use crate::tree_laws::{law_with_pane, law_with_pane_other};
use crate::workspace::Workspace;
use vstd::prelude::*;

verus! {

/// Putting a pane back undoes its replacement.
pub proof fn law_pane_put_back(t: PaneNode, id: PaneId, q: Pane)
    requires
        t.has(id),
    ensures
        t.with_pane(id, q).with_pane(id, t.pane(id)) == t,
    decreases t,
{
    match t {
        PaneNode::Leaf { .. } => {},
        PaneNode::Split { first, second, .. } => {
            if first.has(id) {
                law_pane_put_back(*first, id, q);
                law_with_pane(*first, id, q);
            } else {
                law_pane_put_back(*second, id, q);
                law_with_pane(*second, id, q);
            }
        },
    }
}

/// Going to the next tab and back to the one before it leaves the window as it
/// was.
pub proof fn law_next_then_prev(a: Renderer, b: Renderer, c: Renderer, d: Effects, e: Effects)
    requires
        a.wf(),
        c.wf(),
        b.switched(a, after(a.ws.active().active_tab as int, a.ws.active().tabs@.len() as int), d),
        c.switched(b, before(b.ws.active().active_tab as int, b.ws.active().tabs@.len() as int), e),
    ensures
        c == a,
{
    a.ws.lemma_pane_wf(a.ws.active_pane);
    lemma_there_and_back(
        a,
        b,
        c,
        after(a.ws.active().active_tab as int, a.ws.active().tabs@.len() as int),
        before(b.ws.active().active_tab as int, b.ws.active().tabs@.len() as int),
        d,
        e,
    );
}

/// Going to the tab before and on to the next one leaves the window as it was.
pub proof fn law_prev_then_next(a: Renderer, b: Renderer, c: Renderer, d: Effects, e: Effects)
    requires
        a.wf(),
        c.wf(),
        b.switched(a, before(a.ws.active().active_tab as int, a.ws.active().tabs@.len() as int), d),
        c.switched(b, after(b.ws.active().active_tab as int, b.ws.active().tabs@.len() as int), e),
    ensures
        c == a,
{
    a.ws.lemma_pane_wf(a.ws.active_pane);
    lemma_there_and_back(
        a,
        b,
        c,
        before(a.ws.active().active_tab as int, a.ws.active().tabs@.len() as int),
        after(b.ws.active().active_tab as int, b.ws.active().tabs@.len() as int),
        d,
        e,
    );
}

proof fn lemma_there_and_back(
    a: Renderer,
    b: Renderer,
    c: Renderer,
    i: int,
    j: int,
    d: Effects,
    e: Effects,
)
    requires
        a.wf(),
        c.wf(),
        0 <= i < a.ws.active().tabs@.len(),
        a.ws.active().wf(),
        b.switched(a, i, d),
        c.switched(b, j, e),
        i == after(a.ws.active().active_tab as int, a.ws.active().tabs@.len() as int) && j
            == before(b.ws.active().active_tab as int, b.ws.active().tabs@.len() as int) || i
            == before(a.ws.active().active_tab as int, a.ws.active().tabs@.len() as int) && j
            == after(b.ws.active().active_tab as int, b.ws.active().tabs@.len() as int),
    ensures
        c == a,
{
    let w = a.ws;
    let n = w.active().tabs@.len() as int;
    law_steps_undo(w.active().active_tab as int, n);
    assert(w.active().tabs.len() == n);
    if i != w.active().active_tab {
        let q = Pane { active_tab: i as usize, ..w.active() };
        law_with_pane(w.tree(), w.active_pane, q);
        law_pane_put_back(w.tree(), w.active_pane, q);
    }
}

/// Closing a tab that has just been opened leaves the pane with the tabs it
/// had.
pub proof fn law_open_then_close(a: Workspace, b: Workspace, c: Workspace, cols: usize, rows: usize)
    requires
        b.opened_tab(a, cols, rows),
        c.dropped_tab(b),
    ensures
        c.active_pane == a.active_pane,
        c.active().tabs@ == a.active().tabs@,
{
    let p = a.active();
    let q = b.active();
    assert(q.tabs@.remove(p.tabs@.len() as int) =~= q.tabs@.drop_last());
}

/// A tab that is opened has an id that no tab had.
pub proof fn law_new_tab_is_new(a: Workspace, b: Workspace, cols: usize, rows: usize)
    requires
        a.wf(),
        b.opened_tab(a, cols, rows),
    ensures
        !a.tree().has_tab(b.active_tab().id),
{
    lemma_tab_pos_is_first(a.all(), b.active_tab().id);
}

/// Focusing another pane and coming back gives the focus back; the tab that had
/// it keeps everything but its selection.
pub proof fn law_focus_and_back(a: Workspace, b: Workspace, c: Workspace, pid: PaneId)
    requires
        a.wf(),
        a.tree().has(pid),
        pid != a.active_pane,
        b.focused(a, pid),
        c.focused(b, a.active_pane),
    ensures
        c.active_pane == a.active_pane,
        c.active_tab() == (Tab { selection: None, dragging: false, ..a.active_tab() }),
        forall|id: PaneId| #[trigger] c.tree().has(id) <==> a.tree().has(id),
{
    a.lemma_pane_wf(a.active_pane);
    let q = b.tree().pane(a.active_pane);
    let r = c.tree().pane(pid);
    law_with_pane(a.tree(), a.active_pane, q);
    assert(b.tree().has(pid));
    law_with_pane(b.tree(), pid, r);
    law_with_pane_other(b.tree(), pid, r, a.active_pane);
}

/// While a modal is up, a press changes nothing behind it, unless it confirms.
pub proof fn law_modal_keeps_presses_out(
    a: Renderer,
    b: Renderer,
    p: Press,
    r: Pressed,
    e: Effects,
)
    requires
        a.modal is Some,
        b.pressed(a, p, r, e),
        !(p.button == MouseButton::Left && p.on_confirm),
    ensures
        b == (Renderer { modal: b.modal, ..a }),
{
}

/// A text and an image are never shown at once: a new text drops the image, an
/// image drops the text.
pub proof fn law_text_and_image_exclude(t: Tab, m: SetText, u: Tab, image: Decoded, now: u64)
    requires
        with_image(t, u, image, now),
    ensures
        new_body(t, m) ==> with_text(t, m).image is None && with_text(t, m).animation is None,
        u.last_module_body@.len() == 0,
        u.image is None || u.animation is None,
{
}

/// A text that is sent twice changes what is on screen once, unless it asks to
/// be scrolled.
pub proof fn law_same_text_twice(t: Tab, m: SetText)
    ensures
        text_shows(with_text(t, m), m) == (m.scroll_to_line is Some),
{
}

/// A title that a shell sets wins over the system's.
pub proof fn law_shell_title_wins(t: Tab, u: Tab, v: Tab, title: String, auto: String)
    requires
        !blank(title@),
        shell_titled(t, u, title),
        auto_titled(u, v, auto),
    ensures
        v.title == title,
        v == u,
{
}

/// Once a shell takes its title back, the system's takes over.
pub proof fn law_blank_title_yields(t: Tab, u: Tab, v: Tab, title: String, auto: String)
    requires
        blank(title@),
        auto@.len() > 0,
        shell_titled(t, u, title),
        auto_titled(u, v, auto),
    ensures
        v.title == auto,
{
}

/// Whatever a request to close a tab or a pane changes in the panes and their
/// tabs, the layout is written down, so that a crash does not bring it back.
pub proof fn law_closing_is_saved(
    a: Renderer,
    b: Renderer,
    busy: bool,
    name: Option<Seq<char>>,
    exit: bool,
    e: Effects,
)
    requires
        b.close_requested(a, busy, name, exit, e) || b.closed_pane(a, exit, e),
    ensures
        b.ws != a.ws ==> e.persist,
{
}

/// In every state of a window each terminal has a grid of one cell at least, and
/// none beyond the ceilings, whatever size the window or the font was given.
pub proof fn law_grids_are_bounded(r: Renderer)
    requires
        r.wf(),
    ensures
        bounded(r.ws.all()),
{
    assert forall|i: int| 0 <= i < r.ws.all().len() implies 1 <= (#[trigger] r.ws.all()[i]).cols
        <= MAX_GRID_COLS && 1 <= r.ws.all()[i].rows <= MAX_GRID_ROWS by {
        assert(r.ws.all()[i].wf());
    }
}

/// Fitting tabs to panes that have not changed resizes none of them.
pub proof fn law_relayout_settles(a: PaneNode, b: PaneNode, c: PaneNode, grids: Seq<(usize, usize)>)
    requires
        b.fitted(a, grids, 0),
        c.fitted(b, grids, 0),
        only_regridded(b.tabs(), c.tabs()),
    ensures
        resized(b.tabs(), c.tabs()) == Seq::<TabId>::empty(),
{
    lemma_same_shape(a, b);
    lemma_same_shape(b, c);
    assert forall|i: int| 0 <= i < b.leaves().len() implies #[trigger] b.leaves()[i].1.tabs@
        =~= c.leaves()[i].1.tabs@ by {
        let p = b.leaves()[i].1.tabs@;
        let q = c.leaves()[i].1.tabs@;
        let grid = within_limits(grids[0 + i]);
        assert(c.leaves()[i].0 == b.leaves()[i].0);
        assert(b.leaves()[i].0 == a.leaves()[i].0);
        assert forall|k: int| 0 <= k < p.len() implies p[k] == q[k] by {
            assert(b.leaves()[i].1.tabs@[k] == regridded(a.leaves()[i].1.tabs@[k], grid));
            assert(c.leaves()[i].1.tabs@[k] == regridded(b.leaves()[i].1.tabs@[k], grid));
        }
    }
    lemma_same_tabs(b, c);
    lemma_none_resized(b.tabs());
}

proof fn lemma_same_tabs(b: PaneNode, c: PaneNode)
    requires
        b.same_shape(c),
        forall|i: int|
            0 <= i < b.leaves().len() ==> #[trigger] b.leaves()[i].1.tabs@
                == c.leaves()[i].1.tabs@,
    ensures
        b.tabs() == c.tabs(),
    decreases b,
{
    lemma_same_shape(b, c);
    match (b, c) {
        (PaneNode::Leaf { pane: p, .. }, PaneNode::Leaf { pane: q, .. }) => {
            assert(b.leaves()[0].1.tabs@ == c.leaves()[0].1.tabs@);
        },
        (
            PaneNode::Split { first: f, second: s, .. },
            PaneNode::Split { first: g, second: t, .. },
        ) => {
            let n = f.leaves().len() as int;
            lemma_same_shape(*f, *g);
            assert forall|i: int| 0 <= i < f.leaves().len() implies #[trigger] f.leaves()[i].1.tabs@
                == g.leaves()[i].1.tabs@ by {
                assert(b.leaves()[i].1.tabs@ == c.leaves()[i].1.tabs@);
            }
            assert forall|i: int| 0 <= i < s.leaves().len() implies #[trigger] s.leaves()[i].1.tabs@
                == t.leaves()[i].1.tabs@ by {
                assert(b.leaves()[n + i].1.tabs@ == c.leaves()[n + i].1.tabs@);
            }
            lemma_same_tabs(*f, *g);
            lemma_same_tabs(*s, *t);
        },
        _ => {},
    }
}

proof fn lemma_none_resized(s: Seq<Tab>)
    ensures
        resized(s, s) == Seq::<TabId>::empty(),
    decreases s.len(),
{
    if s.len() > 0 {
        lemma_none_resized(s.drop_last());
    }
}

/// A key that answers a permission request is not typed into the draft, and a
/// request is answered once.
pub proof fn law_answer_is_not_typed(s: AcpSession, t: AcpSession, key: Seq<char>, r: AgentKey)
    requires
        answers(s, key),
        keyed(s, t, key, r),
    ensures
        t.draft == s.draft,
        r is Answer,
        !answers(t, key),
{
}

} // verus!

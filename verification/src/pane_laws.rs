//! What opening, closing, switching, splitting and focusing do to the panes of a
//! window and their tabs.

use crate::renderer::{Effects, ModalAction, Renderer};
use crate::tab::Tab;
use crate::tree::{Pane, PaneId, PaneNode, Scalar, SplitDir};
use crate::tree_laws::{law_close_leaves, law_position, law_split_leaves, law_with_pane};
use crate::workspace::Workspace;
use vstd::prelude::*;

verus! {

/// A new tab stands behind the others of its pane and is on show: a shell under
/// the window's name, with an id that no tab had. The tabs before it stay.
pub proof fn law_new_tab_stands_last(
    before: Workspace,
    after: Workspace,
    cols: usize,
    rows: usize,
    i: int,
)
    requires
        before.wf(),
        after.opened_tab(before, cols, rows),
        0 <= i < before.active().tabs@.len(),
    ensures
        after.active_pane == before.active_pane,
        ({
            let p = before.active();
            let q = after.active();
            let t = q.tabs@[q.active_tab as int];
            &&& q.tabs@.len() == p.tabs@.len() + 1
            &&& q.active_tab == p.tabs@.len()
            &&& q.tabs@[i] == p.tabs@[i]
            &&& t.id.0 == before.next_tab_id
            &&& t.kind is Shell
            &&& t.title@ == "terminite"@
            &&& t.selection is None
            &&& t.image is None
            &&& 1 <= cols <= 600 ==> t.cols == cols
            &&& 1 <= rows <= 400 ==> t.rows == rows
            &&& cols > 600 ==> t.cols == 600
            &&& rows > 400 ==> t.rows == 400
            &&& q.bg_idx == p.bg_idx
            &&& q.font_scale == p.font_scale
            &&& after.next_tab_id == before.next_tab_id + 1
        }),
{
    let p = before.active();
    let q = after.active();
    assert(q.tabs@.drop_last()[i] == p.tabs@[i]);
}

/// A closed tab is gone, the others of its pane stay in their order, and the one
/// behind it is on show, or the one before it where it was the last.
pub proof fn law_closed_tab_gives_way(before: Workspace, after: Workspace, i: int)
    requires
        before.wf(),
        before.active().tabs@.len() > 1,
        after.dropped_tab(before),
        0 <= i < before.active().tabs@.len() - 1,
    ensures
        after.active_pane == before.active_pane,
        ({
            let p = before.active();
            let q = after.active();
            let k = p.active_tab as int;
            &&& q.tabs@.len() == p.tabs@.len() - 1
            &&& i < k ==> q.tabs@[i] == p.tabs@[i]
            &&& i >= k ==> q.tabs@[i] == p.tabs@[i + 1]
            &&& k + 1 < p.tabs@.len() ==> q.tabs@[q.active_tab as int] == p.tabs@[k + 1]
            &&& k + 1 == p.tabs@.len() ==> q.tabs@[q.active_tab as int] == p.tabs@[k - 1]
            &&& q.bg_idx == p.bg_idx
            &&& q.font_scale == p.font_scale
            &&& after.next_tab_id == before.next_tab_id
        }),
{
    before.lemma_pane_wf(before.active_pane);
}

/// A tab that is asked for is on show, and no tab is changed by that; one that
/// there is not is passed over.
pub proof fn law_asked_tab_is_shown(before: Renderer, after: Renderer, idx: int, e: Effects)
    requires
        before.wf(),
        after.switched(before, idx, e),
        0 <= idx <= usize::MAX,
    ensures
        after.ws.active().tabs == before.ws.active().tabs,
        after.ws.active_pane == before.ws.active_pane,
        idx < before.ws.active().tabs@.len() ==> after.ws.active().active_tab == idx,
        idx >= before.ws.active().tabs@.len() ==> after == before,
        after.ws.active().active_tab != before.ws.active().active_tab ==> e.redraw && e.retitle,
{
    let q = Pane { active_tab: idx as usize, ..before.ws.active() };
    law_with_pane(before.ws.tree(), before.ws.active_pane, q);
}

/// The tree has a split in that direction and at that ratio, with pane `a` in
/// its first part and pane `b` in its second.
pub open spec fn has_split(t: PaneNode, dir: SplitDir, ratio: Scalar, a: PaneId, b: PaneId) -> bool
    decreases t,
{
    match t {
        PaneNode::Leaf { .. } => false,
        PaneNode::Split { dir: d, ratio: r, first, second } => {
            ||| d == dir && r == ratio && (*first matches PaneNode::Leaf { id, .. } && id == a) && (
            *second matches PaneNode::Leaf { id, .. } && id == b)
            ||| has_split(*first, dir, ratio, a, b)
            ||| has_split(*second, dir, ratio, a, b)
        },
    }
}

pub proof fn lemma_split_is_there(
    t: PaneNode,
    target: PaneId,
    dir: SplitDir,
    ratio: Scalar,
    old: Pane,
    new_id: PaneId,
    new_pane: Pane,
)
    requires
        t.has(target),
    ensures
        has_split(
            t.replace(
                target,
                PaneNode::Split {
                    dir,
                    ratio,
                    first: Box::new(PaneNode::Leaf { id: target, pane: old }),
                    second: Box::new(PaneNode::Leaf { id: new_id, pane: new_pane }),
                },
            ),
            dir,
            ratio,
            target,
            new_id,
        ),
    decreases t,
{
    if let PaneNode::Split { first, second, .. } = t {
        if first.has(target) {
            lemma_split_is_there(*first, target, dir, ratio, old, new_id, new_pane);
        } else {
            lemma_split_is_there(*second, target, dir, ratio, old, new_id, new_pane);
        }
    }
}

/// A split puts a new pane beside the focused one, in the direction that was
/// asked for and at that ratio, the old one first; the new one has the focus,
/// holds one fresh shell, and no other pane changes.
pub proof fn law_split_puts_a_pane_beside(
    before: Workspace,
    after: Workspace,
    dir: SplitDir,
    ratio: Scalar,
    i: int,
)
    requires
        before.wf(),
        before.next_pane_id < u64::MAX,
        before.next_tab_id < u64::MAX,
        after.split_pane(before, dir, ratio),
        0 <= i < before.tree().leaves().len(),
    ensures
        ({
            let new = PaneId(before.next_pane_id);
            let k = before.tree().position(before.active_pane);
            &&& after.active_pane == new
            &&& has_split(after.tree(), dir, ratio, before.active_pane, new)
            &&& after.tree().leaves().len() == before.tree().leaves().len() + 1
            &&& i <= k ==> after.tree().leaves()[i] == before.tree().leaves()[i]
            &&& i > k ==> after.tree().leaves()[i + 1] == before.tree().leaves()[i]
            &&& after.tree().leaves()[k + 1].0 == new
            &&& after.tree().leaves()[k + 1].1.tabs@.len() == 1
            &&& after.tree().leaves()[k + 1].1.tabs@[0].kind is Shell
            &&& after.tree().leaves()[k + 1].1.active_tab == 0
            &&& after.tree().leaves()[k + 1].1.bg_idx == 0
            &&& after.tree().leaves()[k + 1].1.font_scale == Scalar(0x3f80_0000)
            &&& after.tree().leaves()[k + 1].1.tabs@[0].id.0 == before.next_tab_id
            &&& after.next_tab_id == before.next_tab_id + 1
            &&& after.next_pane_id == before.next_pane_id + 1
        }),
{
    let t = before.tree();
    let new = PaneId(before.next_pane_id);
    law_position(t, before.active_pane);
    law_split_leaves(t, before.active_pane, dir, new, after.active(), ratio);
    lemma_split_is_there(
        t,
        before.active_pane,
        dir,
        ratio,
        t.pane(before.active_pane),
        new,
        after.active(),
    );
}

/// A closed pane is gone with its tabs, every other one stays as it was and in
/// its order, and the first of them has the focus.
pub proof fn law_closed_pane_is_gone(before: Workspace, after: Workspace, i: int)
    requires
        before.wf(),
        before.tree().leaves().len() > 1,
        after.dropped_pane(before),
        0 <= i < before.tree().leaves().len() - 1,
    ensures
        ({
            let k = before.tree().position(before.active_pane);
            &&& after.tree().leaves().len() == before.tree().leaves().len() - 1
            &&& i < k ==> after.tree().leaves()[i] == before.tree().leaves()[i]
            &&& i >= k ==> after.tree().leaves()[i] == before.tree().leaves()[i + 1]
            &&& after.active_pane == after.tree().leaves()[0].0
            &&& after.active_pane != before.active_pane
        }),
{
    let t = before.tree();
    law_position(t, before.active_pane);
    law_close_leaves(t, before.active_pane);
    let k = t.position(before.active_pane);
    let j: int = if 0 < k {
        0
    } else {
        1
    };
    assert(t.leaves()[k].0 == before.active_pane);
    assert(after.tree().leaves()[0] == t.leaves()[j]);
    if t.leaves()[j].0 == before.active_pane {
        if j < k {
            assert(t.leaves()[j].0 != t.leaves()[k].0);
        } else {
            assert(t.leaves()[k].0 != t.leaves()[j].0);
        }
    }
}

/// Focus goes to the pane that it is given to; the one that loses it also loses
/// its selection, and nothing else of it changes.
pub proof fn law_focus_goes_where_it_is_given(
    before: Renderer,
    after: Renderer,
    pid: PaneId,
    e: Effects,
)
    requires
        before.wf(),
        after.focused_pane(before, pid, e),
    ensures
        after.ws.active_pane == pid,
        pid == before.ws.active_pane ==> after == before && !e.redraw,
        pid != before.ws.active_pane ==> {
            let p = before.ws.active();
            let q = after.ws.tree().pane(before.ws.active_pane);
            &&& e.redraw && e.retitle && e.reload_config
            &&& q.tabs@.len() == p.tabs@.len()
            &&& q.active_tab == p.active_tab
            &&& q.shown().selection is None
            &&& !q.shown().dragging
            &&& q.shown().id == p.shown().id
            &&& q.shown().title == p.shown().title
            &&& q.shown().kind == p.shown().kind
        },
{
    before.ws.lemma_pane_wf(before.ws.active_pane);
}

/// A tab in which something runs is not closed before the user has been asked,
/// by the name of what runs; one in which nothing runs is closed at once. The
/// last tab of the window ends it.
pub proof fn law_busy_tab_is_asked_about(
    before: Renderer,
    after: Renderer,
    busy: bool,
    name: Option<Seq<char>>,
    exit: bool,
    e: Effects,
)
    requires
        before.wf(),
        after.close_requested(before, busy, name, exit, e),
        before.modal is None,
    ensures
        busy ==> after.ws == before.ws && !exit && after.modal is Some,
        busy ==> after.modal->0.action == ModalAction::CloseTab && after.modal->0.title@
            == "Close tab?"@ && after.modal->0.cancel@ == "Cancel"@ && after.modal->0.confirm@
            == "Close"@,
        busy && name is Some ==> after.modal->0.body@ == name->0 + " is running in this tab."@,
        busy && name is None ==> after.modal->0.body@ == "A process is running in this tab."@,
        !busy ==> after.modal is None,
        !busy ==> exit == (before.ws.active().tabs@.len() == 1 && before.ws.tree().leaves().len()
            == 1),
        !busy && exit ==> after == before,
        !busy && before.ws.active().tabs@.len() > 1 ==> after.ws.dropped_tab(before.ws),
        !busy && !exit && before.ws.active().tabs@.len() == 1 ==> after.ws.dropped_pane(before.ws),
{
    reveal_strlit("A process");
    reveal_strlit(" is running in this tab.");
    reveal_strlit("A process is running in this tab.");
    assert("A process"@ + " is running in this tab."@ =~= "A process is running in this tab."@);
}

/// A question is answered: on confirmation what was asked about is closed, on
/// cancellation nothing is, and either way the question is gone. A click beside
/// the buttons leaves it up.
pub proof fn law_question_is_answered(
    before: Renderer,
    after: Renderer,
    on_confirm: bool,
    on_cancel: bool,
    exit: bool,
    e: Effects,
)
    requires
        before.wf(),
        after.modal_clicked(before, on_confirm, on_cancel, exit, e),
        before.modal is Some,
    ensures
        !on_confirm && !on_cancel ==> after == before,
        !on_confirm && on_cancel ==> after.ws == before.ws && after.modal is None && !exit,
        on_confirm ==> after.modal is None,
        on_confirm && before.modal->0.action == ModalAction::CloseTab && before.ws.active().tabs@.len()
            > 1 ==> after.ws.dropped_tab(before.ws) && !exit,
        on_confirm && before.modal->0.action == ModalAction::CloseTab && before.ws.active().tabs@.len()
            == 1 && before.ws.tree().leaves().len() > 1 ==> after.ws.dropped_pane(before.ws)
            && !exit,
        on_confirm && before.modal->0.action == ModalAction::ClosePane
            && before.ws.tree().leaves().len() > 1 ==> after.ws.dropped_pane(before.ws) && !exit,
        on_confirm && before.modal->0.action == ModalAction::CrashNotice ==> exit && after.ws
            == before.ws,
{
    crate::tree::lemma_leaves_nonempty(before.ws.tree());
    before.ws.lemma_pane_wf(before.ws.active_pane);
}

/// A pane in which something runs is asked about by the name of that, and with
/// the number of its tabs where it has several; the only pane is never closed
/// this way.
pub proof fn law_busy_pane_is_asked_about(
    before: Renderer,
    after: Renderer,
    busy: Option<Option<Seq<char>>>,
    e: Effects,
)
    requires
        after.pane_close_requested(before, busy, e),
        before.modal is None,
    ensures
        before.ws.tree().leaves().len() == 1 ==> after == before,
        before.ws.tree().leaves().len() != 1 && busy is None ==> after.ws.dropped_pane(before.ws),
        before.ws.tree().leaves().len() != 1 && busy is Some ==> after.ws == before.ws
            && after.modal is Some && after.modal->0.action == ModalAction::ClosePane
            && after.modal->0.title@ == "Close pane?"@ && after.modal->0.cancel@ == "Cancel"@
            && after.modal->0.confirm@ == "Close"@,
        before.ws.tree().leaves().len() != 1 && (busy matches Some(Some(n)) && after.modal is Some)
            && before.ws.active().tabs@.len() == 1 ==> after.modal->0.body@ == busy->0->0
            + " is running in this pane."@,
        before.ws.tree().leaves().len() != 1 && (busy matches Some(Some(n)) && after.modal is Some)
            && before.ws.active().tabs@.len() == 2 ==> after.modal->0.body@ == busy->0->0
            + " is running in this pane ("@ + seq!['2'] + " tabs)."@,
{
    assert(crate::text::digits(2) == seq!['2']);
}

/// A tab that changes changes alone: every other tab of the window stays, and
/// so do the panes.
pub proof fn law_change_touches_one_tab(before: Workspace, after: Workspace, t: Tab, i: int)
    requires
        before.wf(),
        after.active_tab_became(before, t),
        0 <= i < before.active().tabs@.len(),
    ensures
        after.active_pane == before.active_pane,
        after.tree().leaves().len() == before.tree().leaves().len(),
        after.active().active_tab == before.active().active_tab,
        after.active_tab() == t,
        i != before.active().active_tab ==> after.active().tabs@[i] == before.active().tabs@[i],
{
    before.lemma_pane_wf(before.active_pane);
    law_position(before.tree(), before.active_pane);
    law_with_pane(before.tree(), before.active_pane, after.active());
}

/// A pane that is closed has the window laid out, titled and saved anew; the last
/// one is not closed but ends the window.
pub proof fn law_closing_a_pane_is_saved(before: Renderer, after: Renderer, exit: bool, e: Effects)
    requires
        before.wf(),
        after.closed_pane(before, exit, e),
    ensures
        exit <==> before.ws.tree().leaves().len() == 1,
        exit ==> after == before && !e.redraw && !e.persist,
        !exit ==> e.relayout && e.retitle && e.redraw && e.persist && !e.reload_config,
        !exit ==> after.ws.dropped_pane(before.ws),
        after.room == before.room,
        after.file_waiters == before.file_waiters,
{
}

} // verus!

//! What gestures do: a drag from a pane's corner, and presses in a tab bar.

use crate::menu::kind_rows;
use crate::mouse::{busy_view, GestureOutcome, Lift};
use crate::pane_laws::{
    has_split, law_asked_tab_is_shown, law_focus_goes_where_it_is_given, lemma_split_is_there,
};
use crate::press::{BarHit, BarPart};
use crate::renderer::{both, nothing, Effects, ModalAction, Renderer};
use crate::tab::TabId;
use crate::text::opt_text;
use crate::tree::{PaneId, SplitDir};
use crate::tree_laws::law_with_pane;
use vstd::prelude::*;

verus! {

/// A drag from the corner of a pane into it splits that pane, in the direction
/// and at the ratio of the drag; the new pane has the focus and a tab with the
/// next number, for which a shell is started.
pub proof fn law_corner_drag_splits(
    before: Renderer,
    after: Renderer,
    pid: PaneId,
    l: Lift,
    opened: Option<TabId>,
    e: Effects,
    dir: SplitDir,
)
    requires
        before.wf(),
        after.gesture_ended(before, pid, l, opened, e),
        l.gesture == Some(GestureOutcome::Split(dir)),
    ensures
        !before.ws.tree().has(pid) ==> after == before && opened is None,
        before.ws.tree().has(pid) ==> {
            let new = PaneId(before.ws.next_pane_id);
            &&& opened == Some(TabId(before.ws.next_tab_id))
            &&& after.ws.active_pane == new
            &&& has_split(after.ws.tree(), dir, l.ratio, pid, new)
            &&& e.relayout && e.redraw && e.persist
        },
        after.room == before.room,
{
    if before.ws.tree().has(pid) {
        let (mid, d) = choose|mid: Renderer, d: Effects|
            {
                &&& #[trigger] mid.focused_pane(before, pid, d)
                &&& after.same_but_ws(mid)
                &&& after.ws.split_pane(mid.ws, dir, l.ratio)
                &&& opened == Some(TabId(before.ws.next_tab_id))
                &&& e == both(
                    d,
                    (Effects { relayout: true, redraw: true, persist: true, ..nothing() }),
                )
            };
        law_focus_goes_where_it_is_given(before, mid, pid, d);
        let t = mid.ws.tree();
        if pid != before.ws.active_pane {
            law_with_pane(before.ws.tree(), before.ws.active_pane, t.pane(before.ws.active_pane));
        }
        let new = PaneId(before.ws.next_pane_id);
        lemma_split_is_there(t, pid, dir, l.ratio, t.pane(pid), new, after.ws.active());
    }
}

/// A drag from the corner of a pane onto another one asks for that other pane to
/// go: it goes at once where nothing runs in it, and after a question else. A
/// drag that ends in its own pane, or nowhere, does nothing.
pub proof fn law_corner_drag_removes(
    before: Renderer,
    after: Renderer,
    pid: PaneId,
    l: Lift,
    opened: Option<TabId>,
    e: Effects,
)
    requires
        before.wf(),
        after.gesture_ended(before, pid, l, opened, e),
        l.gesture == Some(GestureOutcome::Remove),
    ensures
        opened is None,
        l.over is None || l.over == Some(pid) ==> after == before,
        before.modal is None && l.over is Some && l.over != Some(pid) && l.busy is Some
            && after.modal is Some ==> after.modal->0.action == ModalAction::ClosePane
            && after.ws.active_pane == l.over->0,
        before.modal is None && l.over is Some && l.over != Some(pid) && l.busy is None ==> after.modal
            is None,
        after.room == before.room,
{
    if l.over is Some && l.over != Some(pid) {
        let (mid, d, f) = choose|mid: Renderer, d: Effects, f: Effects|
            {
                &&& #[trigger] mid.focused_pane(before, l.over->0, d)
                &&& #[trigger] after.pane_close_requested(mid, busy_view(l.busy), f)
                &&& e == both(d, f)
            };
        law_focus_goes_where_it_is_given(before, mid, l.over->0, d);
    }
}

/// A release that ends no gesture does nothing of this.
pub proof fn law_no_gesture_no_change(
    before: Renderer,
    after: Renderer,
    pid: PaneId,
    l: Lift,
    opened: Option<TabId>,
    e: Effects,
)
    requires
        after.gesture_ended(before, pid, l, opened, e),
        l.gesture is None,
    ensures
        after == before,
        opened is None,
        !e.redraw,
{
}

/// A press in a tab bar gives its pane the focus. The left button on a tab shows
/// that tab, and on the bar beside the tabs does no more; neither does another
/// button.
pub proof fn law_bar_press_shows_the_tab(
    before: Renderer,
    after: Renderer,
    left: bool,
    h: BarHit,
    e: Effects,
    i: usize,
)
    requires
        before.wf(),
        after.bar_pressed(before, left, h, e),
        h.pane == before.ws.active_pane,
    ensures
        !(h.part is Close) ==> after.ws.active_pane == h.pane,
        !left ==> after == before,
        left && h.part == BarPart::Blank ==> after == before,
        left && h.part == BarPart::Tab(i) && i < before.ws.active().tabs@.len()
            ==> after.ws.active().active_tab == i && after.ws.active().tabs
            == before.ws.active().tabs && e.redraw,
        left && h.part == BarPart::KindSelector ==> after.context_menu is Some && after.ws
            == before.ws && after.context_menu->0.x == h.x && after.context_menu->0.y == h.y
            && e.redraw && kind_rows(
            after.context_menu->0.items@,
            h.pane,
            before.ws.active().shown().kind,
            before.modules@,
            h.has_folder,
        ),
        left && h.part == BarPart::Close(i) && before.ws.tree().leaves().len() == 1
            && before.ws.active().tabs@.len() == 1 ==> after == before,
        left && h.part == BarPart::Close(i) && h.busy && before.modal is None && i
            < before.ws.active().tabs@.len() && before.ws.active().tabs@.len() > 1
            ==> after.ws.active().active_tab == i && after.ws.active().tabs
            == before.ws.active().tabs && after.modal is Some && after.modal->0.action
            == ModalAction::CloseTab,
{
    let (mid, d, f) = choose|mid: Renderer, d: Effects, f: Effects|
        {
            &&& #[trigger] mid.focused_pane(before, h.pane, d)
            &&& if left {
                after.bar_clicked(mid, h, f)
            } else {
                after == mid && f == nothing()
            }
            &&& e == #[trigger] both(d, f)
        };
    assert(mid == before);
    if left {
        if let BarPart::Tab(k) = h.part {
            let g = choose|g: Effects| #[trigger]
                after.switched(before, k as int, g) && f == (Effects { redraw: true, ..g });
            law_asked_tab_is_shown(before, after, k as int, g);
        }
        if let BarPart::Close(k) = h.part {
            if !(before.ws.tree().leaves().len() == 1 && before.ws.active().tabs@.len() == 1) {
                let (m, g, exit, x) = choose|m: Renderer, g: Effects, exit: bool, x: Effects|
                    {
                        &&& #[trigger] m.switched(before, k as int, g)
                        &&& #[trigger] after.close_requested(
                            m,
                            h.busy,
                            opt_text(h.proc_name),
                            exit,
                            x,
                        )
                        &&& f == (Effects { redraw: true, ..x })
                    };
                law_asked_tab_is_shown(before, m, k as int, g);
            }
        }
    }
}

/// A press in the bar of another pane gives that pane the focus, whatever the
/// button.
pub proof fn law_bar_press_focuses(
    before: Renderer,
    after: Renderer,
    h: BarHit,
    e: Effects,
)
    requires
        before.wf(),
        after.bar_pressed(before, false, h, e),
    ensures
        after.ws.active_pane == h.pane,
        h.pane != before.ws.active_pane ==> e.redraw && e.retitle,
{
    let (mid, d, f) = choose|mid: Renderer, d: Effects, f: Effects|
        {
            &&& #[trigger] mid.focused_pane(before, h.pane, d)
            &&& if false {
                after.bar_clicked(mid, h, f)
            } else {
                after == mid && f == nothing()
            }
            &&& e == #[trigger] both(d, f)
        };
    law_focus_goes_where_it_is_given(before, mid, h.pane, d);
}

} // verus!

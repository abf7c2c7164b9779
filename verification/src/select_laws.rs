//! What a click, a drag and a release do with the content of a pane: what is
//! selected, what is copied, and what an application hears of.

use crate::encode::{mouse_report, Modifiers, MouseButton, MouseEvent};
use crate::input::{Moved, PointerMove};
use crate::mouse::{Lift, Lifted, Press};
use crate::mouse_laws::hears;
use crate::press::{ContentHit, Pressed};
use crate::pane_laws::law_focus_goes_where_it_is_given;
use crate::renderer::{both, CursorIcon, Effects, Renderer};
use crate::selection::{Cell, Selection};
use crate::tab::Click;
use crate::tree::{PaneId, SplitDir};
use crate::tree_laws::law_ratio_keeps_panes;
use crate::wheel::{far_end, uncovered, Scrolled};
use vstd::prelude::*;

verus! {

/// A click goes on with the run of `c`: it is on the same cell, and less than
/// four tenths of a second later.
pub open spec fn goes_on(c: Option<Click>, at: Cell, now: u64) -> bool {
    c matches Some(c) && c.line == at.0 && c.col == at.1 && now - c.at < 400_000_000
}

/// `sel` reaches from `a` to `b`.
pub open spec fn reaches(sel: Option<Selection>, a: Cell, b: Cell) -> bool {
    sel matches Some(s) && s.anchor_line == a.0 && s.anchor_col == a.1 && s.head_line == b.0
        && s.head_col == b.1
}

/// `a` comes before `b` as one reads.
pub open spec fn earlier(a: Cell, b: Cell) -> bool {
    a.0 < b.0 || (a.0 == b.0 && a.1 < b.1)
}

/// `r` copies what lies from `a` to `b`, whichever of them comes first, and
/// nothing where they are the same.
pub open spec fn copies_between(r: Pressed, a: Cell, b: Cell) -> bool {
    &&& earlier(a, b) ==> r == Pressed::Copy(a, b)
    &&& earlier(b, a) ==> r == Pressed::Copy(b, a)
    &&& a == b ==> r is Nothing
}

/// A first click starts a selection in its cell, to be dragged; a second one on
/// the same cell selects the word there, a third the line, and what they select
/// is copied.
pub proof fn law_clicks_select(
    before: Renderer,
    after: Renderer,
    mods: Modifiers,
    h: ContentHit,
    now: u64,
    r: Pressed,
    e: Effects,
)
    requires
        before.wf(),
        after.content_pressed(before, MouseButton::Left, mods, h, now, r, e),
        before.ws.active_tab().kind is Shell,
        !hears(h.mode),
        !mods.command,
    ensures
        ({
            let t = before.ws.active_tab();
            let u = after.ws.active_tab();
            let run = goes_on(t.last_click, h.at, now);
            &&& !run ==> reaches(u.selection, h.at, h.at) && u.dragging && r is Nothing
            &&& run && t.last_click->0.count == 1 ==> {
                &&& reaches(u.selection, h.word.0, h.word.1)
                &&& !u.dragging
                &&& copies_between(r, h.word.0, h.word.1)
            }
            &&& run && t.last_click->0.count >= 2 ==> {
                &&& reaches(u.selection, h.line.0, h.line.1)
                &&& !u.dragging
                &&& copies_between(r, h.line.0, h.line.1)
            }
            &&& u.last_click is Some
            &&& u.last_click->0.at == now
            &&& u.last_click->0.line == h.at.0
            &&& u.last_click->0.col == h.at.1
            &&& u.last_click->0.count == (if !run {
                1
            } else if t.last_click->0.count < 3 {
                t.last_click->0.count + 1
            } else {
                3
            })
            &&& e.redraw
        }),
{
    before.ws.lemma_pane_wf(before.ws.active_pane);
}

/// With the command key held, a click on a link opens that very link, if it
/// leads to the web, to a file or to mail, and no other; one on a block selects
/// and copies the block.
pub proof fn law_command_click(
    before: Renderer,
    after: Renderer,
    mods: Modifiers,
    h: ContentHit,
    now: u64,
    r: Pressed,
    e: Effects,
)
    requires
        before.wf(),
        after.content_pressed(before, MouseButton::Left, mods, h, now, r, e),
        before.ws.active_tab().kind is Shell,
        !hears(h.mode),
        mods.command,
    ensures
        h.link matches Some(l) ==> {
            &&& after == before
            &&& r is Nothing || r == Pressed::OpenUri(l)
            &&& l@.len() >= 8 && l@.take(8) == "https://"@ ==> r is OpenUri
            &&& l@.len() >= 7 && l@.take(7) == "http://"@ ==> r is OpenUri
            &&& l@.len() >= 7 && l@.take(7) == "file://"@ ==> r is OpenUri
            &&& l@.len() >= 7 && l@.take(7) == "mailto:"@ ==> r is OpenUri
            &&& l@.len() > 0 && l@[0] != 'h' && l@[0] != 'f' && l@[0] != 'm' ==> r is Nothing
        },
        h.link is None && h.block is Some ==> {
            let (a, b) = h.block->0;
            &&& reaches(after.ws.active_tab().selection, a, b)
            &&& !after.ws.active_tab().dragging
            &&& copies_between(r, a, b)
        },
{
    before.ws.lemma_pane_wf(before.ws.active_pane);
    reveal_strlit("http://");
    reveal_strlit("https://");
    reveal_strlit("file://");
    reveal_strlit("mailto:");
    if let Some(l) = h.link {
        if crate::text::begins_with(l@, "http://"@) {
            assert(l@[0] == "http://"@[0]);
        }
        if crate::text::begins_with(l@, "https://"@) {
            assert(l@[0] == "https://"@[0]);
        }
        if crate::text::begins_with(l@, "file://"@) {
            assert(l@[0] == "file://"@[0]);
        }
        if crate::text::begins_with(l@, "mailto:"@) {
            assert(l@[0] == "mailto:"@[0]);
        }
    }
}

/// A click in the body of a data module is passed on to it: the cell, and the
/// how-manieth click there it was. Nothing is selected.
pub proof fn law_module_hears_clicks(
    before: Renderer,
    after: Renderer,
    mods: Modifiers,
    h: ContentHit,
    now: u64,
    r: Pressed,
    e: Effects,
    line: u32,
    col: u32,
)
    requires
        before.wf(),
        after.content_pressed(before, MouseButton::Left, mods, h, now, r, e),
        ({
            let t = before.ws.active_tab();
            t.kind is Module && !t.module_pty && t.module_session is Some
        }),
        h.pane is Some,
        h.module_cell == Some((line, col)),
    ensures
        r matches Pressed::ModuleClick { line: l, col: c, count } && l == line && c == col && {
            let last = before.ws.active_tab().last_module_click;
            let run = last matches Some(m) && m.line == line && m.col == col && now - m.at
                < 400_000_000;
            count == (if !run {
                1
            } else if last->0.count < 3 {
                last->0.count + 1
            } else {
                3
            })
        },
        after.ws.active_tab().selection == before.ws.active_tab().selection,
{
    before.ws.lemma_pane_wf(before.ws.active_pane);
}

/// An application that asks for the mouse hears of every press in its pane, and
/// nothing is selected there.
pub proof fn law_press_is_reported(
    before: Renderer,
    after: Renderer,
    button: MouseButton,
    mods: Modifiers,
    h: ContentHit,
    now: u64,
    r: Pressed,
    e: Effects,
    col: u32,
    row: u32,
)
    requires
        after.content_pressed(before, button, mods, h, now, r, e),
        before.ws.active_tab().kind is Shell,
        hears(h.mode),
        h.report_cell == Some((col, row)),
        button != MouseButton::Other,
    ensures
        after == before,
        r matches Pressed::Write(b) && Some(b@) == mouse_report(
            h.mode,
            MouseEvent::Press(button),
            mods,
            col,
            row,
        ),
{
}

/// It hears of every release too.
pub proof fn law_release_is_reported(
    before: Renderer,
    after: Renderer,
    l: Lift,
    r: Lifted,
    col: u32,
    row: u32,
)
    requires
        after.lifted(before, l, r),
        before.slider_drag is None,
        before.split_gesture is None,
        before.divider_drag is None,
        hears(l.mode),
        l.report_cell == Some((col, row)),
        l.button != MouseButton::Other,
    ensures
        after == before,
        r.act matches Pressed::Write(b) && Some(b@) == mouse_report(
            l.mode,
            MouseEvent::Release(l.button),
            l.modifiers,
            col,
            row,
        ),
{
}

/// A move is reported to an application that asks for all of them, and to one
/// that asks for drags while there is one; to no other.
pub proof fn law_motion_is_reported(
    before: Renderer,
    after: Renderer,
    m: PointerMove,
    r: Moved,
    col: u32,
    row: u32,
)
    requires
        after.moved(before, m, r),
        before.context_menu is None,
        before.slider_drag is None,
        before.divider_drag is None,
        before.split_gesture is None,
        m.report_cell == Some((col, row)),
    ensures
        m.mode.mouse_motion || (m.mode.mouse_drag && before.ws.active_tab().dragging) ==> (
        r.write matches Some(b) && Some(b@) == mouse_report(
            m.mode,
            MouseEvent::Motion,
            m.modifiers,
            col,
            row,
        )),
        !m.mode.mouse_motion && !(m.mode.mouse_drag && before.ws.active_tab().dragging)
            ==> r.write is None,
        m.mode.mouse_motion || m.mode.mouse_drag ==> after.ws == before.ws,
        after.mouse_pos == m.pos,
{
}

/// While a selection is dragged its head follows the pointer and its anchor
/// stays; past an edge of the viewport the terminal scrolls along, every 33
/// milliseconds.
pub proof fn law_drag_extends(before: Renderer, after: Renderer, m: PointerMove, r: Moved)
    requires
        before.wf(),
        after.moved(before, m, r),
        before.context_menu is None,
        before.slider_drag is None,
        before.divider_drag is None,
        before.split_gesture is None,
        !m.mode.mouse_drag,
        !m.mode.mouse_motion,
        before.ws.active_tab().dragging,
        before.ws.active_tab().selection is Some,
        m.now + 33_000_000 <= u64::MAX,
    ensures
        ({
            let s = before.ws.active_tab().selection->0;
            let u = after.ws.active_tab();
            &&& u.dragging
            &&& m.big_motion ==> reaches(u.selection, (s.anchor_line, s.anchor_col), m.at)
            &&& !m.big_motion ==> u.selection == Some(s)
            &&& u.autoscroll_dir == m.edge
            &&& m.edge is None ==> after.next_autoscroll_deadline is None
            &&& m.edge is Some && before.ws.active_tab().autoscroll_dir is None
                ==> after.next_autoscroll_deadline == Some((m.now + 33_000_000) as u64)
            &&& m.big_motion ==> r.effects.redraw
        }),
{
    before.ws.lemma_pane_wf(before.ws.active_pane);
}

/// When the button is let go the drag ends, and what is selected is copied; a
/// selection of nothing is gone.
pub proof fn law_release_copies(before: Renderer, after: Renderer, l: Lift, r: Lifted)
    requires
        before.wf(),
        after.lifted(before, l, r),
        before.slider_drag is None,
        before.split_gesture is None,
        before.divider_drag is None,
        !hears(l.mode),
        l.button == MouseButton::Left,
    ensures
        !after.ws.active_tab().dragging,
        after.ws.active_tab().autoscroll_dir is None,
        after.next_autoscroll_deadline is None,
        before.ws.active_tab().selection is None ==> r.act is Nothing
            && after.ws.active_tab().selection is None,
        before.ws.active_tab().selection matches Some(s) ==> {
            let a = (s.anchor_line, s.anchor_col);
            let b = (s.head_line, s.head_col);
            &&& copies_between(r.act, a, b)
            &&& a == b ==> after.ws.active_tab().selection is None
            &&& a != b ==> after.ws.active_tab().selection == Some(s)
        },
{
    before.ws.lemma_pane_wf(before.ws.active_pane);
}

/// A divider that is held follows the pointer: its split gets the ratio of where
/// the pointer is, no pane is lost or changed, and all is laid out again.
pub proof fn law_divider_follows(before: Renderer, after: Renderer, m: PointerMove, r: Moved)
    requires
        after.moved(before, m, r),
        before.context_menu is None,
        before.slider_drag is None,
        before.divider_drag is Some,
        before.ws.tree().ratio_at(before.divider_drag->0.path@) is Some,
    ensures
        after.ws.tree().ratio_at(before.divider_drag->0.path@) == Some(m.ratio),
        after.ws.tree().leaves() == before.ws.tree().leaves(),
        after.ws.active_pane == before.ws.active_pane,
        r.effects.relayout,
        r.effects.redraw,
{
    law_ratio_keeps_panes(before.ws.tree(), before.divider_drag->0.path@, m.ratio);
}

/// A press on a divider takes hold of it, and a release lets it go.
pub proof fn law_divider_is_held_and_let_go(
    a: Renderer,
    b: Renderer,
    c: Renderer,
    p: Press,
    l: Lift,
    r: Pressed,
    e: Effects,
    out: Lifted,
)
    requires
        a.modal is None,
        a.context_menu is None,
        !a.display_settings,
        a.slider_drag is None,
        a.split_gesture is None,
        p.button == MouseButton::Left,
        p.divider is Some,
        b.pressed(a, p, r, e),
        c.lifted(b, l, out),
    ensures
        b.divider_drag == p.divider,
        b.ws == a.ws,
        c.divider_drag is None,
        c.ws == b.ws,
        out.act is Nothing,
{
}

/// The pointer shows what can be taken hold of: a hand over a corner, arrows to
/// the sides over an upright divider, arrows up and down over a level one.
pub proof fn law_pointer_shows_what_is_under_it(
    before: Renderer,
    after: Renderer,
    m: PointerMove,
    r: Moved,
)
    requires
        after.moved(before, m, r),
        before.context_menu is None,
        before.slider_drag is None,
        before.divider_drag is None,
        before.split_gesture is None,
    ensures
        m.over_handle ==> after.cursor_icon == CursorIcon::Grab,
        !m.over_handle && m.over_divider == Some(SplitDir::Vertical) ==> after.cursor_icon
            == CursorIcon::ColResize,
        !m.over_handle && m.over_divider == Some(SplitDir::Horizontal) ==> after.cursor_icon
            == CursorIcon::RowResize,
        !m.over_handle && m.over_divider is None ==> after.cursor_icon == CursorIcon::Default,
        r.cursor is Some <==> after.cursor_icon != before.cursor_icon,
        r.cursor matches Some(c) ==> c == after.cursor_icon,
{
}

/// A slider that is held follows the pointer, and its sizes are written down
/// when it is let go.
pub proof fn law_slider_follows(
    a: Renderer,
    b: Renderer,
    c: Renderer,
    m: PointerMove,
    r: Moved,
    l: Lift,
    out: Lifted,
)
    requires
        a.context_menu is None,
        a.slider_drag is Some,
        b.moved(a, m, r),
        c.lifted(b, l, out),
    ensures
        r.slider == a.slider_drag,
        c.slider_drag is None,
        out.effects.persist,
{
}

/// While a terminal is scrolled under a drag, the head of the selection goes to
/// the line that came into view at the edge, or to the pointer, whichever lies
/// further from the anchor; the anchor stays.
pub proof fn law_scrolling_extends(s: Selection, moved: int, after: usize, cols: usize, rows: usize, at: Cell)
    requires
        1 <= cols,
        1 <= rows <= i32::MAX,
        after <= i32::MAX,
    ensures
        ({
            let u = far_end(s, uncovered(moved, after, cols, rows), at);
            let edge: int = if moved > 0 {
                -(after as int)
            } else {
                rows - 1 - after
            };
            let away = |line: int| if line < s.anchor_line {
                s.anchor_line - line
            } else {
                line - s.anchor_line
            };
            &&& u.anchor_line == s.anchor_line
            &&& u.anchor_col == s.anchor_col
            &&& away(edge) > away(at.0 as int) ==> u.head_line == edge && u.head_col == (if moved
                > 0 {
                0
            } else {
                cols - 1
            })
            &&& away(edge) <= away(at.0 as int) ==> u.head_line == at.0 && u.head_col == at.1
        }),
{
}

/// A terminal that is scrolled under a drag takes the selection along; any other
/// keeps its selection. Told is by how many lines it moved, and whether the rest
/// of a turn is lost because it could not move as far as asked.
pub proof fn law_scrolled_terminal_is_followed(
    before: Renderer,
    after: Renderer,
    s: Scrolled,
    r: (i64, bool),
)
    requires
        before.wf(),
        after.wheel_moved(before, s, r),
        s.before <= i32::MAX,
        s.after <= i32::MAX,
        1 <= before.ws.grid_cols,
        1 <= before.ws.grid_rows <= i32::MAX,
    ensures
        r.0 == s.after - s.before,
        r.1 <==> r.0 != s.whole,
        r.0 == 0 || s.pane != before.ws.active_pane || !before.ws.active_tab().dragging
            || before.ws.active_tab().selection is None ==> after == before,
        ({
            let t = before.ws.active_tab();
            r.0 != 0 && s.pane == before.ws.active_pane && t.dragging && t.selection is Some ==> {
                let u = after.ws.active_tab();
                &&& u.selection is Some
                &&& u.selection->0.anchor_line == t.selection->0.anchor_line
                &&& u.selection->0.anchor_col == t.selection->0.anchor_col
                &&& (u.selection->0.head_line == s.at.0 || u.selection->0.head_line == (if r.0 > 0 {
                    -(s.after as int)
                } else {
                    before.ws.grid_rows - 1 - s.after
                }))
                &&& u.id == t.id
                &&& u.dragging
            }
        }),
{
    let t = before.ws.active_tab();
    before.ws.lemma_pane_wf(before.ws.active_pane);
    if s.after != s.before && s.pane == before.ws.active_pane && t.dragging && t.selection is Some {
        law_scrolling_extends(
            t.selection->0,
            s.after - s.before,
            s.after,
            before.ws.grid_cols,
            before.ws.grid_rows,
            s.at,
        );
    }
}

/// A press belongs to what lies on top: to the question that is asked, then to an
/// open menu, then to a slider or the reset button of the open settings, then to a
/// divider, and then to a pane's handle. What is below does not hear of it.
pub proof fn law_press_goes_to_what_is_on_top(
    before: Renderer,
    after: Renderer,
    p: Press,
    r: Pressed,
    e: Effects,
)
    requires
        after.pressed(before, p, r, e),
    ensures
        before.modal is Some && p.button != MouseButton::Left ==> after == before && r is Nothing,
        before.modal is Some ==> r is Nothing || r is Exit,
        before.modal is None && before.context_menu is Some ==> r is Menu,
        ({
            let free = before.modal is None && before.context_menu is None && p.button
                == MouseButton::Left;
            let slides = free && before.display_settings && p.slider is Some;
            let resets = free && before.display_settings && p.slider is None && p.on_reset;
            let below = free && !slides && !resets;
            &&& slides ==> after == (Renderer { slider_drag: p.slider, ..before }) && r
                == Pressed::Slider(p.slider->0) && e.redraw
            &&& resets ==> after == before && r is ResetSizes && e.redraw
            &&& below && p.divider is Some ==> after == (Renderer {
                divider_drag: p.divider,
                ..before
            }) && r is Nothing
            &&& below && p.divider is None && p.handle is Some ==> r is Nothing && e.redraw
                && after.split_gesture is Some && after.split_gesture->0.pid == p.handle->0
                && after.split_gesture->0.start == before.mouse_pos && after.ws == before.ws
        }),
        before.modal is None && before.context_menu is None && p.button != MouseButton::Left
            && p.bar is Some ==> r is Nothing,
{
}

/// While a pane's corner is dragged the pointer shows a closed hand, and the drag
/// is drawn as it goes.
pub proof fn law_corner_drag_shows_a_hand(
    before: Renderer,
    after: Renderer,
    m: PointerMove,
    r: Moved,
)
    requires
        after.moved(before, m, r),
        before.context_menu is None,
        before.slider_drag is None,
        before.divider_drag is None,
        before.split_gesture is Some,
    ensures
        after.cursor_icon == CursorIcon::Grabbing,
        after.split_gesture == before.split_gesture,
        after.ws == before.ws,
        r.cursor is Some <==> before.cursor_icon != CursorIcon::Grabbing,
        r.cursor matches Some(c) ==> c == CursorIcon::Grabbing,
        r.effects.redraw,
        r.write is None,
        r.slider is None,
{
}

/// A press on the content of a pane gives that pane the focus, and then does there
/// what a press in the focused pane does.
pub proof fn law_press_reaches_its_pane(
    before: Renderer,
    after: Renderer,
    mods: Modifiers,
    h: ContentHit,
    now: u64,
    r: Pressed,
    e: Effects,
    pid: PaneId,
)
    requires
        before.wf(),
        h.pane == Some(pid),
        after.pane_pressed(before, MouseButton::Left, mods, h, now, r, e),
    ensures
        after.ws.active_pane == pid,
        pid != before.ws.active_pane ==> e.redraw && e.retitle && e.reload_config,
        pid == before.ws.active_pane && before.ws.active_tab().kind is Shell && !hears(h.mode)
            && !mods.command && !goes_on(before.ws.active_tab().last_click, h.at, now) ==> reaches(
            after.ws.active_tab().selection,
            h.at,
            h.at,
        ) && after.ws.active_tab().dragging && e.redraw,
{
    let (mid, d, f) = choose|mid: Renderer, d: Effects, f: Effects|
        {
            &&& #[trigger] mid.focused_pane(before, pid, d)
            &&& after.content_pressed(mid, MouseButton::Left, mods, h, now, r, f)
            &&& e == #[trigger] both(d, f)
        };
    law_focus_goes_where_it_is_given(before, mid, pid, d);
    if pid == before.ws.active_pane && before.ws.active_tab().kind is Shell && !hears(h.mode)
        && !mods.command {
        law_clicks_select(before, after, mods, h, now, r, f);
    }
}

/// The right button on a terminal that reports no mouse opens the menu under the
/// pointer; nothing is selected by that.
pub proof fn law_right_click_opens_the_menu(
    before: Renderer,
    after: Renderer,
    mods: Modifiers,
    h: ContentHit,
    now: u64,
    r: Pressed,
    e: Effects,
)
    requires
        after.content_pressed(before, MouseButton::Right, mods, h, now, r, e),
        before.ws.active_tab().kind is Shell,
        !hears(h.mode),
    ensures
        after.context_menu is Some,
        after.context_menu->0.x == before.mouse_pos.0,
        after.context_menu->0.y == before.mouse_pos.1,
        after.context_menu->0.hovered is None,
        after.ws == before.ws,
        r is Nothing,
        e.redraw,
{
}

/// A selection covers the lines between its ends, in the columns that it spans
/// there, where they are on screen; an empty one covers none.
pub proof fn law_selection_covers_its_lines(
    s: Selection,
    row: int,
    offset: int,
    cols: usize,
    rows: usize,
)
    ensures
        s.anchor_line == s.head_line && s.anchor_col == s.head_col ==> !s.on_row(
            row,
            offset,
            cols,
            rows,
        ),
        s.on_row(row, offset, cols, rows) ==> {
            let line = row - offset;
            &&& -1 <= row < rows
            &&& s.anchor_line <= line <= s.head_line || s.head_line <= line <= s.anchor_line
            &&& s.span(line, cols).0 < s.span(line, cols).1
        },
        !(s.anchor_line == s.head_line && s.anchor_col == s.head_col) && -1 <= row < rows && (
        s.anchor_line <= row - offset <= s.head_line || s.head_line <= row - offset
            <= s.anchor_line) && s.span(row - offset, cols).0 < s.span(row - offset, cols).1
            ==> s.on_row(row, offset, cols, rows),
{
}

} // verus!

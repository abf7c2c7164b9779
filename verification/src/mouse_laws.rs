//! What the mouse writes to a terminal: the bytes of its reports, and the arrow
//! keys that a turn of the wheel stands for.

use crate::encode::{
    arrows, dec, mouse_report, ModeFlags, Modifiers, MouseButton, MouseEvent,
};
use crate::renderer::{Effects, Renderer};
use crate::wheel::{Wheel, Wheeled};
use vstd::prelude::*;

verus! {

proof fn lemma_arrows(up: bool, app_cursor: bool, n: nat, i: int)
    ensures
        arrows(up, app_cursor, n).len() == 3 * n,
        0 <= i < n ==> {
            &&& arrows(up, app_cursor, n)[3 * i] == 27
            &&& arrows(up, app_cursor, n)[3 * i + 1] == if app_cursor {
                79u8
            } else {
                91u8
            }
            &&& arrows(up, app_cursor, n)[3 * i + 2] == if up {
                65u8
            } else {
                66u8
            }
        },
    decreases n,
{
    if n > 0 {
        let m = (n - 1) as nat;
        lemma_arrows(up, app_cursor, m, i);
        let head = arrows(up, app_cursor, m);
        let all = arrows(up, app_cursor, n);
        assert(head.len() == 3 * m);
        if 0 <= i < m {
            assert(all[3 * i] == head[3 * i]);
            assert(all[3 * i + 1] == head[3 * i + 1]);
            assert(all[3 * i + 2] == head[3 * i + 2]);
        }
    }
}

/// The pane under the pointer shows a terminal.
pub open spec fn over_terminal(r: Renderer, w: Wheel) -> bool {
    &&& w.pane is Some
    &&& !w.modifiers.command
    &&& {
        let t = r.ws.tree().pane(w.pane->0).shown();
        !(t.kind is Module) || t.module_pty
    }
}

/// The application has asked to hear of the mouse.
pub open spec fn hears(mode: ModeFlags) -> bool {
    mode.mouse_report_click || mode.mouse_drag || mode.mouse_motion
}

/// On its own screen, an application that does not ask for the mouse gets arrow
/// keys from the wheel: Up when it is turned up and Down when it is turned down,
/// one for each line, a hundred at most, and in the cursor mode that it asked
/// for.
pub proof fn law_wheel_gives_arrows(r: Renderer, w: Wheel, out: Wheeled, e: Effects, i: int)
    requires
        r.wheeled(w, out, e),
        over_terminal(r, w),
        w.mode.alt_screen,
        !hears(w.mode),
        w.lines > 0,
    ensures
        out is Write,
        ({
            let b = out->Write_0@;
            &&& w.lines <= 100 ==> b.len() == 3 * w.lines
            &&& w.lines > 100 ==> b.len() == 300
            &&& 0 <= i < b.len() && i % 3 == 0 ==> b[i] == 27
            &&& 0 <= i < b.len() && i % 3 == 1 ==> b[i] == if w.mode.app_cursor {
                79u8
            } else {
                91u8
            }
            &&& 0 <= i < b.len() && i % 3 == 2 && w.turn is Up ==> b[i] == 65
            &&& 0 <= i < b.len() && i % 3 == 2 && w.turn is Down ==> b[i] == 66
        }),
        e.redraw,
{
    let n: nat = if w.lines < 100 {
        w.lines as nat
    } else {
        100
    };
    lemma_arrows(w.turn is Up, w.mode.app_cursor, n, i / 3);
}

/// A turn of the wheel by less than a line writes nothing there.
pub proof fn law_small_turn_writes_nothing(r: Renderer, w: Wheel, out: Wheeled, e: Effects)
    requires
        r.wheeled(w, out, e),
        over_terminal(r, w),
        w.mode.alt_screen,
        !hears(w.mode),
        w.lines == 0,
    ensures
        out is Nothing,
        !e.redraw,
{
}

/// With the command key held the wheel zooms, wherever the pointer is.
pub proof fn law_command_wheel_zooms(r: Renderer, w: Wheel, out: Wheeled, e: Effects)
    requires
        r.wheeled(w, out, e),
        w.modifiers.command,
    ensures
        w.turn is Still <==> out is Nothing,
        !(w.turn is Still) <==> out is Zoom,
{
}

/// Away from every pane the wheel does nothing; over the body of a data module
/// it moves that body.
pub proof fn law_wheel_moves_what_is_under_it(r: Renderer, w: Wheel, out: Wheeled, e: Effects)
    requires
        r.wheeled(w, out, e),
        !w.modifiers.command,
    ensures
        w.pane is None ==> out is Nothing && !e.redraw,
        w.pane is Some && !over_terminal(r, w) ==> out is Body && e.redraw,
{
}

/// A terminal that neither has its own screen nor asks for the mouse is
/// scrolled, unless its scrollback ends in the direction of the turn; a part of
/// a line that points the other way still goes.
pub proof fn law_wheel_scrolls_back(r: Renderer, w: Wheel, out: Wheeled, e: Effects)
    requires
        r.wheeled(w, out, e),
        over_terminal(r, w),
        !w.mode.alt_screen,
        !hears(w.mode),
    ensures
        out is Scroll || out is Nothing,
        w.turn is Up && w.offset < w.history ==> out is Scroll,
        w.turn is Down && w.offset > 0 ==> out is Scroll,
        w.turn is Up && w.offset >= w.history && w.residual is Still ==> out is Nothing,
        w.turn is Down && w.offset == 0 && w.residual is Still ==> out is Nothing,
        w.turn is Up && w.residual is Down ==> out is Scroll,
        w.turn is Down && w.residual is Up ==> out is Scroll,
        out is Scroll <==> e.redraw,
{
}

/// The number by which a report names what happened, before the modifiers: the
/// buttons from the left, motion, and the two turns of the wheel.
pub open spec fn event_number(event: MouseEvent) -> Option<nat> {
    match event {
        MouseEvent::Press(MouseButton::Left) => Some(0),
        MouseEvent::Press(MouseButton::Middle) => Some(1),
        MouseEvent::Press(MouseButton::Right) => Some(2),
        MouseEvent::Press(MouseButton::Other) => None,
        MouseEvent::Release(MouseButton::Left) => Some(0),
        MouseEvent::Release(MouseButton::Middle) => Some(1),
        MouseEvent::Release(MouseButton::Right) => Some(2),
        MouseEvent::Release(MouseButton::Other) => None,
        MouseEvent::Motion => Some(32),
        MouseEvent::WheelUp => Some(64),
        MouseEvent::WheelDown => Some(65),
    }
}

/// What the modifiers add to it: four for Shift, eight for Alt, sixteen for
/// Control.
pub open spec fn held_keys(m: Modifiers) -> nat {
    (if m.shift {
        4nat
    } else {
        0
    }) + (if m.alt {
        8nat
    } else {
        0
    }) + (if m.control {
        16nat
    } else {
        0
    })
}

/// In the SGR format a report reads `ESC [ < event ; column ; row`, in decimal
/// digits, and ends in `m` for a release and in `M` for all else.
pub proof fn law_sgr_report_reads(
    mode: ModeFlags,
    event: MouseEvent,
    mods: Modifiers,
    col: u32,
    row: u32,
)
    requires
        hears(mode),
        mode.sgr_mouse,
        event_number(event) is Some,
    ensures
        mouse_report(mode, event, mods, col, row) == Some(
            seq![27u8, 91u8, 60u8] + dec(event_number(event)->0 + held_keys(mods)) + seq![59u8]
                + dec(col as nat) + seq![59u8] + dec(row as nat) + seq![
                if event is Release {
                    109u8
                } else {
                    77u8
                },
            ],
        ),
{
}

/// In the old format a report is `ESC [ M` and three bytes, each thirty-two
/// more than it says: what happened, the column and the row. A release does not
/// say of which button, and what lies beyond the format's reach is put at its
/// edge.
pub proof fn law_old_report_reads(
    mode: ModeFlags,
    event: MouseEvent,
    mods: Modifiers,
    col: u32,
    row: u32,
)
    requires
        hears(mode),
        !mode.sgr_mouse,
        event_number(event) is Some,
    ensures
        ({
            let r = mouse_report(mode, event, mods, col, row);
            &&& r is Some
            &&& r->0.len() == 6
            &&& r->0[0] == 27 && r->0[1] == 91 && r->0[2] == 77
            &&& event is Release ==> r->0[3] == 35
            &&& !(event is Release) ==> r->0[3] == event_number(event)->0 + held_keys(mods) + 32
            &&& col < 223 ==> r->0[4] == col + 32
            &&& col >= 223 ==> r->0[4] == 255
            &&& row < 223 ==> r->0[5] == row + 32
            &&& row >= 223 ==> r->0[5] == 255
        }),
{
}

/// Nothing is reported to an application that did not ask, nor of a button that
/// has no number.
pub proof fn law_unasked_is_not_reported(
    mode: ModeFlags,
    event: MouseEvent,
    mods: Modifiers,
    col: u32,
    row: u32,
)
    requires
        !hears(mode) || event_number(event) is None,
    ensures
        mouse_report(mode, event, mods, col, row) is None,
{
}

/// In the focused pane a turn of the wheel is reported to an application that
/// asks for the mouse, up as up and down as down, at the cell under the pointer;
/// in any other pane it is not.
pub proof fn law_wheel_is_reported(
    r: Renderer,
    w: Wheel,
    out: Wheeled,
    e: Effects,
    col: u32,
    row: u32,
)
    requires
        r.wheeled(w, out, e),
        over_terminal(r, w),
        hears(w.mode),
        w.report_cell == Some((col, row)),
    ensures
        w.pane == Some(r.ws.active_pane) && w.turn is Up ==> out is Write && Some(out->Write_0@)
            == mouse_report(w.mode, MouseEvent::WheelUp, w.modifiers, col, row),
        w.pane == Some(r.ws.active_pane) && w.turn is Down ==> out is Write && Some(
            out->Write_0@,
        ) == mouse_report(w.mode, MouseEvent::WheelDown, w.modifiers, col, row),
        w.pane != Some(r.ws.active_pane) || w.turn is Still ==> out is Nothing,
{
}

} // verus!

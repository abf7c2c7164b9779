//! The mouse wheel: zoom, scroll a body, arrow keys, reports, or scrollback.

use crate::encode::{arrows, wheel_arrows, ModeFlags, Modifiers, MouseEvent, WHEEL_STEPS};
use crate::input::{report, report_at};
use crate::renderer::{draw, no_effects, nothing, redraw, Effects, Renderer};
use crate::selection::{Cell, Selection};
use crate::tab::Tab;
use crate::tree::PaneId;
use crate::workspace::lemma_pane_tabs_ok;
use vstd::prelude::*;

verus! {

/// Which way a wheel turned, or a shift points.
#[derive(Copy, Clone, PartialEq, Eq, Structural, Debug)]
pub enum Turn {
    Up,
    Down,
    Still,
}

/// What the host knows of a turn of the wheel.
pub struct Wheel {
    pub turn: Turn,
    pub modifiers: Modifiers,
    /// The pane under the pointer.
    pub pane: Option<PaneId>,
    /// How many lines the turn comes to, rounded.
    pub lines: usize,
    /// The modes of that pane's terminal.
    pub mode: ModeFlags,
    /// The cell under the pointer, counted from one.
    pub report_cell: Option<(u32, u32)>,
    /// How far that terminal is scrolled back, and how far it can be.
    pub offset: usize,
    pub history: usize,
    /// Which way the pane is shifted by less than a line.
    pub residual: Turn,
}

/// What a turn of the wheel comes to, for the host.
pub enum Wheeled {
    Nothing,
    /// The font grows or shrinks.
    Zoom,
    /// The body of a data module moves; it stops at its top.
    Body,
    /// Bytes for the pane's terminal.
    Write(Vec<u8>),
    /// The pane's terminal is scrolled by the pixels of the turn.
    Scroll,
}

/// The scrollback cannot move further in the direction of the turn, and what
/// is left of a line does not point the other way.
pub open spec fn blocked(w: Wheel) -> bool {
    ||| w.turn is Up && w.offset >= w.history && !(w.residual is Down)
    ||| w.turn is Down && w.offset == 0 && !(w.residual is Up)
}

impl Renderer {
    /// What a turn of the wheel is for. The wheel acts on the pane under the
    /// pointer, whichever has the focus.
    pub open spec fn wheeled(self, w: Wheel, r: Wheeled, e: Effects) -> bool {
        if w.modifiers.command {
            &&& e == nothing()
            &&& if w.turn is Still {
                r is Nothing
            } else {
                r is Zoom
            }
        } else if w.pane is None {
            r is Nothing && e == nothing()
        } else {
            let t = self.ws.tree().pane(w.pane->0).shown();
            if t.kind is Module && !t.module_pty {
                r is Body && e == draw()
            } else if w.mode.alt_screen && !w.mode.reports_mouse() {
                let n = if w.lines < WHEEL_STEPS {
                    w.lines
                } else {
                    WHEEL_STEPS
                };
                if n == 0 {
                    r is Nothing && e == nothing()
                } else {
                    &&& r matches Wheeled::Write(b) && b@ == arrows(
                        w.turn is Up,
                        w.mode.app_cursor,
                        n as nat,
                    )
                    &&& e == draw()
                }
            } else if w.mode.reports_mouse() {
                let event = if w.turn is Up {
                    MouseEvent::WheelUp
                } else {
                    MouseEvent::WheelDown
                };
                let report = report_at(w.mode, event, w.modifiers, w.report_cell);
                &&& e == nothing()
                &&& if w.pane->0 != self.ws.active_pane || w.turn is Still || report is None {
                    r is Nothing
                } else {
                    r matches Wheeled::Write(b) && b@ == report->0
                }
            } else if blocked(w) {
                r is Nothing && e == nothing()
            } else {
                r is Scroll && e == draw()
            }
        }
    }

    /// The wheel has been turned.
    pub fn mouse_wheel(&self, w: Wheel) -> (r: (Wheeled, Effects))
        requires
            self.wf(),
            w.pane matches Some(pid) ==> self.ws.tree().has(pid),
        ensures
            self.wheeled(w, r.0, r.1),
    {
        if w.modifiers.command {
            return (
                if w.turn == Turn::Still {
                    Wheeled::Nothing
                } else {
                    Wheeled::Zoom
                },
                no_effects(),
            );
        }
        let pid = match w.pane {
            Some(pid) => pid,
            None => {
                return (Wheeled::Nothing, no_effects());
            },
        };
        let body = match self.ws.root_ref().find(pid) {
            Some(p) => {
                proof {
                    self.ws.lemma_pane_wf(pid);
                }
                let t = p.active_tab_ref();
                t.kind.is_module() && !t.module_pty
            },
            None => false,
        };
        if body {
            return (Wheeled::Body, redraw());
        }
        if w.mode.alt_screen && !w.mode.mouse_active() {
            return match wheel_arrows(w.turn == Turn::Up, w.mode.app_cursor, w.lines) {
                Some(b) => (Wheeled::Write(b), redraw()),
                None => (Wheeled::Nothing, no_effects()),
            };
        }
        if w.mode.mouse_active() {
            if pid != self.ws.active_pane {
                return (Wheeled::Nothing, no_effects());
            }
            let event = match w.turn {
                Turn::Up => MouseEvent::WheelUp,
                Turn::Down => MouseEvent::WheelDown,
                Turn::Still => {
                    return (Wheeled::Nothing, no_effects());
                },
            };
            return match report(&w.mode, event, w.modifiers, w.report_cell) {
                Some(b) => (Wheeled::Write(b), no_effects()),
                None => (Wheeled::Nothing, no_effects()),
            };
        }
        let up = w.turn == Turn::Up && w.offset >= w.history && w.residual != Turn::Down;
        let down = w.turn == Turn::Down && w.offset == 0 && w.residual != Turn::Up;
        if up || down {
            return (Wheeled::Nothing, no_effects());
        }
        (Wheeled::Scroll, redraw())
    }
}

/// A scroll by whole lines, as it went.
pub struct Scrolled {
    pub pane: PaneId,
    /// How many lines were asked for; up is positive.
    pub whole: i32,
    /// How far the terminal was scrolled back before and after.
    pub before: usize,
    pub after: usize,
    /// The cell under the pointer now.
    pub at: Cell,
}

/// The distance between two lines.
pub open spec fn apart(a: int, b: int) -> int {
    if a < b {
        b - a
    } else {
        a - b
    }
}

/// The edge of the viewport that a scroll by `moved` lines uncovered.
pub open spec fn uncovered(moved: int, after: usize, cols: usize, rows: usize) -> (int, int) {
    if moved > 0 {
        (-(after as int), 0)
    } else {
        (rows - 1 - after, if cols > 0 {
            cols - 1
        } else {
            0
        })
    }
}

/// Where the head of a selection goes while its terminal is scrolled under the
/// drag: to the uncovered edge or to the pointer, whichever is further from
/// the anchor.
pub open spec fn far_end(s: Selection, edge: (int, int), at: Cell) -> Selection {
    if apart(edge.0, s.anchor_line as int) > apart(at.0 as int, s.anchor_line as int) {
        Selection { head_line: edge.0 as i32, head_col: edge.1 as usize, ..s }
    } else {
        Selection { head_line: at.0, head_col: at.1, ..s }
    }
}

fn distance(a: i32, b: i32) -> (d: i64)
    ensures
        d == apart(a as int, b as int),
{
    if a < b {
        b as i64 - a as i64
    } else {
        a as i64 - b as i64
    }
}

impl Renderer {
    /// What a scrolled viewport changes.
    pub open spec fn wheel_moved(self, before: Renderer, s: Scrolled, r: (i64, bool)) -> bool {
        &&& r.0 == s.after - s.before
        &&& r.1 == (s.after - s.before != s.whole)
        &&& ({
            let t = before.ws.active_tab();
            let moved = s.after - s.before;
            if moved != 0 && s.pane == before.ws.active_pane && t.dragging && t.selection
                is Some {
                let edge = uncovered(
                    moved,
                    s.after,
                    before.ws.grid_cols,
                    before.ws.grid_rows,
                );
                &&& self.same_but_ws(before)
                &&& self.ws.active_tab_became(
                    before.ws,
                    Tab { selection: Some(far_end(t.selection->0, edge, s.at)), ..t },
                )
            } else {
                self == before
            }
        })
    }

    /// The pane's terminal has been scrolled by whole lines. The result says
    /// by how many lines it moved, and whether what is left of a line is
    /// dropped because the scrollback ended.
    pub fn wheel_scrolled(&mut self, s: Scrolled) -> (r: (i64, bool))
        requires
            old(self).wf(),
            s.before <= i32::MAX,
            s.after <= i32::MAX,
        ensures
            final(self).wf(),
            final(self).wheel_moved(*old(self), s, r),
    {
        proof {
            self.ws.lemma_pane_wf(self.ws.active_pane);
            lemma_pane_tabs_ok(self.ws, self.ws.active_pane);
        }
        let actual: i64 = s.after as i64 - s.before as i64;
        let dropped = actual != s.whole as i64;
        let drags = {
            let t = self.ws.active_tab_ref();
            t.dragging && t.selection.is_some()
        };
        if actual != 0 && s.pane == self.ws.active_pane && drags {
            let edge: Cell = if actual > 0 {
                (-(s.after as i32), 0)
            } else {
                (
                    self.ws.grid_rows as i32 - 1 - s.after as i32,
                    if self.ws.grid_cols > 0 {
                        self.ws.grid_cols - 1
                    } else {
                        0
                    },
                )
            };
            let ghost t = self.ws.active_tab();
            let tab = self.ws.active_tab_mut();
            if let Some(sel) = &mut tab.selection {
                if distance(edge.0, sel.anchor_line) > distance(s.at.0, sel.anchor_line) {
                    sel.extend_to(edge.0, edge.1);
                } else {
                    sel.extend_to(s.at.0, s.at.1);
                }
            }
        }
        (actual, dropped)
    }
}

} // verus!

//! The mouse: what a move, a press, a release and a turn of the wheel do.

use crate::encode::{encode_mouse_report, mouse_report, ModeFlags, Modifiers, MouseEvent};
use crate::renderer::{draw, no_effects, nothing, redraw, CursorIcon, Effects, Renderer, SliderKind};
use crate::room::LATEST;
use crate::selection::{Cell, Selection};
use crate::tab::{Click, ModuleClick, Tab};
use crate::tree::{Scalar, SplitDir};
use crate::workspace::Workspace;
use vstd::prelude::*;

verus! {

/// A second or third click within this time at the same cell selects a word or
/// a line.
pub const MULTI_CLICK_WINDOW: u64 = 400_000_000;

/// Tick of the auto-scroll while drag-selecting past the viewport's edge.
pub const AUTOSCROLL_TICK: u64 = 33_000_000;

/// The how-manieth click of its run one is, when the last one was the
/// `count`-th, `age` ago and on the same cell (`same`).
pub open spec fn run_count(count: u8, age: int, same: bool) -> u8 {
    if age < MULTI_CLICK_WINDOW && same {
        if count < 3 {
            (count + 1) as u8
        } else {
            3
        }
    } else {
        1
    }
}

/// The how-manieth click of its run a click on `at` is.
pub open spec fn click_count(last: Option<Click>, at: Cell, now: u64) -> u8 {
    match last {
        Some(c) => run_count(c.count, now - c.at, (c.line, c.col) == at),
        None => 1,
    }
}

/// The same for a click in a data module's body.
pub open spec fn module_click_count(
    last: Option<ModuleClick>,
    line: u32,
    col: u32,
    now: u64,
) -> u8 {
    match last {
        Some(c) => run_count(c.count, now - c.at, c.line == line && c.col == col),
        None => 1,
    }
}

pub(crate) fn count_in_run(count: u8, then: u64, now: u64, same: bool) -> (r: u8)
    ensures
        r == run_count(count, now - then, same),
{
    if (now < then || now - then < MULTI_CLICK_WINDOW) && same {
        if count < 3 {
            count + 1
        } else {
            3
        }
    } else {
        1
    }
}

/// A tab with the selection from `a` to `b`, and no drag.
pub open spec fn selecting(t: Tab, r: (Cell, Cell)) -> Tab {
    Tab {
        selection: Some(
            Selection {
                anchor_line: r.0.0,
                anchor_col: r.0.1,
                head_line: r.1.0,
                head_col: r.1.1,
            },
        ),
        dragging: false,
        ..t
    }
}

/// A tab after a left click on `at`: the first click of a run starts a drag,
/// the second selects the word, the third the line.
pub open spec fn clicked(
    t: Tab,
    at: Cell,
    word: (Cell, Cell),
    line: (Cell, Cell),
    pos: (Scalar, Scalar),
    now: u64,
) -> Tab {
    let n = click_count(t.last_click, at, now);
    let u = Tab { last_click: Some(Click { at: now, line: at.0, col: at.1, count: n }), ..t };
    if n == 1 {
        Tab {
            selection: Some(
                Selection { anchor_line: at.0, anchor_col: at.1, head_line: at.0, head_col: at.1 },
            ),
            dragging: true,
            last_drag_mouse_pos: pos,
            ..u
        }
    } else if n == 2 {
        selecting(u, word)
    } else {
        selecting(u, line)
    }
}

/// What the host has to copy: the cells of the active tab from the first to
/// the second, in reading order.
pub open spec fn to_copy(t: Tab) -> Option<(Cell, Cell)> {
    match t.selection {
        Some(s) => if s.anchor() == s.head() {
            None
        } else {
            Some(s.ends())
        },
        None => None,
    }
}

/// A change of the mouse cursor and of the state, bytes for a terminal, and
/// what the host has to do.
pub struct Moved {
    pub effects: Effects,
    /// The shape to give the mouse cursor.
    pub cursor: Option<CursorIcon>,
    /// Bytes for the active tab's shell.
    pub write: Option<Vec<u8>>,
    /// The slider that is being dragged, and has to follow the pointer.
    pub slider: Option<SliderKind>,
}

/// What the host knows of a move of the pointer.
pub struct PointerMove {
    pub pos: (Scalar, Scalar),
    /// The menu item under the pointer.
    pub menu_hit: Option<usize>,
    /// Where a divider that is being dragged has got to.
    pub ratio: Scalar,
    /// The pointer is over a pane's corner handle.
    pub over_handle: bool,
    /// The orientation of the divider under the pointer.
    pub over_divider: Option<SplitDir>,
    pub mode: ModeFlags,
    pub modifiers: Modifiers,
    /// The cell of the active pane under the pointer, counted from one.
    pub report_cell: Option<(u32, u32)>,
    /// The cell under the pointer, in absolute lines.
    pub at: Cell,
    /// The pointer is half a cell or more away from the last drag update.
    pub big_motion: bool,
    /// Past the top edge (`1`) or the bottom edge (`-1`) of the viewport.
    pub edge: Option<i32>,
    pub now: u64,
}

/// The cursor shape for what is under the pointer.
pub open spec fn icon_for(over_handle: bool, over_divider: Option<SplitDir>) -> CursorIcon {
    if over_handle {
        CursorIcon::Grab
    } else {
        match over_divider {
            Some(SplitDir::Vertical) => CursorIcon::ColResize,
            Some(SplitDir::Horizontal) => CursorIcon::RowResize,
            None => CursorIcon::Default,
        }
    }
}

/// A tab after the pointer has moved while it is drag-selecting.
pub open spec fn dragged(t: Tab, m: PointerMove) -> Tab {
    let u = if m.big_motion {
        Tab {
            selection: match t.selection {
                Some(s) => Some(Selection { head_line: m.at.0, head_col: m.at.1, ..s }),
                None => None,
            },
            last_drag_mouse_pos: m.pos,
            ..t
        }
    } else {
        t
    };
    Tab { autoscroll_dir: m.edge, ..u }
}

/// The bytes in `r`, if any.
pub open spec fn bytes_of(r: Option<Vec<u8>>) -> Option<Seq<u8>> {
    match r {
        Some(v) => Some(v@),
        None => None,
    }
}

/// The report of an event at `cell`, where there is one to send.
pub open spec fn report_at(
    mode: ModeFlags,
    event: MouseEvent,
    mods: Modifiers,
    cell: Option<(u32, u32)>,
) -> Option<Seq<u8>> {
    match cell {
        Some(c) => mouse_report(mode, event, mods, c.0, c.1),
        None => None,
    }
}

pub(crate) fn report(mode: &ModeFlags, event: MouseEvent, mods: Modifiers, cell: Option<(u32, u32)>) -> (r:
    Option<Vec<u8>>)
    ensures
        bytes_of(r) == report_at(*mode, event, mods, cell),
{
    match cell {
        Some(c) => encode_mouse_report(mode, event, mods, c.0, c.1),
        None => None,
    }
}

fn only(effects: Effects) -> (m: Moved)
    ensures
        m.effects == effects,
        m.cursor is None,
        m.write is None,
        m.slider is None,
{
    Moved { effects, cursor: None, write: None, slider: None }
}

impl Renderer {
    /// The pointer is at a new place.
    pub open spec fn pointed(self, pos: (Scalar, Scalar)) -> Renderer {
        Renderer { mouse_pos: pos, ..self }
    }

    /// `self` is `before` after the pointer moved with nothing on top and no
    /// drag of the window's own under way.
    pub open spec fn moved_over_panes(self, before: Renderer, m: PointerMove, r: Moved) -> bool {
        let icon = icon_for(m.over_handle, m.over_divider);
        let b = Renderer { mouse_pos: m.pos, cursor_icon: icon, ..before };
        let t = before.ws.active_tab();
        &&& r.cursor == (if icon == before.cursor_icon {
            None
        } else {
            Some(icon)
        })
        &&& r.slider is None
        &&& if m.mode.mouse_drag || m.mode.mouse_motion {
            // The application hears of it: of every move, or of drags alone.
            &&& self == b
            &&& r.effects == nothing()
            &&& bytes_of(r.write) == (if m.mode.mouse_motion || t.dragging {
                report_at(m.mode, MouseEvent::Motion, m.modifiers, m.report_cell)
            } else {
                None
            })
        } else if t.dragging {
            r.write is None && self.drag_selected(b, m, r.effects)
        } else {
            self == b && r.write is None && r.effects == nothing()
        }
    }

    /// `self` is `before` after a move of the pointer.
    pub open spec fn moved(self, before: Renderer, m: PointerMove, r: Moved) -> bool {
        let b = before.pointed(m.pos);
        if before.context_menu is Some {
            let menu = before.context_menu->0;
            &&& self == Renderer {
                context_menu: Some(crate::menu::ContextMenu { hovered: m.menu_hit, ..menu }),
                ..b
            }
            &&& r.effects == (if menu.hovered != m.menu_hit {
                draw()
            } else {
                nothing()
            })
            &&& r.cursor is None && r.write is None && r.slider is None
        } else if before.slider_drag is Some {
            &&& self == b
            &&& r.slider == before.slider_drag
            &&& r.effects == nothing() && r.cursor is None && r.write is None
        } else if before.divider_drag is Some {
            let path = before.divider_drag->0.path@;
            &&& self == Renderer {
                ws: Workspace {
                    root: Some(
                        if before.ws.tree().ratio_at(path) is Some {
                            before.ws.tree().with_ratio(path, m.ratio)
                        } else {
                            before.ws.tree()
                        },
                    ),
                    ..before.ws
                },
                ..b
            }
            &&& r.effects == Effects { relayout: true, redraw: true, ..nothing() }
            &&& r.cursor is None && r.write is None && r.slider is None
        } else if before.split_gesture is Some {
            &&& self == Renderer { cursor_icon: CursorIcon::Grabbing, ..b }
            &&& r.cursor == (if before.cursor_icon == CursorIcon::Grabbing {
                None
            } else {
                Some(CursorIcon::Grabbing)
            })
            &&& r.effects == draw() && r.write is None && r.slider is None
        } else {
            self.moved_over_panes(before, m, r)
        }
    }

    /// The pointer has moved.
    pub fn mouse_moved(&mut self, m: PointerMove) -> (r: Moved)
        requires
            old(self).wf(),
            m.now <= LATEST,
            old(self).context_menu matches Some(menu) ==> (m.menu_hit matches Some(i) ==> i
                < menu.items@.len()),
        ensures
            final(self).wf(),
            final(self).moved(*old(self), m, r),
    {
        self.mouse_pos = m.pos;
        if let Some(menu) = &mut self.context_menu {
            let same = match (menu.hovered, m.menu_hit) {
                (Some(a), Some(b)) => a == b,
                (None, None) => true,
                _ => false,
            };
            menu.hovered = m.menu_hit;
            return only(
                if same {
                    no_effects()
                } else {
                    redraw()
                },
            );
        }
        if self.slider_drag.is_some() {
            return Moved {
                effects: no_effects(),
                cursor: None,
                write: None,
                slider: self.slider_drag,
            };
        }
        if self.divider_drag.is_some() {
            self.drag_divider(m.ratio);
            return only(
                Effects {
                    reload_config: false,
                    relayout: true,
                    retitle: false,
                    redraw: true,
                    persist: false,
                },
            );
        }
        if self.split_gesture.is_some() {
            let cursor: Option<CursorIcon> = if self.cursor_icon != CursorIcon::Grabbing {
                Some(CursorIcon::Grabbing)
            } else {
                None
            };
            self.cursor_icon = CursorIcon::Grabbing;
            return Moved { effects: redraw(), cursor, write: None, slider: None };
        }
        self.move_over_panes(m)
    }

    /// Set the ratio of the split whose divider is being dragged.
    fn drag_divider(&mut self, ratio: Scalar)
        requires
            old(self).wf(),
            old(self).divider_drag is Some,
        ensures
            final(self).wf(),
            ({
                let path = old(self).divider_drag->0.path@;
                let t = old(self).ws.tree();
                *final(self) == Renderer {
                    ws: Workspace {
                        root: Some(
                            if t.ratio_at(path) is Some {
                                t.with_ratio(path, ratio)
                            } else {
                                t
                            },
                        ),
                        ..old(self).ws
                    },
                    ..*old(self)
                }
            }),
    {
        let ghost w = self.ws;
        if let Some(drag) = &self.divider_drag {
            proof {
                crate::tree_laws::law_ratio_keeps_panes(w.tree(), drag.path@, ratio);
                crate::tab_tree::lemma_ratio_keeps_tabs(w.tree(), drag.path@, ratio);
            }
            if let Some(n) = &mut self.ws.root {
                if let Some(r) = n.split_ratio_at_mut(drag.path.as_slice()) {
                    *r = ratio;
                }
            }
        }
    }

    fn move_over_panes(&mut self, m: PointerMove) -> (r: Moved)
        requires
            old(self).wf(),
            m.now <= LATEST,
            old(self).mouse_pos == m.pos,
        ensures
            final(self).wf(),
            final(self).moved_over_panes(*old(self), m, r),
    {
        let desired = if m.over_handle {
            CursorIcon::Grab
        } else {
            match m.over_divider {
                Some(SplitDir::Vertical) => CursorIcon::ColResize,
                Some(SplitDir::Horizontal) => CursorIcon::RowResize,
                None => CursorIcon::Default,
            }
        };
        let cursor: Option<CursorIcon> = if desired != self.cursor_icon {
            Some(desired)
        } else {
            None
        };
        self.cursor_icon = desired;
        let dragging = self.ws.active_tab_ref().dragging;
        if m.mode.mouse_drag || m.mode.mouse_motion {
            let write = if m.mode.mouse_motion || dragging {
                report(&m.mode, MouseEvent::Motion, m.modifiers, m.report_cell)
            } else {
                None
            };
            return Moved { effects: no_effects(), cursor, write, slider: None };
        }
        if !dragging {
            return Moved { effects: no_effects(), cursor, write: None, slider: None };
        }
        let effects = self.drag_select(&m);
        Moved { effects, cursor, write: None, slider: None }
    }

    /// `self` is `before` after its drag-selecting active tab has followed the
    /// pointer.
    pub open spec fn drag_selected(self, before: Renderer, m: PointerMove, e: Effects) -> bool {
        let t = before.ws.active_tab();
        &&& self == Renderer {
            ws: self.ws,
            next_autoscroll_deadline: self.next_autoscroll_deadline,
            ..before
        }
        &&& self.ws.active_tab_became(before.ws, dragged(t, m))
        &&& self.next_autoscroll_deadline == (if m.edge is None {
            None
        } else if t.autoscroll_dir is None {
            Some((m.now + AUTOSCROLL_TICK) as u64)
        } else {
            before.next_autoscroll_deadline
        })
        &&& e == (if m.big_motion || (m.edge is Some && t.autoscroll_dir is None) {
            draw()
        } else {
            nothing()
        })
    }

    fn drag_select(&mut self, m: &PointerMove) -> (e: Effects)
        requires
            old(self).wf(),
            m.now <= LATEST,
        ensures
            final(self).wf(),
            final(self).drag_selected(*old(self), *m, e),
    {
        let was_off = self.ws.active_tab_ref().autoscroll_dir.is_none();
        let ghost t = self.ws.active_tab();
        let tab = self.ws.active_tab_mut();
        if m.big_motion {
            if let Some(sel) = &mut tab.selection {
                sel.extend_to(m.at.0, m.at.1);
            }
            tab.last_drag_mouse_pos = m.pos;
        }
        tab.autoscroll_dir = m.edge;
        assert(*tab == dragged(t, *m));
        let starts = m.edge.is_some() && was_off;
        if starts {
            self.next_autoscroll_deadline = Some(m.now + AUTOSCROLL_TICK);
        } else if m.edge.is_none() {
            self.next_autoscroll_deadline = None;
        }
        if m.big_motion || starts {
            redraw()
        } else {
            no_effects()
        }
    }
}

} // verus!

//! Mouse buttons: what a press and a release do.

use crate::encode::{ModeFlags, Modifiers, MouseButton, MouseEvent};
use crate::input::{
    bytes_of, clicked, count_in_run, module_click_count, report, report_at, selecting, to_copy,
};
use crate::overlays::{harmless, may_open_uri, Picked};
use crate::renderer::{
    draw, no_effects, nothing, redraw, with_redraw, Effects, Renderer, SliderKind,
};
use crate::selection::{Cell, Selection};
use crate::tab::{Click, ModuleClick, Tab};
use crate::text::opt_text;
use crate::tree::{PaneId, Scalar};
use vstd::prelude::*;

verus! {

/// The part of a tab bar that a click landed on.
#[derive(Copy, Clone, PartialEq, Eq, Structural, Debug)]
pub enum BarPart {
    /// The selector of the content kind, at the left end.
    KindSelector,
    /// A tab.
    Tab(usize),
    /// The cross that closes a tab.
    Close(usize),
    /// Beside everything.
    Blank,
}

/// A click in a pane's tab bar.
pub struct BarHit {
    pub pane: PaneId,
    pub part: BarPart,
    /// Where a dropdown would open.
    pub x: Scalar,
    pub y: Scalar,
    /// Whether there is a modules folder to show.
    pub has_folder: bool,
    /// Whether a process runs in the tab that would be closed, and its name.
    pub busy: bool,
    pub proc_name: Option<String>,
}

/// What the host knows of the content under the pointer. It is that of the pane
/// under the pointer, or of the active pane where there is none.
pub struct ContentHit {
    pub pane: Option<PaneId>,
    /// The line and column of a data module's body.
    pub module_cell: Option<(u32, u32)>,
    pub mode: ModeFlags,
    /// The cell under the pointer, counted from one.
    pub report_cell: Option<(u32, u32)>,
    /// The cell under the pointer, in absolute lines.
    pub at: Cell,
    /// The hyperlink at that cell.
    pub link: Option<String>,
    /// The rows of the block at that cell.
    pub block: Option<(Cell, Cell)>,
    pub word: (Cell, Cell),
    pub line: (Cell, Cell),
    /// The scale of the pane in percent.
    pub scale_pct: u64,
}

/// What a press came to, for the host.
pub enum Pressed {
    Nothing,
    /// The window should exit.
    Exit,
    /// A click in a menu.
    Menu(Picked),
    /// A slider is being dragged, and has to be set to where the pointer is.
    Slider(SliderKind),
    /// The display settings go back to their defaults.
    ResetSizes,
    /// A data module is told of a click.
    ModuleClick { line: u32, col: u32, count: u8 },
    /// Bytes for the active tab's shell.
    Write(Vec<u8>),
    /// A link to be opened.
    OpenUri(String),
    /// Cells to be copied.
    Copy(Cell, Cell),
}

/// `r` asks the host to copy what `t` has selected, if that is anything.
pub open spec fn copies(r: Pressed, t: Tab) -> bool {
    match to_copy(t) {
        Some(c) => r == Pressed::Copy(c.0, c.1),
        None => r is Nothing,
    }
}

/// `r` asks the host to write `b`, if that is anything.
pub open spec fn writes(r: Pressed, b: Option<Seq<u8>>) -> bool {
    match b {
        Some(b) => r matches Pressed::Write(v) && v@ == b,
        None => r is Nothing,
    }
}

pub(crate) fn copy_of(t: &Tab) -> (r: Pressed)
    ensures
        copies(r, *t),
{
    match &t.selection {
        Some(s) => {
            if s.is_empty() {
                Pressed::Nothing
            } else {
                let (a, b) = s.normalized();
                Pressed::Copy(a, b)
            }
        },
        None => Pressed::Nothing,
    }
}

pub(crate) fn write_of(b: Option<Vec<u8>>) -> (r: Pressed)
    ensures
        writes(r, bytes_of(b)),
{
    match b {
        Some(v) => Pressed::Write(v),
        None => Pressed::Nothing,
    }
}

impl Renderer {
    /// `self` is `before` after a click in the tab bar of its active pane.
    pub open spec fn bar_clicked(self, before: Renderer, h: BarHit, e: Effects) -> bool {
        let p = before.ws.active();
        match h.part {
            BarPart::KindSelector => {
                &&& self.menu_up(before, h.x, h.y)
                &&& crate::menu::kind_rows(
                    self.menu_items(),
                    h.pane,
                    p.shown().kind,
                    before.modules@,
                    h.has_folder,
                )
                &&& e == draw()
            },
            BarPart::Blank => self == before && e == nothing(),
            BarPart::Tab(i) => exists|d: Effects| #[trigger]
                self.switched(before, i as int, d) && e == (Effects { redraw: true, ..d }),
            BarPart::Close(i) => if before.ws.tree().leaves().len() == 1 && p.tabs@.len() == 1 {
                // A stray click does not close the window.
                self == before && e == draw()
            } else {
                exists|mid: Renderer, d: Effects, exit: bool, f: Effects|
                    {
                        &&& #[trigger] mid.switched(before, i as int, d)
                        &&& #[trigger] self.close_requested(
                            mid,
                            h.busy,
                            opt_text(h.proc_name),
                            exit,
                            f,
                        )
                        &&& e == (Effects { redraw: true, ..f })
                    }
            },
        }
    }

    /// Handle a left-click inside the active pane's tab bar: open the kind
    /// dropdown, switch to the clicked tab, or close it.
    pub fn tab_bar_click(&mut self, h: &BarHit) -> (e: Effects)
        requires
            old(self).wf(),
            h.pane == old(self).ws.active_pane,
            h.part matches BarPart::Close(i) ==> i < old(self).ws.active().tabs@.len(),
        ensures
            final(self).wf(),
            final(self).bar_clicked(*old(self), *h, e),
    {
        match h.part {
            BarPart::KindSelector => self.open_kind_dropdown(h.pane, h.x, h.y, h.has_folder),
            BarPart::Blank => no_effects(),
            BarPart::Tab(i) => {
                let d = self.switch_to_tab(i);
                with_redraw(d)
            },
            BarPart::Close(i) => {
                let last = self.ws.root_ref().leaf_count() == 1
                    && self.ws.active_pane_ref().tabs.len() == 1;
                if last {
                    return redraw();
                }
                let ghost before = *self;
                let d = self.switch_to_tab(i);
                let ghost mid = *self;
                assert(mid.switched(before, i as int, d));
                let name: Option<&str> = match &h.proc_name {
                    Some(n) => Some(n.as_str()),
                    None => None,
                };
                let (exit, f) = self.close_active_tab(h.busy, name);
                assert(self.close_requested(mid, h.busy, opt_text(h.proc_name), exit, f));
                with_redraw(f)
            },
        }
    }

    /// A click in the body of the active tab's data module, if it shows one:
    /// the how-manieth of its run it is.
    pub fn module_click(&mut self, line: u32, col: u32, now: u64) -> (r: Option<u8>)
        requires
            old(self).wf(),
        ensures
            final(self).wf(),
            match r {
                Some(n) => final(self).module_clicked(*old(self), line, col, now, n),
                None => *final(self) == *old(self),
            },
            r is Some <==> old(self).ws.active_tab().data_module(),
    {
        if !self.ws.active_tab_ref().is_data_module() {
            return None;
        }
        let tab = self.ws.active_tab_mut();
        let n = match tab.last_module_click {
            Some(c) => count_in_run(c.count, c.at, now, c.line == line && c.col == col),
            None => 1,
        };
        tab.last_module_click = Some(ModuleClick { at: now, line, col, count: n });
        Some(n)
    }

    /// `self` is `before` with a click in its active tab's module noted.
    pub open spec fn module_clicked(
        self,
        before: Renderer,
        line: u32,
        col: u32,
        now: u64,
        n: u8,
    ) -> bool {
        let t = before.ws.active_tab();
        &&& n == module_click_count(t.last_module_click, line, col, now)
        &&& self.same_but_ws(before)
        &&& self.ws.active_tab_became(
            before.ws,
            Tab {
                last_module_click: Some(ModuleClick { at: now, line, col, count: n }),
                ..t
            },
        )
    }

    /// `self` is `before` after a press on the content of its active pane.
    pub open spec fn content_pressed(
        self,
        before: Renderer,
        button: MouseButton,
        mods: Modifiers,
        h: ContentHit,
        now: u64,
        r: Pressed,
        e: Effects,
    ) -> bool {
        let t = before.ws.active_tab();
        let left = button == MouseButton::Left;
        if left && h.pane is Some && h.module_cell is Some && t.data_module() {
            let (line, col) = h.module_cell->0;
            &&& r matches Pressed::ModuleClick { line: l, col: c, count } && l == line && c == col
                && self.module_clicked(before, line, col, now, count)
            &&& e == nothing()
        } else if h.mode.reports_mouse() {
            &&& self == before
            &&& writes(r, report_at(h.mode, MouseEvent::Press(button), mods, h.report_cell))
            &&& e == nothing()
        } else if button == MouseButton::Right {
            &&& self.menu_up(before, before.mouse_pos.0, before.mouse_pos.1)
            &&& crate::menu::context_rows(
                self.menu_items(),
                before.has_selection(),
                h.link,
                t.color_idx,
                before.ws.active().bg_idx,
                h.scale_pct,
            )
            &&& r is Nothing
            &&& e == draw()
        } else if !left {
            self == before && r is Nothing && e == nothing()
        } else if mods.command && h.link is Some {
            &&& self == before
            &&& e == nothing()
            &&& if harmless(h.link->0@) {
                r == Pressed::OpenUri(h.link->0)
            } else {
                r is Nothing
            }
        } else if mods.command && h.block is Some {
            &&& self.same_but_ws(before)
            &&& self.ws.active_tab_became(before.ws, selecting(t, h.block->0))
            &&& copies(r, selecting(t, h.block->0))
            &&& e == draw()
        } else {
            let u = clicked(t, h.at, h.word, h.line, before.mouse_pos, now);
            &&& self.same_but_ws(before)
            &&& self.ws.active_tab_became(before.ws, u)
            &&& if u.dragging {
                r is Nothing
            } else {
                copies(r, u)
            }
            &&& e == draw()
        }
    }

    /// A press on the content of the active pane.
    pub fn press_content(
        &mut self,
        button: MouseButton,
        mods: Modifiers,
        h: ContentHit,
        now: u64,
    ) -> (r: (Pressed, Effects))
        requires
            old(self).wf(),
        ensures
            final(self).wf(),
            final(self).content_pressed(*old(self), button, mods, h, now, r.0, r.1),
    {
        let left = button == MouseButton::Left;
        if left && h.pane.is_some() {
            if let Some((line, col)) = h.module_cell {
                if let Some(count) = self.module_click(line, col, now) {
                    return (Pressed::ModuleClick { line, col, count }, no_effects());
                }
            }
        }
        if h.mode.mouse_active() {
            let b = report(&h.mode, MouseEvent::Press(button), mods, h.report_cell);
            return (write_of(b), no_effects());
        }
        if button == MouseButton::Right {
            let e = self.open_context_menu(
                self.mouse_pos.0,
                self.mouse_pos.1,
                h.link,
                h.scale_pct,
            );
            return (Pressed::Nothing, e);
        }
        if !left {
            return (Pressed::Nothing, no_effects());
        }
        if mods.command {
            if let Some(uri) = h.link {
                if may_open_uri(uri.as_str()) {
                    return (Pressed::OpenUri(uri), no_effects());
                }
                return (Pressed::Nothing, no_effects());
            }
            if let Some(rows) = h.block {
                let tab = self.ws.active_tab_mut();
                tab.selection = Some(
                    Selection {
                        anchor_line: rows.0.0,
                        anchor_col: rows.0.1,
                        head_line: rows.1.0,
                        head_col: rows.1.1,
                    },
                );
                tab.dragging = false;
                let r = copy_of(tab);
                return (r, redraw());
            }
        }
        let r = self.click(h.at, h.word, h.line, now);
        (r, redraw())
    }

    /// A plain left click on a cell.
    fn click(&mut self, at: Cell, word: (Cell, Cell), line: (Cell, Cell), now: u64) -> (r: Pressed)
        requires
            old(self).wf(),
        ensures
            final(self).wf(),
            ({
                let u = clicked(old(self).ws.active_tab(), at, word, line, old(self).mouse_pos, now);
                &&& final(self).same_but_ws(*old(self))
                &&& final(self).ws.active_tab_became(old(self).ws, u)
                &&& if u.dragging {
                    r is Nothing
                } else {
                    copies(r, u)
                }
            }),
    {
        let pos = self.mouse_pos;
        let ghost t = self.ws.active_tab();
        let tab = self.ws.active_tab_mut();
        let n = match tab.last_click {
            Some(c) => count_in_run(c.count, c.at, now, c.line == at.0 && c.col == at.1),
            None => 1,
        };
        tab.last_click = Some(Click { at: now, line: at.0, col: at.1, count: n });
        let r = if n == 1 {
            tab.selection = Some(Selection::from_anchor(at.0, at.1));
            tab.dragging = true;
            tab.last_drag_mouse_pos = pos;
            Pressed::Nothing
        } else {
            let span = if n == 2 {
                word
            } else {
                line
            };
            tab.selection = Some(
                Selection {
                    anchor_line: span.0.0,
                    anchor_col: span.0.1,
                    head_line: span.1.0,
                    head_col: span.1.1,
                },
            );
            tab.dragging = false;
            copy_of(tab)
        };
        assert(*tab == clicked(t, at, word, line, pos, now));
        r
    }
}

} // verus!

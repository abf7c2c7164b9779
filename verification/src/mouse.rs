//! Mouse buttons and the wheel, as they come from the window.

use crate::encode::{ModeFlags, Modifiers, MouseButton, MouseEvent};
use crate::input::{report, report_at};
use crate::press::{copies, copy_of, write_of, writes, BarHit, BarPart, ContentHit, Pressed};
use crate::renderer::{
    both, draw, merge, no_effects, nothing, opt_view, redraw, CursorIcon, DividerDrag, Effects,
    Renderer, SliderKind, SplitGesture,
};
use crate::tab::{Tab, TabId};
use crate::tree::{PaneId, Scalar, SplitDir};
use crate::tree_laws::{law_position, law_with_pane, law_with_pane_other};
use vstd::prelude::*;

verus! {

/// What the host knows of a press: what of the window's own is under the
/// pointer, and what content.
pub struct Press {
    pub button: MouseButton,
    pub modifiers: Modifiers,
    /// On the modal's confirm button.
    pub on_confirm: bool,
    /// On the modal's cancel button.
    pub on_cancel: bool,
    /// The menu item under the pointer.
    pub menu_hit: Option<usize>,
    /// The slider of the display settings under the pointer.
    pub slider: Option<SliderKind>,
    /// On the reset button of the display settings.
    pub on_reset: bool,
    /// The divider under the pointer.
    pub divider: Option<DividerDrag>,
    /// The pane whose corner handle is under the pointer.
    pub handle: Option<PaneId>,
    /// The tab bar under the pointer.
    pub bar: Option<BarHit>,
    pub content: ContentHit,
    pub now: u64,
}

impl Renderer {
    /// What of a press the host may report: items of the menu that is up,
    /// panes that are in the tree, tabs that are in their bar.
    pub open spec fn can_press(self, p: Press) -> bool {
        &&& self.context_menu matches Some(m) ==> (p.menu_hit matches Some(i) ==> i < m.items@.len())
        &&& p.bar matches Some(h) ==> {
            &&& self.ws.tree().has(h.pane)
            &&& h.part matches BarPart::Close(i) ==> i < self.ws.tree().pane(h.pane).tabs@.len()
        }
        &&& p.content.pane matches Some(pid) ==> self.ws.tree().has(pid)
    }

    /// `self` is `before` after a press in a tab bar: the pane is focused, and
    /// a left press acts on the bar.
    pub open spec fn bar_pressed(self, before: Renderer, left: bool, h: BarHit, e: Effects) -> bool {
        exists|mid: Renderer, d: Effects, f: Effects|
            {
                &&& #[trigger] mid.focused_pane(before, h.pane, d)
                &&& if left {
                    self.bar_clicked(mid, h, f)
                } else {
                    self == mid && f == nothing()
                }
                &&& e == #[trigger] both(d, f)
            }
    }

    /// `self` is `before` after a press on content: its pane is focused first.
    pub open spec fn pane_pressed(
        self,
        before: Renderer,
        button: MouseButton,
        mods: Modifiers,
        h: ContentHit,
        now: u64,
        r: Pressed,
        e: Effects,
    ) -> bool {
        match h.pane {
            Some(pid) => exists|mid: Renderer, d: Effects, f: Effects|
                {
                    &&& #[trigger] mid.focused_pane(before, pid, d)
                    &&& self.content_pressed(mid, button, mods, h, now, r, f)
                    &&& e == #[trigger] both(d, f)
                },
            None => self.content_pressed(before, button, mods, h, now, r, e),
        }
    }

    /// `self` is `before` after a press of a mouse button.
    pub open spec fn pressed(self, before: Renderer, p: Press, r: Pressed, e: Effects) -> bool {
        let left = p.button == MouseButton::Left;
        if before.modal is Some {
            // The modal takes all input; only its buttons do anything.
            if left {
                exists|exit: bool|
                    {
                        &&& #[trigger] self.modal_clicked(
                            before,
                            p.on_confirm,
                            p.on_cancel,
                            exit,
                            e,
                        )
                        &&& if exit {
                            r is Exit
                        } else {
                            r is Nothing
                        }
                    }
            } else {
                self == before && r is Nothing && e == nothing()
            }
        } else if before.context_menu is Some {
            r matches Pressed::Menu(picked) && self.picked(before, p.menu_hit, picked, e)
        } else if left && before.display_settings && p.slider is Some {
            &&& self == Renderer { slider_drag: p.slider, ..before }
            &&& r == Pressed::Slider(p.slider->0)
            &&& e == draw()
        } else if left && before.display_settings && p.on_reset {
            self == before && r is ResetSizes && e == draw()
        } else if left && p.divider is Some {
            self == (Renderer { divider_drag: p.divider, ..before }) && r is Nothing && e
                == nothing()
        } else if left && p.handle is Some {
            &&& self == Renderer {
                split_gesture: Some(SplitGesture { pid: p.handle->0, start: before.mouse_pos }),
                ..before
            }
            &&& r is Nothing
            &&& e == draw()
        } else if p.bar is Some {
            self.bar_pressed(before, left, p.bar->0, e) && r is Nothing
        } else {
            self.pane_pressed(before, p.button, p.modifiers, p.content, p.now, r, e)
        }
    }

    /// A mouse button has been pressed.
    pub fn mouse_down(&mut self, p: Press) -> (r: (Pressed, Effects))
        requires
            old(self).wf(),
            old(self).can_press(p),
        ensures
            final(self).wf(),
            final(self).pressed(*old(self), p, r.0, r.1),
    {
        let left = p.button == MouseButton::Left;
        if self.modal.is_some() {
            if left {
                let (exit, e) = self.modal_click(p.on_confirm, p.on_cancel);
                return (
                    if exit {
                        Pressed::Exit
                    } else {
                        Pressed::Nothing
                    },
                    e,
                );
            }
            return (Pressed::Nothing, no_effects());
        }
        if self.context_menu.is_some() {
            let (picked, e) = self.context_menu_click(p.menu_hit);
            return (Pressed::Menu(picked), e);
        }
        if left && self.display_settings {
            if let Some(kind) = p.slider {
                self.slider_drag = Some(kind);
                return (Pressed::Slider(kind), redraw());
            }
            if p.on_reset {
                return (Pressed::ResetSizes, redraw());
            }
        }
        if left {
            if p.divider.is_some() {
                self.divider_drag = p.divider;
                return (Pressed::Nothing, no_effects());
            }
            if let Some(pid) = p.handle {
                self.split_gesture = Some(SplitGesture { pid, start: self.mouse_pos });
                return (Pressed::Nothing, redraw());
            }
        }
        if let Some(h) = &p.bar {
            let e = self.press_bar(left, h);
            return (Pressed::Nothing, e);
        }
        self.press_pane(p.button, p.modifiers, p.content, p.now)
    }

    fn press_bar(&mut self, left: bool, h: &BarHit) -> (e: Effects)
        requires
            old(self).wf(),
            old(self).ws.tree().has(h.pane),
            h.part matches BarPart::Close(i) ==> i < old(self).ws.tree().pane(h.pane).tabs@.len(),
        ensures
            final(self).wf(),
            final(self).bar_pressed(*old(self), left, *h, e),
    {
        let ghost before = *self;
        let d = self.focus_pane(h.pane);
        let ghost mid = *self;
        proof {
            let w = before.ws;
            if h.pane != w.active_pane {
                let q = mid.ws.tree().pane(w.active_pane);
                law_with_pane_other(w.tree(), w.active_pane, q, h.pane);
            }
            assert(mid.focused_pane(before, h.pane, d));
        }
        let f = if left {
            self.tab_bar_click(h)
        } else {
            no_effects()
        };
        merge(d, f)
    }

    fn press_pane(
        &mut self,
        button: MouseButton,
        mods: Modifiers,
        h: ContentHit,
        now: u64,
    ) -> (r: (Pressed, Effects))
        requires
            old(self).wf(),
            h.pane matches Some(pid) ==> old(self).ws.tree().has(pid),
        ensures
            final(self).wf(),
            final(self).pane_pressed(*old(self), button, mods, h, now, r.0, r.1),
    {
        match h.pane {
            Some(pid) => {
                let ghost before = *self;
                let d = self.focus_pane(pid);
                let ghost mid = *self;
                assert(mid.focused_pane(before, pid, d));
                let (r, f) = self.press_content(button, mods, h, now);
                (r, merge(d, f))
            },
            None => self.press_content(button, mods, h, now),
        }
    }
}

/// What a committed corner-handle gesture does.
#[derive(Copy, Clone, PartialEq, Eq, Structural, Debug)]
pub enum GestureOutcome {
    Split(SplitDir),
    Remove,
}

/// What the host knows of a release.
pub struct Lift<'a> {
    pub button: MouseButton,
    pub modifiers: Modifiers,
    /// What a corner gesture comes to, if it has gone far enough.
    pub gesture: Option<GestureOutcome>,
    /// Where the split would be.
    pub ratio: Scalar,
    /// The pane under the pointer.
    pub over: Option<PaneId>,
    /// Set where a process runs in that pane, to its name if it has one.
    pub busy: Option<Option<&'a str>>,
    pub mode: ModeFlags,
    /// The cell under the pointer, counted from one.
    pub report_cell: Option<(u32, u32)>,
}

/// What a release came to, for the host.
pub struct Lifted {
    pub effects: Effects,
    /// The mouse cursor goes back to its default.
    pub reset_cursor: bool,
    /// A shell has to be started for this tab.
    pub opened: Option<TabId>,
    pub act: Pressed,
}

/// What `busy` says, with the name as characters.
pub open spec fn busy_view(busy: Option<Option<&str>>) -> Option<Option<Seq<char>>> {
    match busy {
        Some(name) => Some(opt_view(name)),
        None => None,
    }
}

impl Renderer {
    /// `self` is `before` once a corner gesture on pane `pid` has ended: drag
    /// in splits that pane, drag out onto another one removes the other.
    pub open spec fn gesture_ended(
        self,
        before: Renderer,
        pid: PaneId,
        l: Lift,
        opened: Option<TabId>,
        e: Effects,
    ) -> bool {
        match l.gesture {
            Some(GestureOutcome::Split(dir)) => if before.ws.tree().has(pid) {
                exists|mid: Renderer, d: Effects|
                    {
                        &&& #[trigger] mid.focused_pane(before, pid, d)
                        &&& self.same_but_ws(mid)
                        &&& self.ws.split_pane(mid.ws, dir, l.ratio)
                        &&& opened == Some(TabId(before.ws.next_tab_id))
                        &&& e == both(
                            d,
                            Effects { relayout: true, redraw: true, persist: true, ..nothing() },
                        )
                    }
            } else {
                self == before && opened is None && e == nothing()
            },
            Some(GestureOutcome::Remove) => if l.over is Some && l.over != Some(pid) {
                &&& opened is None
                &&& exists|mid: Renderer, d: Effects, f: Effects|
                    {
                        &&& #[trigger] mid.focused_pane(before, l.over->0, d)
                        &&& #[trigger] self.pane_close_requested(mid, busy_view(l.busy), f)
                        &&& e == both(d, f)
                    }
            } else {
                self == before && opened is None && e == nothing()
            },
            None => self == before && opened is None && e == nothing(),
        }
    }

    /// A tab once the left button has been released over it.
    pub open spec fn let_go(t: Tab) -> Tab {
        Tab {
            dragging: false,
            autoscroll_dir: None,
            selection: match t.selection {
                Some(s) => if s.anchor() == s.head() {
                    None
                } else {
                    Some(s)
                },
                None => None,
            },
            ..t
        }
    }

    /// `self` is `before` after a release of a mouse button.
    pub open spec fn lifted(self, before: Renderer, l: Lift, r: Lifted) -> bool {
        if before.slider_drag is Some {
            // The drag applied sizes as it went; they are written down once.
            &&& self == Renderer { slider_drag: None, ..before }
            &&& r.effects == Effects { persist: true, ..nothing() }
            &&& !r.reset_cursor && r.opened is None && r.act is Nothing
        } else if before.split_gesture is Some {
            let rest = Renderer { split_gesture: None, cursor_icon: CursorIcon::Default, ..before };
            &&& exists|e: Effects|
                {
                    &&& #[trigger] self.gesture_ended(
                        rest,
                        before.split_gesture->0.pid,
                        l,
                        r.opened,
                        e,
                    )
                    &&& r.effects == Effects { redraw: true, ..e }
                }
            &&& r.reset_cursor && r.act is Nothing
        } else if before.divider_drag is Some {
            &&& self == Renderer { divider_drag: None, ..before }
            &&& r.effects == nothing()
            &&& !r.reset_cursor && r.opened is None && r.act is Nothing
        } else if l.mode.reports_mouse() {
            &&& self == before
            &&& writes(
                r.act,
                report_at(l.mode, MouseEvent::Release(l.button), l.modifiers, l.report_cell),
            )
            &&& r.effects == nothing() && !r.reset_cursor && r.opened is None
        } else if l.button != MouseButton::Left {
            &&& self == before
            &&& r.effects == nothing() && !r.reset_cursor && r.opened is None && r.act is Nothing
        } else {
            let t = before.ws.active_tab();
            &&& self == Renderer { ws: self.ws, next_autoscroll_deadline: None, ..before }
            &&& self.ws.active_tab_became(before.ws, Renderer::let_go(t))
            &&& copies(r.act, t)
            &&& r.effects == draw() && !r.reset_cursor && r.opened is None
        }
    }

    /// A mouse button has been released.
    pub fn mouse_up(&mut self, l: Lift) -> (r: Lifted)
        requires
            old(self).wf(),
            old(self).has_ids(),
            l.over matches Some(pid) ==> old(self).ws.tree().has(pid),
        ensures
            final(self).wf(),
            final(self).lifted(*old(self), l, r),
    {
        if self.slider_drag.is_some() {
            self.slider_drag = None;
            return Lifted {
                effects: Effects {
                    reload_config: false,
                    relayout: false,
                    retitle: false,
                    redraw: false,
                    persist: true,
                },
                reset_cursor: false,
                opened: None,
                act: Pressed::Nothing,
            };
        }
        if let Some(g) = self.split_gesture {
            self.split_gesture = None;
            self.cursor_icon = CursorIcon::Default;
            let (opened, e) = self.end_gesture(g.pid, &l);
            return Lifted {
                effects: crate::renderer::with_redraw(e),
                reset_cursor: true,
                opened,
                act: Pressed::Nothing,
            };
        }
        if self.divider_drag.is_some() {
            self.divider_drag = None;
            return Lifted {
                effects: no_effects(),
                reset_cursor: false,
                opened: None,
                act: Pressed::Nothing,
            };
        }
        if l.mode.mouse_active() {
            let b = report(&l.mode, MouseEvent::Release(l.button), l.modifiers, l.report_cell);
            return Lifted {
                effects: no_effects(),
                reset_cursor: false,
                opened: None,
                act: write_of(b),
            };
        }
        if l.button != MouseButton::Left {
            return Lifted {
                effects: no_effects(),
                reset_cursor: false,
                opened: None,
                act: Pressed::Nothing,
            };
        }
        self.next_autoscroll_deadline = None;
        let act = self.release_tab();
        Lifted { effects: redraw(), reset_cursor: false, opened: None, act }
    }

    fn release_tab(&mut self) -> (act: Pressed)
        requires
            old(self).wf(),
        ensures
            final(self).wf(),
            final(self).same_but_ws(*old(self)),
            final(self).ws.active_tab_became(
                old(self).ws,
                Renderer::let_go(old(self).ws.active_tab()),
            ),
            copies(act, old(self).ws.active_tab()),
    {
        let ghost t = self.ws.active_tab();
        let tab = self.ws.active_tab_mut();
        tab.dragging = false;
        tab.autoscroll_dir = None;
        let act = copy_of(tab);
        let empty = match &tab.selection {
            Some(s) => s.is_empty(),
            None => false,
        };
        if empty {
            tab.selection = None;
        }
        assert(*tab == Renderer::let_go(t));
        act
    }

    fn end_gesture(&mut self, pid: PaneId, l: &Lift) -> (r: (Option<TabId>, Effects))
        requires
            old(self).wf(),
            old(self).has_ids(),
            l.over matches Some(o) ==> old(self).ws.tree().has(o),
        ensures
            final(self).wf(),
            final(self).gesture_ended(*old(self), pid, *l, r.0, r.1),
    {
        let ghost before = *self;
        match l.gesture {
            Some(GestureOutcome::Split(dir)) => {
                if self.ws.root_ref().find(pid).is_some() {
                    let d = self.focus_pane(pid);
                    let ghost mid = *self;
                    proof {
                        let w = before.ws;
                        law_position(w.tree(), w.active_pane);
                        law_with_pane(
                            w.tree(),
                            w.active_pane,
                            mid.ws.tree().pane(w.active_pane),
                        );
                        assert(mid.focused_pane(before, pid, d));
                    }
                    let (id, f) = self.split_active(dir, l.ratio);
                    (Some(id), merge(d, f))
                } else {
                    (None, no_effects())
                }
            },
            Some(GestureOutcome::Remove) => {
                match l.over {
                    Some(target) => {
                        if target != pid {
                            let d = self.focus_pane(target);
                            let ghost mid = *self;
                            assert(mid.focused_pane(before, target, d));
                            let f = self.request_close_active_pane(l.busy);
                            (None, merge(d, f))
                        } else {
                            (None, no_effects())
                        }
                    },
                    None => (None, no_effects()),
                }
            },
            None => (None, no_effects()),
        }
    }
}

} // verus!

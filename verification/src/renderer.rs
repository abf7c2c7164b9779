//! The window's state, and what each event does to it.
//!
//! The renderer decides; the host acts. A method changes the state and hands
//! back what the host has to do: draw, set the window's title, lay the panes
//! out again, write the layout down. What only the host can know (what runs in
//! a terminal, which pane is under a point, what time it is) comes in as an
//! argument.

use crate::files::FileWaiters;
use crate::find::FindState;
use crate::floor::Floor;
use crate::menu::ContextMenu;
use crate::palette::PaletteState;
use crate::room::Room;
use crate::tab::{fresh_tab, ModuleManifest, Tab, TabId};
use crate::text::{digits, push_number};
use crate::tree::{PaneId, PaneNode, Scalar, SplitDir};
use crate::workspace::{default_title, Workspace};
use vstd::prelude::*;

verus! {

/// What the host has to do after an event, in this order.
#[derive(Copy, Clone, PartialEq, Eq, Structural, Debug)]
pub struct Effects {
    /// Read the configuration again and apply what it changes.
    pub reload_config: bool,
    /// Lay the panes out again, and resize every terminal that changed.
    pub relayout: bool,
    /// Set the window's title to the active tab's.
    pub retitle: bool,
    /// Draw a frame.
    pub redraw: bool,
    /// Write the layout down.
    pub persist: bool,
}

/// Nothing to do.
pub open spec fn nothing() -> Effects {
    Effects { reload_config: false, relayout: false, retitle: false, redraw: false, persist: false }
}

/// Draw a frame, and nothing else.
pub open spec fn draw() -> Effects {
    Effects { redraw: true, ..nothing() }
}

/// Draw a frame under another title.
pub open spec fn draw_titled() -> Effects {
    Effects { retitle: true, redraw: true, ..nothing() }
}

pub(crate) fn no_effects() -> (e: Effects)
    ensures
        e == nothing(),
{
    Effects { reload_config: false, relayout: false, retitle: false, redraw: false, persist: false }
}

pub(crate) fn redraw() -> (e: Effects)
    ensures
        e == draw(),
{
    Effects { reload_config: false, relayout: false, retitle: false, redraw: true, persist: false }
}

pub(crate) fn redraw_titled() -> (e: Effects)
    ensures
        e == draw_titled(),
{
    Effects { reload_config: false, relayout: false, retitle: true, redraw: true, persist: false }
}

fn redraw_saved() -> (e: Effects)
    ensures
        e == (Effects { persist: true, ..draw_titled() }),
{
    Effects { reload_config: false, relayout: false, retitle: true, redraw: true, persist: true }
}

/// What the user is being asked to confirm.
#[derive(Copy, Clone, PartialEq, Eq, Structural, Debug)]
pub enum ModalAction {
    CloseTab,
    ClosePane,
    /// Shown at startup when a recent crash is detected.
    CrashNotice,
}

/// In-window modal dialog, built when the user attempts something destructive
/// while a process is running.
pub struct Modal {
    pub action: ModalAction,
    pub title: String,
    pub body: String,
    pub cancel: String,
    pub confirm: String,
}

/// A modal that says what it should.
pub open spec fn asks(
    m: Modal,
    action: ModalAction,
    title: Seq<char>,
    body: Seq<char>,
    cancel: Seq<char>,
    confirm: Seq<char>,
) -> bool {
    &&& m.action == action
    &&& m.title@ == title
    &&& m.body@ == body
    &&& m.cancel@ == cancel
    &&& m.confirm@ == confirm
}

/// What a bell does.
#[derive(Copy, Clone, PartialEq, Eq, Structural, Debug)]
pub enum BellStyle {
    Visual,
    Silent,
}

/// The settings that decisions depend on.
#[derive(Copy, Clone, PartialEq, Eq, Structural, Debug)]
pub struct Settings {
    pub bell_style: BellStyle,
    pub cursor_blink: bool,
    /// Whether directed messages are pushed to their receivers.
    pub comms_delivery: bool,
}

/// An in-progress divider drag: which split (by path), its area at drag start,
/// and its orientation.
pub struct DividerDrag {
    pub path: Vec<usize>,
    pub outer: (Scalar, Scalar, Scalar, Scalar),
    pub dir: SplitDir,
}

/// An in-progress corner-handle drag that will split `pid` on release.
#[derive(Copy, Clone, PartialEq, Eq, Debug)]
pub struct SplitGesture {
    pub pid: PaneId,
    pub start: (Scalar, Scalar),
}

/// The sliders of the display settings.
#[derive(Copy, Clone, PartialEq, Eq, Structural, Debug)]
pub enum SliderKind {
    Content,
    Tab,
    TabHeight,
}

/// The shape of the mouse cursor.
#[derive(Copy, Clone, PartialEq, Eq, Structural, Debug)]
pub enum CursorIcon {
    Default,
    Grab,
    Grabbing,
    ColResize,
    RowResize,
}

/// The window's state.
pub struct Renderer {
    pub ws: Workspace,
    /// Size of the drawing surface in physical pixels.
    pub surface: (u32, u32),
    /// Registered modules, in registry order.
    pub modules: Vec<ModuleManifest>,
    pub mouse_pos: (Scalar, Scalar),
    pub divider_drag: Option<DividerDrag>,
    pub split_gesture: Option<SplitGesture>,
    pub slider_drag: Option<SliderKind>,
    pub cursor_icon: CursorIcon,
    /// Visual bell deadline: a flash is drawn until then.
    pub bell_flash_until: Option<u64>,
    /// Whether the window has keyboard focus; gates cursor blink.
    pub focused: bool,
    /// When the window opened; the blink phase counts from there.
    pub start_time: u64,
    pub last_title_refresh: u64,
    /// In-flight input method text rendered near the cursor.
    pub preedit: String,
    /// When set, keyboard and mouse input goes to the modal first.
    pub modal: Option<Modal>,
    pub context_menu: Option<ContextMenu>,
    /// When set, keyboard input edits the query.
    pub find: Option<FindState>,
    /// When set, keyboard input filters the palette.
    pub palette: Option<PaletteState>,
    /// Whether the display settings are up.
    pub display_settings: bool,
    /// Whether the list of claims or of actors is up.
    pub claims_overlay: bool,
    pub next_blink_deadline: Option<u64>,
    pub next_autoscroll_deadline: Option<u64>,
    /// When to try again after the surface failed to deliver a frame.
    pub next_surface_retry_deadline: Option<u64>,
    /// How many frames in a row the surface failed to deliver.
    pub surface_retry_count: u32,
    /// Peak memory beyond which the program gives up; `0` disables.
    pub rss_kill_bytes: u64,
    pub config: Settings,
    /// The connection that most recently asked for events.
    pub proto_subscriber: Option<u64>,
    pub room: Room,
    pub file_waiters: FileWaiters,
    pub floor: Floor,
    /// Recent frame timings in milliseconds, oldest first.
    pub frame_samples: Vec<Scalar>,
    pub frame_count: u64,
}

/// Cap on the rolling frame-time window.
pub const FRAME_TIMER_CAP: usize = 120;

impl Renderer {
    /// Every part is sound.
    pub open spec fn wf(self) -> bool {
        &&& self.ws.wf()
        &&& self.room.wf()
        &&& self.file_waiters.wf()
        &&& self.find matches Some(f) ==> f.wf()
        &&& self.palette matches Some(p) ==> p.wf()
        &&& self.context_menu matches Some(m) ==> m.wf()
        &&& self.frame_samples@.len() <= FRAME_TIMER_CAP
    }

    /// `self` is `before` but for the workspace.
    pub open spec fn same_but_ws(self, before: Renderer) -> bool {
        self == Renderer { ws: self.ws, ..before }
    }

    /// A window with one pane, one shell, and nothing on top.
    pub fn new(
        cols: usize,
        rows: usize,
        surface: (u32, u32),
        modules: Vec<ModuleManifest>,
        config: Settings,
        rss_kill_bytes: u64,
        now: u64,
    ) -> (r: Self)
        ensures
            r.wf(),
            r.ws.tree() matches PaneNode::Leaf { id, pane } && {
                &&& id == PaneId(0)
                &&& pane.tabs@.len() == 1
                &&& pane.active_tab == 0
                &&& pane.bg_idx == 0
                &&& pane.font_scale == Scalar(crate::tree::ONE_BITS)
                &&& fresh_tab(pane.tabs@[0], TabId(0), default_title(), cols, rows)
            },
            r.ws.active_pane == PaneId(0),
            r.ws.next_tab_id == 1,
            r.ws.next_pane_id == 1,
            r.surface == surface,
            r.modules == modules,
            r.config == config,
            r.rss_kill_bytes == rss_kill_bytes,
            r.start_time == now,
            r.last_title_refresh == now,
            r.focused,
            r.idle(),
            r.proto_subscriber is None,
            forall|s: Seq<char>| r.room.actor(s) == crate::room::unknown_actor(),
            forall|p: Seq<char>| r.file_waiters.waiting(p).len() == 0,
            r.floor.human@ == Map::<u64, u64>::empty(),
            r.floor.submits@.len() == 0,
            r.frame_samples@.len() == 0,
            r.frame_count == 0,
    {
        let r = Renderer {
            ws: Workspace::new(cols, rows),
            surface,
            modules,
            mouse_pos: (Scalar(0), Scalar(0)),
            divider_drag: None,
            split_gesture: None,
            slider_drag: None,
            cursor_icon: CursorIcon::Default,
            bell_flash_until: None,
            focused: true,
            start_time: now,
            last_title_refresh: now,
            preedit: String::new(),
            modal: None,
            context_menu: None,
            find: None,
            palette: None,
            display_settings: false,
            claims_overlay: false,
            next_blink_deadline: None,
            next_autoscroll_deadline: None,
            next_surface_retry_deadline: None,
            surface_retry_count: 0,
            rss_kill_bytes,
            config,
            proto_subscriber: None,
            room: Room { actors: Vec::new() },
            file_waiters: FileWaiters::new(),
            floor: Floor::new(),
            frame_samples: Vec::new(),
            frame_count: 0,
        };
        assert forall|s: Seq<char>| r.room.actor(s) == crate::room::unknown_actor() by {
            assert(forall|i: int| !r.room.listed(s, i));
        }
        r
    }

    /// No overlay is up, no drag is under way, and no deadline is set.
    pub open spec fn idle(self) -> bool {
        &&& self.modal is None
        &&& self.context_menu is None
        &&& self.find is None
        &&& self.palette is None
        &&& !self.display_settings
        &&& !self.claims_overlay
        &&& self.divider_drag is None
        &&& self.split_gesture is None
        &&& self.slider_drag is None
        &&& self.cursor_icon == CursorIcon::Default
        &&& self.mouse_pos == (Scalar(0), Scalar(0))
        &&& self.preedit@.len() == 0
        &&& self.bell_flash_until is None
        &&& self.next_blink_deadline is None
        &&& self.next_autoscroll_deadline is None
        &&& self.next_surface_retry_deadline is None
        &&& self.surface_retry_count == 0
    }

    /// What a new size of the window changes.
    pub open spec fn surface_changed(
        self,
        before: Renderer,
        width: u32,
        height: u32,
        e: Effects,
    ) -> bool {
        &&& (width == 0 || height == 0 ==> self == before && e == nothing())
        &&& (width != 0 && height != 0 ==> {
            &&& self == (Renderer { surface: (width, height), ..before })
            &&& e == (Effects { relayout: true, ..nothing() })
        })
    }

    /// The window has a new size. Returns whether it is one to draw at; an
    /// empty one changes nothing.
    pub fn resize(&mut self, width: u32, height: u32) -> (e: Effects)
        requires
            old(self).wf(),
        ensures
            final(self).wf(),
            final(self).surface_changed(*old(self), width, height, e),
    {
        if width == 0 || height == 0 {
            return no_effects();
        }
        self.surface = (width, height);
        Effects { reload_config: false, relayout: true, retitle: false, redraw: false, persist: false }
    }

    /// Open a tab in the active pane, sized to it, and show it; the layout has
    /// changed, so it is to be written down.
    pub fn new_tab(&mut self, cols: usize, rows: usize) -> (r: (TabId, Effects))
        requires
            old(self).wf(),
            old(self).ws.next_tab_id < u64::MAX,
        ensures
            final(self).wf(),
            final(self).same_but_ws(*old(self)),
            final(self).ws.opened_tab(old(self).ws, cols, rows),
            r.0 == TabId(old(self).ws.next_tab_id),
            r.1 == (Effects { persist: true, ..draw_titled() }),
    {
        let id = self.ws.open_tab(cols, rows);
        (id, redraw_saved())
    }

    /// Open a modal.
    pub fn open_modal(
        &mut self,
        action: ModalAction,
        title: String,
        body: String,
        cancel: &str,
        confirm: &str,
    ) -> (e: Effects)
        requires
            old(self).wf(),
        ensures
            final(self).wf(),
            *final(self) == (Renderer { modal: final(self).modal, ..*old(self) }),
            final(self).modal matches Some(m) && asks(
                m,
                action,
                title@,
                body@,
                cancel@,
                confirm@,
            ),
            e == draw(),
    {
        self.modal = Some(
            Modal {
                action,
                title,
                body,
                cancel: cancel.to_owned(),
                confirm: confirm.to_owned(),
            },
        );
        redraw()
    }

    /// `self` is `before` once the active tab has been closed, or its pane with
    /// it; `exit` says that there was nothing else. Whatever closes, the layout is
    /// written down.
    pub open spec fn closed_tab(self, before: Renderer, exit: bool, e: Effects) -> bool {
        let tabs = before.ws.active().tabs@.len();
        &&& self.same_but_ws(before)
        &&& exit == (tabs == 1 && before.ws.tree().leaves().len() == 1)
        &&& if exit {
            self == before && e == nothing()
        } else if tabs > 1 {
            self.ws.dropped_tab(before.ws) && e == (Effects { persist: true, ..draw_titled() })
        } else {
            self.ws.dropped_pane(before.ws) && e == (Effects {
                relayout: true,
                retitle: true,
                redraw: true,
                persist: true,
                ..nothing()
            })
        }
    }

    /// `self` is `before` once the active pane has been closed; `exit` says
    /// that it was the only one, and nothing has changed.
    pub open spec fn closed_pane(self, before: Renderer, exit: bool, e: Effects) -> bool {
        &&& self.same_but_ws(before)
        &&& exit == (before.ws.tree().leaves().len() == 1)
        &&& if exit {
            self == before && e == nothing()
        } else {
            self.ws.dropped_pane(before.ws) && e == (Effects {
                relayout: true,
                retitle: true,
                redraw: true,
                persist: true,
                ..nothing()
            })
        }
    }

    /// `self` is `before` after a request to close the active tab.
    pub open spec fn close_requested(
        self,
        before: Renderer,
        busy: bool,
        proc_name: Option<Seq<char>>,
        exit: bool,
        e: Effects,
    ) -> bool {
        if before.modal is Some {
            self == before && !exit && e == nothing()
        } else if busy {
            &&& self == Renderer { modal: self.modal, ..before }
            &&& self.modal matches Some(m) && asks(
                m,
                ModalAction::CloseTab,
                "Close tab?"@,
                process_name(proc_name) + " is running in this tab."@,
                "Cancel"@,
                "Close"@,
            )
            &&& !exit
            &&& e == draw()
        } else {
            self.closed_tab(before, exit, e)
        }
    }

    /// Request closing the active tab. If a process runs in it (`busy`, under
    /// the name `proc_name` where it has one) a modal asks first; otherwise the
    /// tab closes. The first of the result says whether the window should exit.
    pub fn close_active_tab(&mut self, busy: bool, proc_name: Option<&str>) -> (r: (bool, Effects))
        requires
            old(self).wf(),
        ensures
            final(self).wf(),
            final(self).close_requested(*old(self), busy, opt_view(proc_name), r.0, r.1),
    {
        if self.modal.is_some() {
            return (false, no_effects());
        }
        if busy {
            let mut body = match proc_name {
                Some(n) => n.to_owned(),
                None => "A process".to_owned(),
            };
            body.append(" is running in this tab.");
            let e = self.open_modal(
                ModalAction::CloseTab,
                "Close tab?".to_owned(),
                body,
                "Cancel",
                "Close",
            );
            return (false, e);
        }
        self.do_close_active_tab()
    }

    /// Close the active tab. If it was the pane's last tab the pane closes
    /// too; if that was the window's last pane, the first of the result is true
    /// (the window exits) and nothing has changed.
    pub fn do_close_active_tab(&mut self) -> (r: (bool, Effects))
        requires
            old(self).wf(),
        ensures
            final(self).wf(),
            final(self).closed_tab(*old(self), r.0, r.1),
    {
        let many = self.ws.active_pane_ref().tabs.len() > 1;
        let ghost n = self.ws.active().tabs@.len();
        proof {
            self.ws.lemma_pane_wf(self.ws.active_pane);
        }
        let exit = self.ws.drop_tab();
        if exit {
            (true, no_effects())
        } else if many {
            (false, redraw_saved())
        } else {
            (
                false,
                Effects {
                    reload_config: false,
                    relayout: true,
                    retitle: true,
                    redraw: true,
                    persist: true,
                },
            )
        }
    }

    /// Close the active pane. The first of the result is true if it was the
    /// window's last pane (the window should then exit).
    pub fn close_active_pane(&mut self) -> (r: (bool, Effects))
        requires
            old(self).wf(),
        ensures
            final(self).wf(),
            final(self).closed_pane(*old(self), r.0, r.1),
    {
        let exit = self.ws.drop_pane();
        if exit {
            (true, no_effects())
        } else {
            (
                false,
                Effects {
                    reload_config: false,
                    relayout: true,
                    retitle: true,
                    redraw: true,
                    persist: true,
                },
            )
        }
    }

    /// What the modal that guards a busy pane says.
    pub open spec fn busy_pane_text(name: Seq<char>, tabs: nat) -> Seq<char> {
        if tabs > 1 {
            name + " is running in this pane ("@ + digits(tabs) + " tabs)."@
        } else {
            name + " is running in this pane."@
        }
    }

    /// `self` is `before` after a request to close the active pane.
    pub open spec fn pane_close_requested(
        self,
        before: Renderer,
        busy: Option<Option<Seq<char>>>,
        e: Effects,
    ) -> bool {
        if before.modal is Some || before.ws.tree().leaves().len() == 1 {
            self == before && e == nothing()
        } else {
            match busy {
                None => self.closed_pane(before, false, e),
                Some(name) => {
                    &&& self == Renderer { modal: self.modal, ..before }
                    &&& self.modal matches Some(m) && asks(
                        m,
                        ModalAction::ClosePane,
                        "Close pane?"@,
                        Renderer::busy_pane_text(
                            process_name(name),
                            before.ws.active().tabs@.len(),
                        ),
                        "Cancel"@,
                        "Close"@,
                    )
                    &&& e == draw()
                },
            }
        }
    }

    /// Close the active pane, but if any of its tabs has a process running,
    /// open a confirmation modal first. `busy` is set where one has, to the
    /// name of the first such process where it has one.
    pub fn request_close_active_pane(&mut self, busy: Option<Option<&str>>) -> (e: Effects)
        requires
            old(self).wf(),
        ensures
            final(self).wf(),
            final(self).pane_close_requested(
                *old(self),
                match busy {
                    Some(name) => Some(opt_view(name)),
                    None => None,
                },
                e,
            ),
    {
        proof {
            crate::tree::lemma_leaves_nonempty(self.ws.tree());
        }
        if self.modal.is_some() || self.ws.root_ref().leaf_count() <= 1 {
            return no_effects();
        }
        match busy {
            None => self.close_active_pane().1,
            Some(name) => {
                let mut body = match name {
                    Some(n) => n.to_owned(),
                    None => "A process".to_owned(),
                };
                let tabs = self.ws.active_pane_ref().tabs.len();
                if tabs > 1 {
                    body.append(" is running in this pane (");
                    push_number(&mut body, tabs as u64);
                    body.append(" tabs).");
                } else {
                    body.append(" is running in this pane.");
                }
                self.open_modal(
                    ModalAction::ClosePane,
                    "Close pane?".to_owned(),
                    body,
                    "Cancel",
                    "Close",
                )
            },
        }
    }

    /// Switch the active pane to one of its tabs by index.
    pub fn switch_to_tab(&mut self, idx: usize) -> (e: Effects)
        requires
            old(self).wf(),
        ensures
            final(self).wf(),
            final(self).switched(*old(self), idx as int, e),
    {
        if self.ws.show_tab(idx) {
            redraw_titled()
        } else {
            no_effects()
        }
    }

    /// `self` is `before` with tab `idx` of the active pane on show, where
    /// there is such a tab and it was not on show already.
    pub open spec fn switched(self, before: Renderer, idx: int, e: Effects) -> bool {
        let p = before.ws.active();
        if idx < p.tabs@.len() && idx != p.active_tab {
            &&& self.same_but_ws(before)
            &&& self.ws.showed_tab(before.ws, idx as usize)
            &&& e == draw_titled()
        } else {
            self == before && e == nothing()
        }
    }

    pub fn next_tab(&mut self) -> (e: Effects)
        requires
            old(self).wf(),
        ensures
            final(self).wf(),
            final(self).switched(
                *old(self),
                crate::cycle::after(
                    old(self).ws.active().active_tab as int,
                    old(self).ws.active().tabs@.len() as int,
                ),
                e,
            ),
    {
        let (n, at) = {
            let p = self.ws.active_pane_ref();
            (p.tabs.len(), p.active_tab)
        };
        if n <= 1 {
            return no_effects();
        }
        self.switch_to_tab(crate::cycle::go_after(at, n))
    }

    pub fn prev_tab(&mut self) -> (e: Effects)
        requires
            old(self).wf(),
        ensures
            final(self).wf(),
            final(self).switched(
                *old(self),
                crate::cycle::before(
                    old(self).ws.active().active_tab as int,
                    old(self).ws.active().tabs@.len() as int,
                ),
                e,
            ),
    {
        let (n, at) = {
            let p = self.ws.active_pane_ref();
            (p.tabs.len(), p.active_tab)
        };
        if n <= 1 {
            return no_effects();
        }
        self.switch_to_tab(crate::cycle::go_before(at, n))
    }

    /// Split the active pane in two at `ratio`; the new pane (one fresh tab) is
    /// focused.
    pub fn split_active(&mut self, dir: SplitDir, ratio: Scalar) -> (r: (TabId, Effects))
        requires
            old(self).wf(),
            old(self).ws.next_tab_id < u64::MAX,
            old(self).ws.next_pane_id < u64::MAX,
            old(self).ws.tree().leaves().len() < usize::MAX,
        ensures
            final(self).wf(),
            final(self).same_but_ws(*old(self)),
            final(self).ws.split_pane(old(self).ws, dir, ratio),
            r.0 == TabId(old(self).ws.next_tab_id),
            r.1 == (Effects { relayout: true, redraw: true, persist: true, ..nothing() }),
    {
        let id = self.ws.split(dir, ratio);
        (
            id,
            Effects {
                reload_config: false,
                relayout: true,
                retitle: false,
                redraw: true,
                persist: true,
            },
        )
    }

    /// `self` is `before` with the focus on pane `pid`, if that is another
    /// one; the configuration is read again then, so that editing it in one
    /// pane and clicking into another applies it.
    pub open spec fn focused_pane(self, before: Renderer, pid: PaneId, e: Effects) -> bool {
        if pid == before.ws.active_pane {
            self == before && e == nothing()
        } else {
            &&& self.same_but_ws(before)
            &&& self.ws.focused(before.ws, pid)
            &&& e == (Effects { reload_config: true, retitle: true, redraw: true, ..nothing() })
        }
    }

    /// Make a pane the active one.
    pub fn focus_pane(&mut self, pid: PaneId) -> (e: Effects)
        requires
            old(self).wf(),
            old(self).ws.tree().has(pid),
        ensures
            final(self).wf(),
            final(self).focused_pane(*old(self), pid, e),
    {
        if self.ws.focus(pid) {
            Effects {
                reload_config: true,
                relayout: false,
                retitle: true,
                redraw: true,
                persist: false,
            }
        } else {
            no_effects()
        }
    }

    /// Move keyboard focus to the neighbouring pane in a direction: `hit` is
    /// the pane just past the active pane's edge, if there is one.
    pub fn focus_dir(&mut self, hit: Option<PaneId>) -> (e: Effects)
        requires
            old(self).wf(),
            hit matches Some(pid) ==> old(self).ws.tree().has(pid),
        ensures
            final(self).wf(),
            match hit {
                Some(pid) => final(self).focused_pane(*old(self), pid, e),
                None => *final(self) == *old(self) && e == nothing(),
            },
    {
        match hit {
            Some(pid) => self.focus_pane(pid),
            None => no_effects(),
        }
    }

    /// True while a modal is up; input goes to the modal then.
    pub fn has_modal(&self) -> (r: bool)
        ensures
            r == (self.modal is Some),
    {
        self.modal.is_some()
    }

    pub fn modal_cancel(&mut self) -> (e: Effects)
        requires
            old(self).wf(),
        ensures
            final(self).wf(),
            *final(self) == (Renderer { modal: None, ..*old(self) }),
            e == draw(),
    {
        self.modal = None;
        redraw()
    }

    /// Confirm the open modal. The first of the result says whether the window
    /// should exit.
    pub fn modal_confirm(&mut self) -> (r: (bool, Effects))
        requires
            old(self).wf(),
        ensures
            final(self).wf(),
            final(self).confirmed(*old(self), r.0, r.1),
    {
        let action = match &self.modal {
            Some(m) => m.action,
            None => return (false, no_effects()),
        };
        self.modal = None;
        match action {
            ModalAction::CloseTab => {
                let (exit, e) = self.do_close_active_tab();
                (exit, with_redraw(e))
            },
            ModalAction::ClosePane => {
                let (_, e) = self.close_active_pane();
                (false, with_redraw(e))
            },
            ModalAction::CrashNotice => (true, redraw()),
        }
    }

    /// `self` is `before` once its modal has been confirmed. A crash notice is
    /// printed by the host, and the window exits.
    pub open spec fn confirmed(self, before: Renderer, exit: bool, e: Effects) -> bool {
        let rest = Renderer { modal: None, ..before };
        match before.modal {
            None => self == before && !exit && e == nothing(),
            Some(m) => match m.action {
                ModalAction::CloseTab => exists|d: Effects|
                    {
                        &&& #[trigger] self.closed_tab(rest, exit, d)
                        &&& e == (Effects { redraw: true, ..d })
                    },
                ModalAction::ClosePane => {
                    &&& !exit
                    &&& exists|last: bool, d: Effects|
                        {
                            &&& #[trigger] self.closed_pane(rest, last, d)
                            &&& e == (Effects { redraw: true, ..d })
                        }
                },
                ModalAction::CrashNotice => self == rest && exit && e == draw(),
            },
        }
    }

    /// `self` is `before` once its modal, if one is up, has been clicked.
    pub open spec fn modal_clicked(
        self,
        before: Renderer,
        on_confirm: bool,
        on_cancel: bool,
        exit: bool,
        e: Effects,
    ) -> bool {
        if before.modal is None || (!on_confirm && !on_cancel) {
            self == before && !exit && e == nothing()
        } else if on_confirm {
            self.confirmed(before, exit, e)
        } else {
            self == (Renderer { modal: None, ..before }) && !exit && e == draw()
        }
    }

    /// Mouse click while the modal is up: on its confirm button, on its cancel
    /// button, or beside both. The first of the result says whether the window
    /// should exit.
    pub fn modal_click(&mut self, on_confirm: bool, on_cancel: bool) -> (r: (bool, Effects))
        requires
            old(self).wf(),
        ensures
            final(self).wf(),
            final(self).modal_clicked(*old(self), on_confirm, on_cancel, r.0, r.1),
    {
        if self.modal.is_none() {
            return (false, no_effects());
        }
        if on_confirm {
            return self.modal_confirm();
        }
        if on_cancel {
            let e = self.modal_cancel();
            return (false, e);
        }
        (false, no_effects())
    }
}

pub(crate) fn with_redraw(e: Effects) -> (r: Effects)
    ensures
        r == (Effects { redraw: true, ..e }),
{
    Effects {
        reload_config: e.reload_config,
        relayout: e.relayout,
        retitle: e.retitle,
        redraw: true,
        persist: e.persist,
    }
}

/// What the host has to do for one thing and for another.
pub open spec fn both(a: Effects, b: Effects) -> Effects {
    Effects {
        reload_config: a.reload_config || b.reload_config,
        relayout: a.relayout || b.relayout,
        retitle: a.retitle || b.retitle,
        redraw: a.redraw || b.redraw,
        persist: a.persist || b.persist,
    }
}

pub(crate) fn merge(a: Effects, b: Effects) -> (r: Effects)
    ensures
        r == both(a, b),
{
    Effects {
        reload_config: a.reload_config || b.reload_config,
        relayout: a.relayout || b.relayout,
        retitle: a.retitle || b.retitle,
        redraw: a.redraw || b.redraw,
        persist: a.persist || b.persist,
    }
}

/// The name of a running process, or what stands in for one.
pub open spec fn process_name(name: Option<Seq<char>>) -> Seq<char> {
    match name {
        Some(n) => n,
        None => "A process"@,
    }
}

/// The characters of a string that may be missing.
pub open spec fn opt_view(o: Option<&str>) -> Option<Seq<char>> {
    match o {
        Some(s) => Some(s@),
        None => None,
    }
}

} // verus!

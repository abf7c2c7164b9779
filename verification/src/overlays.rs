//! The find bar, the command palette, menus and cards on top of the panes.

use crate::find::{FindState, Match};
use crate::menu::{
    color_items, color_rows, context_items, context_rows, kind_items, kind_rows, scale_items,
    scale_rows, ContextMenu, MenuAction, MenuItem,
};
use crate::palette::{PaletteAction, PaletteState};
use crate::renderer::{draw, no_effects, nothing, redraw, Effects, Renderer, SliderKind};
use crate::tab::{Tab, TabContentKind, TabId};
use crate::text::{begins_with, digits, has_prefix, push_number};
use crate::tree::{Pane, PaneId, Scalar, SplitDir};
use vstd::prelude::*;

verus! {

/// The bits of one half: where a command places a split.
pub const HALF_BITS: u32 = 0x3f00_0000;

/// A command that the host carries out, as it involves what only the host has.
#[derive(Copy, Clone, PartialEq, Eq, Structural, Debug)]
pub enum HostCommand {
    NewTab,
    ClearScrollback,
    SelectAll,
    ZoomIn,
    ZoomOut,
    ZoomReset,
    CycleFont,
    ScrollTop,
    ScrollBottom,
    FocusLeft,
    FocusRight,
    FocusUp,
    FocusDown,
    CloseTab,
    Stop,
    Halt,
    Release,
    RoomWho,
    RoomFiles,
}

/// What running a command came to.
#[derive(Copy, Clone, PartialEq, Eq, Structural, Debug)]
pub enum Ran {
    /// There was no command to run.
    Nothing,
    /// It is done.
    Done,
    /// It is done, and the host has a shell to start for this tab.
    Opened(TabId),
    /// The host has to do it.
    Host(HostCommand),
    /// The program should exit.
    Exit,
}

/// What a click in a menu came to.
pub enum Picked {
    Nothing,
    /// It is done.
    Done,
    /// A submenu is up in place of the menu; it may have to be moved to fit.
    Submenu,
    Copy,
    Paste,
    OpenLink(String),
    SelectAll,
    SetTabKind { pane: PaneId, kind: TabContentKind },
    SetPaneScale { pane: PaneId, scale: Scalar },
    OpenModulesFolder,
}

/// The command that the host carries out for an action, where it does.
pub open spec fn host_command(a: PaletteAction) -> Option<HostCommand> {
    match a {
        PaletteAction::NewTab => Some(HostCommand::NewTab),
        PaletteAction::ClearScrollback => Some(HostCommand::ClearScrollback),
        PaletteAction::SelectAll => Some(HostCommand::SelectAll),
        PaletteAction::ZoomIn => Some(HostCommand::ZoomIn),
        PaletteAction::ZoomOut => Some(HostCommand::ZoomOut),
        PaletteAction::ZoomReset => Some(HostCommand::ZoomReset),
        PaletteAction::CycleFont => Some(HostCommand::CycleFont),
        PaletteAction::ScrollTop => Some(HostCommand::ScrollTop),
        PaletteAction::ScrollBottom => Some(HostCommand::ScrollBottom),
        PaletteAction::FocusLeft => Some(HostCommand::FocusLeft),
        PaletteAction::FocusRight => Some(HostCommand::FocusRight),
        PaletteAction::FocusUp => Some(HostCommand::FocusUp),
        PaletteAction::FocusDown => Some(HostCommand::FocusDown),
        PaletteAction::CloseTab => Some(HostCommand::CloseTab),
        PaletteAction::Stop => Some(HostCommand::Stop),
        PaletteAction::Halt => Some(HostCommand::Halt),
        PaletteAction::Release => Some(HostCommand::Release),
        PaletteAction::RoomWho => Some(HostCommand::RoomWho),
        PaletteAction::RoomFiles => Some(HostCommand::RoomFiles),
        PaletteAction::SplitRight => None,
        PaletteAction::SplitDown => None,
        PaletteAction::NextTab => None,
        PaletteAction::PrevTab => None,
        PaletteAction::Find => None,
        PaletteAction::Quit => None,
    }
}

fn command_for_host(a: PaletteAction) -> (r: Option<HostCommand>)
    ensures
        r == host_command(a),
{
    match a {
        PaletteAction::NewTab => Some(HostCommand::NewTab),
        PaletteAction::ClearScrollback => Some(HostCommand::ClearScrollback),
        PaletteAction::SelectAll => Some(HostCommand::SelectAll),
        PaletteAction::ZoomIn => Some(HostCommand::ZoomIn),
        PaletteAction::ZoomOut => Some(HostCommand::ZoomOut),
        PaletteAction::ZoomReset => Some(HostCommand::ZoomReset),
        PaletteAction::CycleFont => Some(HostCommand::CycleFont),
        PaletteAction::ScrollTop => Some(HostCommand::ScrollTop),
        PaletteAction::ScrollBottom => Some(HostCommand::ScrollBottom),
        PaletteAction::FocusLeft => Some(HostCommand::FocusLeft),
        PaletteAction::FocusRight => Some(HostCommand::FocusRight),
        PaletteAction::FocusUp => Some(HostCommand::FocusUp),
        PaletteAction::FocusDown => Some(HostCommand::FocusDown),
        PaletteAction::CloseTab => Some(HostCommand::CloseTab),
        PaletteAction::Stop => Some(HostCommand::Stop),
        PaletteAction::Halt => Some(HostCommand::Halt),
        PaletteAction::Release => Some(HostCommand::Release),
        PaletteAction::RoomWho => Some(HostCommand::RoomWho),
        PaletteAction::RoomFiles => Some(HostCommand::RoomFiles),
        _ => None,
    }
}

/// `search` can be asked for this text.
pub open spec fn can_search<F: Fn(String) -> Vec<Match>>(text: Seq<char>, search: F) -> bool {
    forall|q: String| q@ == text ==> #[trigger] call_requires(search, (q,))
}

/// A query without its last character.
pub open spec fn shorter(query: Seq<char>) -> Seq<char> {
    if query.len() == 0 {
        query
    } else {
        query.drop_last()
    }
}

/// Where the viewport goes to show the current match.
#[derive(Copy, Clone, PartialEq, Eq, Structural, Debug)]
pub struct ScrollTarget {
    pub line: i32,
    pub rows: usize,
}

impl Renderer {
    /// `self` is `before` but for the find bar.
    pub open spec fn same_but_find(self, before: Renderer) -> bool {
        self == Renderer { find: self.find, ..before }
    }

    /// Where the viewport goes: to the current match, if there is one.
    pub open spec fn match_target(self) -> Option<ScrollTarget> {
        match self.find {
            Some(f) => if f.matches@.len() > 0 {
                Some(
                    ScrollTarget {
                        line: f.matches@[f.current as int].0,
                        rows: self.ws.grid_rows,
                    },
                )
            } else {
                None
            },
            None => None,
        }
    }

    fn scroll_to_current_match(&self) -> (r: Option<ScrollTarget>)
        requires
            self.wf(),
        ensures
            r == self.match_target(),
    {
        match &self.find {
            Some(f) => match f.target_line() {
                Some(line) => Some(ScrollTarget { line, rows: self.ws.grid_rows }),
                None => None,
            },
            None => None,
        }
    }

    pub fn has_find(&self) -> (r: bool)
        ensures
            r == (self.find is Some),
    {
        self.find.is_some()
    }

    pub fn open_find(&mut self) -> (e: Effects)
        requires
            old(self).wf(),
        ensures
            final(self).wf(),
            final(self).opened_find(*old(self)),
            e == draw(),
    {
        self.find = Some(FindState::new());
        redraw()
    }

    /// `self` is `before` with an empty find bar up.
    pub open spec fn opened_find(self, before: Renderer) -> bool {
        &&& self.same_but_find(before)
        &&& self.find matches Some(f) && f.query@.len() == 0 && f.matches@.len() == 0 && f.current
            == 0
    }

    pub fn close_find(&mut self) -> (e: Effects)
        requires
            old(self).wf(),
        ensures
            final(self).wf(),
            *final(self) == (Renderer { find: None, ..*old(self) }),
            e == draw(),
    {
        self.find = None;
        redraw()
    }

    /// `self` is `before` with the query `query`, and with what `search` found
    /// for it; the first match is current.
    pub open spec fn searched<F: Fn(String) -> Vec<Match>>(
        self,
        before: Renderer,
        query: Seq<char>,
        search: F,
    ) -> bool {
        &&& self.same_but_find(before)
        &&& self.find matches Some(f) && {
            &&& f.query@ == query
            &&& f.current == 0
            &&& exists|q: String| q@ == query && #[trigger] call_ensures(search, (q,), f.matches)
        }
    }

    /// Search for the current query again, and go to the first match.
    fn rerun_search<F: Fn(String) -> Vec<Match>>(&mut self, search: &F) -> (r: (
        Effects,
        Option<ScrollTarget>,
    ))
        requires
            old(self).wf(),
            old(self).find matches Some(f) ==> can_search(f.query@, *search),
        ensures
            final(self).wf(),
            old(self).find is None ==> *final(self) == *old(self) && r == (
                nothing(),
                None::<ScrollTarget>,
            ),
            old(self).find matches Some(f) ==> {
                &&& final(self).searched(*old(self), f.query@, *search)
                &&& r == (draw(), final(self).match_target())
            },
    {
        match &mut self.find {
            Some(f) => {
                let q = f.query.clone();
                let ghost gq = q;
                let found = search(q);
                assert(gq@ == f.query@ && call_ensures(*search, (gq,), found));
                f.set_matches(found);
            },
            None => {
                return (no_effects(), None);
            },
        }
        (redraw(), self.scroll_to_current_match())
    }

    /// What a typed character changes in the find bar.
    pub open spec fn find_typed<F: Fn(String) -> Vec<Match>>(
        self,
        before: Renderer,
        ch: char,
        search: &F,
        r: (Effects, Option<ScrollTarget>),
    ) -> bool {
        &&& (before.find is None ==> self == before && r == (
            nothing(),
            None::<ScrollTarget>,
        ))
        &&& (before.find matches Some(f) ==> {
            &&& self.searched(before, f.query@.push(ch), *search)
            &&& r == (draw(), self.match_target())
        })
    }

    /// Type a character into the find bar.
    pub fn find_input<F: Fn(String) -> Vec<Match>>(&mut self, ch: char, search: &F) -> (r: (
        Effects,
        Option<ScrollTarget>,
    ))
        requires
            old(self).wf(),
            old(self).find matches Some(f) ==> can_search(f.query@.push(ch), *search),
        ensures
            final(self).wf(),
            final(self).find_typed(*old(self), ch, search, r),
    {
        if let Some(f) = &mut self.find {
            f.query.push(ch);
        }
        self.rerun_search(search)
    }

    /// What taking a character back changes in the find bar.
    pub open spec fn find_shortened<F: Fn(String) -> Vec<Match>>(
        self,
        before: Renderer,
        search: &F,
        r: (Effects, Option<ScrollTarget>),
    ) -> bool {
        &&& (before.find is None ==> self == before && r == (
            nothing(),
            None::<ScrollTarget>,
        ))
        &&& (before.find matches Some(f) ==> {
            &&& self.searched(before, shorter(f.query@), *search)
            &&& r == (draw(), self.match_target())
        })
    }

    /// Take the last character of the query back.
    pub fn find_backspace<F: Fn(String) -> Vec<Match>>(&mut self, search: &F) -> (r: (
        Effects,
        Option<ScrollTarget>,
    ))
        requires
            old(self).wf(),
            old(self).find matches Some(f) ==> can_search(shorter(f.query@), *search),
        ensures
            final(self).wf(),
            final(self).find_shortened(*old(self), search, r),
    {
        if let Some(f) = &mut self.find {
            f.query.pop();
        }
        self.rerun_search(search)
    }

    /// Go to the next match.
    pub fn find_next(&mut self) -> (r: (Effects, Option<ScrollTarget>))
        requires
            old(self).wf(),
        ensures
            final(self).wf(),
            final(self).stepped(*old(self), true),
            r == (draw(), final(self).match_target()),
    {
        if let Some(f) = &mut self.find {
            f.go_next();
        }
        (redraw(), self.scroll_to_current_match())
    }

    /// Go to the previous match.
    pub fn find_prev(&mut self) -> (r: (Effects, Option<ScrollTarget>))
        requires
            old(self).wf(),
        ensures
            final(self).wf(),
            final(self).stepped(*old(self), false),
            r == (draw(), final(self).match_target()),
    {
        if let Some(f) = &mut self.find {
            f.go_prev();
        }
        (redraw(), self.scroll_to_current_match())
    }

    /// `self` is `before` with the next match current, or the previous one;
    /// nothing changes where there is no match.
    pub open spec fn stepped(self, before: Renderer, forward: bool) -> bool {
        match before.find {
            None => self == before,
            Some(f) => self == Renderer {
                find: Some(
                    FindState {
                        current: if f.matches@.len() == 0 {
                            f.current
                        } else if forward {
                            crate::cycle::after(f.current as int, f.matches@.len() as int) as usize
                        } else {
                            crate::cycle::before(
                                f.current as int,
                                f.matches@.len() as int,
                            ) as usize
                        },
                        ..f
                    },
                ),
                ..before
            },
        }
    }

    pub fn has_palette(&self) -> (r: bool)
        ensures
            r == (self.palette is Some),
    {
        self.palette.is_some()
    }

    /// What opening the palette changes.
    pub open spec fn palette_opened(self, before: Renderer, e: Effects) -> bool {
        &&& self == (Renderer { palette: self.palette, ..before })
        &&& (self.palette matches Some(p) && {
            &&& p.query@.len() == 0
            &&& p.filtered@ == crate::palette::every_command()
            &&& p.selected == 0
        })
        &&& e == draw()
    }

    /// Open the command palette.
    pub fn open_palette(&mut self) -> (e: Effects)
        requires
            old(self).wf(),
        ensures
            final(self).wf(),
            final(self).palette_opened(*old(self), e),
    {
        self.palette = Some(PaletteState::open());
        redraw()
    }

    pub fn close_palette(&mut self) -> (e: Effects)
        requires
            old(self).wf(),
        ensures
            final(self).wf(),
            *final(self) == (Renderer { palette: None, ..*old(self) }),
            e == draw(),
    {
        self.palette = None;
        redraw()
    }

    /// What a typed character changes in the palette.
    pub open spec fn palette_typed(self, before: Renderer, ch: char, e: Effects) -> bool {
        &&& (before.palette is None ==> self == before && e == nothing())
        &&& (before.palette matches Some(p) ==> {
            &&& self == (Renderer { palette: self.palette, ..before })
            &&& self.palette matches Some(q) && q.shows(p.query@.push(ch))
            &&& e == draw()
        })
    }

    /// Type a character into the palette.
    pub fn palette_input(&mut self, ch: char) -> (e: Effects)
        requires
            old(self).wf(),
        ensures
            final(self).wf(),
            final(self).palette_typed(*old(self), ch, e),
    {
        match &mut self.palette {
            Some(p) => {
                p.input(ch);
                redraw()
            },
            None => no_effects(),
        }
    }

    /// What taking a character back changes in the palette.
    pub open spec fn palette_shortened(self, before: Renderer, e: Effects) -> bool {
        &&& (before.palette is None ==> self == before && e == nothing())
        &&& (before.palette matches Some(p) ==> {
            &&& self == (Renderer { palette: self.palette, ..before })
            &&& self.palette matches Some(q) && q.shows(
                if p.query@.len() == 0 {
                    p.query@
                } else {
                    p.query@.drop_last()
                },
            )
            &&& e == draw()
        })
    }

    /// Take the last character of the palette's query back.
    pub fn palette_backspace(&mut self) -> (e: Effects)
        requires
            old(self).wf(),
        ensures
            final(self).wf(),
            final(self).palette_shortened(*old(self), e),
    {
        match &mut self.palette {
            Some(p) => {
                p.backspace();
                redraw()
            },
            None => no_effects(),
        }
    }

    /// What a step in the palette changes.
    pub open spec fn palette_moved(self, before: Renderer, down: bool, e: Effects) -> bool {
        &&& (before.palette is None ==> self == before && e == draw())
        &&& (before.palette matches Some(p) ==> if p.filtered@.len() == 0 {
            self == before && e == nothing()
        } else {
            &&& self == (Renderer {
                palette: Some(
                    PaletteState {
                        selected: (if down {
                            crate::cycle::after(p.selected as int, p.filtered@.len() as int)
                        } else {
                            crate::cycle::before(p.selected as int, p.filtered@.len() as int)
                        }) as usize,
                        ..p
                    },
                ),
                ..before
            })
            &&& e == draw()
        })
    }

    /// Move the selection up or down within the filtered list (wraps).
    pub fn palette_move(&mut self, down: bool) -> (e: Effects)
        requires
            old(self).wf(),
        ensures
            final(self).wf(),
            final(self).palette_moved(*old(self), down, e),
    {
        match &mut self.palette {
            Some(p) => {
                if !p.step(down) {
                    return no_effects();
                }
            },
            None => {},
        }
        redraw()
    }

    /// There are ids left for another tab and another pane.
    pub open spec fn has_ids(self) -> bool {
        &&& self.ws.next_tab_id < u64::MAX
        &&& self.ws.next_pane_id < u64::MAX
        &&& self.ws.tree().leaves().len() < usize::MAX
    }

    /// Run the selected command and close the palette.
    pub fn palette_execute(&mut self) -> (r: (Ran, Effects))
        requires
            old(self).wf(),
            old(self).has_ids(),
        ensures
            final(self).wf(),
            final(self).ran(*old(self), r.0, r.1),
    {
        let action = match &self.palette {
            Some(p) => p.selected_action(),
            None => None,
        };
        self.palette = None;
        let action = match action {
            Some(a) => a,
            None => return (Ran::Nothing, redraw()),
        };
        match command_for_host(action) {
            Some(c) => (Ran::Host(c), redraw()),
            None => match action {
                PaletteAction::SplitRight => {
                    let (id, e) = self.split_active(SplitDir::Vertical, Scalar(HALF_BITS));
                    (Ran::Opened(id), e)
                },
                PaletteAction::SplitDown => {
                    let (id, e) = self.split_active(SplitDir::Horizontal, Scalar(HALF_BITS));
                    (Ran::Opened(id), e)
                },
                PaletteAction::NextTab => {
                    let e = self.next_tab();
                    (Ran::Done, crate::renderer::with_redraw(e))
                },
                PaletteAction::PrevTab => {
                    let e = self.prev_tab();
                    (Ran::Done, crate::renderer::with_redraw(e))
                },
                PaletteAction::Find => {
                    let e = self.open_find();
                    (Ran::Done, e)
                },
                _ => (Ran::Exit, redraw()),
            },
        }
    }

    /// `self` is `before` once the palette's selected command has been run.
    pub open spec fn ran(self, before: Renderer, r: Ran, e: Effects) -> bool {
        let rest = Renderer { palette: None, ..before };
        let action = match before.palette {
            Some(p) => p.chosen(),
            None => None,
        };
        let p = rest.ws.active();
        match action {
            None => self == rest && r == Ran::Nothing && e == draw(),
            Some(a) => match host_command(a) {
                Some(c) => self == rest && r == Ran::Host(c) && e == draw(),
                None => match a {
                    PaletteAction::SplitRight => self.ran_split(rest, SplitDir::Vertical, r, e),
                    PaletteAction::SplitDown => self.ran_split(rest, SplitDir::Horizontal, r, e),
                    PaletteAction::NextTab => r == Ran::Done && self.ran_switch(
                        rest,
                        crate::cycle::after(p.active_tab as int, p.tabs@.len() as int),
                        e,
                    ),
                    PaletteAction::PrevTab => r == Ran::Done && self.ran_switch(
                        rest,
                        crate::cycle::before(p.active_tab as int, p.tabs@.len() as int),
                        e,
                    ),
                    PaletteAction::Find => r == Ran::Done && self.opened_find(rest) && e == draw(),
                    _ => self == rest && r == Ran::Exit && e == draw(),
                },
            },
        }
    }

    /// `self` is `before` with its active pane split in half.
    pub open spec fn ran_split(self, before: Renderer, dir: SplitDir, r: Ran, e: Effects) -> bool {
        &&& self.same_but_ws(before)
        &&& self.ws.split_pane(before.ws, dir, Scalar(HALF_BITS))
        &&& r == Ran::Opened(TabId(before.ws.next_tab_id))
        &&& e == Effects { relayout: true, redraw: true, persist: true, ..nothing() }
    }

    /// `self` is `before` with tab `idx` on show; the closed palette is drawn
    /// over in any case.
    pub open spec fn ran_switch(self, before: Renderer, idx: int, e: Effects) -> bool {
        exists|d: Effects| #[trigger]
            self.switched(before, idx, d) && e == (Effects { redraw: true, ..d })
    }

    pub fn has_context_menu(&self) -> (r: bool)
        ensures
            r == (self.context_menu is Some),
    {
        self.context_menu.is_some()
    }

    pub fn dismiss_context_menu(&mut self) -> (e: Effects)
        requires
            old(self).wf(),
        ensures
            final(self).wf(),
            *final(self) == (Renderer { context_menu: None, ..*old(self) }),
            e == draw(),
    {
        self.context_menu = None;
        redraw()
    }

    /// `self` is `before` with a menu up at a point, nothing in it hovered.
    pub open spec fn menu_up(self, before: Renderer, x: Scalar, y: Scalar) -> bool {
        &&& self == Renderer { context_menu: self.context_menu, ..before }
        &&& self.context_menu matches Some(m) && m.x == x && m.y == y && m.hovered is None
    }

    /// The items of the menu that is up.
    pub open spec fn menu_items(self) -> Seq<MenuItem> {
        self.context_menu->0.items@
    }

    /// Anchor a freshly built menu and show it.
    fn place_menu(&mut self, items: Vec<MenuItem>, x: Scalar, y: Scalar) -> (e: Effects)
        requires
            old(self).wf(),
        ensures
            final(self).wf(),
            final(self).menu_up(*old(self), x, y),
            final(self).menu_items() == items@,
            e == draw(),
    {
        self.context_menu = Some(ContextMenu { x, y, items, hovered: None });
        redraw()
    }

    /// Move the menu that is up.
    pub fn move_menu(&mut self, x: Scalar, y: Scalar)
        requires
            old(self).wf(),
        ensures
            final(self).wf(),
            *final(self) == (Renderer {
                context_menu: match old(self).context_menu {
                    Some(m) => Some(ContextMenu { x, y, ..m }),
                    None => None,
                },
                ..*old(self)
            }),
    {
        if let Some(m) = &mut self.context_menu {
            m.x = x;
            m.y = y;
        }
    }

    /// The active tab has something selected.
    pub open spec fn has_selection(self) -> bool {
        self.ws.active_tab().selection matches Some(s) && s.anchor() != s.head()
    }

    /// Open the right-click context menu. `link` is the hyperlink under the
    /// click, `scale_pct` the scale of the active pane in percent.
    pub fn open_context_menu(
        &mut self,
        x: Scalar,
        y: Scalar,
        link: Option<String>,
        scale_pct: u64,
    ) -> (e: Effects)
        requires
            old(self).wf(),
        ensures
            final(self).wf(),
            final(self).menu_up(*old(self), x, y),
            context_rows(
                final(self).menu_items(),
                old(self).has_selection(),
                link,
                old(self).ws.active_tab().color_idx,
                old(self).ws.active().bg_idx,
                scale_pct,
            ),
            e == draw(),
    {
        let (selected, color) = {
            let t = self.ws.active_tab_ref();
            let s = match &t.selection {
                Some(s) => !s.is_empty(),
                None => false,
            };
            (s, t.color_idx)
        };
        let bg = self.ws.active_pane_ref().bg_idx;
        let items = context_items(selected, link, color, bg, scale_pct);
        self.place_menu(items, x, y)
    }

    /// What a pane shows; a shell where there is no such pane.
    pub open spec fn kind_in(self, pid: PaneId) -> TabContentKind {
        if self.ws.tree().has(pid) {
            self.ws.tree().pane(pid).shown().kind
        } else {
            TabContentKind::Shell
        }
    }

    /// Open the kind dropdown of one pane.
    pub fn open_kind_dropdown(
        &mut self,
        pid: PaneId,
        x: Scalar,
        y: Scalar,
        has_folder: bool,
    ) -> (e: Effects)
        requires
            old(self).wf(),
        ensures
            final(self).wf(),
            final(self).menu_up(*old(self), x, y),
            kind_rows(
                final(self).menu_items(),
                pid,
                old(self).kind_in(pid),
                old(self).modules@,
                has_folder,
            ),
            e == draw(),
    {
        proof {
            if self.ws.tree().has(pid) {
                self.ws.lemma_pane_wf(pid);
            }
        }
        let current = match self.ws.root_ref().find(pid) {
            Some(p) => p.active_tab_ref().kind.copy(),
            None => TabContentKind::Shell,
        };
        let items = kind_items(pid, &current, &self.modules, has_folder);
        self.place_menu(items, x, y)
    }

    /// Resolve a click while a menu is up: run the action of the item that was
    /// hit, if it is enabled, and take the menu down. A click beside the items
    /// just dismisses.
    pub fn context_menu_click(&mut self, hit: Option<usize>) -> (r: (Picked, Effects))
        requires
            old(self).wf(),
            old(self).context_menu matches Some(m) ==> (hit matches Some(i) ==> i < m.items@.len()),
        ensures
            final(self).wf(),
            final(self).picked(*old(self), hit, r.0, r.1),
    {
        let menu = match self.context_menu.take() {
            Some(m) => m,
            None => return (Picked::Nothing, no_effects()),
        };
        let idx = match hit {
            Some(i) => i,
            None => return (Picked::Nothing, redraw()),
        };
        let ContextMenu { x, y, items, hovered: _ } = menu;
        let mut items = items;
        let chosen = items.remove(idx);
        if !chosen.enabled {
            return (Picked::Nothing, redraw());
        }
        match chosen.action {
            MenuAction::Copy => (Picked::Copy, redraw()),
            MenuAction::Paste => (Picked::Paste, redraw()),
            MenuAction::OpenLink(uri) => (Picked::OpenLink(uri), redraw()),
            MenuAction::SelectAll => (Picked::SelectAll, redraw()),
            MenuAction::SetTabKind { pane, kind } => (
                Picked::SetTabKind { pane, kind },
                redraw(),
            ),
            MenuAction::SubmenuTabColor => {
                let e = self.place_menu(color_items(false), x, y);
                (Picked::Submenu, e)
            },
            MenuAction::SubmenuPaneBg => {
                let e = self.place_menu(color_items(true), x, y);
                (Picked::Submenu, e)
            },
            MenuAction::SubmenuPaneScale => {
                let e = self.place_menu(scale_items(), x, y);
                (Picked::Submenu, e)
            },
            MenuAction::SetTabColor(c) => {
                self.ws.active_tab_mut().color_idx = c;
                (Picked::Done, redraw())
            },
            MenuAction::SetPaneBg(c) => {
                self.ws.set_pane_bg(c);
                (Picked::Done, redraw())
            },
            MenuAction::SetPaneScale(scale) => (
                Picked::SetPaneScale { pane: self.ws.active_pane, scale },
                redraw(),
            ),
            MenuAction::OpenModulesFolder => (Picked::OpenModulesFolder, redraw()),
        }
    }

    /// `self` is `before` once a click in its menu has been resolved.
    pub open spec fn picked(
        self,
        before: Renderer,
        hit: Option<usize>,
        r: Picked,
        e: Effects,
    ) -> bool {
        let rest = Renderer { context_menu: None, ..before };
        match before.context_menu {
            None => self == before && r is Nothing && e == nothing(),
            Some(m) => {
                &&& e == draw()
                &&& match hit {
                    None => self == rest && r is Nothing,
                    Some(i) => {
                        let it = m.items@[i as int];
                        if !it.enabled {
                            self == rest && r is Nothing
                        } else {
                            match it.action {
                                MenuAction::SubmenuTabColor => {
                                    &&& self.menu_up(rest, m.x, m.y)
                                    &&& color_rows(self.menu_items(), false)
                                    &&& r is Submenu
                                },
                                MenuAction::SubmenuPaneBg => {
                                    &&& self.menu_up(rest, m.x, m.y)
                                    &&& color_rows(self.menu_items(), true)
                                    &&& r is Submenu
                                },
                                MenuAction::SubmenuPaneScale => {
                                    &&& self.menu_up(rest, m.x, m.y)
                                    &&& scale_rows(self.menu_items())
                                    &&& r is Submenu
                                },
                                MenuAction::SetTabColor(c) => {
                                    &&& self.same_but_ws(rest)
                                    &&& self.ws.active_tab_became(
                                        rest.ws,
                                        Tab { color_idx: c, ..rest.ws.active_tab() },
                                    )
                                    &&& r is Done
                                },
                                MenuAction::SetPaneBg(c) => {
                                    &&& self.same_but_ws(rest)
                                    &&& self.ws == (crate::workspace::Workspace {
                                        root: Some(
                                            rest.ws.tree().with_pane(
                                                rest.ws.active_pane,
                                                Pane { bg_idx: c, ..rest.ws.active() },
                                            ),
                                        ),
                                        ..rest.ws
                                    })
                                    &&& r is Done
                                },
                                MenuAction::SetPaneScale(scale) => self == rest && r == (
                                Picked::SetPaneScale { pane: rest.ws.active_pane, scale }),
                                MenuAction::Copy => self == rest && r is Copy,
                                MenuAction::Paste => self == rest && r is Paste,
                                MenuAction::OpenLink(uri) => self == rest && r == Picked::OpenLink(
                                    uri,
                                ),
                                MenuAction::SelectAll => self == rest && r is SelectAll,
                                MenuAction::SetTabKind { pane, kind } => self == rest && r == (
                                Picked::SetTabKind { pane, kind }),
                                MenuAction::OpenModulesFolder => self == rest
                                    && r is OpenModulesFolder,
                            }
                        }
                    },
                }
            },
        }
    }

    /// Open the display settings.
    pub fn open_display_settings(&mut self) -> (e: Effects)
        requires
            old(self).wf(),
        ensures
            final(self).wf(),
            *final(self) == (Renderer { display_settings: true, ..*old(self) }),
            e == draw(),
    {
        self.display_settings = true;
        redraw()
    }

    /// Close the display settings.
    pub fn close_display_settings(&mut self) -> (e: Effects)
        requires
            old(self).wf(),
        ensures
            final(self).wf(),
            *final(self) == (Renderer { display_settings: false, ..*old(self) }),
            e == draw(),
    {
        self.display_settings = false;
        redraw()
    }

    pub fn has_display_settings(&self) -> (r: bool)
        ensures
            r == self.display_settings,
    {
        self.display_settings
    }

    /// Close the list of claims or of actors.
    pub fn close_file_claims(&mut self) -> (e: Effects)
        requires
            old(self).wf(),
        ensures
            final(self).wf(),
            *final(self) == (Renderer { claims_overlay: false, ..*old(self) }),
            e == draw(),
    {
        self.claims_overlay = false;
        redraw()
    }

    pub fn has_file_claims(&self) -> (r: bool)
        ensures
            r == self.claims_overlay,
    {
        self.claims_overlay
    }
}

/// The range that a slider of the display settings spans: points for the two
/// font sizes, pixels for the height of the tab bar.
pub fn slider_range(kind: SliderKind) -> (r: (u32, u32))
    ensures
        r == (match kind {
            SliderKind::Content => (8u32, 40u32),
            SliderKind::Tab => (8u32, 28u32),
            SliderKind::TabHeight => (24u32, 80u32),
        }),
{
    match kind {
        SliderKind::Content => (8, 40),
        SliderKind::Tab => (8, 28),
        SliderKind::TabHeight => (24, 80),
    }
}

/// The label above a slider of the display settings.
pub fn slider_label(kind: SliderKind, size: u64) -> (s: String)
    ensures
        s@ == (match kind {
            SliderKind::Content => "Terminal text — "@ + digits(size as nat) + " pt"@,
            SliderKind::Tab => "Tab bar — "@ + digits(size as nat) + " pt"@,
            SliderKind::TabHeight => "Tab height — "@ + digits(size as nat) + " px"@,
        }),
{
    let mut s = match kind {
        SliderKind::Content => "Terminal text — ".to_owned(),
        SliderKind::Tab => "Tab bar — ".to_owned(),
        SliderKind::TabHeight => "Tab height — ".to_owned(),
    };
    push_number(&mut s, size);
    s.append(
        match kind {
            SliderKind::TabHeight => " px",
            _ => " pt",
        },
    );
    s
}

/// What the display settings advise. `dense` and `coarse` say that the display
/// packs more than one and a half pixels, or fewer than one and a tenth, into
/// a point; `surface` is the window's size in pixels.
pub open spec fn advice(dense: bool, coarse: bool, surface: (u32, u32)) -> Seq<char> {
    if dense {
        "Consider zooming out for sharper text"@
    } else if coarse && (surface.0 > 2500 || surface.1 > 1400) {
        "Consider zooming in for readability"@
    } else {
        "Display looks good"@
    }
}

/// What the display settings advise.
pub fn display_advice(dense: bool, coarse: bool, surface: (u32, u32)) -> (s: &'static str)
    ensures
        s@ == advice(dense, coarse, surface),
{
    if dense {
        "Consider zooming out for sharper text"
    } else if coarse && (surface.0 > 2500 || surface.1 > 1400) {
        "Consider zooming in for readability"
    } else {
        "Display looks good"
    }
}

/// A link may be handed to the system: it has one of the schemes that are
/// plainly harmless.
pub open spec fn harmless(uri: Seq<char>) -> bool {
    ||| begins_with(uri, "http://"@)
    ||| begins_with(uri, "https://"@)
    ||| begins_with(uri, "file://"@)
    ||| begins_with(uri, "mailto:"@)
}

/// Whether a link may be handed to the system.
pub fn may_open_uri(uri: &str) -> (r: bool)
    ensures
        r == harmless(uri@),
{
    has_prefix(uri, "http://") || has_prefix(uri, "https://") || has_prefix(uri, "file://")
        || has_prefix(uri, "mailto:")
}

} // verus!

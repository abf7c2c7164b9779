//! What the command palette, the find bar and the menus do: what they say.

use crate::find::FindState;
use crate::menu::{color_rows, context_rows, kind_rows, scale_rows};
use crate::overlays::{HostCommand, Picked, Ran};
use crate::palette::{command_action, command_hint, command_label, PaletteAction, PaletteState};
use crate::renderer::{Effects, Renderer};
use crate::tab::{TabContentKind, TabId};
use crate::tree::{PaneId, Scalar, SplitDir};
use crate::tree_laws::law_with_pane;
use vstd::prelude::*;

verus! {

/// What a command is called.
pub open spec fn name_of(a: PaletteAction) -> Seq<char> {
    match a {
        PaletteAction::NewTab => "New Tab"@,
        PaletteAction::SplitRight => "Split Right"@,
        PaletteAction::SplitDown => "Split Down"@,
        PaletteAction::CloseTab => "Close Tab / Pane"@,
        PaletteAction::NextTab => "Next Tab"@,
        PaletteAction::PrevTab => "Previous Tab"@,
        PaletteAction::Find => "Find"@,
        PaletteAction::ClearScrollback => "Clear Scrollback"@,
        PaletteAction::SelectAll => "Select All"@,
        PaletteAction::ZoomIn => "Zoom In"@,
        PaletteAction::ZoomOut => "Zoom Out"@,
        PaletteAction::ZoomReset => "Reset Zoom"@,
        PaletteAction::CycleFont => "Cycle Font"@,
        PaletteAction::ScrollTop => "Scroll to Top"@,
        PaletteAction::ScrollBottom => "Scroll to Bottom"@,
        PaletteAction::FocusLeft => "Focus Pane Left"@,
        PaletteAction::FocusRight => "Focus Pane Right"@,
        PaletteAction::FocusUp => "Focus Pane Up"@,
        PaletteAction::FocusDown => "Focus Pane Down"@,
        PaletteAction::Stop => "STOP — interrupt focused actor"@,
        PaletteAction::Halt => "HALT — quarantine focused actor"@,
        PaletteAction::Release => "RELEASE — lift HALT on focused actor"@,
        PaletteAction::RoomWho => "Room Who — presence roster"@,
        PaletteAction::RoomFiles => "Room Files — active claims"@,
        PaletteAction::Quit => "Quit"@,
    }
}

proof fn lemma_names_differ(i: int, a: PaletteAction)
    requires
        0 <= i < 25,
        command_label(i) == name_of(a),
    ensures
        command_action(i) == a,
{
    reveal_strlit("New Tab");
    reveal_strlit("Split Right");
    reveal_strlit("Split Down");
    reveal_strlit("Close Tab / Pane");
    reveal_strlit("Next Tab");
    reveal_strlit("Previous Tab");
    reveal_strlit("Find");
    reveal_strlit("Clear Scrollback");
    reveal_strlit("Select All");
    reveal_strlit("Zoom In");
    reveal_strlit("Zoom Out");
    reveal_strlit("Reset Zoom");
    reveal_strlit("Cycle Font");
    reveal_strlit("Scroll to Top");
    reveal_strlit("Scroll to Bottom");
    reveal_strlit("Focus Pane Left");
    reveal_strlit("Focus Pane Right");
    reveal_strlit("Focus Pane Up");
    reveal_strlit("Focus Pane Down");
    reveal_strlit("STOP — interrupt focused actor");
    reveal_strlit("HALT — quarantine focused actor");
    reveal_strlit("RELEASE — lift HALT on focused actor");
    reveal_strlit("Room Who — presence roster");
    reveal_strlit("Room Files — active claims");
    reveal_strlit("Quit");
    assert("New Tab"@.len() == 7);
    assert("Split Right"@.len() == 11);
    assert("Split Down"@.len() == 10);
    assert("Close Tab / Pane"@.len() == 16);
    assert("Next Tab"@.len() == 8);
    assert("Previous Tab"@.len() == 12);
    assert("Find"@.len() == 4);
    assert("Clear Scrollback"@.len() == 16);
    assert("Select All"@.len() == 10);
    assert("Zoom In"@.len() == 7);
    assert("Zoom Out"@.len() == 8);
    assert("Reset Zoom"@.len() == 10);
    assert("Cycle Font"@.len() == 10);
    assert("Scroll to Top"@.len() == 13);
    assert("Scroll to Bottom"@.len() == 16);
    assert("Focus Pane Left"@.len() == 15);
    assert("Focus Pane Right"@.len() == 16);
    assert("Focus Pane Up"@.len() == 13);
    assert("Focus Pane Down"@.len() == 15);
    assert("STOP — interrupt focused actor"@.len() == 30);
    assert("HALT — quarantine focused actor"@.len() == 31);
    assert("RELEASE — lift HALT on focused actor"@.len() == 36);
    assert("Room Who — presence roster"@.len() == 26);
    assert("Room Files — active claims"@.len() == 26);
    assert("Quit"@.len() == 4);
    assert("Close Tab / Pane"@[2] != "Clear Scrollback"@[2]);
    assert("Split Down"@[1] != "Select All"@[1]);
    assert("New Tab"@[0] != "Zoom In"@[0]);
    assert("Next Tab"@[0] != "Zoom Out"@[0]);
    assert("Split Down"@[0] != "Reset Zoom"@[0]);
    assert("Select All"@[0] != "Reset Zoom"@[0]);
    assert("Split Down"@[0] != "Cycle Font"@[0]);
    assert("Select All"@[0] != "Cycle Font"@[0]);
    assert("Reset Zoom"@[0] != "Cycle Font"@[0]);
    assert("Close Tab / Pane"@[0] != "Scroll to Bottom"@[0]);
    assert("Clear Scrollback"@[0] != "Scroll to Bottom"@[0]);
    assert("Close Tab / Pane"@[0] != "Focus Pane Right"@[0]);
    assert("Clear Scrollback"@[0] != "Focus Pane Right"@[0]);
    assert("Scroll to Bottom"@[0] != "Focus Pane Right"@[0]);
    assert("Scroll to Top"@[0] != "Focus Pane Up"@[0]);
    assert("Focus Pane Left"@[11] != "Focus Pane Down"@[11]);
    assert("Room Who — presence roster"@[5] != "Room Files — active claims"@[5]);
    assert("Find"@[0] != "Quit"@[0]);
}

/// Every row of the palette bears the name of the command that it runs.
pub proof fn law_rows_are_named_after_commands(i: int)
    requires
        0 <= i < 25,
    ensures
        command_label(i) == name_of(command_action(i)),
{
}

/// Every command has a row.
pub proof fn law_every_command_has_a_row(a: PaletteAction)
    ensures
        exists|i: int| 0 <= i < 25 && #[trigger] command_action(i) == a,
{
    assert(exists|i: int| 0 <= i < 25 && #[trigger] command_action(i) == a) by {
        assert(command_action(0) == PaletteAction::NewTab);
        assert(command_action(1) == PaletteAction::SplitRight);
        assert(command_action(2) == PaletteAction::SplitDown);
        assert(command_action(3) == PaletteAction::CloseTab);
        assert(command_action(4) == PaletteAction::NextTab);
        assert(command_action(5) == PaletteAction::PrevTab);
        assert(command_action(6) == PaletteAction::Find);
        assert(command_action(7) == PaletteAction::ClearScrollback);
        assert(command_action(8) == PaletteAction::SelectAll);
        assert(command_action(9) == PaletteAction::ZoomIn);
        assert(command_action(10) == PaletteAction::ZoomOut);
        assert(command_action(11) == PaletteAction::ZoomReset);
        assert(command_action(12) == PaletteAction::CycleFont);
        assert(command_action(13) == PaletteAction::ScrollTop);
        assert(command_action(14) == PaletteAction::ScrollBottom);
        assert(command_action(15) == PaletteAction::FocusLeft);
        assert(command_action(16) == PaletteAction::FocusRight);
        assert(command_action(17) == PaletteAction::FocusUp);
        assert(command_action(18) == PaletteAction::FocusDown);
        assert(command_action(19) == PaletteAction::Stop);
        assert(command_action(20) == PaletteAction::Halt);
        assert(command_action(21) == PaletteAction::Release);
        assert(command_action(22) == PaletteAction::RoomWho);
        assert(command_action(23) == PaletteAction::RoomFiles);
        assert(command_action(24) == PaletteAction::Quit);
    }
}

/// Running the highlighted row runs the command that it names, and closes the
/// palette: splits to the right and down, the tabs behind and before, the find
/// bar and the end of the program here, and everything else by the host.
pub proof fn law_palette_runs_what_it_says(
    before: Renderer,
    after: Renderer,
    r: Ran,
    e: Effects,
    a: PaletteAction,
)
    requires
        before.wf(),
        after.ran(before, r, e),
        before.palette is Some,
        before.palette->0.filtered@.len() > 0,
        ({
            let p = before.palette->0;
            let i = p.filtered@[p.selected as int];
            i < 25 && command_label(i as int) == name_of(a)
        }),
    ensures
        after.palette is None,
        e.redraw,
        match a {
            PaletteAction::SplitRight => after.ws.split_pane(
                before.ws,
                SplitDir::Vertical,
                Scalar(0x3f00_0000),
            ) && r == Ran::Opened(TabId(before.ws.next_tab_id)) && e.relayout && e.persist,
            PaletteAction::SplitDown => after.ws.split_pane(
                before.ws,
                SplitDir::Horizontal,
                Scalar(0x3f00_0000),
            ) && r == Ran::Opened(TabId(before.ws.next_tab_id)) && e.relayout && e.persist,
            PaletteAction::NextTab => {
                let p = before.ws.active();
                &&& r == Ran::Done
                &&& p.active_tab + 1 < p.tabs@.len() ==> after.ws.active().active_tab == p.active_tab
                    + 1
                &&& p.active_tab + 1 == p.tabs@.len() ==> after.ws.active().active_tab == 0
                &&& after.ws.active().tabs == p.tabs
            },
            PaletteAction::PrevTab => {
                let p = before.ws.active();
                &&& r == Ran::Done
                &&& p.active_tab > 0 ==> after.ws.active().active_tab == p.active_tab - 1
                &&& p.active_tab == 0 ==> after.ws.active().active_tab == p.tabs@.len() - 1
                &&& after.ws.active().tabs == p.tabs
            },
            PaletteAction::Find => r == Ran::Done && after.find is Some && after.find->0.query@.len()
                == 0 && after.ws == before.ws,
            PaletteAction::Quit => r == Ran::Exit && after.ws == before.ws,
            PaletteAction::NewTab => r == Ran::Host(HostCommand::NewTab) && after.ws == before.ws,
            PaletteAction::CloseTab => r == Ran::Host(HostCommand::CloseTab) && after.ws == before.ws,
            PaletteAction::ClearScrollback => r == Ran::Host(HostCommand::ClearScrollback) && after.ws == before.ws,
            PaletteAction::SelectAll => r == Ran::Host(HostCommand::SelectAll) && after.ws == before.ws,
            PaletteAction::ZoomIn => r == Ran::Host(HostCommand::ZoomIn) && after.ws == before.ws,
            PaletteAction::ZoomOut => r == Ran::Host(HostCommand::ZoomOut) && after.ws == before.ws,
            PaletteAction::ZoomReset => r == Ran::Host(HostCommand::ZoomReset) && after.ws == before.ws,
            PaletteAction::CycleFont => r == Ran::Host(HostCommand::CycleFont) && after.ws == before.ws,
            PaletteAction::ScrollTop => r == Ran::Host(HostCommand::ScrollTop) && after.ws == before.ws,
            PaletteAction::ScrollBottom => r == Ran::Host(HostCommand::ScrollBottom) && after.ws == before.ws,
            PaletteAction::FocusLeft => r == Ran::Host(HostCommand::FocusLeft) && after.ws == before.ws,
            PaletteAction::FocusRight => r == Ran::Host(HostCommand::FocusRight) && after.ws == before.ws,
            PaletteAction::FocusUp => r == Ran::Host(HostCommand::FocusUp) && after.ws == before.ws,
            PaletteAction::FocusDown => r == Ran::Host(HostCommand::FocusDown) && after.ws == before.ws,
            PaletteAction::Stop => r == Ran::Host(HostCommand::Stop) && after.ws == before.ws,
            PaletteAction::Halt => r == Ran::Host(HostCommand::Halt) && after.ws == before.ws,
            PaletteAction::Release => r == Ran::Host(HostCommand::Release) && after.ws == before.ws,
            PaletteAction::RoomWho => r == Ran::Host(HostCommand::RoomWho) && after.ws == before.ws,
            PaletteAction::RoomFiles => r == Ran::Host(HostCommand::RoomFiles) && after.ws == before.ws,
        },
{
    let p = before.palette->0;
    let i = p.filtered@[p.selected as int];
    lemma_names_differ(i as int, a);
    before.ws.lemma_pane_wf(before.ws.active_pane);
    let pane = before.ws.active();
    let n = pane.tabs.len();
    let k: usize = if a == PaletteAction::NextTab {
        if pane.active_tab + 1 < n {
            (pane.active_tab + 1) as usize
        } else {
            0
        }
    } else if pane.active_tab > 0 {
        (pane.active_tab - 1) as usize
    } else {
        (n - 1) as usize
    };
    law_with_pane(
        before.ws.tree(),
        before.ws.active_pane,
        crate::tree::Pane { active_tab: k, ..pane },
    );
}

/// Where nothing matches, nothing is run.
pub proof fn law_no_match_runs_nothing(before: Renderer, after: Renderer, r: Ran, e: Effects)
    requires
        after.ran(before, r, e),
        before.palette is Some,
        before.palette->0.filtered@.len() == 0,
    ensures
        r == Ran::Nothing,
        after.ws == before.ws,
        after.palette is None,
{
}

/// The rows of the palette that are shown, ten at most, follow one another and
/// have the highlighted one among them.
pub proof fn law_highlighted_row_is_shown(p: PaletteState)
    requires
        p.wf(),
        p.filtered@.len() > 0,
    ensures
        ({
            let (first, shown) = p.window();
            &&& 0 <= first
            &&& first <= p.selected < first + shown
            &&& shown <= 10
            &&& first + shown <= p.filtered@.len()
            &&& p.filtered@.len() <= 10 ==> first == 0 && shown == p.filtered@.len()
            &&& p.filtered@.len() > 10 && p.selected < 10 ==> first == 0 && shown == 10
        }),
{
}

/// The find bar goes from match to match, from the last on to the first, and
/// back the same way; the viewport goes to the line of the match that it is at.
pub proof fn law_find_goes_round(before: Renderer, after: Renderer, forward: bool)
    requires
        before.wf(),
        after.stepped(before, forward),
        before.find is Some,
        before.find->0.matches@.len() > 0,
        before.find->0.current < before.find->0.matches@.len(),
    ensures
        after.find is Some,
        ({
            let f = before.find->0;
            let g = after.find->0;
            let n = f.matches.len();
            &&& g.matches == f.matches
            &&& g.query == f.query
            &&& forward && f.current + 1 < n ==> g.current == f.current + 1
            &&& forward && f.current + 1 == n ==> g.current == 0
            &&& !forward && f.current > 0 ==> g.current == f.current - 1
            &&& !forward && f.current == 0 ==> g.current == n - 1
            &&& after.match_target() is Some
            &&& after.match_target()->0.line == f.matches@[g.current as int].0
        }),
        after.ws == before.ws,
{
}

/// The find bar says what is searched for, and which match of how many it is
/// at.
pub proof fn law_find_bar_says_where_it_is(f: FindState)
    requires
        f.query@.len() > 0,
    ensures
        f.matches@.len() == 0 ==> f.bar() == "Find: "@ + f.query@ + "   no matches"@,
        f.matches@.len() > 0 && f.current < 9 && f.matches@.len() < 10 ==> f.bar() == "Find: "@
            + f.query@ + "   "@ + seq![(49 + f.current) as char] + "/"@ + seq![
            (48 + f.matches@.len()) as char,
        ],
{
}

/// A row of the menu does what it says. Where nothing is selected there is
/// nothing to copy.
pub proof fn law_menu_does_what_it_says(
    before: Renderer,
    after: Renderer,
    i: usize,
    r: Picked,
    e: Effects,
    has_selection: bool,
    link: Option<String>,
    tab_color: u8,
    pane_bg: u8,
    scale_pct: u64,
)
    requires
        before.context_menu is Some,
        context_rows(
            before.context_menu->0.items@,
            has_selection,
            link,
            tab_color,
            pane_bg,
            scale_pct,
        ),
        i < before.context_menu->0.items@.len(),
        after.picked(before, Some(i), r, e),
    ensures
        ({
            let label = before.context_menu->0.items@[i as int].label@;
            &&& label == "Copy"@ ==> if has_selection {
                r is Copy
            } else {
                r is Nothing
            }
            &&& label == "Paste"@ ==> r is Paste
            &&& label == "Select All"@ ==> r is SelectAll
            &&& label == "Open Link"@ ==> link is Some && r == Picked::OpenLink(link->0)
            &&& !(r is Submenu) ==> after.context_menu is None
            &&& after.ws == before.ws
        }),
        before.context_menu->0.items@[0].label@ == "Copy"@,
        before.context_menu->0.items@[1].label@ == "Paste"@,
        link is Some ==> before.context_menu->0.items@[2].label@ == "Open Link"@,
        link is Some ==> before.context_menu->0.items@[3].label@ == "Select All"@,
        link is None ==> before.context_menu->0.items@[2].label@ == "Select All"@,
{
    reveal_strlit("Copy");
    reveal_strlit("Paste");
    reveal_strlit("Select All");
    reveal_strlit("Open Link");
    reveal_strlit("Tab color: ");
    reveal_strlit("Pane bg: ");
    reveal_strlit("Pane scale: ");
    let items = before.context_menu->0.items@;
    let k: int = if link is Some {
        1
    } else {
        0
    };
    assert("Copy"@.len() == 4 && "Paste"@.len() == 5 && "Select All"@.len() == 10);
    assert("Open Link"@.len() == 9);
    assert(items[3 + k].label@[0] == 'T');
    assert(items[4 + k].label@[2] == 'n');
    assert(items[5 + k].label@[2] == 'n');
    assert("Copy"@[0] == 'C' && "Paste"@[0] == 'P' && "Paste"@[2] == 's');
    assert("Select All"@[0] == 'S' && "Open Link"@[0] == 'O');
}

/// A click beside the rows, or on one that is off, closes the menu and does
/// nothing.
pub proof fn law_click_beside_closes_the_menu(
    before: Renderer,
    after: Renderer,
    hit: Option<usize>,
    r: Picked,
    e: Effects,
)
    requires
        before.context_menu is Some,
        after.picked(before, hit, r, e),
        hit matches Some(i) ==> !before.context_menu->0.items@[i as int].enabled,
    ensures
        r is Nothing,
        after.context_menu is None,
        after.ws == before.ws,
{
}

/// A row of a colour menu sets the colour that it names: of the tab's band, or
/// of the pane's background; the first row sets none.
pub proof fn law_colour_row_sets_its_colour(
    before: Renderer,
    after: Renderer,
    i: usize,
    r: Picked,
    e: Effects,
    pane_bg: bool,
)
    requires
        before.wf(),
        before.context_menu is Some,
        color_rows(before.context_menu->0.items@, pane_bg),
        i < 7,
        after.picked(before, Some(i), r, e),
    ensures
        before.context_menu->0.items@.len() == 7,
        before.context_menu->0.items@[i as int].label@ == "   "@ + (if i == 1 {
            "red"@
        } else if i == 2 {
            "yellow"@
        } else if i == 3 {
            "green"@
        } else if i == 4 {
            "blue"@
        } else if i == 5 {
            "magenta"@
        } else if i == 6 {
            "cyan"@
        } else {
            "none"@
        }),
        r is Done,
        !pane_bg ==> after.ws.active_tab().color_idx == i && after.ws.active().bg_idx
            == before.ws.active().bg_idx,
        pane_bg ==> after.ws.active().bg_idx == i && after.ws.active().tabs
            == before.ws.active().tabs,
{
    before.ws.lemma_pane_wf(before.ws.active_pane);
    law_with_pane(
        before.ws.tree(),
        before.ws.active_pane,
        crate::tree::Pane { bg_idx: i as u8, ..before.ws.active() },
    );
}

/// A row of the scale menu sets the scale that it says, in percent, for the
/// focused pane.
pub proof fn law_scale_row_sets_its_scale(
    before: Renderer,
    after: Renderer,
    i: usize,
    r: Picked,
    e: Effects,
)
    requires
        before.context_menu is Some,
        scale_rows(before.context_menu->0.items@),
        i < 5,
        after.picked(before, Some(i), r, e),
    ensures
        ({
            let pct: nat = if i == 1 {
                80
            } else if i == 2 {
                65
            } else if i == 3 {
                125
            } else if i == 4 {
                150
            } else {
                100
            };
            let bits: u32 = if i == 1 {
                0x3f4c_cccd
            } else if i == 2 {
                0x3f26_6666
            } else if i == 3 {
                0x3fa0_0000
            } else if i == 4 {
                0x3fc0_0000
            } else {
                0x3f80_0000
            };
            &&& before.context_menu->0.items@[i as int].label@ == "   "@ + crate::text::digits(pct)
                + "%"@
            &&& r == (Picked::SetPaneScale { pane: before.ws.active_pane, scale: Scalar(bits) })
        }),
{
}

/// The dropdown of kinds offers a shell, the welcome page and every module, by
/// name and with a dot at the one that is there; picking a row switches the pane
/// to that kind.
pub proof fn law_kind_row_switches_to_its_kind(
    before: Renderer,
    after: Renderer,
    i: usize,
    r: Picked,
    e: Effects,
    pane: PaneId,
    current: TabContentKind,
    has_folder: bool,
)
    requires
        before.context_menu is Some,
        kind_rows(before.context_menu->0.items@, pane, current, before.modules@, has_folder),
        i < before.context_menu->0.items@.len(),
        after.picked(before, Some(i), r, e),
    ensures
        ({
            let label = before.context_menu->0.items@[i as int].label@;
            let n = before.modules@.len();
            &&& before.context_menu->0.items@.len() == n + 3
            &&& i == 0 ==> r == (Picked::SetTabKind { pane, kind: TabContentKind::Shell })
            &&& i == 1 ==> r == (Picked::SetTabKind { pane, kind: TabContentKind::Welcome })
            &&& 2 <= i < n + 2 ==> {
                let m = before.modules@[i - 2];
                &&& r == (Picked::SetTabKind { pane, kind: TabContentKind::Module(m.id) })
                &&& (current matches TabContentKind::Module(x) && x@ == m.id@) ==> label == "• "@
                    + m.name@
                &&& !(current matches TabContentKind::Module(x) && x@ == m.id@) ==> label == "  "@
                    + m.name@
            }
            &&& i == n + 2 ==> if has_folder {
                r is OpenModulesFolder
            } else {
                r is Nothing
            }
            &&& i == 0 ==> label == (if current is Shell {
                "• "@
            } else {
                "  "@
            }) + "Shell"@
        }),
{
    let items = before.context_menu->0.items@;
    if 2 <= i < before.modules@.len() + 2 {
        let k = i - 2;
        assert(items[k + 2] == items[i as int]);
    }
}

/// Beside a command stands the key that runs it.
pub proof fn law_command_shows_its_key(i: int)
    requires
        0 <= i < 25,
    ensures
        command_action(i) == PaletteAction::NewTab ==> command_hint(i) == "\u{2318}T"@,
        command_action(i) == PaletteAction::SplitRight ==> command_hint(i) == "\u{2318}D"@,
        command_action(i) == PaletteAction::CloseTab ==> command_hint(i) == "\u{2318}W"@,
        command_action(i) == PaletteAction::Find ==> command_hint(i) == "\u{2318}F"@,
        command_action(i) == PaletteAction::ClearScrollback ==> command_hint(i) == "\u{2318}K"@,
        command_action(i) == PaletteAction::SelectAll ==> command_hint(i) == "\u{2318}A"@,
        command_action(i) == PaletteAction::ZoomIn ==> command_hint(i) == "\u{2318}+"@,
        command_action(i) == PaletteAction::ZoomOut ==> command_hint(i) == "\u{2318}-"@,
        command_action(i) == PaletteAction::ZoomReset ==> command_hint(i) == "\u{2318}0"@,
        command_action(i) == PaletteAction::Quit ==> command_hint(i) == "\u{2318}Q"@,
        command_action(i) == PaletteAction::SplitDown ==> command_hint(i) == "\u{2318}\u{21e7}D"@,
        command_action(i) == PaletteAction::NextTab ==> command_hint(i) == "\u{2318}\u{21e7}]"@,
        command_action(i) == PaletteAction::PrevTab ==> command_hint(i) == "\u{2318}\u{21e7}["@,
        command_action(i) == PaletteAction::CycleFont ==> command_hint(i) == "\u{2318}\u{21e7}F"@,
        command_action(i) == PaletteAction::ScrollTop ==> command_hint(i) == "\u{2318}\u{2191}"@,
        command_action(i) == PaletteAction::ScrollBottom ==> command_hint(i) == "\u{2318}\u{2193}"@,
        command_action(i) == PaletteAction::FocusLeft ==> command_hint(i) == "\u{2318}\u{2325}\u{2190}"@,
        command_action(i) == PaletteAction::FocusRight ==> command_hint(i) == "\u{2318}\u{2325}\u{2192}"@,
        command_action(i) == PaletteAction::FocusUp ==> command_hint(i) == "\u{2318}\u{2325}\u{2191}"@,
        command_action(i) == PaletteAction::FocusDown ==> command_hint(i) == "\u{2318}\u{2325}\u{2193}"@,
        command_action(i) == PaletteAction::Stop ==> command_hint(i) == ""@,
        command_action(i) == PaletteAction::RoomWho ==> command_hint(i) == ""@,
{
}

} // verus!

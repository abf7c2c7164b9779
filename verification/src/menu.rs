//! Menus: the context menu, its pickers, and the kind dropdown.

use crate::colors::{color_name, palette_name, PALETTE_LEN, SCALE_PRESETS};
use crate::tab::{ModuleManifest, TabContentKind};
use crate::text::{digits, push_number, same_text};
use crate::tree::{PaneId, Scalar};
use vstd::prelude::*;

verus! {

/// An action invoked from a menu.
pub enum MenuAction {
    Copy,
    Paste,
    OpenLink(String),
    SelectAll,
    /// Switch the active tab of the menu's pane to a different content kind.
    SetTabKind { pane: PaneId, kind: TabContentKind },
    /// Open a picker submenu in place of the menu.
    SubmenuTabColor,
    SubmenuPaneBg,
    SubmenuPaneScale,
    /// Picks from those submenus: set directly, no cycling.
    SetTabColor(u8),
    SetPaneBg(u8),
    SetPaneScale(Scalar),
    /// Reveal the modules folder.
    OpenModulesFolder,
}

/// One row of a menu.
pub struct MenuItem {
    pub label: String,
    pub action: MenuAction,
    pub enabled: bool,
    /// The palette entry of the color swatch at the row's left edge.
    pub swatch: Option<u8>,
}

/// A menu: a small overlay with its top-left corner at a point.
pub struct ContextMenu {
    pub x: Scalar,
    pub y: Scalar,
    pub items: Vec<MenuItem>,
    /// Index of the item under the cursor, for hover highlight.
    pub hovered: Option<usize>,
}

impl ContextMenu {
    pub open spec fn wf(self) -> bool {
        self.hovered matches Some(i) ==> i < self.items@.len()
    }
}

/// A row that is what it says.
pub open spec fn row(
    it: MenuItem,
    label: Seq<char>,
    action: MenuAction,
    enabled: bool,
    swatch: Option<u8>,
) -> bool {
    &&& it.label@ == label
    &&& it.action == action
    &&& it.enabled == enabled
    &&& it.swatch == swatch
}

fn item(label: String, action: MenuAction, enabled: bool) -> (it: MenuItem)
    ensures
        row(it, label@, action, enabled, None),
{
    MenuItem { label, action, enabled, swatch: None }
}

/// `head`, then `middle`, then the mark of a row that opens a submenu.
fn submenu_label(head: &str, middle: &str) -> (s: String)
    ensures
        s@ == head@ + middle@ + "  ▸"@,
{
    let mut s = head.to_owned();
    s.append(middle);
    s.append("  ▸");
    s
}

/// The rows of the right-click menu. Copy is enabled only with a selection;
/// Open Link appears only where the click landed on a hyperlink. The color and
/// scale rows show the current setting.
pub open spec fn context_rows(
    items: Seq<MenuItem>,
    has_selection: bool,
    link: Option<String>,
    tab_color: u8,
    pane_bg: u8,
    scale_pct: u64,
) -> bool {
    let k: int = if link is Some {
        1
    } else {
        0
    };
    &&& items.len() == 6 + k
    &&& row(items[0], "Copy"@, MenuAction::Copy, has_selection, None)
    &&& row(items[1], "Paste"@, MenuAction::Paste, true, None)
    &&& link matches Some(uri) ==> row(
        items[2],
        "Open Link"@,
        MenuAction::OpenLink(uri),
        true,
        None,
    )
    &&& row(items[2 + k], "Select All"@, MenuAction::SelectAll, true, None)
    &&& row(
        items[3 + k],
        "Tab color: "@ + color_name(tab_color as int) + "  ▸"@,
        MenuAction::SubmenuTabColor,
        true,
        None,
    )
    &&& row(
        items[4 + k],
        "Pane bg: "@ + color_name(pane_bg as int) + "  ▸"@,
        MenuAction::SubmenuPaneBg,
        true,
        None,
    )
    &&& row(
        items[5 + k],
        "Pane scale: "@ + (digits(scale_pct as nat) + "%"@) + "  ▸"@,
        MenuAction::SubmenuPaneScale,
        true,
        None,
    )
}

/// The rows of the right-click menu.
pub fn context_items(
    has_selection: bool,
    link: Option<String>,
    tab_color: u8,
    pane_bg: u8,
    scale_pct: u64,
) -> (items: Vec<MenuItem>)
    ensures
        context_rows(items@, has_selection, link, tab_color, pane_bg, scale_pct),
{
    let mut items: Vec<MenuItem> = Vec::new();
    items.push(item("Copy".to_owned(), MenuAction::Copy, has_selection));
    items.push(item("Paste".to_owned(), MenuAction::Paste, true));
    if let Some(uri) = link {
        items.push(item("Open Link".to_owned(), MenuAction::OpenLink(uri), true));
    }
    items.push(item("Select All".to_owned(), MenuAction::SelectAll, true));
    items.push(
        item(
            submenu_label("Tab color: ", palette_name(tab_color)),
            MenuAction::SubmenuTabColor,
            true,
        ),
    );
    items.push(
        item(
            submenu_label("Pane bg: ", palette_name(pane_bg)),
            MenuAction::SubmenuPaneBg,
            true,
        ),
    );
    let mut pct = String::new();
    push_number(&mut pct, scale_pct);
    pct.append("%");
    assert(pct@ =~= digits(scale_pct as nat) + "%"@);
    items.push(
        item(
            submenu_label("Pane scale: ", pct.as_str()),
            MenuAction::SubmenuPaneScale,
            true,
        ),
    );
    items
}

/// The rows of a color picker: the palette, as swatches.
pub open spec fn color_rows(items: Seq<MenuItem>, pane_bg: bool) -> bool {
    &&& items.len() == PALETTE_LEN
    &&& forall|i: int|
        0 <= i < PALETTE_LEN ==> row(
            #[trigger] items[i],
            "   "@ + color_name(i),
            if pane_bg {
                MenuAction::SetPaneBg(i as u8)
            } else {
                MenuAction::SetTabColor(i as u8)
            },
            true,
            if i == 0 {
                None
            } else {
                Some(i as u8)
            },
        )
}

/// The rows of a color picker. Entry 0 is "none", and has no swatch to draw.
pub fn color_items(pane_bg: bool) -> (items: Vec<MenuItem>)
    ensures
        color_rows(items@, pane_bg),
{
    let mut items: Vec<MenuItem> = Vec::new();
    let mut i: u8 = 0;
    while i < PALETTE_LEN as u8
        invariant
            i <= PALETTE_LEN,
            items@.len() == i,
            forall|k: int|
                0 <= k < i ==> row(
                    #[trigger] items@[k],
                    "   "@ + color_name(k),
                    if pane_bg {
                        MenuAction::SetPaneBg(k as u8)
                    } else {
                        MenuAction::SetTabColor(k as u8)
                    },
                    true,
                    if k == 0 {
                        None
                    } else {
                        Some(k as u8)
                    },
                ),
        decreases PALETTE_LEN - i,
    {
        let mut label = "   ".to_owned();
        label.append(palette_name(i));
        let action = if pane_bg {
            MenuAction::SetPaneBg(i)
        } else {
            MenuAction::SetTabColor(i)
        };
        let swatch: Option<u8> = if i == 0 {
            None
        } else {
            Some(i)
        };
        items.push(MenuItem { label, action, enabled: true, swatch });
        i = i + 1;
    }
    items
}

/// The scale presets, in percent.
pub open spec fn preset_pct(i: int) -> nat {
    if i == 1 {
        80
    } else if i == 2 {
        65
    } else if i == 3 {
        125
    } else if i == 4 {
        150
    } else {
        100
    }
}

/// The scale presets, as numbers: 1.0, 0.8, 0.65, 1.25 and 1.5.
pub open spec fn preset_scale(i: int) -> Scalar {
    if i == 1 {
        Scalar(0x3f4c_cccd)
    } else if i == 2 {
        Scalar(0x3f26_6666)
    } else if i == 3 {
        Scalar(0x3fa0_0000)
    } else if i == 4 {
        Scalar(0x3fc0_0000)
    } else {
        Scalar(0x3f80_0000)
    }
}

fn preset(i: usize) -> (p: (u64, Scalar))
    ensures
        p.0 == preset_pct(i as int),
        p.1 == preset_scale(i as int),
{
    match i {
        1 => (80, Scalar(0x3f4c_cccd)),
        2 => (65, Scalar(0x3f26_6666)),
        3 => (125, Scalar(0x3fa0_0000)),
        4 => (150, Scalar(0x3fc0_0000)),
        _ => (100, Scalar(0x3f80_0000)),
    }
}

/// The rows of the scale picker: the presets.
pub open spec fn scale_rows(items: Seq<MenuItem>) -> bool {
    &&& items.len() == SCALE_PRESETS
    &&& forall|i: int|
        0 <= i < SCALE_PRESETS ==> row(
            #[trigger] items[i],
            "   "@ + digits(preset_pct(i)) + "%"@,
            MenuAction::SetPaneScale(preset_scale(i)),
            true,
            None,
        )
}

/// The rows of the scale picker.
pub fn scale_items() -> (items: Vec<MenuItem>)
    ensures
        scale_rows(items@),
{
    let mut items: Vec<MenuItem> = Vec::new();
    let mut i: usize = 0;
    while i < SCALE_PRESETS
        invariant
            i <= SCALE_PRESETS,
            items@.len() == i,
            forall|k: int|
                0 <= k < i ==> row(
                    #[trigger] items@[k],
                    "   "@ + digits(preset_pct(k)) + "%"@,
                    MenuAction::SetPaneScale(preset_scale(k)),
                    true,
                    None,
                ),
        decreases SCALE_PRESETS - i,
    {
        let (pct, scale) = preset(i);
        let mut label = "   ".to_owned();
        push_number(&mut label, pct);
        label.append("%");
        items.push(item(label, MenuAction::SetPaneScale(scale), true));
        i = i + 1;
    }
    items
}

/// Two kinds that are the same.
pub open spec fn same_kind(a: TabContentKind, b: TabContentKind) -> bool {
    match (a, b) {
        (TabContentKind::Shell, TabContentKind::Shell) => true,
        (TabContentKind::Welcome, TabContentKind::Welcome) => true,
        (TabContentKind::Module(x), TabContentKind::Module(y)) => x@ == y@,
        (TabContentKind::Agent(x), TabContentKind::Agent(y)) => x@ == y@,
        _ => false,
    }
}

pub fn is_same_kind(a: &TabContentKind, b: &TabContentKind) -> (r: bool)
    ensures
        r == same_kind(*a, *b),
{
    match (a, b) {
        (TabContentKind::Shell, TabContentKind::Shell) => true,
        (TabContentKind::Welcome, TabContentKind::Welcome) => true,
        (TabContentKind::Module(x), TabContentKind::Module(y)) => {
            same_text(x.as_str(), y.as_str())
        },
        (TabContentKind::Agent(x), TabContentKind::Agent(y)) => {
            same_text(x.as_str(), y.as_str())
        },
        _ => false,
    }
}

/// A row of the kind dropdown: the kind that is on show is marked.
pub open spec fn kind_row(
    it: MenuItem,
    pane: PaneId,
    kind: TabContentKind,
    name: Seq<char>,
    current: TabContentKind,
) -> bool {
    row(
        it,
        (if same_kind(kind, current) {
            "• "@
        } else {
            "  "@
        }) + name,
        MenuAction::SetTabKind { pane, kind },
        true,
        None,
    )
}

fn kind_item(pane: PaneId, kind: TabContentKind, name: &str, current: &TabContentKind) -> (it:
    MenuItem)
    ensures
        kind_row(it, pane, kind, name@, *current),
{
    let mut label = if is_same_kind(&kind, current) {
        "• ".to_owned()
    } else {
        "  ".to_owned()
    };
    label.append(name);
    item(label, MenuAction::SetTabKind { pane, kind }, true)
}

/// The rows of the kind dropdown: the built-in kinds first, then every module
/// in registry order, then a way into the modules folder.
pub open spec fn kind_rows(
    items: Seq<MenuItem>,
    pane: PaneId,
    current: TabContentKind,
    modules: Seq<ModuleManifest>,
    has_folder: bool,
) -> bool {
    &&& items.len() == modules.len() + 3
    &&& kind_row(items[0], pane, TabContentKind::Shell, "Shell"@, current)
    &&& kind_row(items[1], pane, TabContentKind::Welcome, "Welcome"@, current)
    &&& forall|i: int|
        0 <= i < modules.len() ==> kind_row(
            #[trigger] items[i + 2],
            pane,
            TabContentKind::Module(modules[i].id),
            modules[i].name@,
            current,
        )
    &&& row(
        items.last(),
        "  Open modules folder…"@,
        MenuAction::OpenModulesFolder,
        has_folder,
        None,
    )
}

/// The rows of the kind dropdown of one pane.
pub fn kind_items(
    pane: PaneId,
    current: &TabContentKind,
    modules: &Vec<ModuleManifest>,
    has_folder: bool,
) -> (items: Vec<MenuItem>)
    ensures
        kind_rows(items@, pane, *current, modules@, has_folder),
{
    let mut items: Vec<MenuItem> = Vec::new();
    items.push(kind_item(pane, TabContentKind::Shell, "Shell", current));
    items.push(kind_item(pane, TabContentKind::Welcome, "Welcome", current));
    let mut i: usize = 0;
    while i < modules.len()
        invariant
            i <= modules@.len(),
            items@.len() == i + 2,
            kind_row(items@[0], pane, TabContentKind::Shell, "Shell"@, *current),
            kind_row(items@[1], pane, TabContentKind::Welcome, "Welcome"@, *current),
            forall|k: int|
                0 <= k < i ==> kind_row(
                    #[trigger] items@[k + 2],
                    pane,
                    TabContentKind::Module(modules@[k].id),
                    modules@[k].name@,
                    *current,
                ),
        decreases modules.len() - i,
    {
        let m = &modules[i];
        items.push(
            kind_item(
                pane,
                TabContentKind::Module(m.id.clone()),
                m.name.as_str(),
                current,
            ),
        );
        i = i + 1;
    }
    items.push(
        item("  Open modules folder…".to_owned(), MenuAction::OpenModulesFolder, has_folder),
    );
    items
}

} // verus!

//! The command palette: a filterable list of every action with its shortcut.

use crate::cycle::{after, before, go_after, go_before};
use crate::text::{contains, found_in, lower, lowercase, pad, padded};
use vstd::prelude::*;

verus! {

/// How many commands there are.
pub const COMMANDS: usize = 25;

/// How many rows of commands show at once.
pub const PALETTE_MAX_ROWS: usize = 10;

/// The width that labels are filled up to, so that the hints line up.
pub const LABEL_WIDTH: usize = 24;

#[derive(Copy, Clone, PartialEq, Eq, Structural, Debug)]
pub enum PaletteAction {
    NewTab,
    SplitRight,
    SplitDown,
    CloseTab,
    NextTab,
    PrevTab,
    Find,
    ClearScrollback,
    SelectAll,
    ZoomIn,
    ZoomOut,
    ZoomReset,
    CycleFont,
    ScrollTop,
    ScrollBottom,
    FocusLeft,
    FocusRight,
    FocusUp,
    FocusDown,
    Stop,
    Halt,
    Release,
    RoomWho,
    RoomFiles,
    Quit,
}

/// The label of command `i`, in display order.
pub open spec fn command_label(i: int) -> Seq<char> {
    if i == 0 {
        "New Tab"@
    } else if i == 1 {
        "Split Right"@
    } else if i == 2 {
        "Split Down"@
    } else if i == 3 {
        "Close Tab / Pane"@
    } else if i == 4 {
        "Next Tab"@
    } else if i == 5 {
        "Previous Tab"@
    } else if i == 6 {
        "Find"@
    } else if i == 7 {
        "Clear Scrollback"@
    } else if i == 8 {
        "Select All"@
    } else if i == 9 {
        "Zoom In"@
    } else if i == 10 {
        "Zoom Out"@
    } else if i == 11 {
        "Reset Zoom"@
    } else if i == 12 {
        "Cycle Font"@
    } else if i == 13 {
        "Scroll to Top"@
    } else if i == 14 {
        "Scroll to Bottom"@
    } else if i == 15 {
        "Focus Pane Left"@
    } else if i == 16 {
        "Focus Pane Right"@
    } else if i == 17 {
        "Focus Pane Up"@
    } else if i == 18 {
        "Focus Pane Down"@
    } else if i == 19 {
        "STOP — interrupt focused actor"@
    } else if i == 20 {
        "HALT — quarantine focused actor"@
    } else if i == 21 {
        "RELEASE — lift HALT on focused actor"@
    } else if i == 22 {
        "Room Who — presence roster"@
    } else if i == 23 {
        "Room Files — active claims"@
    } else {
        "Quit"@
    }
}

/// The shortcut hint of command `i`.
pub open spec fn command_hint(i: int) -> Seq<char> {
    if i == 0 {
        "\u{2318}T"@
    } else if i == 1 {
        "\u{2318}D"@
    } else if i == 2 {
        "\u{2318}\u{21e7}D"@
    } else if i == 3 {
        "\u{2318}W"@
    } else if i == 4 {
        "\u{2318}\u{21e7}]"@
    } else if i == 5 {
        "\u{2318}\u{21e7}["@
    } else if i == 6 {
        "\u{2318}F"@
    } else if i == 7 {
        "\u{2318}K"@
    } else if i == 8 {
        "\u{2318}A"@
    } else if i == 9 {
        "\u{2318}+"@
    } else if i == 10 {
        "\u{2318}-"@
    } else if i == 11 {
        "\u{2318}0"@
    } else if i == 12 {
        "\u{2318}\u{21e7}F"@
    } else if i == 13 {
        "\u{2318}\u{2191}"@
    } else if i == 14 {
        "\u{2318}\u{2193}"@
    } else if i == 15 {
        "\u{2318}\u{2325}\u{2190}"@
    } else if i == 16 {
        "\u{2318}\u{2325}\u{2192}"@
    } else if i == 17 {
        "\u{2318}\u{2325}\u{2191}"@
    } else if i == 18 {
        "\u{2318}\u{2325}\u{2193}"@
    } else if i == 19 {
        ""@
    } else if i == 20 {
        ""@
    } else if i == 21 {
        ""@
    } else if i == 22 {
        ""@
    } else if i == 23 {
        ""@
    } else {
        "\u{2318}Q"@
    }
}

/// What command `i` does.
pub open spec fn command_action(i: int) -> PaletteAction {
    if i == 0 {
        PaletteAction::NewTab
    } else if i == 1 {
        PaletteAction::SplitRight
    } else if i == 2 {
        PaletteAction::SplitDown
    } else if i == 3 {
        PaletteAction::CloseTab
    } else if i == 4 {
        PaletteAction::NextTab
    } else if i == 5 {
        PaletteAction::PrevTab
    } else if i == 6 {
        PaletteAction::Find
    } else if i == 7 {
        PaletteAction::ClearScrollback
    } else if i == 8 {
        PaletteAction::SelectAll
    } else if i == 9 {
        PaletteAction::ZoomIn
    } else if i == 10 {
        PaletteAction::ZoomOut
    } else if i == 11 {
        PaletteAction::ZoomReset
    } else if i == 12 {
        PaletteAction::CycleFont
    } else if i == 13 {
        PaletteAction::ScrollTop
    } else if i == 14 {
        PaletteAction::ScrollBottom
    } else if i == 15 {
        PaletteAction::FocusLeft
    } else if i == 16 {
        PaletteAction::FocusRight
    } else if i == 17 {
        PaletteAction::FocusUp
    } else if i == 18 {
        PaletteAction::FocusDown
    } else if i == 19 {
        PaletteAction::Stop
    } else if i == 20 {
        PaletteAction::Halt
    } else if i == 21 {
        PaletteAction::Release
    } else if i == 22 {
        PaletteAction::RoomWho
    } else if i == 23 {
        PaletteAction::RoomFiles
    } else {
        PaletteAction::Quit
    }
}

/// Command `i`: label, shortcut hint, action.
pub fn palette_command(i: usize) -> (c: (&'static str, &'static str, PaletteAction))
    requires
        i < COMMANDS,
    ensures
        c.0@ == command_label(i as int),
        c.1@ == command_hint(i as int),
        c.2 == command_action(i as int),
{
    match i {
        0 => ("New Tab", "\u{2318}T", PaletteAction::NewTab),
        1 => ("Split Right", "\u{2318}D", PaletteAction::SplitRight),
        2 => ("Split Down", "\u{2318}\u{21e7}D", PaletteAction::SplitDown),
        3 => ("Close Tab / Pane", "\u{2318}W", PaletteAction::CloseTab),
        4 => ("Next Tab", "\u{2318}\u{21e7}]", PaletteAction::NextTab),
        5 => ("Previous Tab", "\u{2318}\u{21e7}[", PaletteAction::PrevTab),
        6 => ("Find", "\u{2318}F", PaletteAction::Find),
        7 => ("Clear Scrollback", "\u{2318}K", PaletteAction::ClearScrollback),
        8 => ("Select All", "\u{2318}A", PaletteAction::SelectAll),
        9 => ("Zoom In", "\u{2318}+", PaletteAction::ZoomIn),
        10 => ("Zoom Out", "\u{2318}-", PaletteAction::ZoomOut),
        11 => ("Reset Zoom", "\u{2318}0", PaletteAction::ZoomReset),
        12 => ("Cycle Font", "\u{2318}\u{21e7}F", PaletteAction::CycleFont),
        13 => ("Scroll to Top", "\u{2318}\u{2191}", PaletteAction::ScrollTop),
        14 => ("Scroll to Bottom", "\u{2318}\u{2193}", PaletteAction::ScrollBottom),
        15 => ("Focus Pane Left", "\u{2318}\u{2325}\u{2190}", PaletteAction::FocusLeft),
        16 => ("Focus Pane Right", "\u{2318}\u{2325}\u{2192}", PaletteAction::FocusRight),
        17 => ("Focus Pane Up", "\u{2318}\u{2325}\u{2191}", PaletteAction::FocusUp),
        18 => ("Focus Pane Down", "\u{2318}\u{2325}\u{2193}", PaletteAction::FocusDown),
        19 => ("STOP — interrupt focused actor", "", PaletteAction::Stop),
        20 => ("HALT — quarantine focused actor", "", PaletteAction::Halt),
        21 => ("RELEASE — lift HALT on focused actor", "", PaletteAction::Release),
        22 => ("Room Who — presence roster", "", PaletteAction::RoomWho),
        23 => ("Room Files — active claims", "", PaletteAction::RoomFiles),
        _ => ("Quit", "\u{2318}Q", PaletteAction::Quit),
    }
}

/// The row of command `i`: its label, filled up so that the hints line up, and
/// its hint.
pub fn palette_row(i: usize) -> (s: String)
    requires
        i < COMMANDS,
    ensures
        s@ == padded(command_label(i as int), LABEL_WIDTH as nat) + command_hint(i as int),
{
    let c = palette_command(i);
    let mut s = pad(c.0, LABEL_WIDTH);
    s.append(c.1);
    s
}

/// Command `i` is listed for the query `q`: letter case aside, the query
/// stands in its label.
pub open spec fn listed(q: Seq<char>, i: int) -> bool {
    lowercase(q).len() == 0 || found_in(lowercase(command_label(i)), lowercase(q))
}

/// The commands below `n` that are listed for `q`, in display order.
pub open spec fn listed_below(q: Seq<char>, n: nat) -> Seq<usize>
    decreases n,
{
    if n == 0 {
        Seq::empty()
    } else {
        let before = listed_below(q, (n - 1) as nat);
        if listed(q, n - 1) {
            before.push((n - 1) as usize)
        } else {
            before
        }
    }
}

/// Every command, in display order.
pub open spec fn every_command() -> Seq<usize> {
    Seq::new(COMMANDS as nat, |i: int| i as usize)
}

pub struct PaletteState {
    pub query: String,
    /// The commands that match the query, in display order.
    pub filtered: Vec<usize>,
    /// Index into `filtered` of the highlighted row.
    pub selected: usize,
}

impl PaletteState {
    /// Only commands are listed, and the highlighted row is one of them, where
    /// there are any.
    pub open spec fn wf(self) -> bool {
        &&& forall|i: int| 0 <= i < self.filtered@.len() ==> #[trigger] self.filtered@[i] < COMMANDS
        &&& if self.filtered@.len() == 0 {
            self.selected == 0
        } else {
            self.selected < self.filtered@.len()
        }
    }

    /// The palette as it opens: no query, every command, the first highlighted.
    pub fn open() -> (p: Self)
        ensures
            p.wf(),
            p.query@.len() == 0,
            p.filtered@ == every_command(),
            p.selected == 0,
    {
        let mut all: Vec<usize> = Vec::new();
        let mut i: usize = 0;
        while i < COMMANDS
            invariant
                i <= COMMANDS,
                all@ == every_command().take(i as int),
            decreases COMMANDS - i,
        {
            all.push(i);
            i = i + 1;
            assert(all@ =~= every_command().take(i as int));
        }
        assert(all@ =~= every_command());
        PaletteState { query: String::new(), filtered: all, selected: 0 }
    }

    /// The prompt line.
    pub fn prompt(&self) -> (s: String)
        ensures
            s@ == "\u{203a} "@ + self.query@,
    {
        let mut s = "\u{203a} ".to_owned();
        s.append(self.query.as_str());
        s
    }

    /// `self` is what a palette with the query `query` shows: the commands that
    /// match it, the first one highlighted.
    pub open spec fn shows(self, query: Seq<char>) -> bool {
        &&& self.query@ == query
        &&& self.filtered@ == listed_below(query, COMMANDS as nat)
        &&& self.selected == 0
    }

    /// Recompute the filtered list for the current query.
    fn refilter(&mut self)
        ensures
            final(self).wf(),
            final(self).shows(old(self).query@),
    {
        let q = lower(self.query.as_str());
        let mut kept: Vec<usize> = Vec::new();
        let mut i: usize = 0;
        while i < COMMANDS
            invariant
                *self == *old(self),
                q@ == lowercase(self.query@),
                i <= COMMANDS,
                kept@ == listed_below(self.query@, i as nat),
                forall|k: int| 0 <= k < kept@.len() ==> #[trigger] kept@[k] < COMMANDS,
            decreases COMMANDS - i,
        {
            let label = lower(palette_command(i).0);
            if q.as_str().is_empty() || contains(label.as_str(), q.as_str()) {
                kept.push(i);
            }
            i = i + 1;
        }
        self.filtered = kept;
        self.selected = 0;
    }

    /// Type a character.
    pub fn input(&mut self, ch: char)
        ensures
            final(self).wf(),
            final(self).shows(old(self).query@.push(ch)),
    {
        self.query.push(ch);
        self.refilter();
    }

    /// Take the last character back.
    pub fn backspace(&mut self)
        ensures
            final(self).wf(),
            final(self).shows(
                if old(self).query@.len() == 0 {
                    old(self).query@
                } else {
                    old(self).query@.drop_last()
                },
            ),
    {
        self.query.pop();
        self.refilter();
    }

    /// Move the highlight up or down within the list (wraps). Returns whether
    /// there was anything to move among.
    pub fn step(&mut self, down: bool) -> (moved: bool)
        requires
            old(self).wf(),
        ensures
            final(self).wf(),
            moved == (old(self).filtered@.len() > 0),
            *final(self) == (PaletteState { selected: final(self).selected, ..*old(self) }),
            !moved ==> final(self).selected == old(self).selected,
            moved ==> final(self).selected == (if down {
                after(old(self).selected as int, old(self).filtered@.len() as int)
            } else {
                before(old(self).selected as int, old(self).filtered@.len() as int)
            }),
    {
        let n = self.filtered.len();
        if n == 0 {
            return false;
        }
        self.selected = if down {
            go_after(self.selected, n)
        } else {
            go_before(self.selected, n)
        };
        true
    }

    /// The action of the highlighted command, if there is one.
    pub open spec fn chosen(self) -> Option<PaletteAction> {
        if self.filtered@.len() == 0 {
            None
        } else {
            Some(command_action(self.filtered@[self.selected as int] as int))
        }
    }

    pub fn selected_action(&self) -> (r: Option<PaletteAction>)
        requires
            self.wf(),
        ensures
            r == self.chosen(),
    {
        if self.filtered.len() == 0 {
            None
        } else {
            Some(palette_command(self.filtered[self.selected]).2)
        }
    }

    /// The first row on show and how many rows show: the window follows the
    /// highlight, which is its last row once the list is longer.
    pub open spec fn window(self) -> (int, int) {
        let total = self.filtered@.len();
        let first = if self.selected >= PALETTE_MAX_ROWS {
            self.selected - PALETTE_MAX_ROWS + 1
        } else {
            0
        };
        let left = total - first;
        (first, if left < PALETTE_MAX_ROWS { left } else { PALETTE_MAX_ROWS as int })
    }

    pub fn palette_layout(&self) -> (r: (usize, usize))
        requires
            self.wf(),
        ensures
            (r.0 as int, r.1 as int) == self.window(),
            self.filtered@.len() > 0 ==> r.0 <= self.selected < r.0 + r.1,
    {
        let first = if self.selected >= PALETTE_MAX_ROWS {
            self.selected - PALETTE_MAX_ROWS + 1
        } else {
            0
        };
        let left = self.filtered.len() - first;
        (
            first,
            if left < PALETTE_MAX_ROWS {
                left
            } else {
                PALETTE_MAX_ROWS
            },
        )
    }
}

proof fn lemma_listed_below(q: Seq<char>, n: nat, c: usize)
    requires
        n <= COMMANDS,
    ensures
        listed_below(q, n).contains(c) <==> c < n && listed(q, c as int),
    decreases n,
{
    if n > 0 {
        let m = (n - 1) as nat;
        lemma_listed_below(q, m, c);
        let b = listed_below(q, m);
        let a = listed_below(q, n);
        if listed(q, m as int) {
            assert(a[b.len() as int] == m);
            if b.contains(c) {
                let k = choose|k: int| 0 <= k < b.len() && b[k] == c;
                assert(a[k] == c);
            }
            if a.contains(c) && c != m {
                let k = choose|k: int| 0 <= k < a.len() && a[k] == c;
                assert(b[k] == c);
            }
        }
    }
}

/// A palette lists a command exactly when the query, letter case aside, stands
/// in its label.
pub proof fn law_palette_lists_matches(p: PaletteState, q: Seq<char>, c: usize)
    requires
        p.shows(q),
    ensures
        p.filtered@.contains(c) <==> c < COMMANDS && listed(q, c as int),
{
    lemma_listed_below(q, COMMANDS as nat, c);
}

} // verus!

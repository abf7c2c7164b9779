//! One tab: a shell with its title and view state, and what it shows.

use crate::acp::AcpSession;
use crate::animation::TabAnimation;
use crate::selection::Selection;
use crate::text::same_text;
use crate::tree::Scalar;
use vstd::prelude::*;

verus! {

/// Identifies one tab of the window. Monotonic.
#[derive(Copy, Clone, PartialEq, Eq, Structural, Debug)]
pub struct TabId(pub u64);

/// What a tab currently shows. `Shell` has a live terminal behind it; `Welcome`
/// is a built-in static card; `Module(id)` is an externally registered module;
/// `Agent(name)` is a hosted agent.
#[derive(Debug, PartialEq, Eq)]
pub enum TabContentKind {
    Shell,
    Welcome,
    Module(String),
    Agent(String),
}

impl TabContentKind {
    /// The string that names a kind's label.
    pub open spec fn label_key(self) -> Seq<char> {
        match self {
            TabContentKind::Shell => "shell"@,
            TabContentKind::Welcome => "welcome"@,
            TabContentKind::Module(id) => id@,
            TabContentKind::Agent(name) => name@,
        }
    }

    /// Stable string key for label lookup. Built-ins get fixed strings;
    /// modules use their id, agents their name.
    pub fn key(&self) -> (k: &str)
        ensures
            k@ == self.label_key(),
    {
        match self {
            TabContentKind::Shell => "shell",
            TabContentKind::Welcome => "welcome",
            TabContentKind::Module(id) => id.as_str(),
            TabContentKind::Agent(name) => name.as_str(),
        }
    }

    pub fn copy(&self) -> (k: TabContentKind)
        ensures
            k == *self,
    {
        match self {
            TabContentKind::Shell => TabContentKind::Shell,
            TabContentKind::Welcome => TabContentKind::Welcome,
            TabContentKind::Module(id) => TabContentKind::Module(id.clone()),
            TabContentKind::Agent(name) => TabContentKind::Agent(name.clone()),
        }
    }

    pub fn is_shell(&self) -> (r: bool)
        ensures
            r == (*self is Shell),
    {
        match self {
            TabContentKind::Shell => true,
            _ => false,
        }
    }

    pub fn is_module(&self) -> (r: bool)
        ensures
            r == (*self is Module),
    {
        match self {
            TabContentKind::Module(_) => true,
            _ => false,
        }
    }
}

/// How a module talks to the window.
#[derive(Copy, Clone, PartialEq, Eq, Structural, Debug)]
pub enum ModuleKind {
    /// Messages over standard input and output.
    Data,
    /// Terminal escape sequences, through a terminal of its own.
    Tty,
}

/// A registered module.
#[derive(Debug, PartialEq, Eq)]
pub struct ModuleManifest {
    pub id: String,
    pub name: String,
    pub version: String,
    /// The path of its binary, as displayed.
    pub binary: String,
    pub kind: ModuleKind,
}

impl ModuleManifest {
    pub fn copy(&self) -> (m: ModuleManifest)
        ensures
            m == *self,
    {
        ModuleManifest {
            id: self.id.clone(),
            name: self.name.clone(),
            version: self.version.clone(),
            binary: self.binary.clone(),
            kind: self.kind,
        }
    }
}

/// The position of the first module with the id `id`; the number of modules
/// where there is none.
pub open spec fn module_pos(ms: Seq<ModuleManifest>, id: Seq<char>) -> int
    decreases ms.len(),
{
    if ms.len() == 0 || ms[0].id@ == id {
        0
    } else {
        1 + module_pos(ms.drop_first(), id)
    }
}

/// The registered module with the id `id`.
pub open spec fn module_with(ms: Seq<ModuleManifest>, id: Seq<char>) -> Option<ModuleManifest> {
    if 0 <= module_pos(ms, id) < ms.len() {
        Some(ms[module_pos(ms, id)])
    } else {
        None
    }
}

/// The registered module with the id `id`.
pub fn find_module<'a>(ms: &'a Vec<ModuleManifest>, id: &str) -> (r: Option<&'a ModuleManifest>)
    ensures
        match r {
            Some(m) => module_with(ms@, id@) == Some(*m),
            None => module_with(ms@, id@) is None,
        },
{
    let mut i: usize = 0;
    assert(ms@.skip(0) =~= ms@);
    while i < ms.len()
        invariant
            i <= ms@.len(),
            module_pos(ms@, id@) == i + module_pos(ms@.skip(i as int), id@),
        decreases ms.len() - i,
    {
        if same_text(ms[i].id.as_str(), id) {
            return Some(&ms[i]);
        }
        assert(ms@.skip(i as int).drop_first() =~= ms@.skip(i + 1));
        i = i + 1;
    }
    None
}

/// Body text for each content kind that has no terminal and no session of its
/// own to show.
pub open spec fn static_body(kind: TabContentKind, ms: Seq<ModuleManifest>) -> Seq<char> {
    match kind {
        TabContentKind::Welcome => welcome_text(),
        TabContentKind::Module(id) => match module_with(ms, id@) {
            Some(m) => "module: "@ + m.name@ + "  (v"@ + m.version@ + ")\nbinary: "@ + m.binary@
                + "\nwaiting for the module to send its first frame…"@,
            None => "module '"@ + id@
                + "' is no longer registered.\npick a different kind from the dropdown."@,
        },
        _ => Seq::empty(),
    }
}

pub open spec fn welcome_text() -> Seq<char> {
    "\
welcome to terminite — a terminal for the human + AI pair.

each pane runs a shell (Shell) or some other kind of inhabitant.
the leftmost dropdown in this pane's tab bar switches between them.
this pane is showing the Welcome inhabitant — read-only, static.
pick Shell from the dropdown to drop into a real shell.

two halves of the pair share one surface here. blocks (B1, B2, …)
in the left gutter are command + output units the pair can name.
the AI partner connects to ~/.terminite/socket and gets the same
coordinates you do. see guide/getting-started.md for more."@
}

/// Body text for each non-shell content kind. Modules show a placeholder until
/// they send their first frame; an agent's text is that of its session, so that
/// there is none here.
pub fn non_shell_body(kind: &TabContentKind, registry: &Vec<ModuleManifest>) -> (body: String)
    ensures
        body@ == static_body(*kind, registry@),
{
    match kind {
        TabContentKind::Welcome => {
            "\
welcome to terminite — a terminal for the human + AI pair.

each pane runs a shell (Shell) or some other kind of inhabitant.
the leftmost dropdown in this pane's tab bar switches between them.
this pane is showing the Welcome inhabitant — read-only, static.
pick Shell from the dropdown to drop into a real shell.

two halves of the pair share one surface here. blocks (B1, B2, …)
in the left gutter are command + output units the pair can name.
the AI partner connects to ~/.terminite/socket and gets the same
coordinates you do. see guide/getting-started.md for more.".to_owned()
        },
        TabContentKind::Module(id) => {
            match find_module(registry, id.as_str()) {
                Some(m) => {
                    let mut s = "module: ".to_owned();
                    s.append(m.name.as_str());
                    s.append("  (v");
                    s.append(m.version.as_str());
                    s.append(")\nbinary: ");
                    s.append(m.binary.as_str());
                    s.append("\nwaiting for the module to send its first frame…");
                    s
                },
                None => {
                    let mut s = "module '".to_owned();
                    s.append(id.as_str());
                    s.append(
                        "' is no longer registered.\npick a different kind from the dropdown.",
                    );
                    s
                },
            }
        },
        _ => String::new(),
    }
}

/// The last click in a shell tab: when, on which cell, and the how-manieth of
/// its run.
#[derive(Copy, Clone, PartialEq, Eq, Structural, Debug)]
pub struct Click {
    pub at: u64,
    pub line: i32,
    pub col: usize,
    pub count: u8,
}

/// The last click in a data module's body.
#[derive(Copy, Clone, PartialEq, Eq, Structural, Debug)]
pub struct ModuleClick {
    pub at: u64,
    pub line: u32,
    pub col: u32,
    pub count: u8,
}

/// The terminal that input and snapshots go to.
#[derive(Copy, Clone, PartialEq, Eq, Structural, Debug)]
pub enum TermSlot {
    /// The tab's permanent shell.
    Shell,
    /// The terminal of the module that the tab shows.
    Module,
}

/// One shell with its title and view state: the unit one tabs between inside a
/// pane.
pub struct Tab {
    pub id: TabId,
    pub title: String,
    /// Shell-set title; when present, it wins over the auto title.
    pub shell_title: Option<String>,
    /// Last auto title computed.
    pub last_auto_title: String,
    /// Grid size this tab's terminal is currently sized to.
    pub cols: usize,
    pub rows: usize,
    pub pixel_offset: Scalar,
    pub selection: Option<Selection>,
    pub dragging: bool,
    pub last_drag_mouse_pos: (Scalar, Scalar),
    pub last_click: Option<Click>,
    /// Whether the terminal's text has to be shaped again.
    pub buffer_dirty: bool,
    pub autoscroll_dir: Option<i32>,
    /// The host's handle of the still image on show.
    pub image: Option<u64>,
    /// The animated image on show; it is drawn in preference to `image`.
    pub animation: Option<TabAnimation>,
    pub kind: TabContentKind,
    /// Whether the body of a non-shell kind is shaped and up to date.
    pub content_ready: bool,
    /// The body of the live data module session, if there is one.
    pub module_session: Option<String>,
    /// Cached body a data module last asked to render.
    pub last_module_body: String,
    /// Whether a terminal module is running in this tab.
    pub module_pty: bool,
    pub acp_session: Option<AcpSession>,
    /// Palette index for the tab's color band; `0` is none.
    pub color_idx: u8,
    /// Vertical scroll offset for data-module content.
    pub module_scroll_y: Scalar,
    /// Source line to bring on screen at the next frame.
    pub pending_ensure_visible: Option<u32>,
    /// Host-drawn cursor of a data module.
    pub module_cursor: Option<(u32, u32)>,
    /// Labels of the module's gutter.
    pub module_gutter: Option<Vec<String>>,
    /// Whether the gutter is shaped and up to date.
    pub gutter_ready: bool,
    /// Source line painted with a subtle background.
    pub module_highlight_line: Option<u32>,
    pub module_language: Option<String>,
    /// The host's handle of the body's syntax highlights.
    pub module_highlights: Option<u64>,
    /// The file that the module was last told about.
    pub last_focused_path: Option<String>,
    pub last_module_click: Option<ModuleClick>,
}

/// Hard ceilings on the cell grid, so that a degenerate font or window size
/// cannot make a terminal allocate without bound.
pub const MAX_GRID_COLS: usize = 600;

pub const MAX_GRID_ROWS: usize = 400;

/// A grid of columns and rows, raised to one cell and cut down to the ceilings.
pub open spec fn within_limits(grid: (usize, usize)) -> (usize, usize) {
    (limited(grid.0, MAX_GRID_COLS), limited(grid.1, MAX_GRID_ROWS))
}

/// The number from one to `most` that is nearest to `n`.
pub open spec fn limited(n: usize, most: usize) -> usize {
    if n < 1 {
        1
    } else if n < most {
        n
    } else {
        most
    }
}

/// Raise a grid to one cell, and cut it down to the ceilings.
pub fn bound_grid(grid: (usize, usize)) -> (r: (usize, usize))
    ensures
        r == within_limits(grid),
{
    (limit(grid.0, MAX_GRID_COLS), limit(grid.1, MAX_GRID_ROWS))
}

fn limit(n: usize, most: usize) -> (r: usize)
    ensures
        r == limited(n, most),
{
    if n < 1 {
        1
    } else if n < most {
        n
    } else {
        most
    }
}

/// A tab as it is when it is opened: a shell with nothing on it.
pub open spec fn fresh_tab(t: Tab, id: TabId, title: Seq<char>, cols: usize, rows: usize) -> bool {
    &&& t.id == id
    &&& t.title@ == title
    &&& t.shell_title is None
    &&& t.last_auto_title@.len() == 0
    &&& (t.cols, t.rows) == within_limits((cols, rows))
    &&& t.pixel_offset == Scalar(0)
    &&& t.selection is None
    &&& !t.dragging
    &&& t.last_drag_mouse_pos == (Scalar(0), Scalar(0))
    &&& t.last_click is None
    &&& t.buffer_dirty
    &&& t.autoscroll_dir is None
    &&& t.image is None
    &&& t.animation is None
    &&& t.kind is Shell
    &&& !t.content_ready
    &&& t.module_session is None
    &&& t.last_module_body@.len() == 0
    &&& !t.module_pty
    &&& t.acp_session is None
    &&& t.color_idx == 0
    &&& t.module_scroll_y == Scalar(0)
    &&& t.pending_ensure_visible is None
    &&& t.module_cursor is None
    &&& t.module_gutter is None
    &&& !t.gutter_ready
    &&& t.module_highlight_line is None
    &&& t.module_language is None
    &&& t.module_highlights is None
    &&& t.last_focused_path is None
    &&& t.last_module_click is None
}

impl Tab {
    /// The grid has a cell at least and is within the ceilings, and an animation
    /// that is on show can be played.
    pub open spec fn wf(self) -> bool {
        &&& 1 <= self.cols <= MAX_GRID_COLS
        &&& 1 <= self.rows <= MAX_GRID_ROWS
        &&& self.animation matches Some(a) ==> a.wf()
    }

    pub fn new(id: TabId, title: String, cols: usize, rows: usize) -> (t: Self)
        ensures
            fresh_tab(t, id, title@, cols, rows),
            t.title == title,
            t.wf(),
    {
        let (cols, rows) = bound_grid((cols, rows));
        Tab {
            id,
            title,
            shell_title: None,
            last_auto_title: String::new(),
            cols,
            rows,
            pixel_offset: Scalar(0),
            selection: None,
            dragging: false,
            last_drag_mouse_pos: (Scalar(0), Scalar(0)),
            last_click: None,
            buffer_dirty: true,
            autoscroll_dir: None,
            image: None,
            animation: None,
            kind: TabContentKind::Shell,
            content_ready: false,
            module_session: None,
            last_module_body: String::new(),
            module_pty: false,
            acp_session: None,
            color_idx: 0,
            module_scroll_y: Scalar(0),
            pending_ensure_visible: None,
            module_cursor: None,
            module_gutter: None,
            gutter_ready: false,
            module_highlight_line: None,
            module_language: None,
            module_highlights: None,
            last_focused_path: None,
            last_module_click: None,
        }
    }

    /// The terminal that drives this tab: the module's own where a terminal
    /// module runs, the permanent shell otherwise.
    pub open spec fn term(self) -> TermSlot {
        if self.kind is Module && self.module_pty {
            TermSlot::Module
        } else {
            TermSlot::Shell
        }
    }

    /// The terminal that should drive snapshot and input for this tab. The
    /// shell stays alive even while a terminal module is running.
    pub fn active_term(&self) -> (t: TermSlot)
        ensures
            t == self.term(),
    {
        if self.kind.is_module() && self.module_pty {
            TermSlot::Module
        } else {
            TermSlot::Shell
        }
    }

    /// The tab shows a module that is spoken to in messages.
    pub open spec fn data_module(self) -> bool {
        self.kind is Module && !self.module_pty && self.module_session is Some
    }

    pub fn is_data_module(&self) -> (r: bool)
        ensures
            r == self.data_module(),
    {
        self.kind.is_module() && !self.module_pty && self.module_session.is_some()
    }
}

} // verus!

//! The layout of the window, as it is written down.

use crate::renderer::Renderer;
use crate::tab::{Tab, TabContentKind};
use crate::tree::{Pane, PaneId, PaneNode, Scalar, SplitDir};
use vstd::prelude::*;

verus! {

/// One tab, as it is written down.
pub struct LayoutTab {
    pub kind: TabContentKind,
    /// Where its shell was.
    pub cwd: Option<String>,
    pub title: String,
    pub color_idx: u8,
    /// The file that its module was last told about.
    pub focused_path: Option<String>,
}

/// One pane, as it is written down.
pub struct LayoutPane {
    pub tabs: Vec<LayoutTab>,
    pub active_tab: usize,
    pub bg_idx: u8,
    pub font_scale: Scalar,
}

/// A pane tree, as it is written down.
pub enum LayoutNode {
    Pane(LayoutPane),
    Split { dir: SplitDir, ratio: Scalar, first: Box<LayoutNode>, second: Box<LayoutNode> },
}

/// A layout: the tree, and the way down to the active pane.
pub struct Layout {
    pub active_pane_path: Option<Vec<usize>>,
    pub root: LayoutNode,
}

/// The bits of `0.1`, the least that a restored split leaves its first child.
pub const RATIO_MIN: u32 = 0x3dcc_cccd;

/// The bits of `0.9`, the most that a restored split leaves its first child.
pub const RATIO_MAX: u32 = 0x3f66_6666;

/// The bits are those of a number.
pub open spec fn is_number(b: u32) -> bool {
    (if b >= 0x8000_0000u32 {
        b - 0x8000_0000
    } else {
        b as int
    }) <= 0x7f80_0000
}

/// A ratio brought into its range. The bits of positive numbers order as the
/// numbers do.
pub open spec fn clamped(r: Scalar) -> Scalar {
    if !is_number(r.0) {
        r
    } else if r.0 >= 0x8000_0000u32 || r.0 < RATIO_MIN {
        Scalar(RATIO_MIN)
    } else if r.0 > RATIO_MAX {
        Scalar(RATIO_MAX)
    } else {
        r
    }
}

/// Bring a ratio into its range.
pub fn clamp_saved_ratio(r: Scalar) -> (c: Scalar)
    ensures
        c == clamped(r),
{
    let b = r.0;
    let magnitude: u32 = if b >= 0x8000_0000 {
        b - 0x8000_0000
    } else {
        b
    };
    if magnitude > 0x7f80_0000 {
        r
    } else if b >= 0x8000_0000 || b < RATIO_MIN {
        Scalar(RATIO_MIN)
    } else if b > RATIO_MAX {
        Scalar(RATIO_MAX)
    } else {
        r
    }
}

impl LayoutNode {
    /// How many panes there are.
    pub open spec fn panes(self) -> nat
        decreases self,
    {
        match self {
            LayoutNode::Pane(_) => 1,
            LayoutNode::Split { first, second, .. } => first.panes() + second.panes(),
        }
    }

    /// The tabs of every pane, pane after pane.
    pub open spec fn tabs(self) -> Seq<LayoutTab>
        decreases self,
    {
        match self {
            LayoutNode::Pane(p) => p.tabs@,
            LayoutNode::Split { first, second, .. } => first.tabs() + second.tabs(),
        }
    }

    /// Every pane has a tab to show.
    pub open spec fn showable(self) -> bool
        decreases self,
    {
        match self {
            LayoutNode::Pane(p) => p.tabs@.len() > 0,
            LayoutNode::Split { first, second, .. } => first.showable() && second.showable(),
        }
    }

    /// Whether every pane has a tab to show.
    pub fn can_show(&self) -> (r: bool)
        ensures
            r == self.showable(),
        decreases self,
    {
        match self {
            LayoutNode::Pane(p) => p.tabs.len() > 0,
            LayoutNode::Split { first, second, .. } => first.can_show() && second.can_show(),
        }
    }

    /// Some tab is no shell.
    pub open spec fn other_kinds(self) -> bool {
        exists|i: int| 0 <= i < self.tabs().len() && !((#[trigger] self.tabs()[i]).kind is Shell)
    }
}

impl PaneNode {
    /// The pane at the end of a path: at each step `0` goes to the first
    /// child, any other number to the second.
    pub open spec fn at_path(self, path: Seq<usize>) -> Option<PaneId>
        decreases self,
    {
        match self {
            PaneNode::Leaf { id, .. } => if path.len() == 0 {
                Some(id)
            } else {
                None
            },
            PaneNode::Split { first, second, .. } => if path.len() == 0 {
                None
            } else if path[0] == 0 {
                first.at_path(path.drop_first())
            } else {
                second.at_path(path.drop_first())
            },
        }
    }

    /// The way down to a pane.
    pub open spec fn path(self, id: PaneId) -> Seq<usize>
        decreases self,
    {
        match self {
            PaneNode::Leaf { .. } => Seq::empty(),
            PaneNode::Split { first, second, .. } => if first.has(id) {
                seq![0usize] + first.path(id)
            } else {
                seq![1usize] + second.path(id)
            },
        }
    }

    /// The pane at the end of a path.
    pub fn pane_id_at_path(&self, path: &[usize]) -> (r: Option<PaneId>)
        ensures
            r == self.at_path(path@),
        decreases self,
    {
        match self {
            PaneNode::Leaf { id, .. } => {
                if path.len() == 0 {
                    Some(*id)
                } else {
                    None
                }
            },
            PaneNode::Split { first, second, .. } => {
                if path.len() == 0 {
                    None
                } else {
                    let rest = vstd::slice::slice_subrange(path, 1, path.len());
                    assert(rest@ =~= path@.drop_first());
                    if path[0] == 0 {
                        first.pane_id_at_path(rest)
                    } else {
                        second.pane_id_at_path(rest)
                    }
                }
            },
        }
    }

    /// Append the way down to a pane.
    fn push_path(&self, id: PaneId, out: &mut Vec<usize>)
        requires
            self.has(id),
        ensures
            final(out)@ == old(out)@ + self.path(id),
        decreases self,
    {
        let ghost before = out@;
        match self {
            PaneNode::Leaf { .. } => {
                assert(out@ =~= before + self.path(id));
            },
            PaneNode::Split { first, second, .. } => {
                if first.find(id).is_some() {
                    out.push(0);
                    first.push_path(id, out);
                } else {
                    out.push(1);
                    second.push_path(id, out);
                }
                assert(out@ =~= before + self.path(id));
            },
        }
    }

    /// The way down to a pane; `None` where it is not in the tree.
    pub fn path_to(&self, id: PaneId) -> (r: Option<Vec<usize>>)
        ensures
            r is Some <==> self.has(id),
            r matches Some(p) ==> p@ == self.path(id),
    {
        if self.find(id).is_none() {
            return None;
        }
        let mut out: Vec<usize> = Vec::new();
        self.push_path(id, &mut out);
        assert(out@ =~= self.path(id));
        Some(out)
    }
}

/// The way down to a pane leads to it.
pub proof fn law_path_leads_back(t: PaneNode, id: PaneId)
    requires
        t.has(id),
    ensures
        t.at_path(t.path(id)) == Some(id),
    decreases t,
{
    match t {
        PaneNode::Leaf { .. } => {},
        PaneNode::Split { first, second, .. } => {
            let p = t.path(id);
            if first.has(id) {
                law_path_leads_back(*first, id);
                assert(p.drop_first() =~= first.path(id));
            } else {
                law_path_leads_back(*second, id);
                assert(p.drop_first() =~= second.path(id));
            }
        },
    }
}

/// A path never leads out of the tree.
pub proof fn lemma_path_stays(t: PaneNode, path: Seq<usize>)
    ensures
        t.at_path(path) matches Some(id) ==> t.has(id),
    decreases t,
{
    if let PaneNode::Split { first, second, .. } = t {
        if path.len() > 0 {
            lemma_path_stays(*first, path.drop_first());
            lemma_path_stays(*second, path.drop_first());
        }
    }
}

/// `l` is what is written down of tab `t`.
pub open spec fn tab_saved(t: Tab, l: LayoutTab, cwd: Option<String>) -> bool {
    &&& l.kind == t.kind
    &&& l.cwd == cwd
    &&& l.title == t.title
    &&& l.color_idx == t.color_idx
    &&& l.focused_path == t.last_focused_path
}

/// `l` is what is written down of tree `t`; `cwds` has where the shell of each
/// tab is, from `at` on.
pub open spec fn saved(t: PaneNode, l: LayoutNode, cwds: Seq<Option<String>>, at: int) -> bool
    decreases t,
{
    match (t, l) {
        (PaneNode::Leaf { pane, .. }, LayoutNode::Pane(p)) => {
            &&& p.tabs@.len() == pane.tabs@.len()
            &&& p.active_tab == pane.active_tab
            &&& p.bg_idx == pane.bg_idx
            &&& p.font_scale == pane.font_scale
            &&& forall|i: int|
                0 <= i < pane.tabs@.len() ==> tab_saved(
                    pane.tabs@[i],
                    #[trigger] p.tabs@[i],
                    cwds[at + i],
                )
        },
        (
            PaneNode::Split { dir, ratio, first, second },
            LayoutNode::Split { dir: d, ratio: r, first: f, second: s },
        ) => {
            &&& d == dir
            &&& r == ratio
            &&& saved(*first, *f, cwds, at)
            &&& saved(*second, *s, cwds, at + first.tabs().len())
        },
        _ => false,
    }
}

fn clone_opt(o: &Option<String>) -> (r: Option<String>)
    ensures
        r == *o,
{
    match o {
        Some(s) => Some(s.clone()),
        None => None,
    }
}

fn snapshot_pane(pane: &Pane, cwds: &Vec<Option<String>>, at: usize) -> (p: LayoutPane)
    requires
        at + pane.tabs@.len() <= cwds.len(),
    ensures
        p.tabs@.len() == pane.tabs@.len(),
        p.active_tab == pane.active_tab,
        p.bg_idx == pane.bg_idx,
        p.font_scale == pane.font_scale,
        forall|i: int|
            0 <= i < pane.tabs@.len() ==> tab_saved(
                pane.tabs@[i],
                #[trigger] p.tabs@[i],
                cwds@[at + i],
            ),
{
    let mut tabs: Vec<LayoutTab> = Vec::new();
    let mut i: usize = 0;
    while i < pane.tabs.len()
        invariant
            i <= pane.tabs@.len(),
            at + pane.tabs@.len() <= cwds.len(),
            tabs@.len() == i,
            forall|j: int|
                0 <= j < i ==> tab_saved(pane.tabs@[j], #[trigger] tabs@[j], cwds@[at + j]),
        decreases pane.tabs.len() - i,
    {
        let t = &pane.tabs[i];
        tabs.push(
            LayoutTab {
                kind: t.kind.copy(),
                cwd: clone_opt(&cwds[at + i]),
                title: t.title.clone(),
                color_idx: t.color_idx,
                focused_path: clone_opt(&t.last_focused_path),
            },
        );
        i = i + 1;
    }
    LayoutPane {
        tabs,
        active_tab: pane.active_tab,
        bg_idx: pane.bg_idx,
        font_scale: pane.font_scale,
    }
}

impl PaneNode {
    /// What is written down of the tree, and how many tabs it has.
    fn snapshot_node(&self, cwds: &Vec<Option<String>>, at: usize) -> (r: (LayoutNode, usize))
        requires
            at + self.tabs().len() <= cwds.len(),
        ensures
            saved(*self, r.0, cwds@, at as int),
            r.1 == at + self.tabs().len(),
        decreases self,
    {
        match self {
            PaneNode::Leaf { pane, .. } => {
                let p = snapshot_pane(pane, cwds, at);
                (LayoutNode::Pane(p), at + pane.tabs.len())
            },
            PaneNode::Split { dir, ratio, first, second } => {
                let (f, mid) = first.snapshot_node(cwds, at);
                let (s, end) = second.snapshot_node(cwds, mid);
                (
                    LayoutNode::Split {
                        dir: *dir,
                        ratio: *ratio,
                        first: Box::new(f),
                        second: Box::new(s),
                    },
                    end,
                )
            },
        }
    }
}

impl Renderer {
    /// What is written down of the window, so that a crash does not lose it.
    /// `cwds` has where the shell of each tab is.
    pub fn persist_layout(&self, cwds: &Vec<Option<String>>) -> (l: Layout)
        requires
            self.wf(),
            cwds@.len() == self.ws.all().len(),
        ensures
            saved(self.ws.tree(), l.root, cwds@, 0),
            l.active_pane_path matches Some(p) && p@ == self.ws.tree().path(self.ws.active_pane),
    {
        let root = self.ws.root_ref();
        Layout {
            active_pane_path: root.path_to(self.ws.active_pane),
            root: root.snapshot_node(cwds, 0).0,
        }
    }
}

} // verus!
